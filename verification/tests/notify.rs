//! What the machine says to its owner.

use std::collections::VecDeque;

use local_api::effects::{Answer, Ask, Script};
use local_api::exec::CommandOutput;
use local_api::http::PostReply;
use local_api::json::{parse, Json};
use local_api::notify::address::Tunnel;
use local_api::notify::alerts::{
    changes, heal_alert, is_cluster_wide, note, notification, sends_for_cluster, sent_from,
    sent_text, Alert, Change, Source,
};
use local_api::notify::backups::backup_alerts;
use local_api::notify::dns::{decide, wanted_record, Decision, NtfyDnsController, Record};
use local_api::notify::notifier::{load, save};
use local_api::notify::send::{post_deliver, subscription, Notification};
use local_api::notify::topic::{topic_from_config, write_ntfy_env, ENV_FILE};
use local_api::stamps::Stamp;

const CONFIG: &str = r#"
[tunnel]
enabled = true
platform_api_url = "https://api.yolab.io/"
account_token = "tok"
tunnel_id = "25"
dns_url = "https://node1.6.yolab.io"

[node.k3s]
token = "abcdef0123456789"
"#;

struct FakeHost {
    calls: Vec<String>,
    script: Vec<(String, VecDeque<Result<String, String>>)>,
    files: Vec<(String, String)>,
    reply: Result<u16, String>,
}

impl FakeHost {
    fn new() -> Self {
        FakeHost { calls: Vec::new(), script: Vec::new(), files: Vec::new(), reply: Err("nobody answers".into()) }
    }

    fn push(&mut self, prefix: &str, answer: Result<String, String>) {
        match self.script.iter_mut().find(|(p, _)| p == prefix) {
            Some((_, q)) => q.push_back(answer),
            None => self.script.push((prefix.to_string(), VecDeque::from([answer]))),
        }
    }

    /// What a command answers; the last answer repeats.
    fn ok(mut self, prefix: &str, out: &str) -> Self {
        self.push(prefix, Ok(out.to_string()));
        self
    }

    fn fail(mut self, prefix: &str, err: &str) -> Self {
        self.push(prefix, Err(err.to_string()));
        self
    }

    /// The longest matching prefix wins.
    fn answer(&mut self, cmd: &str) -> Result<String, String> {
        self.calls.push(cmd.to_string());
        let best = self
            .script
            .iter_mut()
            .filter(|(p, _)| cmd.starts_with(p.as_str()))
            .max_by_key(|(p, _)| p.len());
        match best {
            Some((_, q)) if q.len() > 1 => q.pop_front().unwrap(),
            Some((_, q)) => q.front().unwrap().clone(),
            None => Err(format!("unscripted command: {cmd}")),
        }
    }

    fn calls(&self) -> Vec<String> {
        self.calls.clone()
    }

    fn ran(&self, needle: &str) -> bool {
        self.calls.iter().any(|c| c.contains(needle))
    }

    fn position(&self, needle: &str) -> Option<usize> {
        self.calls.iter().position(|c| c.contains(needle))
    }

    fn run(&mut self, bin: &str, args: &[String], input: &Option<String>) -> Answer {
        let cmd = match input {
            Some(text) => format!("{bin}-{} {text}", args[0]),
            None => format!("{bin} {}", args.join(" ")),
        };
        let (success, stdout, stderr) = match self.answer(&cmd) {
            Ok(out) => (true, out, String::new()),
            Err(err) => (false, String::new(), err),
        };
        Answer::Output(Ok(CommandOutput { success, stdout, stderr }))
    }

    fn perform(&mut self, ask: Ask) -> Answer {
        match ask {
            Ask::Run { bin, args, input, .. } => self.run(&bin, &args, &input),
            Ask::Sleep { .. } => Answer::Done,
            Ask::ReadText { path } => Answer::Text(self.file(&path)),
            Ask::LoadFile { path } => Answer::File(Ok(self.file(&path))),
            Ask::WriteFile { path, text } | Ask::ReplaceFile { path, text } => {
                self.put(&path, &text);
                Answer::Did(Ok(()))
            }
            Ask::RemoveFile { path } => {
                self.files.retain(|(p, _)| *p != path);
                Answer::Did(Ok(()))
            }
            Ask::EnsureDir { .. } => Answer::Did(Ok(())),
            Ask::Post { url, .. } => {
                self.calls.push(format!("POST {url}"));
                Answer::Posted(self.reply.clone().map(|status| PostReply {
                    status,
                    status_line: status.to_string(),
                    refusal: String::new(),
                    body: String::new(),
                }))
            }
            other => panic!("nothing answers {other:?}"),
        }
    }

    fn file(&self, path: &str) -> Option<String> {
        self.files.iter().find(|(p, _)| p == path).map(|(_, t)| t.clone())
    }

    fn put(&mut self, path: &str, text: &str) {
        self.files.retain(|(p, _)| p != path);
        self.files.push((path.to_string(), text.to_string()));
    }

    /// With a file on the machine.
    fn with(mut self, path: &str, text: &str) -> Self {
        self.put(path, text);
        self
    }

    /// Runs a procedure, answering what it asks, until it is done.
    fn drive<T>(&mut self, f: impl Fn(&mut Script) -> Result<T, Ask>) -> T {
        let mut script = Script::new();
        loop {
            match f(&mut script) {
                Ok(done) => return done,
                Err(ask) => {
                    let answer = self.perform(ask);
                    script.answer(answer);
                }
            }
        }
    }
}

fn alert(key: &str) -> Alert {
    Alert {
        key: key.into(),
        title: format!("title of {key}"),
        message: "m".into(),
        page: "/box/storage".into(),
    }
}

fn sent(keys: &[&str]) -> Vec<(String, Alert)> {
    keys.iter().map(|k| (k.to_string(), alert(k))).collect()
}

fn at(hours_ago: i64) -> String {
    (chrono::Utc::now() - chrono::Duration::hours(hours_ago)).to_rfc3339()
}

fn ns(names: &[&str]) -> Vec<String> {
    names.iter().map(|s| s.to_string()).collect()
}

fn record(text: &str) -> Json {
    parse(text).unwrap()
}

fn alerts_now(sets: &Vec<Json>, namespaces: &Vec<String>) -> Vec<Alert> {
    let now = Stamp::parse(&chrono::Utc::now().to_rfc3339()).unwrap();
    backup_alerts(sets, namespaces, now, 36)
}

fn tunnel() -> Tunnel {
    Tunnel {
        enabled: true,
        platform_api_url: String::new(),
        account_token: String::new(),
        tunnel_id: "25".into(),
        sub_ipv6: String::new(),
        host: "node1.6.yolab.io".into(),
    }
}

fn want() -> Record {
    Record { name: "ntfy-node1".into(), value: "2a01::20".into() }
}

#[test]
fn shared_names_live_in_the_users_zone() {
    let t = Tunnel::parse(CONFIG).unwrap();
    assert!(t.enabled);
    assert_eq!(t.platform_api_url, "https://api.yolab.io");
    assert_eq!(t.user_domain(), Some("6.yolab.io"));
    assert_eq!(t.shared_host("notify").as_deref(), Some("notify.6.yolab.io"));
    assert_eq!(t.machine_label(), "node1");
    assert!(Tunnel::parse("[homelab]\n").is_err());
    let bare = Tunnel {
        host: "localhost".into(),
        ..t
    };
    assert_eq!(bare.shared_host("notify"), None);
}

#[test]
fn the_topic_is_the_same_for_the_same_cluster_and_hides_the_token() {
    let a = topic_from_config(CONFIG).unwrap();
    assert_eq!(a, topic_from_config(CONFIG).unwrap());
    assert!(a.starts_with("yolab-") && a.len() == 38, "{a}");
    assert!(a[6..].chars().all(|c| c.is_ascii_hexdigit()));
    assert!(!a.contains("abcdef0123456789"));
    let other = CONFIG.replace("abcdef0123456789", "another-cluster");
    assert_ne!(a, topic_from_config(&other).unwrap());
    assert!(topic_from_config("[node.k3s]\ntoken = \"\"\n").is_err());
}

#[test]
fn only_the_clusters_topic_is_opened() {
    let mut host = FakeHost::new().with("/etc/config.toml", CONFIG);
    host.drive(|s| write_ntfy_env(s, "/", "/etc/config.toml")).unwrap();
    let env = host.file(&format!("/{ENV_FILE}")).unwrap();
    let topic = topic_from_config(CONFIG).unwrap();
    assert_eq!(env, format!("NTFY_AUTH_ACCESS='*:{topic}:rw'\n"));
}

#[test]
fn the_subscribe_link_uses_the_shared_name() {
    let t = Tunnel::parse(CONFIG).unwrap();
    let sub = subscription(&t, "yolab-abc").unwrap();
    assert_eq!(sub.subscribe_url, "ntfy://notify.6.yolab.io/yolab-abc?display=YoLab");
    assert_eq!(sub.web_url, "https://notify.6.yolab.io/yolab-abc");
}

#[test]
fn a_new_problem_is_sent_once_and_its_end_once() {
    let now = Source {
        prefix: "heal:".into(),
        alerts: Some(vec![alert("heal:kubernetes_down")]),
        silent: false,
    };
    assert_eq!(format!("{:?}", changes(&sent(&[]), &now)), format!("{:?}", vec![Change::Raised(alert("heal:kubernetes_down"))]));
    assert!(
        changes(&sent(&["heal:kubernetes_down"]), &now).is_empty(),
        "not repeated"
    );

    let gone = Source {
        prefix: "heal:".into(),
        alerts: Some(vec![]),
        silent: false,
    };
    assert_eq!(format!("{:?}", changes(&sent(&["heal:kubernetes_down"]), &gone)), format!("{:?}", vec![Change::Cleared(alert("heal:kubernetes_down"))]));
}

#[test]
fn a_source_that_cannot_answer_neither_repeats_nor_resolves() {
    let unknown = Source {
        prefix: "backup:".into(),
        alerts: None,
        silent: false,
    };
    assert!(changes(&sent(&["backup:bk-1"]), &unknown).is_empty());
}

#[test]
fn a_source_only_resolves_its_own_problems() {
    let disks = Source {
        prefix: "disk:".into(),
        alerts: Some(vec![]),
        silent: false,
    };
    let before = sent(&["disk:sdb", "heal:machines_gone", "backup:bk-1"]);
    assert_eq!(format!("{:?}", changes(&before, &disks)), format!("{:?}", vec![Change::Cleared(alert("disk:sdb"))]));
}

#[test]
fn one_apps_failure_is_not_hidden_by_another_apps_success() {
    let at_1 = at(1);
    let sets = vec![
        record(&format!(r#"{{"id": "bk-2", "namespace": "yolab-b", "state": "restorable", "finished_at": "{at_1}"}}"#)),
        record(&format!(r#"{{"id": "bk-1", "namespace": "yolab-a", "state": "crashed", "error": "S3 refused"}}"#)),
    ];
    let alerts = alerts_now(&sets, &ns(&["yolab-a", "yolab-b"]));
    assert_eq!(alerts.len(), 1, "b is fine, a is not");
    assert_eq!(alerts[0].key, "backup:yolab-a");
    assert!(alerts[0].title.contains('a'), "{}", alerts[0].title);
    assert_eq!(alerts[0].message, "S3 refused");
}

#[test]
fn an_alert_is_keyed_by_app_so_it_clears_when_that_app_succeeds() {
    let at_1 = at(1);
    let broken = vec![record(&format!(r#"{{"id": "bk-1", "namespace": "yolab-a", "state": "crashed"}}"#))];
    let key = alerts_now(&broken, &ns(&["yolab-a"]))[0].key.clone();
    let fixed = vec![
        record(&format!(r#"{{"id": "bk-2", "namespace": "yolab-a", "state": "restorable", "finished_at": "{at_1}"}}"#)),
        record(&format!(r#"{{"id": "bk-1", "namespace": "yolab-a", "state": "crashed"}}"#)),
    ];
    assert!(alerts_now(&fixed, &ns(&["yolab-a"])).is_empty());
    assert_eq!(
        key, "backup:yolab-a",
        "the same key, so the old alert clears"
    );
}

#[test]
fn an_app_that_silently_stopped_being_backed_up_is_reported() {
    let at_80 = at(80);
    let sets = vec![
        record(&format!(r#"{{"id": "bk-1", "namespace": "yolab-a", "state": "restorable", "finished_at": "{at_80}"}}"#)),
    ];
    let alerts = alerts_now(&sets, &ns(&["yolab-a"]));
    assert_eq!(
        alerts.len(),
        1,
        "a backup that stopped running is the worst case"
    );
    assert!(
        alerts[0].title.contains("no recent backup"),
        "{}",
        alerts[0].title
    );
}

#[test]
fn an_app_that_was_never_backed_up_at_all_is_reported() {
    let alerts = alerts_now(&vec![], &ns(&["yolab-a"]));
    assert_eq!(alerts.len(), 1);
    assert!(alerts[0].message.contains("never"), "{}", alerts[0].message);
}

#[test]
fn a_recent_success_raises_nothing() {
    let at_2 = at(2);
    let sets = vec![
        record(&format!(r#"{{"id": "bk-1", "namespace": "yolab-a", "state": "restorable", "finished_at": "{at_2}"}}"#)),
    ];
    assert!(alerts_now(&sets, &ns(&["yolab-a"])).is_empty());
}

#[test]
fn an_app_being_backed_up_right_now_is_not_nagged_about() {
    for state in ["running", "queued"] {
        let sets = vec![record(&format!(r#"{{"id": "bk-1", "namespace": "yolab-a", "state": "{state}"}}"#))];
        assert!(
            alerts_now(&sets, &ns(&["yolab-a"])).is_empty(),
            "{state} is work in progress, not a problem"
        );
    }
}

#[test]
fn the_machine_snapshot_is_named_for_a_person_not_by_its_empty_namespace() {
    let alerts = alerts_now(&vec![], &vec![String::new()]);
    assert_eq!(alerts.len(), 1);
    assert!(
        alerts[0].title.starts_with("This machine"),
        "{}",
        alerts[0].title
    );
}

#[test]
fn a_cluster_problem_opens_the_shared_address_a_machine_problem_its_own() {
    let raised = notification(&Change::Raised(heal_alert("data_unreachable")), &tunnel());
    assert_eq!(
        raised.title,
        "YoLab: Some of your files have no reachable copy"
    );
    assert_eq!(raised.priority, 4);
    assert_eq!(
        raised.click.as_deref(),
        Some("https://cluster.6.yolab.io/box/storage")
    );
    let cleared = notification(&Change::Cleared(heal_alert("data_unreachable")), &tunnel());
    assert_eq!(cleared.title, "YoLab: resolved");

    let disk = Alert {
        key: "disk:sdb".into(),
        title: "A disk could not be added".into(),
        message: "busy".into(),
        page: "/box/storage".into(),
    };
    let n = notification(&Change::Raised(disk), &tunnel());
    assert_eq!(n.title, "node1: A disk could not be added");
    assert_eq!(
        n.click.as_deref(),
        Some("https://node1.6.yolab.io/box/storage")
    );
}

#[test]
fn the_lowest_answering_machine_sends_the_clusters_problems() {
    let answering = vec![
        "node2".to_string(),
        "node1".to_string(),
        "node3".to_string(),
    ];
    assert!(sends_for_cluster("node1", &answering));
    assert!(!sends_for_cluster("node2", &answering));
    assert!(sends_for_cluster(
        "node2",
        &vec!["node2".into(), "node3".into()]
    ));
    assert!(sends_for_cluster("node1", &vec![]), "nothing answers: speak up");
    assert!(is_cluster_wide("backup:bk-1") && !is_cluster_wide("disk:sdb"));
}

#[test]
fn what_was_sent_survives_a_restart() {
    let mut host = FakeHost::new();
    assert!(host.drive(|s| load(s, "/")).unwrap().is_empty());
    host.drive(|s| save(s, "/", &sent(&["disk:sdb"]))).unwrap();
    let read = host.drive(|s| load(s, "/")).unwrap();
    assert_eq!(format!("{read:?}"), format!("{:?}", sent(&["disk:sdb"])));
}

#[test]
fn a_record_already_on_this_tunnel_is_left_alone() {
    let tunnels = parse(r#"[
        {"tunnel_id": 25, "sub_ipv6": "2a01::20", "dns_records": [
            {"name": "node1", "value": "2a01::20"},
            {"name": "ntfy-node1", "value": "2a01::20"}
        ]}
    ]"#).unwrap();
    assert_eq!(decide(&tunnels, "25", &want()).unwrap(), Decision::Present);
}

#[test]
fn a_missing_or_stale_record_is_created() {
    let missing = parse(r#"[{"tunnel_id": 25, "dns_records": [{"name": "node1", "value": "2a01::20"}]}]"#).unwrap();
    assert_eq!(decide(&missing, "25", &want()).unwrap(), Decision::Create);
    let stale = parse(r#"[{"tunnel_id": 25, "dns_records": [{"name": "ntfy-node1", "value": "2a01::99"}]}]"#).unwrap();
    assert_eq!(decide(&stale, "25", &want()).unwrap(), Decision::Create);
}

#[test]
fn a_tunnel_the_platform_does_not_have_is_an_error() {
    assert!(decide(&parse(r#"[{"tunnel_id": 7}]"#).unwrap(), "25", &want()).is_err());
    assert!(decide(&parse(r#"{"oops": 1}"#).unwrap(), "25", &want()).is_err());
}

#[test]
fn nothing_is_wanted_without_a_platform_connection() {
    let off = Tunnel {
        enabled: false,
        platform_api_url: String::new(),
        account_token: String::new(),
        tunnel_id: "25".into(),
        sub_ipv6: "2a01::20".into(),
        host: "node1.6.yolab.io".into(),
    };
    assert!(wanted_record(&off).is_none());
    let on = Tunnel { enabled: true, ..off };
    assert_eq!(format!("{:?}", wanted_record(&on)), format!("{:?}", Some(want())));
}

#[test]
fn only_a_refusal_of_the_platform_is_an_error() {
    let tick = |status: u16, body: &str| {
        let mut s = Script::new();
        let c = NtfyDnsController { config_path: "/etc/config.toml".into() };
        loop {
            match c.reconcile(&mut s) {
                Ok(r) => return r.map(|_| ()).map_err(|e| e.chain()),
                Err(Ask::Get { .. }) | Err(Ask::Post { .. }) => {
                    s.answer(Answer::Posted(Ok(PostReply {
                        status,
                        status_line: format!("{status} said"),
                        refusal: if (400..600).contains(&status) {
                            format!("HTTP status {status} for url")
                        } else {
                            String::new()
                        },
                        body: body.into(),
                    })))
                }
                Err(Ask::LoadFile { .. }) => s.answer(Answer::File(Ok(Some(CONFIG.into())))),
                Err(Ask::ReadText { .. }) => s.answer(Answer::Text(Some(CONFIG.into()))),
                Err(other) => panic!("{other:?}"),
            }
        }
    };
    let listed = r#"[{"tunnel_id": 25, "sub_ipv6": "2a01::20", "dns_records": []}]"#;
    for status in [200, 304, 399, 600] {
        let said = tick(status, listed);
        assert!(said.as_ref().err().map_or(true, |e| !e.contains("HTTP status")), "{said:?}");
    }
    for status in [400, 404, 500, 599] {
        let e = tick(status, listed).unwrap_err();
        assert!(e.contains(&format!("HTTP status {status} for url")), "{e}");
    }
}

#[test]
fn a_notification_is_written_and_read_back() {
    let n = Notification {
        title: "t".into(),
        message: "m".into(),
        priority: 4,
        tags: vec!["warning".into()],
        click: Some("https://x".into()),
    };
    let back = Notification::from_json(&parse(&n.text()).unwrap()).unwrap();
    assert_eq!(format!("{back:?}"), format!("{n:?}"));
    assert!(Notification::from_json(&parse("{}").unwrap()).is_none());
}

#[test]
fn what_a_change_leaves_behind_is_neither_repeated_nor_lost() {
    let source = Source {
        prefix: "heal:".into(),
        alerts: Some(vec![alert("heal:kubernetes_down")]),
        silent: false,
    };
    let mut said = changes(&sent(&["disk:sdb"]), &source);
    assert_eq!(said.len(), 1);
    let after = note(sent(&["disk:sdb"]), said.remove(0));
    assert!(changes(&after, &source).is_empty());
    assert_eq!(sent_text(&after), sent_text(&sent_from(&sent_text(&after)).unwrap()));
    assert!(sent_text(&after).contains("disk:sdb"));
    let text = sent_text(&after);
    let at = |name: &str| text.find(name).unwrap();
    assert!(at("\"key\"") < at("\"title\""), "{text}");
    assert!(at("\"title\"") < at("\"message\"") && at("\"message\"") < at("\"page\""), "{text}");
}

#[test]
fn a_topic_that_cannot_be_published_is_reported() {
    let mut host = FakeHost::new().with("/etc/config.toml", CONFIG);
    let n = Notification {
        title: "t".into(),
        message: "m".into(),
        priority: 3,
        tags: vec![],
        click: None,
    };
    host.reply = Err("connection refused".into());
    let reply = host.drive(|s| post_deliver(s, "/etc/config.toml", &n));
    assert!(reply.status >= 400, "{reply:?}");
    host.reply = Ok(200);
    let reply = host.drive(|s| post_deliver(s, "/etc/config.toml", &n));
    assert_eq!(reply.status, 200);
    assert!(host.ran("POST http://[::1]:2586"), "{:?}", host.calls());
}

#[test]
fn a_notification_is_read_by_name_and_in_order() {
    let n = Notification::from_json(&parse(r#"["t","m",4,["a"],null]"#).unwrap()).unwrap();
    assert_eq!((n.title.as_str(), n.message.as_str(), n.priority), ("t", "m", 4));
    assert_eq!((n.tags, n.click), (vec!["a".to_string()], None));
    assert!(Notification::from_json(&parse(r#"["t","m",4,["a"]]"#).unwrap()).is_none());
    let named = r#"{"title":"t","message":"m","priority":4,"tags":[]}"#;
    assert!(Notification::from_json(&parse(named).unwrap()).is_some());
}
