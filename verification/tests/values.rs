//! Values that are written and read back, and rules on single values.

use local_api::cache::policy_for;
use local_api::charts::{add_repo, cache_dir_for, remove_repo, valid_repo_name};
use local_api::conf;
use local_api::conf::Conf;
use local_api::config::Config;
use local_api::cron::Cron;
use local_api::double;
use local_api::effects::{Answer, Ask, Script};
use local_api::error::Error;
use local_api::exec::{classify, CmdError, CommandOutput, Failure};
use local_api::heal::identity::{fsid_of, is_uuid, new_fsid, new_heal_id};
use local_api::heal::member;
use local_api::heal::member::{BuildRequest, Phase, Reset};
use local_api::heal::network::Network;
use local_api::heal::reinstall;
use local_api::heal::reinstall::{Gone, Member};
use local_api::heal::repair;
use local_api::heal::repair::Machine;
use local_api::heal::survey;
use local_api::heal::survey::Survey;
use local_api::heal::switch::rewrite_config;
use local_api::http::PostReply;
use local_api::ip;
use local_api::json;
use local_api::json::{Entries, Json};
use local_api::kubectl::{get_secret, secret_manifest};
use local_api::mesh::wg::{remove_peer, set_peer};
use local_api::names::Names;
use local_api::notify::alerts::sends_for_cluster;
use local_api::notify::send::{publish_everywhere, Notification};
use local_api::notify::topic::topic_from_config;
use local_api::paths;
use local_api::stamps::Stamp;
use local_api::table;
use local_api::text;
use local_api::time::Duration;

fn texts(l: &[&str]) -> Vec<String> {
    l.iter().map(|s| s.to_string()).collect()
}

fn printed(stdout: &str) -> Answer {
    Answer::Output(Ok(CommandOutput {
        success: true,
        stdout: stdout.to_string(),
        stderr: String::new(),
    }))
}

/// A script that has these answers.
fn script(answers: Vec<Answer>) -> Script {
    let mut s = Script::new();
    for a in answers {
        s.answer(a);
    }
    s
}

// ── Texts ────────────────────────────────────────────────────────────────────

#[test]
fn numbers_are_read_back_from_the_way_they_are_written() {
    for n in [0, 9, 10, 4_294_967_296, u64::MAX] {
        assert_eq!(text::decimal_of(n), n.to_string());
        assert_eq!(text::parse_unsigned(&text::decimal_of(n), u64::MAX), Some(n));
    }
    for n in [i64::MIN, -10, -1, 0, 7, i64::MAX] {
        assert_eq!(text::signed_decimal_of(n), n.to_string());
        assert_eq!(text::parse_signed(&text::signed_decimal_of(n)), Some(n));
    }
    assert_eq!(text::parse_unsigned("18446744073709551616", u64::MAX), None);
    assert_eq!(text::parse_unsigned("256", 255), None);
    assert_eq!(text::parse_unsigned("", u64::MAX), None);
    assert_eq!(text::parse_unsigned("12x", u64::MAX), None);
    assert_eq!(text::parse_signed("9223372036854775808"), None);
    assert_eq!(text::parse_signed("-"), None);
}

#[test]
fn parts_with_a_separator_are_told_apart() {
    let parts = texts(&["a", "", "b c", "d"]);
    let joined = text::join(&parts, ",");
    assert_eq!(joined, "a,,b c,d");
    assert_eq!(text::split(&joined, ','), vec!["a", "", "b c", "d"]);
}

#[test]
fn texts_are_cut_and_searched_as_they_should_be() {
    assert_eq!(text::split_once("a=b=c", '='), Some(("a", "b=c")));
    assert_eq!(text::rsplit_once("a=b=c", '='), Some(("a=b", "c")));
    assert_eq!(text::split_once("abc", '='), None);
    assert_eq!(text::trim(" \t x y \n"), "x y");
    assert_eq!(text::words("  one two\tthree "), vec!["one", "two", "three"]);
    assert_eq!(text::lines("a\r\nb\n"), vec!["a", "b"]);
    assert_eq!(text::strip_prefix("héllo", "hé"), Some("llo"));
    assert_eq!(text::strip_suffix("héllo", "éllo"), Some("h"));
    assert!(text::contains("abcabd", "abd") && !text::contains("ab", "abd"));
    assert!(text::less("a", "b") && !text::less("b", "a") && !text::less("a", "a"));
    assert_eq!(text::to_lower("ABC-é"), "abc-é");
    assert!(text::is_all_hex("0aF9") && !text::is_all_hex("0g"));
    assert_eq!(paths::join("/a", "b"), "/a/b");
    assert_eq!(paths::join("/", "b/c"), "/b/c");
    assert_eq!(paths::join("/a", "/b"), "/b");
}

#[test]
fn names_are_kept_once_and_in_order() {
    let n = Names::of(&texts(&["c", "a", "b", "a"]));
    assert_eq!(n.list(), &texts(&["a", "b", "c"]));
    assert!(n.contains("b") && !n.contains("d"));
    assert_eq!(n.join(", "), "a, b, c");
    assert!(n.same(&Names::of(&texts(&["b", "c", "a"]))));
}

#[test]
fn a_table_finds_what_was_set_and_forgets_what_was_removed() {
    let mut t: Vec<(String, Json)> = Vec::new();
    table::set(&mut t, "a", Json::integer(1));
    table::set(&mut t, "b", Json::integer(2));
    table::set(&mut t, "a", Json::integer(3));
    assert_eq!(t.len(), 2);
    assert_eq!(table::get(&t, "a").unwrap().as_i64(), Some(3));
    assert_eq!(table::get(&t, "b").unwrap().as_i64(), Some(2));
    let t = table::drop_named(t, "a");
    assert!(table::get(&t, "a").is_none() && table::contains(&t, "b"));
}

#[test]
fn entries_are_put_in_the_order_of_their_names() {
    let t: Vec<(String, Json)> = [("b", 1), ("a", 2), ("c", 3), ("a", 4)]
        .into_iter()
        .map(|(k, n)| (k.to_string(), Json::integer(n)))
        .collect();
    let sorted: Vec<(String, i64)> =
        table::sort(t).into_iter().map(|(k, v)| (k, v.as_i64().unwrap())).collect();
    let expected = [("a", 2), ("a", 4), ("b", 1), ("c", 3)];
    assert_eq!(sorted, expected.map(|(k, n)| (k.to_string(), n)).to_vec());
}

#[test]
fn an_address_is_read_back_from_the_way_it_is_shown() {
    for (given, shown) in [
        ("::", "::"),
        ("::1", "::1"),
        ("fd00:0:0:0:0:0:0:2", "fd00::2"),
        ("2001:db8:0:0:1:0:0:1", "2001:db8::1:0:0:1"),
        ("FD00::ABCD", "fd00::abcd"),
        ("1:2:3:4:5:6:7:8", "1:2:3:4:5:6:7:8"),
        ("::ffff:192.0.2.1", "::ffff:192.0.2.1"),
    ] {
        let a = ip::parse(given).unwrap();
        assert_eq!(a.shown(), shown, "{given}");
        assert_eq!(ip::parse(&a.shown()).unwrap().groups, a.groups);
    }
    for bad in ["", "1::2::3", "12345::", "1:2:3:4:5:6:7", "g::", "fd00::1/64"] {
        assert!(ip::parse(bad).is_none(), "{bad}");
    }
}

// ── Documents ────────────────────────────────────────────────────────────────

#[test]
fn a_document_is_read_back_from_its_text() {
    let mut e = Entries::new();
    e.put("flag", Json::Bool(true));
    e.put("list", Json::List(vec![Json::integer(-3), Json::Null, Json::text("\"x\"\n")]));
    e.put("name", Json::text("é"));
    let j = e.done();
    let t = json::render(&j);
    assert_eq!(t, r#"{"flag":true,"list":[-3,null,"\"x\"\n"],"name":"é"}"#);
    let back = json::parse(&t).unwrap();
    assert_eq!(json::render(&back), t);
    assert_eq!(back.flag_at("flag"), Some(true));
    assert_eq!(back.str_at("name"), Some("é"));
    let list = back.list_at("list").unwrap();
    assert_eq!((list[0].as_i64(), list[2].as_str()), (Some(-3), Some("\"x\"\n")));
    assert!(json::parse("{\"a\":}").is_err());
}

#[test]
fn settings_are_read_and_written() {
    let c = conf::parse("[node]\nname = \"a\"\nport = 3\nratio = 1.5\nsince = 2026-09-14T12:00:00Z\nnames = [\"x\"]\non = true\n").unwrap();
    assert_eq!(c.text_at("node", "name"), Some("a"));
    assert!(matches!(c.get("node").unwrap().get("port"), Some(Conf::Integer(3))));
    assert!(matches!(c.get("node").unwrap().get("on"), Some(Conf::Flag(true))));
    let again = conf::parse(&conf::render(&c).unwrap()).unwrap();
    assert_eq!(format!("{again:?}"), format!("{c:?}"));
    assert!(conf::parse("[node").is_err());
}

#[test]
fn a_moment_is_read_back_from_its_text() {
    let s = Stamp { secs: 1_789_387_200, nanos: 0 };
    assert_eq!(s.text(), "2026-09-14T12:00:00+00:00");
    assert_eq!(Stamp::parse(&s.text()), Some(s));
    assert_eq!(Stamp::parse("2026-09-14T14:00:00+02:00"), Some(s));
    let later = Stamp { secs: s.secs + 7199, nanos: 999_999_999 };
    assert_eq!(Stamp::parse(&later.text()), Some(later));
    assert_eq!(later.hours_from(s), 1);
    assert_eq!(Stamp::parse("yesterday"), None);
}

#[test]
fn a_secret_is_read_back_as_it_was_written() {
    let data = vec![("password".to_string(), "pässword".to_string()), ("user".to_string(), "me".to_string())];
    let manifest = secret_manifest("s", "ns", &data, &vec![]);
    let written = manifest.get("data").unwrap();
    assert_eq!(written.str_at("password"), Some("cMOkc3N3b3Jk"));
    let mut s = script(vec![printed(&json::render(&manifest))]);
    let read = get_secret(&mut s, "s", "ns").unwrap().unwrap().unwrap();
    assert_eq!(read, data);

    let mut s = script(vec![printed(r#"{"data": {"k": "*"}}"#)]);
    let e = get_secret(&mut s, "s", "ns").unwrap().unwrap_err();
    assert!(e.shown().contains("key k is not base64"), "{}", e.shown());
    let mut s = script(vec![printed(r#"{"data": {"k": "//8="}}"#)]);
    let e = get_secret(&mut s, "s", "ns").unwrap().unwrap_err();
    assert!(e.shown().contains("key k is not UTF-8"), "{}", e.shown());
}

// ── Records of a heal ────────────────────────────────────────────────────────

#[test]
fn the_record_of_a_repair_is_read_back() {
    let h = repair::Heal {
        id: "ab12".into(),
        driver: "one".into(),
        started_at: 7,
        finished_at: None,
        step: repair::Step::Wipe,
        gone: Names::of(&texts(&["two"])),
        peers: vec![Machine { name: "three".into(), addr: "fd00::3".into() }],
        reset_kubernetes: true,
        claim_after: Some(22),
        restart_boot_id: None,
        waiting: Some("for \"three\"".into()),
    };
    let written = repair::heal_text(&h);
    assert_eq!(
        written,
        r#"{"id":"ab12","driver":"one","started_at":7,"finished_at":null,"step":"wipe","gone":["two"],"peers":[{"name":"three","addr":"fd00::3"}],"reset_kubernetes":true,"claim_after":22,"restart_boot_id":null,"waiting":"for \"three\""}"#
    );
    let back = repair::heal_from(&written).unwrap();
    assert_eq!(format!("{back:?}"), format!("{h:?}"));
    assert!(repair::heal_from("{}").is_err());
    for s in repair::Step::all() {
        assert_eq!(repair::Step::named(s.as_str()), Some(s));
        if let Some(n) = s.next() {
            assert!(s.before(n) && !n.before(s));
        }
    }
}

#[test]
fn the_record_of_a_reinstall_is_read_back() {
    let h = reinstall::Heal {
        id: "ab12".into(),
        driver: "one".into(),
        started_at: 7,
        finished_at: Some(9),
        step: reinstall::Step::Undo,
        fsid: "0a1b2c3d-1111-4222-8333-444455556666".into(),
        members: vec![Member { name: "one".into(), addr: "fd00::1".into() }],
        gone: vec![Gone { label: "two".into(), addr: "fd00::2".into(), platform_id: Some(-4) }],
        restart_boot_id: Some("boot".into()),
        waiting: None,
        failed: Some("why".into()),
    };
    let written = reinstall::heal_text(&h);
    assert_eq!(
        written,
        r#"{
  "id": "ab12",
  "driver": "one",
  "started_at": 7,
  "finished_at": 9,
  "step": "undo",
  "fsid": "0a1b2c3d-1111-4222-8333-444455556666",
  "members": [
    {
      "name": "one",
      "addr": "fd00::1"
    }
  ],
  "gone": [
    {
      "label": "two",
      "addr": "fd00::2",
      "platform_id": -4
    }
  ],
  "restart_boot_id": "boot",
  "waiting": null,
  "failed": "why"
}"#
    );
    let back = reinstall::heal_from(&written).unwrap();
    assert_eq!(format!("{back:?}"), format!("{h:?}"));
    for s in [
        reinstall::Step::Prepare,
        reinstall::Step::Arm,
        reinstall::Step::Restart,
        reinstall::Step::Rebuild,
        reinstall::Step::Undo,
    ] {
        assert_eq!(reinstall::Step::named(s.as_str()), Some(s));
    }
}

#[test]
fn a_part_in_a_heal_is_read_back() {
    for phase in [
        Phase::Building,
        Phase::Built { system: "/nix/store/x".into() },
        Phase::Failed { error: "full disk".into() },
        Phase::Committed { system: "/nix/store/x".into(), boot_id: "b".into() },
        Phase::Undone,
    ] {
        let r = Reset {
            request: BuildRequest {
                heal_id: "ab12".into(),
                driver: "one".into(),
                fsid: "0a1b2c3d-1111-4222-8333-444455556666".into(),
                server_addr: "https://[fd00::1]:6443".into(),
            },
            phase,
        };
        let written = member::reset_text(&r);
        assert!(
            written.starts_with(
                r#"{
  "heal_id": "ab12",
  "driver": "one",
  "fsid": "0a1b2c3d-1111-4222-8333-444455556666",
  "server_addr": "https://[fd00::1]:6443",
  "phase": ""#
            ),
            "{written}"
        );
        if let Phase::Committed { .. } = &r.phase {
            let end = "\"committed\",\n  \"system\": \"/nix/store/x\",\n  \"boot_id\": \"b\"\n}";
            assert!(written.ends_with(end), "{written}");
        }
        let back = member::reset_from(&written).unwrap();
        assert_eq!(format!("{back:?}"), format!("{r:?}"));
    }
}

#[test]
fn a_new_cluster_gets_an_identity_of_its_own() {
    let f = fsid_of(&[0x0a, 0x1b, 0x2c, 0x3d, 0x11, 0x11, 0xf2, 0x22, 0xff, 0x33, 0x44, 0x44, 0x55, 0x55, 0x66, 0x66]);
    assert_eq!(f, "0a1b2c3d-1111-4222-bf33-444455556666");
    let (a, b) = (new_fsid(), new_fsid());
    assert!(is_uuid(&a) && is_uuid(&b) && a != b);
    assert!(!is_uuid("0a1b2c3d-1111-4222-bf33-44445555666"));
}

#[test]
fn a_heal_gets_a_name_of_its_own() {
    let (a, b) = (new_heal_id(), new_heal_id());
    assert_eq!(a.len(), 16);
    assert!(a.chars().all(|c| c.is_ascii_digit() || ('a'..='f').contains(&c)), "{a}");
    assert_ne!(a, b);
}

#[test]
fn the_topic_comes_from_the_token_and_a_heal_keeps_it() {
    let config = "[node.k3s]\ntoken = \"abc\"\nserver_addr = \"\"\n[ceph]\nfsid = \"old\"\n";
    assert_eq!(topic_from_config(config).unwrap(), "yolab-adc288dfada5abc649495b4ccfbbd34c");
    let healed = rewrite_config(config, "https://[fd00::1]:6443", "new").unwrap();
    assert!(healed.contains("fsid = \"new\"") && !healed.contains("old"));
    assert_eq!(topic_from_config(&healed).unwrap(), "yolab-adc288dfada5abc649495b4ccfbbd34c");
}

// ── The other machines ───────────────────────────────────────────────────────

fn network() -> Network {
    Network { port: 3001, token: "tok".into(), platform_url: "https://api".into() }
}

fn replied(status: u16, body: &str) -> Answer {
    Answer::Posted(Ok(PostReply {
        status,
        status_line: format!("{status} said"),
        refusal: if (400..600).contains(&status) { format!("{status} refused") } else { String::new() },
        body: body.to_string(),
    }))
}

fn header(name: &str, value: &str) -> Vec<(String, String)> {
    vec![(name.to_string(), value.to_string())]
}

#[test]
fn a_machine_is_asked_how_it_stands() {
    match network().peer(&mut Script::new(), "fd00::2").unwrap_err() {
        Ask::Get { url, headers, secs } => {
            assert_eq!(url, "http://[fd00::2]:3001/api/heal/peer");
            assert_eq!(headers, header("x-yolab-cluster", "tok"));
            assert_eq!(secs, 5);
        }
        other => panic!("{other:?}"),
    }
    let asked = |a| network().peer(&mut script(vec![a]), "fd00::2").unwrap();
    let p = asked(replied(200, r#"{"name": "two", "addr": "fd00::2", "reset": null}"#)).unwrap();
    assert_eq!((p.name.as_str(), p.addr.as_str(), p.reset.is_none()), ("two", "fd00::2", true));
    assert_eq!(asked(replied(503, r#"{"error": "busy"}"#)).unwrap_err(), "503 said: busy");
    assert_eq!(asked(replied(500, "plain")).unwrap_err(), "500 said: plain");
    assert_eq!(asked(replied(200, "{}")).unwrap_err(), "error decoding response body: the machine says nothing about itself");
    assert_eq!(asked(Answer::Posted(Err("no route".into()))).unwrap_err(), "no route");
}

#[test]
fn a_machine_is_handed_its_requests() {
    let n = network();
    let request = reinstall::PrepareRequest {
        heal_id: "ab".into(),
        driver: "one".into(),
        fsid: "f".into(),
        server_addr: "".into(),
    };
    let asks = [
        n.prepare(&mut Script::new(), "fd00::2", &request).unwrap_err(),
        n.arm(&mut Script::new(), "fd00::2", "ab").unwrap_err(),
        n.undo(&mut Script::new(), "fd00::2", "ab").unwrap_err(),
        n.reboot(&mut Script::new(), "fd00::2").unwrap_err(),
    ];
    let expected = [
        ("/api/heal/peer/prepare", 30, r#"{"heal_id":"ab","driver":"one","fsid":"f","server_addr":""}"#),
        ("/api/heal/peer/arm", 30, r#"{"heal_id":"ab"}"#),
        ("/api/heal/peer/undo", 3600, r#"{"heal_id":"ab"}"#),
        ("/api/system/reboot", 10, ""),
    ];
    for (ask, (path, bound, text)) in asks.into_iter().zip(expected) {
        match ask {
            Ask::Post { url, headers, secs, body } => {
                assert_eq!(url, format!("http://[fd00::2]:3001{path}"));
                assert_eq!(headers, header("x-yolab-cluster", "tok"));
                assert_eq!((secs, body.as_str()), (bound, text));
            }
            other => panic!("{other:?}"),
        }
    }
    assert!(n.arm(&mut script(vec![replied(204, "")]), "fd00::2", "ab").unwrap().is_ok());
    assert_eq!(
        n.arm(&mut script(vec![replied(409, r#"{"error": "not built"}"#)]), "fd00::2", "ab").unwrap(),
        Err("409 said: not built".to_string())
    );
}

#[test]
fn the_platform_lists_and_forgets_machines() {
    let n = network();
    match n.platform_nodes(&mut Script::new()).unwrap_err() {
        Ask::Get { url, headers, secs } => {
            assert_eq!(url, "https://api/nodes");
            assert_eq!(headers, header("authorization", "Bearer tok"));
            assert_eq!(secs, 10);
        }
        other => panic!("{other:?}"),
    }
    let body = r#"[{"node_id": 7, "sub_ipv6": "fd00::7"}]"#;
    let nodes = n.platform_nodes(&mut script(vec![replied(200, body)])).unwrap().unwrap().unwrap();
    assert_eq!((nodes.len(), nodes[0].node_id, nodes[0].sub_ipv6.as_str()), (1, 7, "fd00::7"));
    assert!(n.platform_nodes(&mut script(vec![replied(401, body)])).unwrap().is_err());
    assert!(n.platform_nodes(&mut script(vec![replied(200, "{}")])).unwrap().is_err());
    let alone = Network { platform_url: "".into(), ..network() };
    assert!(alone.platform_nodes(&mut Script::new()).unwrap().unwrap().is_none());

    match n.delete_platform_node(&mut Script::new(), 7).unwrap_err() {
        Ask::Delete { url, .. } => assert_eq!(url, "https://api/nodes/7"),
        other => panic!("{other:?}"),
    }
    let forget = |status| n.delete_platform_node(&mut script(vec![replied(status, "")]), 7).unwrap();
    assert!(forget(204).is_ok() && forget(404).is_ok());
    assert_eq!(forget(500), Err("500 refused".to_string()));
}

// ── Rules ────────────────────────────────────────────────────────────────────

fn seen(me: &str, others: &[(&str, bool)], quorum: bool) -> Survey {
    let mut machines = vec![survey::MachineState {
        name: me.to_string(),
        addr: "fd00::1".to_string(),
        this_machine: true,
        answers: true,
    }];
    for (name, answers) in others {
        machines.push(survey::MachineState {
            name: name.to_string(),
            addr: "fd00::2".to_string(),
            this_machine: false,
            answers: *answers,
        });
    }
    Survey {
        me: me.to_string(),
        machines,
        ceph_quorum: quorum,
        kubernetes: true,
        uptime_secs: 10_000,
        down_osds: None,
        lost_groups: Some(0),
    }
}

#[test]
fn only_a_machine_that_does_not_answer_is_gone() {
    let s = seen("one", &[("three", false), ("two", true), ("four", false)], true);
    assert_eq!(s.gone().list(), &texts(&["four", "three"]));
    assert_eq!(s.refusal(), None);
    assert!(seen("one", &[("two", true)], true).refusal().unwrap().starts_with("nothing is wrong"));
    assert!(seen("one", &[("two", true)], false).refusal().unwrap().contains("two still answers"));
    assert_eq!(seen("one", &[("two", false)], false).refusal(), None);
}

#[test]
fn exactly_one_machine_speaks_for_the_cluster() {
    let answering = texts(&["two", "one", "three"]);
    let speakers: Vec<&str> =
        ["one", "two", "three", "four"].into_iter().filter(|m| sends_for_cluster(m, &answering)).collect();
    assert_eq!(speakers, vec!["one"]);
    assert!(sends_for_cluster("anyone", &Vec::new()));
}

#[test]
fn a_missing_object_comes_from_a_tool_that_answered() {
    let e = CmdError::failed("kubectl get x", "Error from server (NotFound): x");
    assert!(e.is_not_found() && !e.is_unanswered());
    let e = CmdError::failed("kubectl get x", "The connection to the server was refused");
    assert!(!e.is_not_found());
    assert_eq!(classify("lvs", "NotFound ENOENT"), Failure::Other);
    assert_eq!(classify("rbd", "ENOENT"), Failure::NotFound);
}

#[test]
fn every_error_of_a_command_is_told_in_its_own_words() {
    let cmd = || "ceph status".to_string();
    let all = [
        CmdError::Spawn { cmd: cmd(), source: "no such file".into() },
        CmdError::Timeout { cmd: cmd(), after: Duration { nanos: 90_500_000_000 } },
        CmdError::failed("ceph status", "Error EBUSY: busy"),
        CmdError::parse("ceph status", "not a list"),
        CmdError::Busy { cmd: cmd() },
        CmdError::Forbidden { cmd: cmd() },
    ];
    let shown: Vec<String> = all.iter().map(|e| e.shown()).collect();
    assert_eq!(
        shown,
        texts(&[
            "ceph status: could not start: no such file",
            "ceph status: timed out after 90s",
            "ceph status: Error EBUSY: busy",
            "ceph status: unreadable output: not a list",
            "ceph status: skipped, already running on this node",
            "ceph status: refused — destructive commands must go through ceph::destructive",
        ])
    );
    let unanswered: Vec<bool> = all.iter().map(|e| e.is_unanswered()).collect();
    assert_eq!(unanswered, vec![true, true, false, false, true, false]);
    assert_eq!(all[2].failure(), Some(Failure::Busy));
    assert!(CmdError::failed("kubectl x", "(AlreadyExists)").is_already_exists());
    assert!(CmdError::failed("kubectl x", "(Conflict)").is_conflict());
}

#[test]
fn what_was_going_on_is_said_in_front() {
    let e = Error::msg("refused").context("reading").context("starting");
    assert_eq!(e.outermost(), "starting");
    assert_eq!(e.chain(), "starting: reading: refused");
}

#[test]
fn the_mesh_is_the_only_interface_that_is_changed() {
    for ask in [
        set_peer(&mut Script::new(), "key", Some("[fd00::9]:51820"), "fd00::9/128", 25).unwrap_err(),
        remove_peer(&mut Script::new(), "key").unwrap_err(),
    ] {
        match ask {
            Ask::Run { bin, args, .. } => {
                assert_eq!(bin, "wg");
                assert_eq!(args[..4], texts(&["set", "wg1", "peer", "key"])[..]);
            }
            other => panic!("{other:?}"),
        }
    }
}

#[test]
fn the_official_catalog_is_neither_replaced_nor_removed() {
    assert!(!valid_repo_name("official") && valid_repo_name("mine-2"));
    let e = add_repo(&mut Script::new(), "official", "https://x").unwrap().unwrap_err();
    assert!(e.chain().contains("not 'official'"));
    let e = remove_repo(&mut Script::new(), "official").unwrap().unwrap_err();
    assert_eq!(e.chain(), "the official catalog cannot be removed");
    assert_eq!(cache_dir_for("mine"), "/var/lib/yolab/charts/mine");
}

#[test]
fn a_remembered_page_is_old_before_it_is_gone() {
    let p = policy_for("/api/apps").unwrap();
    assert_eq!(p.ttl.nanos, 15_000_000_000);
    assert_eq!(p.hard.nanos, 60_000_000_000);
    assert!(policy_for("/api/heal/status").is_none());
}

#[test]
fn a_run_is_made_up_for_and_not_made_twice() {
    let c = Cron::parse("*/15 * * * *").unwrap();
    let now = 1_789_387_200 + 61;
    assert!(c.due(Some(now - 62), now));
    assert!(!c.due(Some(now - 61), now));
    assert!(!c.due(Some(now), now));
    assert!(c.due(Some(now - 86_400), now));
    assert_eq!(c.last_fire(now), Some(now - 61));
    assert_eq!(Cron::parse("* * * *").unwrap_err().shown(), "a schedule needs 5 fields (minute hour day month weekday), got 4");
}

#[test]
fn doubles_are_compared_by_their_bits() {
    assert!(double::is_over_half(0.75f64.to_bits()) && !double::is_over_half(0.5f64.to_bits()));
    assert!(double::is_under_half(0.25f64.to_bits()) && !double::is_under_half(0.5f64.to_bits()));
    assert!(double::is_under_half((-3.0f64).to_bits()) && !double::is_under_half(f64::NAN.to_bits()));
    assert!(double::is_zero((-0.0f64).to_bits()) && !double::is_zero(1f64.to_bits()));
    for n in [0, 1, (1 << 53) + 1, (1 << 53) + 3, (1 << 60) + 129, u64::MAX] {
        assert_eq!(double::to_double(n), n as f64 as u128, "{n}");
    }
    assert_eq!(double::rounded(7, 2), 4);
    assert_eq!(double::rounded(10, 4), 2);
    assert_eq!(double::rounded(11, 4), 3);
}

#[test]
fn every_machine_is_told_whatever_the_others_say() {
    let cfg = Config::for_test("/etc/config.toml");
    let n = Notification {
        title: "t".into(),
        message: "m".into(),
        priority: 3,
        tags: Vec::new(),
        click: None,
    };
    let peers = texts(&["fd00::2", "fd00::3"]);
    let mut s = Script::new();
    let mut posted = Vec::new();
    let done = loop {
        match publish_everywhere(&mut s, &cfg, "topic", &n, &peers) {
            Ok(r) => break r,
            Err(Ask::Post { url, body, .. }) => {
                let first = posted.is_empty();
                if !first {
                    assert_eq!(
                        body,
                        r#"{"title":"t","message":"m","priority":3,"tags":[],"click":null}"#
                    );
                }
                posted.push(url);
                s.answer(Answer::Posted(if first {
                    Ok(PostReply {
                        status: 200,
                        status_line: "200 OK".into(),
                        refusal: String::new(),
                        body: String::new(),
                    })
                } else {
                    Err("no route".into())
                }));
            }
            Err(Ask::ReadText { .. }) => s.answer(Answer::Text(None)),
            Err(other) => panic!("{other:?}"),
        }
    };
    assert!(done.is_ok());
    assert_eq!(posted.len(), 3);
    assert!(posted[1].starts_with("http://[fd00::2]:") && posted[1].ends_with("/api/notifications/deliver"));
    assert!(posted[2].starts_with("http://[fd00::3]:"));
}

#[test]
fn a_document_handed_over_as_text_is_read_as_that_document() {
    let t = format!(r#"{{"{}":"[1]"}}"#, json::RAW);
    assert_eq!(json::render(&json::parse(&t).unwrap()), "[1]");
    let mut e = Entries::new();
    e.put("!", Json::Null);
    e.put(json::RAW, Json::text("[1]"));
    let behind = json::render(&e.done());
    assert_eq!(json::render(&json::parse(&behind).unwrap()), behind, "not the first name");
    let mut e = Entries::new();
    e.put("a", Json::text("[1]"));
    let plain = json::render(&e.done());
    assert_eq!(json::render(&json::parse(&plain).unwrap()), plain);
}

#[test]
fn records_of_a_heal_are_read_by_name_and_in_order() {
    let r = |t: &str| repair::read_heal(&json::parse(t).unwrap());
    let list = r#"["ab12","n1",5,null,"wipe",["n3"],[["n2","fd00::2"]],true,null,null,"x"]"#;
    let h = r(list).unwrap();
    assert_eq!((h.id.as_str(), h.started_at, h.reset_kubernetes), ("ab12", 5, true));
    assert_eq!((h.peers[0].name.as_str(), h.peers[0].addr.as_str()), ("n2", "fd00::2"));
    assert_eq!(h.waiting, Some("x".to_string()));
    assert!(r(r#"["ab12","n1",5]"#).is_none(), "in their order none may be left out");
    let named = r(&repair::heal_text(&h)).unwrap();
    assert_eq!(format!("{named:?}"), format!("{h:?}"));

    let r = |t: &str| reinstall::read_heal(&json::parse(t).unwrap());
    let list = r#"["ab12","n1",5,6,{"arm":null},"f",[["n1","fd00::1"]],[["old","fd00::9",7]],null,null,null]"#;
    let h = r(list).unwrap();
    assert!(matches!(h.step, reinstall::Step::Arm), "a step is a word, or the name of nothing");
    assert_eq!((h.finished_at, h.members[0].addr.as_str()), (Some(6), "fd00::1"));
    assert_eq!((h.gone[0].label.as_str(), h.gone[0].platform_id), ("old", Some(7)));

    let p = |t: &str| reinstall::read_peer(&json::parse(t).unwrap());
    let peer = p(r#"["n1","fd00::1",["ab12","n1","armed",null]]"#).unwrap();
    assert!(matches!(peer.reset.unwrap().phase, reinstall::PhaseView::Armed));
    assert!(p(r#"["n1","fd00::1"]"#).is_none());
    assert!(p(r#"{"name":"n1","addr":"fd00::1"}"#).unwrap().reset.is_none());

    let nodes = json::parse(r#"[[7,"2a01::7"],{"node_id":8,"sub_ipv6":"2a01::8"}]"#).unwrap();
    let nodes = reinstall::read_nodes(nodes.as_list().unwrap()).unwrap();
    assert_eq!((nodes[0].node_id, nodes[1].sub_ipv6.as_str()), (7, "2a01::8"));
}
