//! Installing a cluster anew on the machines that are left.

use std::cell::RefCell;
use std::collections::VecDeque;
use std::fmt::Debug;
use std::rc::Rc;

use local_api::ceph::model::PgsByPool;
use local_api::effects::{Answer, Ask, Script};
use local_api::error::Error;
use local_api::exec::CommandOutput;
use local_api::heal::credentials::{decide, read_copy, write_copy, Action, Credentials, PASSWORD};
use local_api::heal::drive::LocalRecord;
use local_api::heal::fleet::{
    self, labels_of, normalize, start_heal, survey, HealRequest,
};
use local_api::heal::identity::new_fsid;
use local_api::heal::rebuild::tick;
use local_api::heal::reinstall::{
    Heal, Member, PeerInfo, PhaseView, PlatformNode, ResetView, Step, PREPARE_WAIT_SECS,
};
use local_api::heal::survey::{blocked_by_loss, host_of, parse_mon_status};
use local_api::heal::switch::rewrite_config;
use local_api::names::Names;

const NOW: u64 = 1_000_000;
const FSID: &str = "0a1b2c3d-1111-4222-8333-444455556666";
const MON_STATUS: &str = "ceph daemon mon.node1 mon_status";
const READYZ: &str = "kubectl get --raw /readyz";
const NODES: &str = "kubectl get nodes -o json";

/// The files of a machine, which outlive its programs.
type Files = Rc<RefCell<Vec<(String, String)>>>;

fn files() -> Files {
    Rc::new(RefCell::new(Vec::new()))
}

/// A machine as the fake network answers for it.
#[derive(Clone)]
struct FakeMachine {
    name: String,
    reset: Option<ResetView>,
    /// Refuses to prepare or arm, with this error.
    refuses: Option<String>,
}

/// Machines by address. One missing from the list does not answer.
#[derive(Default)]
struct NetState {
    machines: Vec<(String, FakeMachine)>,
    platform: Option<Vec<(i64, String)>>,
    platform_down: bool,
    calls: Vec<String>,
}

#[derive(Clone, Default)]
struct FakeNetwork {
    state: Rc<RefCell<NetState>>,
}

impl FakeNetwork {
    fn with(machines: &[(&str, &str)]) -> Self {
        let net = Self::default();
        for (name, addr) in machines {
            let machine = FakeMachine { name: name.to_string(), reset: None, refuses: None };
            net.state.borrow_mut().machines.push((addr.to_string(), machine));
        }
        net
    }

    fn platform(self, nodes: &[(i64, &str)]) -> Self {
        self.state.borrow_mut().platform =
            Some(nodes.iter().map(|(id, addr)| (*id, addr.to_string())).collect());
        self
    }

    fn change(&self, addr: &str, f: impl Fn(&mut FakeMachine)) {
        let mut state = self.state.borrow_mut();
        f(&mut state.machines.iter_mut().find(|(a, _)| a == addr).unwrap().1);
    }

    fn set_phase(&self, addr: &str, heal_id: &str, phase: PhaseView, error: Option<&str>) {
        self.change(addr, |m| {
            m.reset = Some(ResetView {
                heal_id: heal_id.into(),
                driver: "node1".into(),
                phase,
                error: error.map(str::to_string),
            })
        });
    }

    fn drive_from(&self, addr: &str, driver: &str) {
        self.change(addr, |m| m.reset.as_mut().unwrap().driver = driver.to_string());
    }

    fn refuse(&self, addr: &str, why: &str) {
        self.change(addr, |m| m.refuses = Some(why.to_string()));
    }

    fn disconnect(&self, addr: &str) {
        self.state.borrow_mut().machines.retain(|(a, _)| a != addr);
    }

    fn record(&self, call: String) {
        self.state.borrow_mut().calls.push(call);
    }

    fn calls(&self) -> Vec<String> {
        self.state.borrow().calls.clone()
    }

    fn answering(&self, addr: &str) -> Result<FakeMachine, String> {
        let state = self.state.borrow();
        let found = state.machines.iter().find(|(a, _)| a == addr);
        found.map(|(_, m)| m.clone()).ok_or_else(|| "connection timed out".to_string())
    }

    fn willing(&self, addr: &str) -> Result<(), String> {
        match self.answering(addr)?.refuses {
            Some(why) => Err(why),
            None => Ok(()),
        }
    }

    fn peer(&self, addr: &str) -> Result<PeerInfo, String> {
        let m = self.answering(addr)?;
        Ok(PeerInfo { name: m.name, addr: addr.to_string(), reset: m.reset })
    }

    fn platform_nodes(&self) -> Result<Option<Vec<PlatformNode>>, String> {
        let state = self.state.borrow();
        if state.platform_down {
            return Err("platform unreachable".to_string());
        }
        Ok(state.platform.as_ref().map(|nodes| {
            nodes
                .iter()
                .map(|(id, addr)| PlatformNode { node_id: *id, sub_ipv6: addr.clone() })
                .collect()
        }))
    }
}

struct FakeHost {
    calls: Vec<String>,
    script: Vec<(String, VecDeque<Result<String, String>>)>,
    files: Files,
    net: FakeNetwork,
}

impl FakeHost {
    fn new() -> Self {
        FakeHost { calls: Vec::new(), script: Vec::new(), files: files(), net: FakeNetwork::default() }
    }

    fn push(&mut self, prefix: &str, answer: Result<String, String>) {
        match self.script.iter_mut().find(|(p, _)| p == prefix) {
            Some((_, q)) => q.push_back(answer),
            None => self.script.push((prefix.to_string(), VecDeque::from([answer]))),
        }
    }

    /// What a command answers; the last answer repeats.
    fn ok(mut self, prefix: &str, out: &str) -> Self {
        self.push(prefix, Ok(out.to_string()));
        self
    }

    fn fail(mut self, prefix: &str, err: &str) -> Self {
        self.push(prefix, Err(err.to_string()));
        self
    }

    /// The longest matching prefix wins.
    fn answer(&mut self, cmd: &str) -> Result<String, String> {
        self.calls.push(cmd.to_string());
        let best = self
            .script
            .iter_mut()
            .filter(|(p, _)| cmd.starts_with(p.as_str()))
            .max_by_key(|(p, _)| p.len());
        match best {
            Some((_, q)) if q.len() > 1 => q.pop_front().unwrap(),
            Some((_, q)) => q.front().unwrap().clone(),
            None => Err(format!("unscripted command: {cmd}")),
        }
    }

    fn calls(&self) -> Vec<String> {
        self.calls.clone()
    }

    fn ran(&self, needle: &str) -> bool {
        self.calls.iter().any(|c| c.contains(needle))
    }

    fn position(&self, needle: &str) -> Option<usize> {
        self.calls.iter().position(|c| c.contains(needle))
    }

    fn run(&mut self, bin: &str, args: &[String], input: &Option<String>) -> Answer {
        let cmd = match input {
            Some(text) => format!("{bin}-{} {text}", args[0]),
            None => format!("{bin} {}", args.join(" ")),
        };
        let (success, stdout, stderr) = match self.answer(&cmd) {
            Ok(out) => (true, out, String::new()),
            Err(err) => (false, String::new(), err),
        };
        Answer::Output(Ok(CommandOutput { success, stdout, stderr }))
    }

    fn perform(&mut self, ask: Ask) -> Answer {
        match ask {
            Ask::Run { bin, args, input, .. } => self.run(&bin, &args, &input),
            Ask::Sleep { .. } | Ask::Wake { .. } => Answer::Done,
            Ask::LoadFile { path } => Answer::File(Ok(self
                .files
                .borrow()
                .iter()
                .find(|(p, _)| *p == path)
                .map(|(_, t)| t.clone()))),
            Ask::ReplaceFile { path, text } => {
                self.files.borrow_mut().retain(|(p, _)| *p != path);
                self.files.borrow_mut().push((path, text));
                Answer::Did(Ok(()))
            }
            Ask::Peer { addr } => Answer::Peer(self.net.peer(&addr)),
            Ask::Prepare { addr, request } => {
                self.net.record(format!("prepare {addr} {}", request.server_addr));
                let done = self.net.willing(&addr);
                if done.is_ok() {
                    self.net.set_phase(&addr, &request.heal_id, PhaseView::Preparing, None);
                }
                Answer::Did(done)
            }
            Ask::Arm { addr, heal_id } => {
                self.net.record(format!("arm {addr}"));
                let done = self.net.willing(&addr);
                if done.is_ok() {
                    self.net.set_phase(&addr, &heal_id, PhaseView::Armed, None);
                }
                Answer::Did(done)
            }
            Ask::Undo { addr, heal_id } => {
                self.net.record(format!("undo {addr}"));
                let done = self.net.answering(&addr).map(|_| ());
                if done.is_ok() {
                    self.net.set_phase(&addr, &heal_id, PhaseView::Undone, None);
                }
                Answer::Did(done)
            }
            Ask::Reboot { addr } => {
                self.net.record(format!("reboot {addr}"));
                Answer::Did(self.net.answering(&addr).map(|_| ()))
            }
            Ask::PlatformNodes => Answer::Platform(self.net.platform_nodes()),
            Ask::DeletePlatformNode { id } => {
                self.net.record(format!("delete platform node {id}"));
                Answer::Did(Ok(()))
            }
            other => panic!("nothing answers {other:?}"),
        }
    }

    /// On a machine with these files, among these machines.
    fn on(&mut self, disk: &Files, net: &FakeNetwork) -> &mut Self {
        self.files = disk.clone();
        self.net = net.clone();
        self
    }

    /// Runs a procedure, answering what it asks, until it is done.
    fn drive<T>(&mut self, f: impl Fn(&mut Script) -> Result<T, Ask>) -> T {
        let mut script = Script::new();
        loop {
            match f(&mut script) {
                Ok(done) => return done,
                Err(ask) => {
                    let answer = self.perform(ask);
                    script.answer(answer);
                }
            }
        }
    }
}

fn names(items: &[&str]) -> Names {
    Names::of(&items.iter().map(|s| s.to_string()).collect())
}

fn shown<T: Debug>(v: &T) -> String {
    format!("{v:?}")
}

fn mon_status_json(state: &str, mons: &[(&str, &str)]) -> String {
    let mons: Vec<String> = mons
        .iter()
        .map(|(n, addr)| {
            format!(
                r#"{{"name": "{n}", "public_addrs": {{"addrvec": [
                    {{"type": "v2", "addr": "[{addr}]:3300", "nonce": 0}},
                    {{"type": "v1", "addr": "[{addr}]:6789", "nonce": 0}}]}}}}"#
            )
        })
        .collect();
    format!(
        r#"{{"name": "node1", "state": "{state}", "monmap": {{"mons": [{}]}}}}"#,
        mons.join(",")
    )
}

fn nodes_json(names: &[&str]) -> String {
    let items: Vec<String> = names
        .iter()
        .enumerate()
        .map(|(i, n)| {
            let at = i + 1;
            format!(
                r#"{{"metadata": {{"name": "{n}"}}, "status": {{"addresses": [
                    {{"type": "InternalIP", "address": "fd00::{at}"}}]}}}}"#
            )
        })
        .collect();
    format!(r#"{{"items": [{}]}}"#, items.join(","))
}

fn local() -> (Files, LocalRecord) {
    (files(), LocalRecord::under("/"))
}

fn on(disk: &Files) -> FakeHost {
    FakeHost { files: disk.clone(), ..FakeHost::new() }
}

fn keep(disk: &Files, record: &LocalRecord, heal: &Heal) {
    on(disk).drive(|s| fleet::save(s, record, heal)).unwrap();
}

fn stored(disk: &Files, record: &LocalRecord) -> Result<Option<Heal>, Error> {
    on(disk).drive(|s| fleet::load(s, record))
}

/// node1 (this machine) and node3 answer; node2 is gone. Ceph has no quorum and
/// Kubernetes does not answer.
fn broken_cluster() -> (FakeHost, FakeNetwork) {
    let host = FakeHost::new()
        .ok(
            MON_STATUS,
            &mon_status_json("probing", &[("node1", "fd00::1"), ("node2", "fd00::2"), ("node3", "fd00::3")]),
        )
        .fail(READYZ, "connection refused");
    let net = FakeNetwork::with(&[("node1", "fd00::1"), ("node3", "fd00::3")]).platform(&[
        (11, "fd00::1"),
        (12, "fd00::2"),
        (13, "fd00::3"),
    ]);
    (host, net)
}

fn request() -> HealRequest {
    HealRequest {
        keep_machines: names(&["node1", "node3"]),
        remove_machines: names(&["node2"]),
    }
}

fn started(host: &mut FakeHost, net: &FakeNetwork, disk: &Files, record: &LocalRecord) -> Heal {
    host.on(disk, net)
        .drive(|s| {
            start_heal(s, record, "node1", "fd00::1", &request(), 5_000, "ab12", FSID, NOW)
        })
        .unwrap()
}

fn creds(password: &str, key: &str) -> Credentials {
    vec![
        ("access_key_id".to_string(), key.to_string()),
        (PASSWORD.to_string(), password.to_string()),
    ]
}

#[test]
fn mon_status_gives_quorum_and_every_mon_with_its_address() {
    let s = parse_mon_status(&mon_status_json("peon", &[("node1", "fd00::1"), ("node2", "fd00::2")])).unwrap();
    assert!(s.in_quorum);
    assert_eq!(
        s.machines.iter().map(|m| (m.name.as_str(), m.addr.as_str())).collect::<Vec<_>>(),
        vec![("node1", "fd00::1"), ("node2", "fd00::2")]
    );
    assert!(!parse_mon_status(&mon_status_json("probing", &[])).unwrap().in_quorum);
    assert!(!parse_mon_status(&mon_status_json("electing", &[])).unwrap().in_quorum);
    assert!(parse_mon_status("{}").is_err());
    assert!(parse_mon_status(r#"{"state":"leader","monmap":{"mons":[{"name":"x"}]}}"#).is_err());
}

#[test]
fn addresses_from_different_lists_are_compared_as_addresses() {
    assert_eq!(host_of("[fd00::1]:3300").as_deref(), Some("fd00::1"));
    assert_eq!(host_of("nope"), None);
    assert_eq!(normalize("fd00:0:0::1/128"), "fd00::1");
    assert_eq!(normalize("fd00::1"), "fd00::1");
}

#[test]
fn a_new_fsid_is_a_version_4_uuid() {
    let a = new_fsid();
    assert_eq!(a.len(), 36);
    assert_eq!(&a[14..15], "4");
    assert!(rewrite_config("[node.k3s]\n", "", &a).is_ok());
    assert_ne!(a, new_fsid());
}

#[test]
fn every_listed_machine_is_asked_and_the_silent_ones_are_left_behind() {
    let (mut host, net) = broken_cluster();
    // A machine only the platform knows, which does not answer either.
    net.state.borrow_mut().platform.as_mut().unwrap().push((14, "fd00:0::4".to_string()));

    let s = host.on(&files(), &net).drive(|s| survey(s, "node1", "fd00::1", 5_000));

    let kept = labels_of(&s.kept());
    let gone: Vec<(String, Option<i64>)> = s.gone().iter().map(|m| (m.label(), m.platform_id)).collect();
    assert_eq!(kept, ["node1", "node3"]);
    assert_eq!(gone, [("node2".to_string(), Some(12)), ("fd00::4".to_string(), Some(14))]);
    assert!(s.machines.iter().find(|m| m.addr == "fd00::1").unwrap().this_machine);
    assert_eq!(s.problems(), ["machines_gone", "ceph_no_quorum", "kubernetes_down"]);
    assert_eq!(s.refusal(None), None);
}

#[test]
fn with_the_platform_down_the_monmap_still_lists_the_machines() {
    let (mut host, net) = broken_cluster();
    net.state.borrow_mut().platform_down = true;
    let s = host.on(&files(), &net).drive(|s| survey(s, "node1", "fd00::1", 5_000));
    assert_eq!(labels_of(&s.gone()), ["node2"]);
    assert!(s.unreadable[0].contains("platform"));
    assert_eq!(s.refusal(None), None);
}

#[test]
fn a_heal_is_refused_when_no_list_of_machines_can_be_read() {
    let mut host = FakeHost::new()
        .fail(MON_STATUS, "admin socket not found")
        .fail(READYZ, "refused");
    let net = FakeNetwork::with(&[("node1", "fd00::1")]);
    net.state.borrow_mut().platform_down = true;
    let s = host.on(&files(), &net).drive(|s| survey(s, "node1", "fd00::1", 5_000));
    assert!(s.refusal(None).unwrap().contains("no list"));
}

#[test]
fn tests_a_healthy_cluster_has_nothing_to_heal() {
    let mut host = FakeHost::new()
        .ok(MON_STATUS, &mon_status_json("leader", &[("node1", "fd00::1"), ("node2", "fd00::2")]))
        .ok("ceph osd dump", r#"{"osds":[{"osd":0,"up":1,"in":1}],"pools":[]}"#)
        .ok("ceph pg dump pgs_brief", "[]")
        .ok(READYZ, "ok")
        .ok(NODES, &nodes_json(&["node1", "node2"]));
    let net = FakeNetwork::with(&[("node1", "fd00::1"), ("node2", "fd00::2")]);
    let s = host.on(&files(), &net).drive(|s| survey(s, "node1", "fd00::1", 5_000));
    assert!(s.problems().is_empty(), "{:?}", s.problems());
    assert!(s.refusal(None).unwrap().contains("nothing is wrong"));
}

#[test]
fn a_heal_another_answering_machine_drives_is_not_started_over() {
    let (mut host, net) = broken_cluster();
    net.set_phase("fd00::3", "ffff", PhaseView::Preparing, None);
    net.drive_from("fd00::3", "node3");
    let s = host.on(&files(), &net).drive(|s| survey(s, "node1", "fd00::1", 5_000));
    assert!(s.refusal(None).unwrap().contains("node3 is already healing"));

    // Its driver is gone: this machine may take over.
    net.drive_from("fd00::3", "node2");
    let s = host.on(&files(), &net).drive(|s| survey(s, "node1", "fd00::1", 5_000));
    assert_eq!(s.refusal(None), None);
}

#[test]
fn a_heal_starts_only_on_what_the_owner_saw() {
    let (mut host, net) = broken_cluster();
    let (disk, record) = local();
    let stale = HealRequest {
        keep_machines: names(&["node1"]),
        remove_machines: names(&["node2", "node3"]),
    };
    let err = host.on(&disk, &net).drive(|s| start_heal(s, &record, "node1", "fd00::1", &stale, 5_000, "ab12", FSID, NOW))
        .unwrap_err();
    assert!(err.chain().contains("changed since the page was loaded"), "{err:?}");
    assert!(stored(&disk, &record).unwrap().is_none());

    let heal = started(&mut host, &net, &disk, &record);
    assert_eq!(heal.step, Step::Prepare);
    assert_eq!(
        shown(&heal.members),
        shown(&vec![
            Member { name: "node3".into(), addr: "fd00::3".into() },
            Member { name: "node1".into(), addr: "fd00::1".into() },
        ]),
        "the driver last"
    );
    assert_eq!(heal.gone[0].platform_id, Some(12));
    assert_eq!(shown(&stored(&disk, &record).unwrap()), shown(&Some(heal.clone())));

    let err = host.on(&disk, &net).drive(|s| start_heal(s, &record, "node1", "fd00::1", &request(), 5_000, "cd34", FSID, NOW))
        .unwrap_err();
    assert!(err.chain().contains("already healing"), "{err:?}");
}

#[test]
fn the_driver_creates_the_cluster_and_every_other_machine_joins_it() {
    let heal = Heal {
        id: "ab12".into(),
        driver: "node1".into(),
        started_at: NOW,
        finished_at: None,
        step: Step::Prepare,
        fsid: new_fsid(),
        members: vec![
            Member { name: "node3".into(), addr: "fd00::3".into() },
            Member { name: "node1".into(), addr: "fd00::1".into() },
        ],
        gone: vec![],
        restart_boot_id: None,
        waiting: None,
        failed: None,
    };
    assert_eq!(heal.request_for(&heal.members[1]).unwrap().server_addr, "");
    assert_eq!(
        heal.request_for(&heal.members[0]).unwrap().server_addr,
        "https://[fd00::1]:6443"
    );
}

#[test]
fn a_heal_prepares_everywhere_arms_restarts_all_and_waits_for_the_new_cluster() {
    let (mut host, net) = broken_cluster();
    let (disk, record) = local();
    started(&mut host, &net, &disk, &record);
    let mut host = host.ok("systemctl reboot", "");

    // Prepare: every machine is asked, this one too, then waited for.
    host.on(&disk, &net).drive(|s| tick(s, &record, "boot1", NOW + 10)).unwrap();
    let calls = net.calls();
    assert!(calls.contains(&"prepare fd00::3 https://[fd00::1]:6443".to_string()), "{calls:?}");
    assert!(calls.contains(&"prepare fd00::1 ".to_string()), "{calls:?}");
    assert!(!calls.iter().any(|c| c.starts_with("arm")), "nothing is armed before all are prepared");
    let heal = stored(&disk, &record).unwrap().unwrap();
    assert_eq!(heal.step, Step::Prepare);
    assert!(heal.waiting.unwrap().contains("preparing"));

    // One is prepared, the other not yet: still nothing armed.
    net.set_phase("fd00::3", "ab12", PhaseView::Prepared, None);
    host.on(&disk, &net).drive(|s| tick(s, &record, "boot1", NOW + 15)).unwrap();
    assert!(!net.calls().iter().any(|c| c.starts_with("arm")));

    // Prepared everywhere: arm (the driver last), then restart everyone.
    net.set_phase("fd00::1", "ab12", PhaseView::Prepared, None);
    host.on(&disk, &net).drive(|s| tick(s, &record, "boot1", NOW + 20)).unwrap();
    let calls = net.calls();
    let at = |c: &str| calls.iter().position(|x| x == c).unwrap();
    assert!(at("arm fd00::3") < at("arm fd00::1"));
    assert!(at("arm fd00::1") < at("reboot fd00::3"));
    assert!(!calls.contains(&"reboot fd00::1".to_string()), "this machine restarts itself");
    assert!(host.ran("systemctl reboot"));
    let heal = stored(&disk, &record).unwrap().unwrap();
    assert_eq!(heal.step, Step::Rebuild);
    assert_eq!(heal.restart_boot_id.as_deref(), Some("boot1"));

    // Back up in a new boot, before Kubernetes is.
    net.set_phase("fd00::3", "ab12", PhaseView::Restarted, None);
    let mut host = FakeHost::new().fail(READYZ, "refused");
    host.on(&disk, &net).drive(|s| tick(s, &record, "boot2", NOW + 300)).unwrap();
    assert!(stored(&disk, &record).unwrap().unwrap().waiting.unwrap().contains("Kubernetes is starting"));

    // Kubernetes answers, node3 has not joined yet.
    let mut host = FakeHost::new().ok(READYZ, "ok").ok(NODES, &nodes_json(&["node1"]));
    host.on(&disk, &net).drive(|s| tick(s, &record, "boot2", NOW + 400)).unwrap();
    let heal = stored(&disk, &record).unwrap().unwrap();
    assert!(heal.running());
    assert!(heal.waiting.unwrap().contains("node3 has not joined"));
    assert!(!net.calls().iter().any(|c| c.starts_with("delete platform node")));

    // Everyone is in: node2 leaves the platform, and the heal is done.
    let mut host = FakeHost::new().ok(READYZ, "ok").ok(NODES, &nodes_json(&["node1", "node3"]));
    host.on(&disk, &net).drive(|s| tick(s, &record, "boot2", NOW + 500)).unwrap();
    let heal = stored(&disk, &record).unwrap().unwrap();
    assert_eq!(heal.finished_at, Some(NOW + 500));
    assert_eq!(heal.failed, None);
    assert!(net.calls().contains(&"delete platform node 12".to_string()));
    assert!(!net.calls().iter().any(|c| c.starts_with("undo")));
}

#[test]
fn a_restart_that_never_happened_is_tried_again() {
    let (mut host, net) = broken_cluster();
    let (disk, record) = local();
    let mut heal = started(&mut host, &net, &disk, &record);
    heal.step = Step::Rebuild;
    heal.restart_boot_id = Some("boot1".into());
    keep(&disk, &record, &heal);
    let mut host = FakeHost::new().ok("systemctl reboot", "");
    host.on(&disk, &net).drive(|s| tick(s, &record, "boot1", NOW + 30)).unwrap();
    assert!(host.ran("systemctl reboot"));
}

#[test]
fn a_machine_that_did_not_restart_is_asked_again() {
    let (mut host, net) = broken_cluster();
    let (disk, record) = local();
    let mut heal = started(&mut host, &net, &disk, &record);
    heal.step = Step::Rebuild;
    heal.restart_boot_id = Some("boot1".into());
    keep(&disk, &record, &heal);
    net.set_phase("fd00::3", "ab12", PhaseView::Armed, None);
    let mut host = FakeHost::new().ok(READYZ, "ok").ok(NODES, &nodes_json(&["node1"]));
    host.on(&disk, &net).drive(|s| tick(s, &record, "boot2", NOW + 30)).unwrap();
    assert!(net.calls().contains(&"reboot fd00::3".to_string()));
    assert!(stored(&disk, &record).unwrap().unwrap().waiting.unwrap().contains("node3 has not restarted"));
}

#[test]
fn a_failed_prepare_undoes_the_heal_on_every_machine() {
    let (mut host, net) = broken_cluster();
    let (disk, record) = local();
    started(&mut host, &net, &disk, &record);
    net.set_phase("fd00::1", "ab12", PhaseView::Prepared, None);
    net.set_phase("fd00::3", "ab12", PhaseView::Failed, Some("no space left on device"));

    host.on(&disk, &net).drive(|s| tick(s, &record, "boot1", NOW + 10)).unwrap();

    let heal = stored(&disk, &record).unwrap().unwrap();
    assert!(heal.failed.as_deref().unwrap().contains("no space left"));
    assert_eq!(heal.finished_at, Some(NOW + 10));
    let calls = net.calls();
    assert!(calls.contains(&"undo fd00::3".to_string()) && calls.contains(&"undo fd00::1".to_string()));
    assert!(!calls.iter().any(|c| c.starts_with("arm") || c.starts_with("reboot")));
    assert!(!host.ran("systemctl reboot"));
}

#[test]
fn a_machine_that_cannot_be_armed_undoes_the_ones_that_were() {
    let (mut host, net) = broken_cluster();
    let (disk, record) = local();
    started(&mut host, &net, &disk, &record);
    net.set_phase("fd00::3", "ab12", PhaseView::Prepared, None);
    net.set_phase("fd00::1", "ab12", PhaseView::Prepared, None);
    net.refuse("fd00::1", "read-only file system");
    let mut heal = stored(&disk, &record).unwrap().unwrap();
    heal.step = Step::Arm;
    keep(&disk, &record, &heal);

    host.on(&disk, &net).drive(|s| tick(s, &record, "boot1", NOW + 10)).unwrap();

    let heal = stored(&disk, &record).unwrap().unwrap();
    assert!(heal.failed.as_deref().unwrap().contains("node1 could not be armed"));
    let calls = net.calls();
    assert!(calls.contains(&"arm fd00::3".to_string()));
    assert!(calls.contains(&"undo fd00::3".to_string()));
    assert!(!calls.iter().any(|c| c.starts_with("reboot")));
}

#[test]
fn an_undo_keeps_trying_a_machine_that_does_not_answer() {
    let (mut host, net) = broken_cluster();
    let (disk, record) = local();
    let mut heal = started(&mut host, &net, &disk, &record);
    heal.step = Step::Undo;
    heal.failed = Some("node3 could not be armed".into());
    keep(&disk, &record, &heal);
    net.disconnect("fd00::3");

    host.on(&disk, &net).drive(|s| tick(s, &record, "boot1", NOW + 10)).unwrap();
    let heal = stored(&disk, &record).unwrap().unwrap();
    assert!(heal.running());
    assert!(heal.waiting.unwrap().contains("node3"));

    // A new heal may replace it: nothing is half-done any more.
    assert!(Step::Undo.replaceable() && Step::Rebuild.replaceable());
    assert!(!Step::Arm.replaceable() && !Step::Prepare.replaceable());
}

#[test]
fn a_prepare_that_never_finishes_is_given_up() {
    let (mut host, net) = broken_cluster();
    let (disk, record) = local();
    started(&mut host, &net, &disk, &record);
    net.set_phase("fd00::1", "ab12", PhaseView::Prepared, None);
    net.set_phase("fd00::3", "ab12", PhaseView::Preparing, None);
    host.on(&disk, &net).drive(|s| tick(s, &record, "boot1", NOW + PREPARE_WAIT_SECS)).unwrap();
    let heal = stored(&disk, &record).unwrap().unwrap();
    assert!(heal.failed.unwrap().contains("did not finish preparing"));
}

#[test]
fn backups_stop_only_when_app_data_is_lost() {
    let mut lost = PgsByPool::new();
    lost.put("yolab-images", "2.1");
    assert_eq!(blocked_by_loss(&lost), None);
    lost.put("yolab-fs-data0", "3.1");
    assert!(blocked_by_loss(&lost).is_some());
}

#[test]
fn the_secret_is_copied_whenever_it_changes() {
    assert_eq!(shown(&decide(Some(creds("p", "k")), None)), shown(&Action::Save(creds("p", "k"))));
    assert_eq!(shown(&decide(Some(creds("p", "rotated")), Some(creds("p", "k")))), shown(&Action::Save(creds("p", "rotated"))));
    assert_eq!(shown(&decide(Some(creds("p", "k")), Some(creds("p", "k")))), shown(&Action::Nothing));
}

#[test]
fn a_missing_secret_comes_back_from_the_copy() {
    assert_eq!(shown(&decide(None, Some(creds("p", "k")))), shown(&Action::Restore(creds("p", "k"))));
    assert_eq!(shown(&decide(None, None)), shown(&Action::Nothing),
        "backups were never enabled");
}

#[test]
fn nothing_without_a_password_is_ever_copied_or_restored() {
    assert_eq!(shown(&decide(Some(creds("", "k")), Some(creds("p", "k")))), shown(&Action::Nothing));
    assert_eq!(shown(&decide(None, Some(creds("", "k")))), shown(&Action::Nothing));
}

#[test]
fn the_copy_round_trips_and_is_root_only() {
    let mut host = FakeHost::new();
    assert!(host.drive(|s| read_copy(s, "/")).unwrap().is_none());
    host.drive(|s| write_copy(s, "/", &creds("p", "k"))).unwrap();
    assert_eq!(
        shown(&host.drive(|s| read_copy(s, "/")).unwrap()),
        shown(&Some(creds("p", "k")))
    );
}
