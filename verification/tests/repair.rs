//! Mending a cluster that lost machines or disks.

use std::cell::RefCell;
use std::collections::VecDeque;
use std::fmt::Debug;
use std::rc::Rc;

use local_api::effects::{Answer, Ask, Script};
use local_api::error::Error;
use local_api::exec::CommandOutput;
use local_api::heal::drive::{
    backup_block, read_request, start_heal, survey, HealRequest, LocalRecord, MONMAP_PATH,
};
use local_api::heal::page::status_json;
use local_api::heal::repair::{
    heal_text, Heal, Machine, Step, CLAIM_SETTLE_SECS, KUBERNETES_GRACE_SECS,
};
use local_api::heal::run::{newest, run_step, tick};
use local_api::heal::steps::{osds_on_hosts, StepResult};
use local_api::heal::survey::{host_of, parse_mon_status, MachineState, Survey};
use local_api::json::{parse, render, Json};
use local_api::names::Names;
use local_api::runtime::Tick;

const NOW: u64 = 1_000_000;
const HEAL_GET: &str = "ceph config-key get yolab/heal";
const HEAL_SET: &str = "ceph config-key set yolab/heal";
const NO_KEY: &str = "Error ENOENT: key doesn't exist";
const MON_STATUS: &str = "ceph daemon mon.node1 mon_status";

/// The files of a machine, which outlive its programs.
type Files = Rc<RefCell<Vec<(String, String)>>>;

fn files() -> Files {
    Rc::new(RefCell::new(Vec::new()))
}

fn put(disk: &Files, path: &str, text: &str) {
    disk.borrow_mut().retain(|(p, _)| p != path);
    disk.borrow_mut().push((path.to_string(), text.to_string()));
}

#[derive(Clone, Default)]
struct FakeNetwork {
    answering: Vec<String>,
    /// Answer, but reject the restart request.
    refusing: Vec<String>,
}

impl FakeNetwork {
    fn answering(names: &[&str]) -> Self {
        Self { answering: list(names), ..Default::default() }
    }
}

struct FakeHost {
    calls: Vec<String>,
    script: Vec<(String, VecDeque<Result<String, String>>)>,
    files: Files,
    net: FakeNetwork,
    restarted: Vec<String>,
}

impl FakeHost {
    fn new() -> Self {
        FakeHost { calls: Vec::new(), script: Vec::new(), files: files(), net: FakeNetwork::default(), restarted: Vec::new() }
    }

    fn push(&mut self, prefix: &str, answer: Result<String, String>) {
        match self.script.iter_mut().find(|(p, _)| p == prefix) {
            Some((_, q)) => q.push_back(answer),
            None => self.script.push((prefix.to_string(), VecDeque::from([answer]))),
        }
    }

    /// What a command answers; the last answer repeats.
    fn ok(mut self, prefix: &str, out: &str) -> Self {
        self.push(prefix, Ok(out.to_string()));
        self
    }

    fn fail(mut self, prefix: &str, err: &str) -> Self {
        self.push(prefix, Err(err.to_string()));
        self
    }

    /// The longest matching prefix wins.
    fn answer(&mut self, cmd: &str) -> Result<String, String> {
        self.calls.push(cmd.to_string());
        let best = self
            .script
            .iter_mut()
            .filter(|(p, _)| cmd.starts_with(p.as_str()))
            .max_by_key(|(p, _)| p.len());
        match best {
            Some((_, q)) if q.len() > 1 => q.pop_front().unwrap(),
            Some((_, q)) => q.front().unwrap().clone(),
            None => Err(format!("unscripted command: {cmd}")),
        }
    }

    fn calls(&self) -> Vec<String> {
        self.calls.clone()
    }

    fn ran(&self, needle: &str) -> bool {
        self.calls.iter().any(|c| c.contains(needle))
    }

    fn position(&self, needle: &str) -> Option<usize> {
        self.calls.iter().position(|c| c.contains(needle))
    }

    fn run(&mut self, bin: &str, args: &[String], input: &Option<String>) -> Answer {
        let cmd = match input {
            Some(text) => format!("{bin}-{} {text}", args[0]),
            None => format!("{bin} {}", args.join(" ")),
        };
        let (success, stdout, stderr) = match self.answer(&cmd) {
            Ok(out) => (true, out, String::new()),
            Err(err) => (false, String::new(), err),
        };
        Answer::Output(Ok(CommandOutput { success, stdout, stderr }))
    }

    fn perform(&mut self, ask: Ask) -> Answer {
        match ask {
            Ask::Run { bin, args, input, .. } => self.run(&bin, &args, &input),
            Ask::Sleep { .. } | Ask::Wake { .. } => Answer::Done,
            Ask::LoadFile { path } => Answer::File(Ok(self
                .files
                .borrow()
                .iter()
                .find(|(p, _)| *p == path)
                .map(|(_, t)| t.clone()))),
            Ask::ReplaceFile { path, text } => {
                put(&self.files, &path, &text);
                Answer::Did(Ok(()))
            }
            Ask::RemoveFile { path } => {
                self.files.borrow_mut().retain(|(p, _)| *p != path);
                Answer::Did(Ok(()))
            }
            Ask::Answers { name, .. } => Answer::Yes(self.net.answering.contains(&name)),
            Ask::RestartPeer { name, .. } => {
                let agrees =
                    self.net.answering.contains(&name) && !self.net.refusing.contains(&name);
                self.restarted.push(name);
                Answer::Did(if agrees { Ok(()) } else { Err("no answer".to_string()) })
            }
            other => panic!("nothing answers {other:?}"),
        }
    }

    /// On a machine with these files, among these machines.
    fn on(&mut self, disk: &Files, net: &FakeNetwork) -> &mut Self {
        self.files = disk.clone();
        self.net = net.clone();
        self
    }

    fn step(
        &mut self,
        rec: &LocalRecord,
        heal: &mut Heal,
        me: &str,
        boot_id: &str,
        now: u64,
    ) -> Result<StepResult, Error> {
        let (after, result) =
            self.drive(|s| run_step(s, rec, heal.clone(), me, boot_id, now));
        *heal = after;
        result
    }

    /// Runs a procedure, answering what it asks, until it is done.
    fn drive<T>(&mut self, f: impl Fn(&mut Script) -> Result<T, Ask>) -> T {
        let mut script = Script::new();
        loop {
            match f(&mut script) {
                Ok(done) => return done,
                Err(ask) => {
                    let answer = self.perform(ask);
                    script.answer(answer);
                }
            }
        }
    }
}

fn list(items: &[&str]) -> Vec<String> {
    items.iter().map(|s| s.to_string()).collect()
}

fn names(items: &[&str]) -> Names {
    Names::of(&list(items))
}

fn shown<T: Debug>(v: &T) -> String {
    format!("{v:?}")
}

fn field(v: &Json, key: &str) -> String {
    render(v.get(key).unwrap_or_else(|| panic!("no {key}")))
}

fn tidy(text: &str) -> String {
    render(&parse(text).unwrap())
}

fn machine(name: &str, addr: &str) -> Machine {
    Machine { name: name.into(), addr: addr.into() }
}

fn mon_status_json(state: &str, mons: &[&str]) -> String {
    let mons: Vec<String> = mons
        .iter()
        .enumerate()
        .map(|(i, n)| {
            let at = i + 1;
            format!(
                r#"{{"name": "{n}", "public_addrs": {{"addrvec": [
                    {{"type": "v2", "addr": "[fd00::{at}]:3300", "nonce": 0}},
                    {{"type": "v1", "addr": "[fd00::{at}]:6789", "nonce": 0}}]}}}}"#
            )
        })
        .collect();
    format!(
        r#"{{"name": "node1", "state": "{state}", "monmap": {{"mons": [{}]}}}}"#,
        mons.join(",")
    )
}

fn dump(up: &[(i64, bool)]) -> String {
    let osds: Vec<String> = up
        .iter()
        .map(|(id, u)| format!(r#"{{"osd": {id}, "up": {}, "in": 1}}"#, i32::from(*u)))
        .collect();
    format!(
        r#"{{"osds": [{}], "pools": [{{"pool": 3, "pool_name": "yolab-fs-data0"}}]}}"#,
        osds.join(",")
    )
}

fn heal_at(step: Step) -> Heal {
    Heal {
        id: "h1".into(),
        driver: "node1".into(),
        started_at: NOW - 100,
        finished_at: None,
        step,
        gone: names(&["node2"]),
        peers: vec![machine("node3", "fd00::3")],
        reset_kubernetes: false,
        claim_after: Some(NOW - 50),
        restart_boot_id: None,
        waiting: None,
    }
}

fn local() -> (Files, LocalRecord) {
    (files(), LocalRecord::under("/"))
}

fn on(disk: &Files) -> FakeHost {
    FakeHost { files: disk.clone(), ..FakeHost::new() }
}

fn keep(disk: &Files, rec: &LocalRecord, heal: &Heal) {
    on(disk).drive(|s| rec.save(s, heal)).unwrap();
}

fn stored(disk: &Files, rec: &LocalRecord) -> Result<Option<Heal>, Error> {
    on(disk).drive(|s| rec.load(s))
}

fn removed(disk: &Files, rec: &LocalRecord) {
    on(disk).drive(|s| rec.remove(s)).unwrap();
}

fn survey_host(state: &str, mons: &[&str], kubernetes: bool) -> FakeHost {
    let host = FakeHost::new()
        .ok(MON_STATUS, &mon_status_json(state, mons))
        .ok("ceph osd dump", &dump(&[(0, true), (1, false)]))
        .ok(
            "ceph pg dump pgs_brief",
            r#"[{"pgid": "3.1", "state": "stale+active+clean", "acting": [1]}]"#,
        );
    if kubernetes {
        host.ok("kubectl get --raw /readyz", "ok")
    } else {
        host.fail("kubectl get --raw /readyz", "connection refused")
    }
}

fn survey_of(
    machines: &[(&str, bool)],
    ceph_quorum: bool,
    kubernetes: bool,
    lost: usize,
) -> Survey {
    Survey {
        me: "node1".into(),
        machines: machines
            .iter()
            .enumerate()
            .map(|(i, (name, answers))| MachineState {
                name: name.to_string(),
                addr: format!("fd00::{}", i + 1),
                this_machine: *name == "node1",
                answers: *answers,
            })
            .collect(),
        ceph_quorum,
        kubernetes,
        uptime_secs: 3600,
        down_osds: None,
        lost_groups: ceph_quorum.then_some(lost),
    }
}

fn request(machines: &[&str]) -> HealRequest {
    HealRequest { remove_machines: names(machines) }
}

fn step(host: &mut FakeHost, heal: &mut Heal) -> Result<StepResult, Error> {
    let (disk, rec) = local();
    host.on(&disk, &FakeNetwork::answering(&["node3"])).step(&rec, heal, "node1", "boot-a", NOW)
}

fn tree() -> String {
    r#"{"nodes": [
        {"id": -2, "name": "node1", "type": "host", "children": [0, 1]},
        {"id": -3, "name": "node2", "type": "host", "children": [2]},
        {"id": 0, "name": "osd.0", "type": "osd"}
    ]}"#
    .to_string()
}

fn wipe_host(osd_ls_after: &str) -> FakeHost {
    FakeHost::new()
        .ok("ceph osd tree", &tree())
        .ok("ceph osd dump", &dump(&[(0, true), (1, false), (2, true)]))
        // After `osd down`, the gone machine's OSD reads down.
        .ok("ceph osd dump", &dump(&[(0, true), (1, false), (2, false)]))
        .ok("ceph osd down", "")
        .ok("ceph osd purge", "")
        .ok("ceph osd ls", osd_ls_after)
        .ok("ceph osd crush rm", "")
        .ok("ceph auth del", "")
        .ok("ceph config-key set yolab/removed-machines/node2", "")
        .ok("ceph fs ls", r#"[{"name": "yolab-fs"}]"#)
        .ok("ceph fs", "")
        .ok(
            "ceph osd pool ls",
            ".mgr\nimages\nyolab-fs-metadata\nyolab-fs-data0\n",
        )
        .ok("ceph config set mon", "")
        .ok("ceph osd pool delete", "")
        .ok(
            "ceph config-key dump yolab/disks/",
            r#"{"yolab/disks/serial-wwn-9": "ON", "yolab/disks/node1--dev-sdb": "OFF"}"#,
        )
        .ok(
            "ceph config-key dump yolab/disk-status/",
            r#"{"yolab/disk-status/node1": "{}", "yolab/disk-status/node2": "{}"}"#,
        )
        .ok("ceph config-key rm", "")
}

#[test]
fn mon_status_gives_quorum_and_every_machine_with_its_address() {
    let s = parse_mon_status(&mon_status_json("peon", &["node1", "node2"])).unwrap();
    assert!(s.in_quorum);
    assert_eq!(shown(&s.machines), shown(&vec![machine("node1", "fd00::1"), machine("node2", "fd00::2")]));
    assert!(
        !parse_mon_status(&mon_status_json("probing", &["node1"]))
            .unwrap()
            .in_quorum
    );
    assert!(
        !parse_mon_status(&mon_status_json("electing", &["node1"]))
            .unwrap()
            .in_quorum
    );
    assert!(parse_mon_status("{}").is_err());
    assert!(
        parse_mon_status(r#"{"state":"leader","monmap":{"mons":[{"name":"x"}]}}"#).is_err()
    );
}

#[test]
fn an_address_is_read_without_its_port() {
    assert_eq!(host_of("[fd00::1]:3300").as_deref(), Some("fd00::1"));
    assert_eq!(host_of("10.0.0.1:6789").as_deref(), Some("10.0.0.1"));
    assert_eq!(host_of("nope"), None);
}

#[test]
fn a_survey_sees_who_answers_and_what_is_lost() {
    let mut host = survey_host("leader", &["node1", "node2", "node3"], true);
    let s = host.on(&files(), &FakeNetwork::answering(&["node3"])).drive(|s| survey(s, "node1", 3600))
        .unwrap();
    assert_eq!(s.gone(), names(&["node2"]));
    assert_eq!(shown(&s.answering_peers()), shown(&vec![machine("node3", "fd00::3")]));
    assert!(s.ceph_quorum && s.kubernetes);
    assert_eq!(s.down_osds, Some(vec![1]));
    assert_eq!(s.lost_groups, Some(1));
    assert_eq!(s.problems(), vec!["machines_gone", "data_unreachable"]);
    assert_eq!(s.refusal(), None);
    assert!(!s.reset_kubernetes());
}

#[test]
fn without_quorum_the_survey_does_not_ask_ceph_about_disks() {
    let mut host = survey_host("probing", &["node1", "node2"], false);
    let s = host.on(&files(), &FakeNetwork::default()).drive(|s| survey(s, "node1", 3600))
        .unwrap();
    assert!(!s.ceph_quorum && !s.kubernetes);
    assert_eq!((&s.down_osds, s.lost_groups), (&None, None));
    assert!(!host.ran("osd dump"));
    assert_eq!(
        s.problems(),
        vec!["machines_gone", "ceph_no_quorum", "kubernetes_down"]
    );
    assert!(
        s.reset_kubernetes(),
        "the only machine left, and k3s has no quorum"
    );
}

#[test]
fn a_machine_whose_mon_does_not_answer_cannot_survey() {
    let mut host = FakeHost::new().fail(MON_STATUS, "admin socket not found");
    assert!(host.on(&files(), &FakeNetwork::default()).drive(|s| survey(s, "node1", 0))
        .is_err());
}

#[test]
fn heal_a_healthy_cluster_has_nothing_to_heal() {
    let s = survey_of(&[("node1", true), ("node2", true)], true, true, 0);
    assert!(s.problems().is_empty());
    assert!(s.refusal().unwrap().contains("nothing to heal"));
}

#[test]
fn a_lost_quorum_with_another_machine_answering_is_refused() {
    let s = survey_of(&[("node1", true), ("node2", true)], false, true, 0);
    assert!(s.refusal().unwrap().contains("node2 still answers"));
}

#[test]
fn a_lost_disk_between_two_answering_machines_is_healed_without_resetting_k3s() {
    let s = survey_of(&[("node1", true), ("node2", true)], true, false, 3);
    assert_eq!(s.refusal(), None);
    assert!(s.gone().is_empty());
    assert!(
        !s.reset_kubernetes(),
        "the other member answers: k3s comes back after restarts"
    );
}

#[test]
fn kubernetes_down_right_after_boot_is_not_yet_a_problem() {
    let mut s = survey_of(&[("node1", true)], true, false, 0);
    s.uptime_secs = 60;
    assert!(s.problems().is_empty());
    s.uptime_secs = KUBERNETES_GRACE_SECS;
    assert_eq!(s.problems(), vec!["kubernetes_down"]);
}

#[test]
fn a_machine_missing_from_its_own_monmap_cannot_drive() {
    let s = survey_of(&[("node2", false)], false, false, 0);
    assert!(s.refusal().unwrap().contains("not in its own monmap"));
}

#[test]
fn starting_with_quorum_claims_in_ceph_and_saves_locally() {
    let mut host = survey_host("leader", &["node1", "node2", "node3"], true)
        .fail(HEAL_GET, NO_KEY)
        .ok(HEAL_SET, "");
    let (disk, rec) = local();
    let net = FakeNetwork::answering(&["node3"]);
    let heal = host.on(&disk, &net).drive(|s| start_heal(s, &rec, "node1", &request(&["node2"]), 3600, "h1", NOW))
    .unwrap();
    assert_eq!(heal.step, Step::Claim);
    assert_eq!(heal.gone, names(&["node2"]));
    assert_eq!(shown(&heal.peers), shown(&vec![machine("node3", "fd00::3")]));
    assert_eq!(heal.claim_after, Some(NOW + CLAIM_SETTLE_SECS));
    assert!(!heal.reset_kubernetes);
    assert!(host.ran(HEAL_SET));
    assert_eq!(shown(&stored(&disk, &rec).unwrap()), shown(&Some(heal)));
    assert!(
        !host.ran("mon remove") && !host.ran("osd purge"),
        "the controller does the work"
    );
}

#[test]
fn starting_without_quorum_saves_only_locally() {
    let mut host = survey_host("probing", &["node1", "node2"], false);
    let (disk, rec) = local();
    let heal = host.on(&disk, &FakeNetwork::default()).drive(|s| start_heal(s, &rec, "node1", &request(&["node2"]), 3600, "h1", NOW))
    .unwrap();
    assert_eq!(heal.claim_after, None);
    assert!(heal.reset_kubernetes);
    assert!(!host.ran("config-key"));
}

#[test]
fn a_confirmation_that_no_longer_matches_is_refused() {
    for confirmed in [vec![], vec!["node2", "node3"]] {
        let mut host = survey_host("leader", &["node1", "node2", "node3"], true);
        let (disk, rec) = local();
        let err = host.on(&disk, &FakeNetwork::answering(&["node3"])).drive(|s| start_heal(s, &rec, "node1", &request(&confirmed), 3600, "h1", NOW))
        .unwrap_err();
        assert!(err.chain().contains("changed"), "{err:?}");
        assert!(stored(&disk, &rec).unwrap().is_none());
    }
}

#[test]
fn a_heal_already_running_here_or_elsewhere_is_refused() {
    let (disk, rec) = local();
    keep(&disk, &rec, &heal_at(Step::Wipe));
    let mut host = survey_host("leader", &["node1", "node2"], true);
    let err = host.on(&disk, &FakeNetwork::default()).drive(|s| start_heal(s, &rec, "node1", &request(&["node2"]), 3600, "h2", NOW))
    .unwrap_err();
    assert!(err.chain().contains("already healing"));

    let (disk, rec) = local();
    let mut elsewhere = heal_at(Step::Wipe);
    elsewhere.driver = "node3".into();
    let mut host = survey_host("leader", &["node1", "node2", "node3"], true)
        .ok(HEAL_GET, &heal_text(&elsewhere));
    let err = host.on(&disk, &FakeNetwork::answering(&["node3"])).drive(|s| start_heal(s, &rec, "node1", &request(&["node2"]), 3600, "h2", NOW))
    .unwrap_err();
    assert!(
        err.chain().contains("node3 is already healing"),
        "{err:?}"
    );
    assert!(!host.ran(HEAL_SET));
}

#[test]
fn the_local_record_round_trips_and_junk_is_an_error() {
    let (disk, rec) = local();
    assert!(stored(&disk, &rec).unwrap().is_none());
    let heal = heal_at(Step::Finish);
    keep(&disk, &rec, &heal);
    assert_eq!(shown(&stored(&disk, &rec).unwrap()), shown(&Some(heal)));
    put(&disk, "/var/lib/yolab/heal.json", "{nope");
    assert!(stored(&disk, &rec).is_err());
    removed(&disk, &rec);
    removed(&disk, &rec);
    assert!(stored(&disk, &rec).unwrap().is_none());
}

#[test]
fn the_steps_are_in_order_and_the_record_is_published_once_ceph_can_answer() {
    let mut s = Step::Claim;
    let mut order = vec![s];
    while let Some(n) = s.next() {
        order.push(n);
        s = n;
    }
    assert_eq!(order, Step::all());

    let mut h = heal_at(Step::Consensus);
    assert!(h.publishable(), "Ceph answered at the start");
    h.claim_after = None;
    assert!(!h.publishable());
    h.step = Step::Wipe;
    assert!(h.publishable());
}

#[test]
fn heal_state_gates_backups() {
    let mut host = FakeHost::new().ok(
        HEAL_GET,
        &heal_text(&heal_at(Step::Wipe)),
    );
    assert!(host.drive(|s| backup_block(s)).unwrap().is_some());

    let mut host = FakeHost::new()
        .fail(HEAL_GET, NO_KEY)
        .ok("ceph osd dump", &dump(&[(0, true), (1, false)]))
        .ok(
            "ceph pg dump pgs_brief",
            r#"[{"pgid": "3.1", "state": "stale", "acting": [1]}]"#,
        );
    assert!(host.drive(|s| backup_block(s))
        .unwrap()
        .unwrap()
        .contains("FORCE HEAL"));

    let mut host = FakeHost::new().fail(HEAL_GET, "timed out");
    assert!(host.drive(|s| backup_block(s)).is_err());
}

#[test]
fn the_claim_waits_and_then_yields_to_a_later_claim() {
    let mut h = heal_at(Step::Claim);
    h.claim_after = Some(NOW + 1);
    assert!(matches!(
        step(&mut FakeHost::new(), &mut h).unwrap(),
        StepResult::NotYet(_)
    ));

    h.claim_after = Some(NOW);
    let mut mine = FakeHost::new().ok(HEAL_GET, &heal_text(&h));
    assert_eq!(shown(&step(&mut mine, &mut h).unwrap()), shown(&StepResult::Done));

    let mut theirs = h.clone();
    theirs.id = "h2".into();
    let mut lost = FakeHost::new().ok(HEAL_GET, &heal_text(&theirs));
    assert_eq!(shown(&step(&mut lost, &mut h).unwrap()), shown(&StepResult::Abandon));

    h.claim_after = None;
    assert_eq!(shown(&step(&mut FakeHost::new(), &mut h).unwrap()), shown(&StepResult::Done));
}

#[test]
fn with_quorum_the_gone_machines_mons_are_removed_online() {
    let mut host = FakeHost::new()
        .ok("ceph --connect-timeout 10 mon dump", "{}")
        .ok(
            MON_STATUS,
            &mon_status_json("leader", &["node1", "node2", "node3"]),
        )
        .ok("ceph mon remove", "");
    let mut h = heal_at(Step::Consensus);
    assert_eq!(shown(&step(&mut host, &mut h).unwrap()), shown(&StepResult::Done));
    assert!(host.ran("ceph mon remove node2"));
    assert!(!host.ran("mon remove node3") && !host.ran("monmaptool"));
    assert!(!host.ran("cluster-reset"), "k3s was not to be reset");
}

#[test]
fn without_quorum_the_monmap_is_edited_offline_once_then_waited_on() {
    let mut host = FakeHost::new()
        .fail("ceph --connect-timeout 10 mon dump", "timed out")
        .ok(MON_STATUS, &mon_status_json("probing", &["node1", "node2"]))
        .ok("systemctl", "")
        .ok("ceph-mon", "")
        .ok("monmaptool", "");
    let mut h = heal_at(Step::Consensus);
    assert!(matches!(
        step(&mut host, &mut h).unwrap(),
        StepResult::NotYet(_)
    ));
    assert!(host.ran(&format!("monmaptool {MONMAP_PATH} --rm node2")));

    let mut edited = FakeHost::new()
        .fail("ceph --connect-timeout 10 mon dump", "timed out")
        .ok(MON_STATUS, &mon_status_json("electing", &["node1"]));
    assert!(matches!(
        step(&mut edited, &mut h).unwrap(),
        StepResult::NotYet(_)
    ));
    assert!(!edited.ran("monmaptool") && !edited.ran("systemctl"));
}

#[test]
fn k3s_is_reset_only_when_the_heal_decided_so_and_it_still_does_not_answer() {
    let quorum = || {
        FakeHost::new()
            .ok("ceph --connect-timeout 10 mon dump", "{}")
            .ok(MON_STATUS, &mon_status_json("leader", &["node1"]))
    };
    let mut h = heal_at(Step::Consensus);
    h.reset_kubernetes = true;
    let mut answering = quorum().ok("kubectl get --raw /readyz", "ok");
    assert_eq!(shown(&step(&mut answering, &mut h).unwrap()), shown(&StepResult::Done));
    assert!(!answering.ran("cluster-reset"));

    let mut down = quorum()
        .fail("kubectl get --raw /readyz", "refused")
        .ok("systemctl stop k3s.service", "")
        .ok("k3s server --cluster-reset", "");
    assert_eq!(shown(&step(&mut down, &mut h).unwrap()), shown(&StepResult::Done));
    assert!(
        down.position("systemctl stop k3s.service")
            < down.position("k3s server --cluster-reset")
    );

    let mut no_quorum = FakeHost::new()
        .fail("ceph --connect-timeout 10 mon dump", "timed out")
        .ok(MON_STATUS, &mon_status_json("electing", &["node1"]));
    assert!(matches!(
        step(&mut no_quorum, &mut h).unwrap(),
        StepResult::NotYet(_)
    ));
    assert!(
        !no_quorum.ran("cluster-reset"),
        "Ceph first, Kubernetes after"
    );
}

#[test]
fn osds_are_found_under_their_host() {
    let t = parse(&tree()).unwrap();
    assert_eq!(osds_on_hosts(&t, &names(&["node2"])), vec![2]);
    assert!(osds_on_hosts(&t, &names(&["node9"])).is_empty());
}

#[test]
fn wipe_keeps_only_what_runs_and_throws_everything_else_away() {
    let mut host = wipe_host("[0]");
    let mut h = heal_at(Step::Wipe);
    assert_eq!(shown(&step(&mut host, &mut h).unwrap()), shown(&StepResult::Done));

    assert!(
        host.ran("ceph osd down osd.2"),
        "node2 is gone even if Ceph thinks osd.2 is up"
    );
    assert!(host.ran("ceph osd purge osd.1") && host.ran("ceph osd purge osd.2"));
    assert!(!host.ran("purge osd.0"), "osd.0 is up");
    assert!(host.ran("ceph osd crush rm node2"));
    assert!(host.ran("ceph auth del mgr.node2"));
    assert!(host.ran("ceph config-key set yolab/removed-machines/node2 h1"));
    for pool in [".mgr", "images", "yolab-fs-metadata", "yolab-fs-data0"] {
        assert!(host.ran(&format!("pool delete {pool} {pool}")), "{pool}");
    }
    for key in [
        "yolab/disks/serial-wwn-9",
        "yolab/disks/node1--dev-sdb",
        "yolab/disk-status/node1",
        "yolab/disk-status/node2",
    ] {
        assert!(host.ran(&format!("ceph config-key rm {key}")), "{key}");
    }
}

#[test]
fn wipe_waits_while_a_purged_osd_is_still_listed() {
    let mut host = wipe_host("[0, 2]").fail("ceph osd purge osd.2", "EBUSY");
    let mut h = heal_at(Step::Wipe);
    assert!(matches!(
        step(&mut host, &mut h).unwrap(),
        StepResult::NotYet(ref why) if why.contains('2')
    ));
}

#[test]
fn restart_asks_every_peer_then_saves_and_restarts_this_machine() {
    let (disk, rec) = local();
    let mut host = FakeHost::new().ok(HEAL_SET, "").ok("systemctl reboot", "");
    let net = FakeNetwork::default();
    let mut h = heal_at(Step::Restart);
    let r = host.on(&disk, &net).step(&rec, &mut h, "node1", "boot-a", NOW)
        .unwrap();
    assert_eq!(shown(&r), shown(&StepResult::Restarting));
    assert_eq!(
        host.restarted,
        vec!["node3".to_string()],
        "a machine that no longer answers is not waited on"
    );
    let saved = stored(&disk, &rec).unwrap().unwrap();
    assert_eq!(saved.step, Step::Finish);
    assert_eq!(saved.restart_boot_id.as_deref(), Some("boot-a"));
    assert!(host.position(HEAL_SET) < host.position("systemctl reboot"));
}

#[test]
fn a_machine_that_answers_but_refuses_the_restart_is_asked_again() {
    let (disk, rec) = local();
    let mut host = FakeHost::new().ok(HEAL_SET, "").ok("systemctl reboot", "");
    let net = FakeNetwork {
        answering: list(&["node3"]),
        refusing: list(&["node3"]),
        ..Default::default()
    };
    let mut h = heal_at(Step::Restart);
    let r = host.on(&disk, &net).step(&rec, &mut h, "node1", "boot-a", NOW)
        .unwrap();
    assert!(
        matches!(r, StepResult::NotYet(ref why) if why.contains("node3")),
        "{r:?}"
    );
    assert!(!host.ran("systemctl reboot"), "this machine waits for it");
    assert_eq!(h.step, Step::Restart);
}

#[test]
fn finish_restarts_again_if_the_restart_never_happened() {
    let mut h = heal_at(Step::Finish);
    h.restart_boot_id = Some("boot-a".into());
    let mut host = FakeHost::new().ok("systemctl reboot", "");
    assert_eq!(shown(&step(&mut host, &mut h).unwrap()), shown(&StepResult::Restarting));

    h.restart_boot_id = Some("boot-z".into());
    let mut starting = FakeHost::new().fail("kubectl get --raw /readyz", "refused");
    assert!(matches!(
        step(&mut starting, &mut h).unwrap(),
        StepResult::NotYet(_)
    ));
    assert!(!starting.ran("systemctl"));
}

#[test]
fn finish_forgets_the_gone_machines_and_removes_every_app() {
    let mut host = FakeHost::new()
        .ok("kubectl get --raw /readyz", "ok")
        .ok(
            "kubectl get namespaces -l yolab.io/managed=true",
            r#"{"items": [{"metadata": {"name": "yolab-a"}}]}"#,
        )
        .ok(
            "kubectl get namespaces -l yolab.io/managed=true",
            r#"{"items": []}"#,
        )
        .ok("kubectl scale", "")
        .ok("kubectl delete", "")
        .ok("kubectl patch", "")
        .ok(
            "kubectl get pvc -n yolab-a",
            r#"{"items": [{"metadata": {"name": "data"}, "spec": {"volumeName": "pv1"}}]}"#,
        );
    let mut h = heal_at(Step::Finish);
    h.restart_boot_id = Some("boot-z".into());
    assert!(matches!(
        step(&mut host, &mut h).unwrap(),
        StepResult::NotYet(_)
    ));
    assert!(host.ran("kubectl delete node node2 --ignore-not-found"));
    assert!(
        host.ran("kubectl delete pod --all -n yolab-a --force --grace-period=0 --wait=false")
    );
    assert!(host.ran("kubectl patch pv pv1 --type merge"));
    assert!(host.ran("kubectl delete namespace yolab-a --wait=false"));
    assert_eq!(shown(&step(&mut host, &mut h).unwrap()), shown(&StepResult::Done));
}

#[test]
fn no_step_runs_for_a_finished_heal() {
    let mut h = heal_at(Step::Wipe);
    h.finished_at = Some(NOW);
    let mut host = FakeHost::new();
    assert!(step(&mut host, &mut h).is_err());
    assert!(host.calls().is_empty());
}

#[test]
fn without_a_local_record_the_tick_does_nothing() {
    let (disk, rec) = local();
    let mut host = FakeHost::new();
    let t = host.on(&disk, &FakeNetwork::default()).drive(|s| tick(s, &rec, "node1", "boot-a", NOW))
        .unwrap();
    assert!(matches!(t, Tick::Idle(_)));
    assert!(host.calls().is_empty());
}

#[test]
fn a_finished_heal_is_copied_into_ceph_until_it_lands() {
    let (disk, rec) = local();
    let mut h = heal_at(Step::Finish);
    h.finished_at = Some(NOW);
    keep(&disk, &rec, &h);
    let mut host = FakeHost::new().fail(HEAL_GET, NO_KEY).ok(HEAL_SET, "");
    host.on(&disk, &FakeNetwork::default()).drive(|s| tick(s, &rec, "node1", "boot-a", NOW))
        .unwrap();
    assert!(host.ran(HEAL_SET));

    let mut landed = FakeHost::new().ok(HEAL_GET, &heal_text(&h));
    landed.on(&disk, &FakeNetwork::default()).drive(|s| tick(s, &rec, "node1", "boot-a", NOW))
    .unwrap();
    assert!(!landed.ran(HEAL_SET));
}

#[test]
fn a_failing_step_is_recorded_and_retried() {
    let (disk, rec) = local();
    keep(&disk, &rec, &heal_at(Step::Wipe));
    let mut host = FakeHost::new()
        .fail("ceph osd tree", "timed out")
        .ok(HEAL_SET, "");
    assert!(
        host.on(&disk, &FakeNetwork::default()).drive(|s| tick(s, &rec, "node1", "boot-a", NOW))
            .is_err()
    );
    let saved = stored(&disk, &rec).unwrap().unwrap();
    assert_eq!(saved.step, Step::Wipe);
    assert!(saved.waiting.unwrap().contains("timed out"));
}

#[test]
fn a_heal_that_loses_its_claim_removes_its_record() {
    let (disk, rec) = local();
    keep(&disk, &rec, &heal_at(Step::Claim));
    let mut theirs = heal_at(Step::Claim);
    theirs.id = "h2".into();
    let mut host = FakeHost::new().ok(HEAL_GET, &heal_text(&theirs));
    host.on(&disk, &FakeNetwork::default()).drive(|s| tick(s, &rec, "node1", "boot-a", NOW))
        .unwrap();
    assert!(stored(&disk, &rec).unwrap().is_none());
}

#[test]
fn the_tick_runs_steps_until_one_must_wait() {
    let (disk, rec) = local();
    let mut h = heal_at(Step::Claim);
    h.claim_after = None;
    keep(&disk, &rec, &h);
    let mut host = FakeHost::new()
        .ok(HEAL_SET, "")
        .ok("ceph --connect-timeout 10 mon dump", "{}")
        .ok(
            MON_STATUS,
            &mon_status_json("leader", &["node1", "node2", "node3"]),
        )
        .ok("ceph mon remove", "")
        .fail("ceph osd tree", "timed out");
    assert!(
        host.on(&disk, &FakeNetwork::default()).drive(|s| tick(s, &rec, "node1", "boot-a", NOW))
            .is_err()
    );
    let saved = stored(&disk, &rec).unwrap().unwrap();
    assert_eq!(saved.step, Step::Wipe, "claim and consensus were saved");
}

#[test]
fn a_tick_refuses_to_run_without_a_boot_id() {
    let (disk, rec) = local();
    keep(&disk, &rec, &heal_at(Step::Restart));
    assert!(FakeHost::new().on(&disk, &FakeNetwork::default()).drive(|s| tick(s, &rec, "node1", "", NOW))
    .is_err());
}

#[test]
fn status_names_the_problems_the_plan_and_the_heal() {
    let s = survey_of(
        &[("node1", true), ("node2", false), ("node3", true)],
        true,
        true,
        2,
    );
    let v = status_json(&s, Some(&heal_at(Step::Wipe)));
    assert_eq!(field(&v, "problems"), tidy(r#"["machines_gone", "data_unreachable"]"#));
    assert_eq!(field(&v, "refusal"), "null");
    assert_eq!(
        field(&v, "plan"),
        tidy(
            r#"{"remove_machines": ["node2"], "restart_machines": ["node3"], "reset_kubernetes": false}"#
        )
    );
    let machines = v.get("survey").unwrap().list_at("machines").unwrap();
    assert_eq!(
        render(&machines[1]),
        tidy(r#"{"name": "node2", "addr": "fd00::2", "this_machine": false, "answers": false}"#)
    );
    let heal = v.get("heal").unwrap();
    assert_eq!(heal.str_at("step"), Some("wipe"));
    assert_eq!(
        field(heal, "steps"),
        tidy(r#"["claim", "consensus", "wipe", "restart", "finish"]"#)
    );
    assert_eq!(field(heal, "running"), "true");
    assert_eq!(field(&status_json(&s, None), "heal"), "null");
}

#[test]
fn a_request_is_read_from_the_json_the_page_sends() {
    let r = read_request(&parse(r#"{"remove_machines": ["node2"]}"#).unwrap()).unwrap();
    assert_eq!(r.remove_machines, names(&["node2"]));
    assert!(
        read_request(&parse("{}").unwrap()).is_none(),
        "the confirmation is explicit"
    );
}

#[test]
fn a_heal_stuck_after_the_restart_can_be_started_again() {
    let (disk, rec) = local();
    keep(&disk, &rec, &heal_at(Step::Finish));
    let mut host = survey_host("leader", &["node1", "node2"], true)
        .fail(HEAL_GET, NO_KEY)
        .ok(HEAL_SET, "");
    let heal = host.on(&disk, &FakeNetwork::default()).drive(|s| start_heal(s, &rec, "node1", &request(&["node2"]), 3600, "h2", NOW))
    .unwrap();
    assert_eq!(heal.id, "h2");
    assert_eq!(stored(&disk, &rec).unwrap().unwrap().id, "h2");
}

#[test]
fn a_heal_whose_driver_is_gone_does_not_block_the_next_one() {
    let (disk, rec) = local();
    let mut orphaned = heal_at(Step::Wipe);
    orphaned.driver = "node2".into();
    let mut host = survey_host("leader", &["node1", "node2", "node3"], true)
        .ok(HEAL_GET, &heal_text(&orphaned))
        .ok(HEAL_SET, "");
    host.on(&disk, &FakeNetwork::answering(&["node3"])).drive(|s| start_heal(s, &rec, "node1", &request(&["node2"]), 3600, "h2", NOW))
    .unwrap();
    assert!(host.ran(HEAL_SET));

    let (disk, rec) = local();
    let mut mine_but_lost = heal_at(Step::Wipe);
    mine_but_lost.driver = "node1".into();
    let mut host = survey_host("leader", &["node1", "node2", "node3"], true)
        .ok(HEAL_GET, &heal_text(&mine_but_lost))
        .ok(HEAL_SET, "");
    host.on(&disk, &FakeNetwork::answering(&["node3"])).drive(|s| start_heal(s, &rec, "node1", &request(&["node2"]), 3600, "h2", NOW))
    .unwrap();
}

#[test]
fn an_old_record_never_overwrites_a_newer_heal_in_ceph() {
    let (disk, rec) = local();
    let mut old = heal_at(Step::Finish);
    old.finished_at = Some(NOW);
    keep(&disk, &rec, &old);
    let mut newer = heal_at(Step::Wipe);
    newer.id = "h9".into();
    newer.started_at = NOW + 100;
    let mut host = FakeHost::new()
        .ok(HEAL_GET, &heal_text(&newer))
        .ok(HEAL_SET, "");
    host.on(&disk, &FakeNetwork::default()).drive(|s| tick(s, &rec, "node1", "boot-a", NOW))
        .unwrap();
    assert!(!host.ran(HEAL_SET));
}

#[test]
fn the_page_shows_whichever_heal_started_last() {
    let mut old = heal_at(Step::Finish);
    old.finished_at = Some(NOW);
    let mut newer = heal_at(Step::Wipe);
    newer.id = "h9".into();
    newer.started_at = NOW + 100;
    assert_eq!(
        newest(Some(old.clone()), Some(newer.clone())).unwrap().id,
        "h9"
    );
    assert_eq!(
        newest(Some(newer.clone()), Some(old.clone())).unwrap().id,
        "h9"
    );
    assert_eq!(newest(None, Some(old.clone())).unwrap().id, "h1");
    assert_eq!(newest(Some(old), None).unwrap().id, "h1");
    assert!(newest(None, None).is_none());
}
