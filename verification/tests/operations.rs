//! Work that goes on over time: schedules, claims, leases and controllers.

use std::collections::VecDeque;

use chrono::{TimeZone, Utc};

use local_api::boot::dispatch::{step, Step};
use local_api::controllers::{names, run_named, spawn_all};
use local_api::cron::{Cron, FIRST_SECOND, LAST_SECOND, MAX_LOOKBACK_MINUTES};
use local_api::effects::{Answer, Ask, Script};
use local_api::exec::CommandOutput;
use local_api::json::parse;
use local_api::lease::{acquire, is_expired};
use local_api::host;
use local_api::loop_osd::{loop_backing_files, parse_loops, register};
use local_api::ops::{
    beat, liveness, Claim, InFlight, Liveness, Record, Seen, FORGET_AFTER_SECS, STALE_AFTER_SECS,
};
use local_api::priority;
use local_api::priority::{append, prepend, read};
use local_api::stamps::Stamp;
use local_api::time::{Duration, Instant};

const NOW: &str = "2026-09-14T12:00:00Z";

struct FakeHost {
    calls: Vec<String>,
    script: Vec<(String, VecDeque<Result<String, String>>)>,
    files: Vec<(String, String)>,
}

impl FakeHost {
    fn new() -> Self {
        FakeHost { calls: Vec::new(), script: Vec::new(), files: Vec::new() }
    }

    fn push(&mut self, prefix: &str, answer: Result<String, String>) {
        match self.script.iter_mut().find(|(p, _)| p == prefix) {
            Some((_, q)) => q.push_back(answer),
            None => self.script.push((prefix.to_string(), VecDeque::from([answer]))),
        }
    }

    /// What a command answers; the last answer repeats.
    fn ok(mut self, prefix: &str, out: &str) -> Self {
        self.push(prefix, Ok(out.to_string()));
        self
    }

    fn fail(mut self, prefix: &str, err: &str) -> Self {
        self.push(prefix, Err(err.to_string()));
        self
    }

    /// The longest matching prefix wins.
    fn answer(&mut self, cmd: &str) -> Result<String, String> {
        self.calls.push(cmd.to_string());
        let best = self
            .script
            .iter_mut()
            .filter(|(p, _)| cmd.starts_with(p.as_str()))
            .max_by_key(|(p, _)| p.len());
        match best {
            Some((_, q)) if q.len() > 1 => q.pop_front().unwrap(),
            Some((_, q)) => q.front().unwrap().clone(),
            None => Err(format!("unscripted command: {cmd}")),
        }
    }

    fn calls(&self) -> Vec<String> {
        self.calls.clone()
    }

    fn ran(&self, needle: &str) -> bool {
        self.calls.iter().any(|c| c.contains(needle))
    }

    fn position(&self, needle: &str) -> Option<usize> {
        self.calls.iter().position(|c| c.contains(needle))
    }

    fn run(&mut self, bin: &str, args: &[String], input: &Option<String>) -> Answer {
        let cmd = match input {
            Some(text) => format!("{bin}-{} {text}", args[0]),
            None => format!("{bin} {}", args.join(" ")),
        };
        let (success, stdout, stderr) = match self.answer(&cmd) {
            Ok(out) => (true, out, String::new()),
            Err(err) => (false, String::new(), err),
        };
        Answer::Output(Ok(CommandOutput { success, stdout, stderr }))
    }

    fn perform(&mut self, ask: Ask) -> Answer {
        match ask {
            Ask::Run { bin, args, input, .. } => self.run(&bin, &args, &input),
            Ask::Sleep { .. } => Answer::Done,
            Ask::ReadText { path } => Answer::Text(self.file(&path)),
            Ask::LoadFile { path } => Answer::File(Ok(self.file(&path))),
            Ask::WriteFile { path, text } | Ask::ReplaceFile { path, text } => {
                self.put(&path, &text);
                Answer::Did(Ok(()))
            }
            Ask::RemoveFile { path } => {
                self.files.retain(|(p, _)| *p != path);
                Answer::Did(Ok(()))
            }
            Ask::EnsureDir { .. } => Answer::Did(Ok(())),
            other => panic!("nothing answers {other:?}"),
        }
    }

    fn file(&self, path: &str) -> Option<String> {
        self.files.iter().find(|(p, _)| p == path).map(|(_, t)| t.clone())
    }

    fn put(&mut self, path: &str, text: &str) {
        self.files.retain(|(p, _)| p != path);
        self.files.push((path.to_string(), text.to_string()));
    }

    /// With a file on the machine.
    fn with(mut self, path: &str, text: &str) -> Self {
        self.put(path, text);
        self
    }

    /// Runs a procedure, answering what it asks, until it is done.
    fn drive<T>(&mut self, f: impl Fn(&mut Script) -> Result<T, Ask>) -> T {
        let mut script = Script::new();
        loop {
            match f(&mut script) {
                Ok(done) => return done,
                Err(ask) => {
                    let answer = self.perform(ask);
                    script.answer(answer);
                }
            }
        }
    }
}

fn at(y: i32, mo: u32, d: u32, h: u32, mi: u32) -> i64 {
    Utc.with_ymd_and_hms(y, mo, d, h, mi, 0).unwrap().timestamp()
}

fn stamp(t: &str) -> Stamp {
    Stamp::parse(t).unwrap()
}

fn quiet() -> Duration {
    Duration::zero()
}

fn silent() -> Duration {
    Duration::from_secs(300)
}

fn claim(owner: &str) -> Claim {
    Claim { owner: owner.into(), heartbeat: "2026-09-14T11:59:30Z".into() }
}

fn said(c: &Claim) -> (&str, &str) {
    (&c.owner, &c.heartbeat)
}

fn rec(id: &str, state: &str, claim: Claim) -> Record {
    Record { id: id.into(), running: state == "running", claim }
}

#[test]
fn parses_the_common_shapes() {
    assert!(Cron::parse("* * * * *").is_ok());
    assert!(Cron::parse("0 3 * * *").is_ok());
    assert!(Cron::parse("*/15 9-17 * * 1-5").is_ok());
    assert!(Cron::parse("0 0 1,15 * 0").is_ok());
    assert!(Cron::parse("30 4/6 * * *").is_ok());
}

#[test]
fn rejects_malformed_expressions() {
    assert!(Cron::parse("* * * *").is_err(), "four fields");
    assert!(Cron::parse("60 * * * *").is_err(), "minute out of range");
    assert!(Cron::parse("* * 32 * *").is_err(), "day out of range");
    assert!(Cron::parse("* * * * 8").is_err(), "weekday out of range");
    assert!(Cron::parse("*/0 * * * *").is_err(), "zero step");
    assert!(Cron::parse("5-1 * * * *").is_err(), "backwards range");
}

#[test]
fn matches_a_daily_time() {
    let c = Cron::parse("0 3 * * *").unwrap();
    assert!(c.matches(at(2026, 9, 17, 3, 0)));
    assert!(!c.matches(at(2026, 9, 17, 3, 1)));
    assert!(!c.matches(at(2026, 9, 17, 2, 59)));
}

#[test]
fn weekday_seven_means_sunday() {
    let c = Cron::parse("0 0 * * 7").unwrap();
    assert!(c.matches(at(2026, 9, 20, 0, 0)));
    assert!(!c.matches(at(2026, 9, 21, 0, 0)));
}

#[test]
fn when_both_day_fields_are_restricted_either_matches() {
    let c = Cron::parse("0 0 1 * 1").unwrap();
    assert!(c.matches(at(2026, 9, 1, 0, 0)), "the 1st");
    assert!(c.matches(at(2026, 9, 7, 0, 0)), "a Monday");
    assert!(
        !c.matches(at(2026, 9, 8, 0, 0)),
        "a Tuesday that is not the 1st"
    );
}

#[test]
fn due_only_after_the_next_fire_time() {
    let c = Cron::parse("0 3 * * *").unwrap();
    assert!(c.due(None, at(2026, 9, 17, 12, 0)), "never run is due");
    assert!(
        !c.due(Some(at(2026, 9, 17, 3, 0)), at(2026, 9, 17, 12, 0)),
        "ran this morning"
    );
    assert!(
        c.due(Some(at(2026, 9, 16, 3, 0)), at(2026, 9, 17, 12, 0)),
        "missed this morning"
    );
    assert!(
        !c.due(Some(at(2026, 9, 16, 3, 0)), at(2026, 9, 17, 2, 0)),
        "not yet this morning"
    );
}

#[test]
fn last_fire_finds_todays_slot() {
    let c = Cron::parse("0 3 * * *").unwrap();
    assert_eq!(
        c.last_fire(at(2026, 9, 17, 12, 0)),
        Some(at(2026, 9, 17, 3, 0))
    );
}

#[test]
fn a_never_matching_schedule_is_never_due_after_a_run() {
    let c = Cron::parse("0 0 31 2 *").unwrap();
    assert!(!c.due(Some(at(2026, 1, 1, 0, 0)), at(2026, 9, 17, 12, 0)));
}

#[test]
fn a_restore_driven_by_another_node_is_live_while_it_heartbeats() {
    let seen = liveness(&claim("node1"), "node2", false, Duration::from_secs(30));
    assert_eq!(seen, Liveness::Remote);
}

#[test]
fn another_nodes_claim_is_abandoned_once_this_node_has_watched_it_go_quiet() {
    assert_eq!(
        liveness(&claim("node1"), "node2", false, silent()),
        Liveness::Abandoned
    );
    let just_under = Duration::from_secs(STALE_AFTER_SECS - 1);
    assert_eq!(
        liveness(&claim("node1"), "node2", false, just_under),
        Liveness::Remote
    );
}

#[test]
fn our_own_claim_without_our_process_is_abandoned_immediately() {
    assert_eq!(
        liveness(&claim("node1"), "node1", false, quiet()),
        Liveness::Abandoned
    );
    assert_eq!(
        liveness(&claim("node1"), "node1", true, silent()),
        Liveness::Driving
    );
}

#[test]
fn silence_is_timed_from_the_last_change_this_process_saw() {
    let mut seen = Seen::new();
    let t0 = Instant { nanos: 5 };
    let s = |secs| t0.after(Duration::from_secs(secs));
    assert_eq!(seen.observed_silence("rs-1", "h1", t0), quiet());
    assert_eq!(
        seen.observed_silence("rs-1", "h1", s(90)),
        Duration::from_secs(90)
    );
    assert_eq!(seen.observed_silence("rs-1", "h2", s(100)), quiet());
    assert_eq!(
        seen.observed_silence("rs-1", "h2", s(130)),
        Duration::from_secs(30)
    );
    assert_eq!(seen.observed_silence("rs-2", "h1", s(130)), quiet());
}

#[test]
fn ids_unseen_for_a_day_are_forgotten() {
    let mut seen = Seen::new();
    let t0 = Instant { nanos: 5 };
    seen.observed_silence("old", "h", t0);
    let later = t0.after(Duration::from_secs(FORGET_AFTER_SECS + 1));
    seen.observed_silence("new", "h", later);
    assert!(!seen.remembers("old"));
    assert!(seen.remembers("new"));
}

#[test]
fn a_doubly_claimed_id_stays_in_flight_until_both_guards_drop() {
    let mut set = InFlight::new();
    let first = set.claim("rs-1");
    let second = set.claim("rs-1");
    let _other = set.claim("rs-2");
    assert_eq!(set.ids(), vec!["rs-1".to_string(), "rs-2".to_string()]);
    set.release(first);
    assert!(set.contains("rs-1"));
    set.release(second);
    assert!(!set.contains("rs-1"));
    assert!(set.contains("rs-2"));
}

#[test]
fn a_heartbeat_only_touches_running_records_this_process_drives() {
    let mut sets = vec![
        rec("a", "running", claim("node1")),
        rec("b", "running", claim("node2")),
        rec("c", "succeeded", claim("node1")),
    ];
    beat(&mut sets, &vec!["a".into(), "c".into()], "node1", stamp(NOW));
    assert_eq!(sets[0].claim.heartbeat, stamp(NOW).text());
    assert_eq!(said(&sets[1].claim), said(&claim("node2")),
        "a record this process does not drive is not ours to stamp"
    );
    assert_eq!(said(&sets[2].claim), said(&claim("node1")),
        "a finished record needs no heartbeat"
    );
}

#[test]
fn a_claim_is_part_of_every_record_and_required() {
    let record = parse(r#"{"id":"x","state":"running","owner":"n1","heartbeat":"h"}"#).unwrap();
    assert_eq!(Claim::from_json(&record).unwrap().owner, "n1");
    let unclaimed = parse(r#"{"id":"x","state":"running"}"#).unwrap();
    assert!(Claim::from_json(&unclaimed).is_none(), "a record without its claim does not parse");
}

#[test]
fn a_new_claim_names_this_node_and_the_time() {
    let c = Claim::mine("node1", stamp(NOW));
    assert_eq!(c.owner, "node1");
    assert_eq!(c.heartbeat, stamp(NOW).text());
}

#[test]
fn names_are_unique_and_non_empty() {
    let mut seen = std::collections::BTreeSet::new();
    for name in names() {
        assert!(!name.is_empty(), "a controller has no name");
        assert!(seen.insert(name), "duplicate controller name {name}");
    }
}

#[test]
fn an_unknown_controller_name_is_refused() {
    let err = run_named("not-a-controller").unwrap_err();
    assert!(err.contains("unknown controller"), "{err}");
}

#[test]
fn an_unknown_step_of_a_start_is_named() {
    let args = |l: &[&str]| l.iter().map(|a| a.to_string()).collect::<Vec<String>>();
    assert_eq!(step(&args(&["node-ip"])), Ok(Step::NodeIp));
    assert_eq!(step(&args(&["csi-recovery"])), Ok(Step::CsiRecovery));
    assert_eq!(step(&args(&["banner"])), Ok(Step::Banner));
    assert!(step(&args(&["coffee"])).unwrap_err().contains("coffee"));
    assert!(step(&args(&[])).is_err());
}

#[test]
fn every_controller_that_runs_has_a_name_that_is_known() {
    for configured in [false, true] {
        for name in spawn_all(configured) {
            assert_eq!(run_named(name), Ok(()), "{name}");
        }
    }
    assert!(spawn_all(true).len() > spawn_all(false).len());
}

#[test]
fn a_moment_is_written_and_read_back() {
    let t = Stamp::parse("2026-09-14T12:00:00.5Z").unwrap();
    assert_eq!(t, Stamp { secs: 1_789_387_200, nanos: 500_000_000 });
    assert_eq!(Stamp::parse(&t.text()), Some(t));
    assert_eq!(Stamp::parse("2026-09-14T14:00:00+02:00").unwrap().secs, 1_789_387_200);
    assert_eq!(Stamp::parse("yesterday"), None);
    let later = stamp("2026-09-16T01:30:00Z");
    assert_eq!(later.hours_from(stamp(NOW)), 37);
    assert_eq!(stamp(NOW).hours_from(later), -37);
}

const LEASE: &str = "kubectl get lease nightly -n kube-system";

fn lease_of(holder: &str, renewed: &str) -> String {
    format!(
        r#"{{"metadata":{{"resourceVersion":"7"}},"spec":{{"holderIdentity":"{holder}","leaseDurationSeconds":60,"renewTime":"{renewed}"}}}}"#
    )
}

#[test]
fn a_lease_is_taken_when_there_is_none() {
    let mut host = FakeHost::new()
        .ok(LEASE, "")
        .ok("kubectl-create", "");
    let got = host.drive(|s| acquire(s, "nightly", "node1", 60, stamp(NOW)));
    assert!(got.is_some());
    assert!(host.ran(r#""holderIdentity":"node1""#), "{:?}", host.calls());
}

#[test]
fn a_live_lease_of_another_machine_is_left_alone() {
    let mut host = FakeHost::new().ok(LEASE, &lease_of("node2", "2026-09-14T11:59:30.000000Z"));
    let got = host.drive(|s| acquire(s, "nightly", "node1", 60, stamp(NOW)));
    assert!(got.is_none());
    assert_eq!(host.calls().len(), 1, "{:?}", host.calls());
}

#[test]
fn an_expired_lease_is_taken_over() {
    let old = lease_of("node2", "2026-09-14T11:58:30.000000Z");
    let mut host = FakeHost::new().ok(LEASE, &old).ok("kubectl patch lease nightly", "");
    let got = host.drive(|s| acquire(s, "nightly", "node1", 60, stamp(NOW)));
    assert!(got.is_some());
    assert!(host.ran(r#""resourceVersion":"7""#), "{:?}", host.calls());
    assert!(is_expired(&parse(&old).unwrap(), 60, stamp(NOW)));
    assert!(is_expired(&parse("{}").unwrap(), 60, stamp(NOW)), "never renewed");
}

const PRIORITY: &str = "kubectl get configmap -n rook-ceph yolab-disk-priority";

#[test]
fn the_disks_are_read_back_in_their_order() {
    let data = r#"{"data":{"priority":"node1:sdb\nnode2:sdc\n","rejected":"node3:sdz"}}"#;
    let mut host = FakeHost::new().ok(PRIORITY, data).ok("kubectl-apply", "");
    let before = host.drive(|s| read(s));
    let keys: Vec<String> = before.iter().map(|e| e.key()).collect();
    assert_eq!(keys, vec!["node1:sdb", "node2:sdc"]);

    host.drive(|s| prepend(s, "node4", "sda")).unwrap();
    assert!(host.ran(r#""priority":"node4:sda\nnode1:sdb\nnode2:sdc""#), "{:?}", host.calls());
    host.drive(|s| append(s, "node4", "sda")).unwrap();
    assert!(host.ran(r#""priority":"node1:sdb\nnode2:sdc\nnode4:sda""#), "{:?}", host.calls());
}

#[test]
fn a_rejected_or_known_disk_is_not_added() {
    let data = r#"{"data":{"priority":"node1:sdb","rejected":"node3:sdz"}}"#;
    let mut host = FakeHost::new().ok(PRIORITY, data);
    for disk in [("node3", "sdz"), ("node1", "sdb")] {
        host.drive(|s| prepend(s, disk.0, disk.1)).unwrap();
        host.drive(|s| append(s, disk.0, disk.1)).unwrap();
    }
    assert!(!host.ran("kubectl-apply"), "{:?}", host.calls());
}

const LOOPS: &str = "/dev/loop0 /var/lib/rook/a.img\n/dev/loop7 /snap/b.img\nnonsense\n";

#[test]
fn loop_devices_are_listed_with_the_files_behind_them() {
    assert!(parse_loops("").is_empty());
    assert_eq!(
        parse_loops(LOOPS),
        vec![
            ("loop0".to_string(), "/var/lib/rook/a.img".to_string()),
            ("loop7".to_string(), "/snap/b.img".to_string()),
        ]
    );
}

#[test]
fn a_loop_device_is_added_beside_what_is_registered() {
    let nodes = r#"[{"name":"node1","devices":[{"name":"sdb"}]},{"name":"node2","devices":[]}]"#;
    let mut host = FakeHost::new()
        .ok("losetup", LOOPS)
        .ok("kubectl get cephcluster", nodes)
        .ok("kubectl patch cephcluster", "");
    assert!(host.drive(|s| register(s, "node1")));
    assert!(host.ran(r#"[{"name":"sdb"},{"name":"loop0"}]"#), "{:?}", host.calls());
    assert!(!host.ran("loop7"), "only the machine's own images");
}

#[test]
fn registered_loop_devices_are_left_alone() {
    let nodes = r#"[{"name":"node1","devices":[{"name":"loop0"}]}]"#;
    let mut host = FakeHost::new().ok("losetup", LOOPS).ok("kubectl get cephcluster", nodes);
    assert!(host.drive(|s| register(s, "node1")));
    assert!(!host.ran("patch"), "{:?}", host.calls());
    assert!(!host.drive(|s| register(s, "")), "a machine without a name");
}

#[test]
fn nothing_counts_as_registered_that_was_not_answered() {
    let nodes = r#"[{"name":"node1","devices":[{"name":"loop0"}]}]"#;
    let down = "Unable to connect to the server: dial tcp: i/o timeout";

    let mut host = FakeHost::new()
        .ok("losetup", LOOPS)
        .fail("kubectl get cephcluster", down)
        .fail("kubectl patch cephcluster", down);
    assert!(!host.drive(|s| register(s, "node1")), "nothing was read");

    let mut host = FakeHost::new()
        .ok("losetup", LOOPS)
        .ok("kubectl get cephcluster", "[]")
        .fail("kubectl patch cephcluster", down);
    assert!(!host.drive(|s| register(s, "node1")), "the change was not taken");
    assert!(host.ran("patch"));

    let mut host = FakeHost::new()
        .ok("losetup", LOOPS)
        .ok("kubectl get cephcluster", "[]")
        .fail("kubectl get cephcluster", down)
        .ok("kubectl patch cephcluster", "");
    assert!(!host.drive(|s| register(s, "node1")), "one of the two reads was not answered");

    let mut host = FakeHost::new().ok("losetup", "").ok("kubectl get cephcluster", nodes);
    assert!(!host.drive(|s| register(s, "node1")), "no device of its own");
    assert!(!host.ran("kubectl"));
}

#[test]
fn weekday_seven_is_weekday_zero() {
    let seven = Cron::parse("0 3 * * 7").unwrap();
    let zero = Cron::parse("0   3 * *  0").unwrap();
    assert_eq!(format!("{seven:?}"), format!("{zero:?}"));
    assert!(seven.matches(at(2026, 9, 13, 3, 0)), "a Sunday");
    assert!(!seven.matches(at(2026, 9, 14, 3, 0)), "a Monday");
}

#[test]
fn a_schedule_fires_on_the_whole_calendar() {
    let second = |s: i64| chrono::DateTime::from_timestamp(s, 0);
    assert!(second(FIRST_SECOND).is_some() && second(FIRST_SECOND - 1).is_none());
    assert!(second(LAST_SECOND).is_some() && second(LAST_SECOND + 1).is_none());
    let new_year = Cron::parse("0 0 1 1 *").unwrap();
    assert!(new_year.matches(FIRST_SECOND));
    assert!(!new_year.matches(FIRST_SECOND + 60));
    let last = Cron::parse("59 23 31 12 *").unwrap();
    assert!(last.matches(LAST_SECOND));
    assert!(!last.matches(LAST_SECOND - 60));
}

#[test]
fn a_field_stands_for_what_its_items_cover() {
    let c = Cron::parse("5,20-30/5,50/4 * * * *").unwrap();
    let on: Vec<usize> = (0..60).filter(|i| c.minutes[*i]).collect();
    assert_eq!(on, vec![5, 20, 25, 30, 50, 54, 58]);
    assert_eq!(Cron::parse("5,,6 * * * *").unwrap_err().shown(), "minute: empty item in list");
}

#[test]
fn a_schedule_looks_back_as_far_as_the_calendar_goes() {
    let never = Cron::parse("0 0 30 2 *").unwrap();
    let first = FIRST_SECOND + 60 * MAX_LOOKBACK_MINUTES;
    assert_eq!(never.last_fire(first), None);
    assert!(!never.due(Some(first - 1), first));
    for now in [FIRST_SECOND, first, 0, LAST_SECOND] {
        assert!(never.due(None, now), "what never ran is due");
    }
    let always = Cron::parse("* * * * *").unwrap();
    assert_eq!(always.last_fire(FIRST_SECOND + 59), Some(FIRST_SECOND));
}

#[test]
fn some_commands_have_no_bound_of_time() {
    let mut s = Script::new();
    loop {
        match priority::write(&mut s, &Vec::new()) {
            Ok(_) => panic!("nothing was applied"),
            Err(Ask::Run { args, secs, input, .. }) if args[0] == "apply" => {
                assert_eq!(secs, host::NO_BOUND);
                assert!(input.is_some());
                break;
            }
            Err(Ask::Run { .. }) => s.answer(Answer::Output(Ok(CommandOutput {
                success: true,
                stdout: "{}".into(),
                stderr: String::new(),
            }))),
            Err(other) => panic!("{other:?}"),
        }
    }
    match loop_backing_files(&mut Script::new()) {
        Err(Ask::Run { bin, secs, .. }) => {
            assert_eq!((bin.as_str(), secs), ("losetup", host::NO_BOUND))
        }
        other => panic!("{other:?}"),
    }
}
