//! What becomes of a machine's disks.

use std::collections::VecDeque;

use local_api::ceph::model::{pgs_of, read_dump};
use local_api::disks::board::{Board, DiskProgress, Phase};
use local_api::disks::create::{disk_meta, read_label};
use local_api::disks::device::{
    disk_id_from, id_rank, is_uuid, parse_disk_flags, weight_tib_from, DiskFlags, Weight,
};
use local_api::disks::disk::{
    is_globally_unique_id, record_key, Disk, Ownership, SYSTEM_OSD_ID,
};
use local_api::disks::lvm::parse_osd_metadata;
use local_api::disks::plan::{
    any_unplugged_but_wanted, decide_steer, drain_message, drain_targets_remaining, is_running,
    is_stopped, new_disk_records, pg_loss, plan_create, plan_purge, plan_tick, policy_of,
    refuse_osd_creation, retry_backoff, retry_due, steer_report, wants_on, CreatePlan, OsdState,
    PgLoss, PurgeVerdict, TickPlan,
};
use local_api::disks::publish::{
    auto_register_all_disks, fetch_disk_to_osd, mark_known_osds, read_desired, write_status,
    OsdMapSource,
};
use local_api::disks::setup::{create_osd, lv_osd_attempt, Attempt};
use local_api::disks::steer::reconcile_local_osds;
use local_api::effects::{Answer, Ask, Script};
use local_api::exec::{CmdError, CommandOutput};
use local_api::json::{parse, render, Json};
use local_api::time::{Duration, Instant};

const BLUESTORE_MAGIC: &[u8] = b"bluestore block device\n";
const CEPH_FSID_KEY: &[u8] = b"\x09\x00\x00\x00ceph_fsid";

struct FakeHost {
    calls: Vec<String>,
    script: Vec<(String, VecDeque<Result<String, String>>)>,
    board: Board,
    devices: Vec<(String, Vec<u8>)>,
    silent: bool,
}

impl FakeHost {
    fn new() -> Self {
        FakeHost { calls: Vec::new(), script: Vec::new(), board: Board::new(), devices: Vec::new(), silent: false }
    }

    fn push(&mut self, prefix: &str, answer: Result<String, String>) {
        match self.script.iter_mut().find(|(p, _)| p == prefix) {
            Some((_, q)) => q.push_back(answer),
            None => self.script.push((prefix.to_string(), VecDeque::from([answer]))),
        }
    }

    /// What a command answers; the last answer repeats.
    fn ok(mut self, prefix: &str, out: &str) -> Self {
        self.push(prefix, Ok(out.to_string()));
        self
    }

    fn fail(mut self, prefix: &str, err: &str) -> Self {
        self.push(prefix, Err(err.to_string()));
        self
    }

    /// The longest matching prefix wins.
    fn answer(&mut self, cmd: &str) -> Result<String, String> {
        self.calls.push(cmd.to_string());
        let best = self
            .script
            .iter_mut()
            .filter(|(p, _)| cmd.starts_with(p.as_str()))
            .max_by_key(|(p, _)| p.len());
        match best {
            Some((_, q)) if q.len() > 1 => q.pop_front().unwrap(),
            Some((_, q)) => q.front().unwrap().clone(),
            None => Err(format!("unscripted command: {cmd}")),
        }
    }

    fn calls(&self) -> Vec<String> {
        self.calls.clone()
    }

    fn ran(&self, needle: &str) -> bool {
        self.calls.iter().any(|c| c.contains(needle))
    }

    fn position(&self, needle: &str) -> Option<usize> {
        self.calls.iter().position(|c| c.contains(needle))
    }

    fn run(&mut self, bin: &str, args: &[String], input: &Option<String>) -> Answer {
        let cmd = match input {
            Some(text) => format!("{bin}-{} {text}", args[0]),
            None => format!("{bin} {}", args.join(" ")),
        };
        let (success, stdout, stderr) = match self.answer(&cmd) {
            Ok(out) => (true, out, String::new()),
            Err(err) => (false, String::new(), err),
        };
        Answer::Output(Ok(CommandOutput { success, stdout, stderr }))
    }

    fn perform(&mut self, ask: Ask) -> Answer {
        match ask {
            Ask::Run { bin, .. } if self.silent => {
                self.calls.push(bin.clone());
                Answer::Output(Err(CmdError::Timeout {
                    cmd: bin,
                    after: Duration::from_secs(30),
                }))
            }
            Ask::Run { bin, args, input, .. } => self.run(&bin, &args, &input),
            Ask::Sleep { .. } | Ask::SpawnCreate { .. } => Answer::Done,
            Ask::Exists { path } => Answer::Yes(self.bytes_of(&path).is_some()),
            Ask::Canonical { .. } | Ask::LinkName { .. } | Ask::ReadText { .. } => {
                Answer::Text(None)
            }
            Ask::ReadHeader { path } => Answer::Bytes(
                self.bytes_of(&path).filter(|b| b.len() >= 4096).map(|b| b[..4096].to_vec()),
            ),
            Ask::ListDir { .. } => Answer::Names(None),
            Ask::Board(ask) => Answer::Board(self.board.serve(ask, Instant { nanos: 0 })),
            Ask::Policy => Answer::Policy(None),
            Ask::PgLoss => Answer::Loss(None),
            other => panic!("nothing answers {other:?}"),
        }
    }

    fn bytes_of(&self, path: &str) -> Option<&Vec<u8>> {
        self.devices.iter().find(|(p, _)| p == path).map(|(_, b)| b)
    }

    /// Plugs in a device that holds the bytes.
    fn device(&mut self, name: &str, bytes: &[u8]) -> String {
        let path = format!("/tmp/devices/{name}");
        self.devices.push((path.clone(), bytes.to_vec()));
        path
    }

    /// Runs a procedure, answering what it asks, until it is done.
    fn drive<T>(&mut self, f: impl Fn(&mut Script) -> Result<T, Ask>) -> T {
        let mut script = Script::new();
        loop {
            match f(&mut script) {
                Ok(done) => return done,
                Err(ask) => {
                    let answer = self.perform(ask);
                    script.answer(answer);
                }
            }
        }
    }
}

fn json(text: &str) -> Json {
    parse(text).unwrap()
}

fn field(v: &Json, key: &str) -> String {
    render(v.get(key).unwrap_or_else(|| panic!("no {key}")))
}

/// A plain value as JSON has it.
trait Plain {
    fn written(self) -> String;
}

impl Plain for bool {
    fn written(self) -> String {
        self.to_string()
    }
}

impl Plain for i64 {
    fn written(self) -> String {
        self.to_string()
    }
}

impl Plain for &str {
    fn written(self) -> String {
        format!("{self:?}")
    }
}

fn j(v: impl Plain) -> String {
    v.written()
}

fn at<'a, V>(table: &'a [(String, V)], key: &str) -> Option<&'a V> {
    table.iter().find(|(k, _)| k == key).map(|(_, v)| v)
}

fn tib(w: Weight) -> f64 {
    w.amount as f64 / w.per_tib as f64
}

fn seen(crush_weight: f64, reweight: f64, kb: u64, up: bool) -> OsdState {
    OsdState { crush_weight: crush_weight.to_bits(), reweight: reweight.to_bits(), kb, up }
}

fn loss(stuck: u64, total: u64, unrecoverable: bool) -> PgLoss {
    PgLoss { stuck, total, unrecoverable }
}

fn meta_json() -> Json {
    json(
        r#"[
        {"id": 0, "hostname": "node1", "devices": "sda",
         "bluestore_bdev_dev_node": "/dev/dm-1"},
        {"id": 1, "hostname": "node1", "devices": "sdb",
         "bluestore_bdev_dev_node": "/dev/dm-2"},
        {"id": 2, "hostname": "node3", "devices": "sda",
         "bluestore_bdev_dev_node": "/dev/dm-9"}
    ]"#,
    )
}

fn osd(id: i64, up: bool, reweight: f64) -> Json {
    let status = if up { "up" } else { "down" };
    json(&format!(
        r#"{{"id": {id}, "type": "osd", "status": "{status}", "reweight": {reweight:?}}}"#
    ))
}

fn host(name: &str, children: Vec<i64>) -> Json {
    json(&format!(r#"{{"type": "host", "name": "{name}", "children": {children:?}}}"#))
}

fn listed_on(dev: &str, id: i64) -> String {
    format!(r#"{{"{id}": [{{"devices": ["{dev}"], "tags": {{"ceph.cluster_fsid": "{OURS}"}}}}]}}"#)
}

fn not_yet(a: Attempt) -> String {
    match a {
        Attempt::NotYet(why) => why,
        Attempt::Ready => panic!("expected NotYet"),
    }
}

const OURS: &str = "11111111-2222-3333-4444-555555555555";
const THEIRS: &str = "99999999-8888-7777-6666-555555555555";

#[test]
fn create_osd_the_happy_path_confirms_and_starts_the_unit() {
    let mut host = FakeHost::new()
        .ok("ceph fsid", r#"{"fsid":"11111111-2222-3333-4444-555555555555"}"#)
        .ok("ceph osd ls", "[]")
        .ok("ceph-volume lvm list", "{}")
        .ok("wipefs --all /dev/sdb", "")
        .ok("ceph-volume lvm create", "")
        .ok(
            "ceph-volume lvm list",
            r#"{"5":[{"devices":["/dev/sdb"],"tags":{"ceph.cluster_fsid":"11111111-2222-3333-4444-555555555555"}}]}"#,
        )
        .ok("systemctl start yolab-ceph-osd@5.service", "");

    host.drive(|s| create_osd(s, "disk-happy", "/dev/sdb"));

    assert_eq!(host.board.progress_of("disk-happy").phase, Phase::Active);
    assert!(host.ran("start yolab-ceph-osd@5.service"));
    assert!(
        !host.ran("lvm zap"),
        "a blank disk must never be zapped: {:?}",
        host.calls()
    );
}

#[test]
fn create_osd_erases_a_foreign_disk_before_attempting_create() {
    let mut host = FakeHost::new()
        .ok("ceph fsid", r#"{"fsid":"11111111-2222-3333-4444-555555555555"}"#)
        .ok("ceph osd ls", "[]")
        .ok(
            "ceph-volume lvm list",
            r#"{"1":[{"devices":["/dev/sdc"],"tags":{"ceph.cluster_fsid":"99999999-8888-7777-6666-555555555555"}}]}"#,
        )
        .ok("ceph-volume lvm zap", "")
        .ok("wipefs --all /dev/sdc", "")
        .ok("ceph-volume lvm create", "");

    host.drive(|s| create_osd(s, "disk-foreign", "/dev/sdc"));

    let zap_at = host
        .position("lvm zap")
        .expect("a foreign disk must be zapped");
    let create_at = host
        .position("lvm create")
        .expect("create must still be attempted after the erase");
    assert!(
        zap_at < create_at,
        "zap must happen before create, not after a failure: {:?}",
        host.calls()
    );
    assert!(
        host.ran("lvm zap --destroy"),
        "a foreign stack is a volume group and must be removed, not just its contents: {:?}",
        host.calls()
    );
}

#[test]
fn create_osd_retries_once_after_a_stale_bluestore_signature() {
    let mut host = FakeHost::new()
        .ok(
            "ceph fsid",
            r#"{"fsid":"11111111-2222-3333-4444-555555555555"}"#,
        )
        .ok("ceph osd ls", "[]")
        .ok("ceph-volume lvm list", "{}")
        .fail(
            "ceph-volume lvm create",
            "RuntimeError: Device /dev/mapper/pool-ceph has bluestore signature.",
        )
        .ok("ceph-volume lvm create", "")
        .ok("ceph-volume lvm zap", "");

    host.drive(|s| create_osd(s, "disk-stale", "/dev/mapper/pool-ceph"));

    let creates = host
        .calls()
        .iter()
        .filter(|c| c.contains("lvm create"))
        .count();
    assert_eq!(
        creates,
        2,
        "must retry exactly once, not loop: {:?}",
        host.calls()
    );
    assert!(
        !host.ran("lvm zap --destroy"),
        "the system LV belongs to disko and must never be --destroy'd: {:?}",
        host.calls()
    );
}

#[test]
fn retry_backoff_grows_exponentially_and_is_capped() {
    assert_eq!(retry_backoff(1), Duration::from_secs(30));
    assert_eq!(retry_backoff(2), Duration::from_secs(60));
    assert_eq!(retry_backoff(3), Duration::from_secs(120));
    assert_eq!(retry_backoff(7), Duration::from_secs(600));
    assert_eq!(
        retry_backoff(20),
        Duration::from_secs(600),
        "must stay capped, not overflow or keep growing forever"
    );
}

#[test]
fn retry_due_is_always_true_on_the_first_attempt() {
    assert!(retry_due(0, None));
    assert!(retry_due(1, None));
}

#[test]
fn retry_due_blocks_until_the_backoff_elapses() {
    assert!(!retry_due(3, Some(Duration::from_secs(100))));
    assert!(retry_due(3, Some(Duration::from_secs(120))));
    assert!(retry_due(3, Some(Duration::from_secs(121))));
}

#[test]
fn plan_create_waits_rather_than_hammering_a_disk_that_just_failed() {
    let plan = plan_create(
        "node1",
        "dev-sdb",
        &blank_disk("sdb"),
        &recs(&[("node1--dev-sdb", "ON")]),
        &osds(&[]),
        false,
        3,
        Some(Duration::from_secs(5)),
    );
    assert_eq!(format!("{plan:?}"), format!("{:?}", CreatePlan::Waiting));
}

#[test]
fn plan_create_retries_once_the_backoff_has_elapsed() {
    let plan = plan_create(
        "node1",
        "dev-sdb",
        &blank_disk("sdb"),
        &recs(&[("node1--dev-sdb", "ON")]),
        &osds(&[]),
        false,
        3,
        Some(Duration::from_secs(120)),
    );
    assert_eq!(format!("{plan:?}"), format!("{:?}", CreatePlan::Create {
            dev_path: "/dev/sdb".to_string()
        }));
}

#[test]
fn purge_wipes_the_disk_once_the_osd_is_confirmed_gone() {
    let mut host = FakeHost::new()
        .ok("ceph -s", "")
        .ok("ceph fsid", r#"{"fsid":"11111111-2222-3333-4444-555555555555"}"#)
        .ok("ceph-volume lvm list", "{}")
        .ok(
            "ceph osd df tree",
            r#"{"nodes":[{"id":7,"type":"osd","status":"down","crush_weight":0.5,"reweight":0.0,"kb":0}]}"#,
        )
        .ok("ceph osd safe-to-destroy", r#"{"safe_to_destroy":[7]}"#)
        .ok(
            "systemctl show -p ActiveState --value yolab-ceph-osd@7.service",
            "inactive",
        )
        .ok("ceph osd purge", "purged osd.7")
        .ok("ceph osd ls", "[7]")
        .ok("ceph osd ls", "[]")
        .ok("ceph-volume lvm zap", "");

    let meta = Vec::from([("disk-purge".to_string(), disk(Ownership::Blank))]);
    let desired = Vec::from([("disk-purge".to_string(), "OFF".to_string())]);
    let disk_to_osd = Vec::from([("disk-purge".to_string(), 7i64)]);

    host.drive(|s| reconcile_local_osds(s, "node1", &meta, &desired, Some(&disk_to_osd), true));

    assert!(
        host.ran("lvm zap"),
        "a confirmed purge must wipe the disk: {:?}",
        host.calls()
    );
    assert_eq!(host.board.progress_of("disk-purge").phase, Phase::Removable);
}

#[test]
fn a_switched_on_disk_whose_osd_the_cluster_forgot_is_erased_not_started() {
    let mut host = FakeHost::new()
        .ok("ceph -s", "")
        .ok("ceph osd ls", "[0]")
        .ok("systemctl stop yolab-ceph-osd@1.service", "")
        .ok("ceph-volume lvm zap", "");
    let meta = Vec::from([("disk-old".to_string(), disk(Ownership::Ours))]);
    let desired = Vec::from([(record_key("node1", "disk-old"), "ON".to_string())]);
    let disk_to_osd = Vec::from([("disk-old".to_string(), 1i64)]);

    host.drive(|s| reconcile_local_osds(s, "node1", &meta, &desired, Some(&disk_to_osd), true));

    assert!(
        host.ran("ceph-volume lvm zap --destroy /dev/sdb"),
        "{:?}",
        host.calls()
    );
    assert!(host.ran("systemctl stop yolab-ceph-osd@1.service"));
    assert!(!host.ran("systemctl start yolab-ceph-osd@1"));
    assert!(!host.ran("crush reweight") && !host.ran("osd in"));
    assert!(
        !host.ran("lvm create"),
        "created on the next tick, once it reads blank"
    );
}

#[test]
fn a_tick_on_the_mons_list_creates_nothing_but_still_starts_known_osds() {
    let mut host = FakeHost::new()
        .ok("ceph -s", "")
        .ok("ceph osd ls", "[5]")
        .ok(
            "systemctl show -p ActiveState --value yolab-ceph-osd@5.service",
            "inactive",
        )
        .ok("systemctl start yolab-ceph-osd@5.service", "");
    let meta = Vec::from([
        ("disk-new-osd".to_string(), disk(Ownership::Blank)),
        ("disk-known".to_string(), disk(Ownership::Ours)),
    ]);
    let desired = Vec::from([
        (record_key("node1", "disk-new-osd"), "ON".to_string()),
        (record_key("node1", "disk-known"), "ON".to_string()),
    ]);
    let disk_to_osd = Vec::from([("disk-known".to_string(), 5i64)]);

    host.drive(|s| reconcile_local_osds(s, "node1", &meta, &desired, Some(&disk_to_osd), false));

    assert!(
        !host.ran("lvm create") && !host.ran("wipefs"),
        "{:?}",
        host.calls()
    );
    assert!(!host.board.creating.contains(&"disk-new-osd".to_string()));
    assert!(
        host.ran("systemctl start yolab-ceph-osd@5.service"),
        "{:?}",
        host.calls()
    );
}

#[test]
fn the_osd_list_says_where_it_came_from() {
    let meta = Vec::from([("disk-b".to_string(), disk(Ownership::Blank))]);

    let mut busy = FakeHost::new()
        .fail(
            "ceph-volume lvm list",
            "skipped, already running on this node",
        )
        .ok(
            "ceph osd metadata",
            r#"[{"id": 2, "hostname": "node1", "devices": "sdb"}]"#,
        );
    let (map, source) = busy.drive(|s| fetch_disk_to_osd(s, "node1", &meta)).unwrap();
    assert_eq!(source, OsdMapSource::Mon);
    assert_eq!(at(&map, "disk-b"), Some(&2));

    let mut local = FakeHost::new().ok("ceph-volume lvm list", "{}").ok(
        "ceph fsid",
        r#"{"fsid":"11111111-2222-3333-4444-555555555555"}"#,
    );
    let (_, source) = local.drive(|s| fetch_disk_to_osd(s, "node1", &meta)).unwrap();
    assert_eq!(source, OsdMapSource::CephVolume);
}

#[test]
fn a_switched_off_disk_whose_osd_the_cluster_forgot_is_left_alone() {
    let mut host = FakeHost::new()
        .ok("ceph -s", "")
        .ok("ceph osd ls", "[0]")
        .ok("systemctl stop yolab-ceph-osd@3.service", "");
    let meta = Vec::from([("disk-off".to_string(), disk(Ownership::Ours))]);
    let desired = Vec::from([(record_key("node1", "disk-off"), "OFF".to_string())]);
    let disk_to_osd = Vec::from([("disk-off".to_string(), 3i64)]);

    host.drive(|s| reconcile_local_osds(s, "node1", &meta, &desired, Some(&disk_to_osd), true));

    assert!(!host.ran("zap") && !host.ran("osd purge") && !host.ran("osd out"));
    assert_eq!(host.board.progress_of("disk-off").phase, Phase::Removable);
}

#[test]
fn purge_never_wipes_when_the_osd_is_still_listed_afterward() {
    let mut host = FakeHost::new()
        .ok("ceph -s", "")
        .ok("ceph fsid", r#"{"fsid":"11111111-2222-3333-4444-555555555555"}"#)
        .ok("ceph-volume lvm list", "{}")
        .ok(
            "ceph osd df tree",
            r#"{"nodes":[{"id":9,"type":"osd","status":"down","crush_weight":0.5,"reweight":0.0,"kb":0}]}"#,
        )
        .ok("ceph osd safe-to-destroy", r#"{"safe_to_destroy":[9]}"#)
        .ok(
            "systemctl show -p ActiveState --value yolab-ceph-osd@9.service",
            "inactive",
        )
        .ok("ceph osd purge", "purged osd.9")
        .ok("ceph osd ls", "[9]");

    let meta = Vec::from([("disk-stuck".to_string(), disk(Ownership::Blank))]);
    let desired = Vec::from([("disk-stuck".to_string(), "OFF".to_string())]);
    let disk_to_osd = Vec::from([("disk-stuck".to_string(), 9i64)]);

    host.drive(|s| reconcile_local_osds(s, "node1", &meta, &desired, Some(&disk_to_osd), true));

    assert!(
        !host.ran("lvm zap"),
        "a purge that is not confirmed gone must never wipe the disk: {:?}",
        host.calls()
    );
    assert_eq!(host.board.progress_of("disk-stuck").phase, Phase::Removing);
}

#[test]
fn an_unreachable_cluster_reports_unknown_and_never_touches_a_disk() {
    let mut host = FakeHost { silent: true, ..FakeHost::new() };
    let meta = Vec::from([("disk-a".to_string(), disk(Ownership::Blank))]);
    let desired = Vec::from([("disk-a".to_string(), "ON".to_string())]);
    let disk_to_osd = Vec::new();

    host.drive(|s| reconcile_local_osds(s, "node1", &meta, &desired, Some(&disk_to_osd), true));

    assert_eq!(host.board.progress_of("disk-a").phase, Phase::Unknown);
    assert_eq!(host.calls().iter().filter(|c| c.starts_with("ceph-volume")).count(), 0);
}

fn bluestore_label(fsid: &str) -> Vec<u8> {
    let mut buf = vec![0u8; 4096];
    buf[..BLUESTORE_MAGIC.len()].copy_from_slice(BLUESTORE_MAGIC);
    let at = 512;
    buf[at..at + CEPH_FSID_KEY.len()].copy_from_slice(CEPH_FSID_KEY);
    let vs = at + CEPH_FSID_KEY.len();
    buf[vs..vs + 4].copy_from_slice(&36u32.to_le_bytes());
    buf[vs + 4..vs + 4 + fsid.len()].copy_from_slice(fsid.as_bytes());
    buf
}

#[test]
fn is_uuid_accepts_a_canonical_uuid() {
    assert!(is_uuid(OURS));
    assert!(is_uuid("deadbeef-DEAD-beef-DEAD-beefdeadbeef"));
}

#[test]
fn is_uuid_rejects_the_empty_string() {
    assert!(!is_uuid(""));
}

#[test]
fn is_uuid_rejects_malformed_shapes() {
    assert!(!is_uuid("1111-2222-3333-4444"));
    assert!(!is_uuid("11111111-2222-3333-4444-555555555555-6"));
    assert!(!is_uuid("1111111-2222-3333-4444-555555555555"));
    assert!(!is_uuid("gggggggg-2222-3333-4444-555555555555"));
    assert!(!is_uuid("11111111 2222 3333 4444 555555555555"));
    assert!(!is_uuid("----"));
}

#[test]
fn foreign_and_unknown_are_distinguishable_on_the_wire() {
    let disk = |o| Disk {
        device: "sdb".into(),
        model: "easystore".into(),
        size_bytes: 1000,
        is_loop: false,
        ownership: o,
        has_partitions: false,
        mounted: false,
        osd_id: None,
        progress: None,
    };

    let foreign = disk(Ownership::Foreign).to_value();
    let unknown = disk(Ownership::Unknown).to_value();

    assert_eq!(field(&foreign, "foreign_ceph"), j(true));
    assert_eq!(field(&unknown, "foreign_ceph"), j(true));
    assert_eq!(field(&foreign, "ownership"), j("foreign"));
    assert_eq!(field(&unknown, "ownership"), j("unknown"));
}

#[test]
fn every_ownership_state_has_a_distinct_wire_name() {
    let names: Vec<&str> = [
        Ownership::Ours,
        Ownership::Foreign,
        Ownership::Blank,
        Ownership::Unknown,
    ]
    .iter()
    .map(|o| o.as_str())
    .collect();
    let mut sorted = names.clone();
    sorted.sort_unstable();
    sorted.dedup();
    assert_eq!(sorted.len(), names.len(), "names collide: {names:?}");
}

#[test]
fn bluestore_fsid_reads_a_well_formed_label() {
    let mut host = FakeHost::new();
    let dev = host.device("sda", &bluestore_label(OURS));
    assert_eq!(host.drive(|s| read_label(s, &dev)).as_deref(), Some(OURS));
}

#[test]
fn bluestore_fsid_returns_none_without_the_magic() {
    let mut host = FakeHost::new();
    let dev = host.device("sdb", &vec![0u8; 4096]);
    assert_eq!(host.drive(|s| read_label(s, &dev)), None);
}

#[test]
fn bluestore_fsid_returns_none_for_a_device_shorter_than_the_header() {
    let mut host = FakeHost::new();
    let dev = host.device("sdc", b"bluestore block device\n");
    assert_eq!(host.drive(|s| read_label(s, &dev)), None);
}

#[test]
fn bluestore_fsid_returns_none_when_the_device_does_not_exist() {
    let mut host = FakeHost::new();
    assert_eq!(host.drive(|s| read_label(s, "/nonexistent/definitely-not-a-device")), None);
}

#[test]
fn bluestore_fsid_returns_none_when_the_length_prefix_is_not_36() {
    let mut host = FakeHost::new();
    let mut buf = bluestore_label(OURS);
    let vs = 512 + CEPH_FSID_KEY.len();
    buf[vs..vs + 4].copy_from_slice(&16u32.to_le_bytes());
    let dev = host.device("sdd", &buf);
    assert_eq!(host.drive(|s| read_label(s, &dev)), None);
}

#[test]
fn bluestore_fsid_never_returns_a_non_uuid_value() {
    let mut host = FakeHost::new();
    let mut buf = bluestore_label(OURS);
    let vs = 512 + CEPH_FSID_KEY.len();
    buf[vs + 4..vs + 40].fill(b' ');
    let dev = host.device("sde", &buf);
    assert_eq!(host.drive(|s| read_label(s, &dev)), None);
}

#[test]
fn a_label_matching_our_cluster_is_ours() {
    let mut host = FakeHost::new();
    let dev = host.device("sda", &bluestore_label(OURS));
    assert_eq!(
        host.drive(|s| disk_meta(s, &dev, OURS, DiskFlags::default())).ownership,
        Ownership::Ours
    );
}

#[test]
fn a_label_from_another_cluster_is_foreign() {
    let mut host = FakeHost::new();
    let dev = host.device("sda", &bluestore_label(THEIRS));
    assert_eq!(
        host.drive(|s| disk_meta(s, &dev, OURS, DiskFlags::default())).ownership,
        Ownership::Foreign
    );
}

#[test]
fn a_label_we_cannot_attribute_is_unknown_and_still_refuses() {
    let mut host = FakeHost::new();
    let dev = host.device("sda", &bluestore_label(OURS));
    let d = host.drive(|s| disk_meta(s, &dev, "", DiskFlags::default()));
    assert_eq!(d.ownership, Ownership::Unknown);
    assert!(refuse_osd_creation(&d).is_some());
}

#[test]
fn an_unlabelled_disk_is_blank() {
    let mut host = FakeHost::new();
    let dev = host.device("sda", &vec![0u8; 4096]);
    assert_eq!(
        host.drive(|s| disk_meta(s, &dev, OURS, DiskFlags::default())).ownership,
        Ownership::Blank
    );
}

#[test]
fn the_wire_shape_the_ui_reads_is_unchanged() {
    let base = Disk {
        device: "sdb".into(),
        model: "easystore".into(),
        size_bytes: 1000,
        is_loop: false,
        ownership: Ownership::Blank,
        has_partitions: false,
        mounted: false,
        osd_id: None,
        progress: None,
    };

    let v = base.to_value();
    assert_eq!(field(&v, "device"), j("sdb"));
    assert_eq!(field(&v, "model"), j("easystore"));
    assert_eq!(field(&v, "size_bytes"), j(1000));
    assert_eq!(field(&v, "is_our_osd"), j(false));
    assert_eq!(field(&v, "foreign_ceph"), j(false));
    assert_eq!(field(&v, "ownership"), j("blank"));
    assert_eq!(field(&v, "has_partitions"), j(false));
    assert_eq!(field(&v, "mounted"), j(false));
    assert_eq!(field(&v, "osd_id"), "null");
    assert!(
        v.get("is_loop").is_none(),
        "absent on a normal disk, as before"
    );

    for (own, ours, foreign) in [
        (Ownership::Ours, true, false),
        (Ownership::Foreign, false, true),
        (Ownership::Unknown, false, true),
        (Ownership::Blank, false, false),
    ] {
        let v = Disk {
            ownership: own,
            ..base.clone()
        }
        .to_value();
        assert_eq!(field(&v, "is_our_osd"), j(ours), "{own:?}");
        assert_eq!(field(&v, "foreign_ceph"), j(foreign), "{own:?}");
    }

    let sys = Disk {
        is_loop: true,
        ..base.clone()
    }
    .to_value();
    assert_eq!(field(&sys, "is_loop"), j(true));

    let running = Disk {
        osd_id: Some(3),
        progress: Some(DiskProgress {
            phase: Phase::Active,
            message: "In use".into(),
            attempts: 2,
            orphan_osd_id: None,
            last_attempt: None,
        }),
        ..base.clone()
    }
    .to_value();
    assert_eq!(field(&running, "osd_id"), j(3));
    assert_eq!(field(&running, "phase"), j(Phase::Active.as_str()));
    assert_eq!(field(&running, "message"), j("In use"));
    assert_eq!(field(&running, "attempts"), j(2));
}

#[test]
fn a_disk_with_no_progress_publishes_no_phase() {
    let v = Disk {
        device: "sdb".into(),
        model: String::new(),
        size_bytes: 0,
        is_loop: false,
        ownership: Ownership::Blank,
        has_partitions: false,
        mounted: false,
        osd_id: None,
        progress: Some(DiskProgress::default()),
    }
    .to_value();
    assert!(v.get("phase").is_none());
}

#[test]
fn a_hardware_id_is_not_scoped_to_a_machine() {
    assert_eq!(
        record_key("node1", "serial-wwn-0x50014ee214caf529"),
        "serial-wwn-0x50014ee214caf529"
    );
    assert_eq!(
        record_key("node1", "serial-wwn-0xabc"),
        record_key("node3", "serial-wwn-0xabc")
    );
}

#[test]
fn an_id_that_only_means_something_locally_stays_scoped() {
    assert_eq!(record_key("node1", "dev-sda"), "node1--dev-sda");
    assert_ne!(
        record_key("node1", "dev-sda"),
        record_key("node3", "dev-sda")
    );
    assert_eq!(record_key("node1", "system"), "node1--system");
    assert_ne!(record_key("node1", "system"), record_key("node3", "system"));
}

#[test]
fn only_hardware_ids_count_as_globally_unique() {
    assert!(is_globally_unique_id("serial-wwn-0xabc"));
    assert!(is_globally_unique_id("serial-ata-wdc-wd10"));
    for local in ["dev-sda", "dev-nvme0n1", "system", "", "loop0"] {
        assert!(!is_globally_unique_id(local), "{local} names a position");
    }
}

#[test]
fn a_hardware_id_beats_the_kernel_name() {
    assert_eq!(
        disk_id_from("sdc", Some("wwn-0x50014ee214caf529")),
        "serial-wwn-0x50014ee214caf529".replace(['.', '_'], "-")
    );
}

#[test]
fn the_id_ranking_prefers_hardware_identity_over_the_enclosure() {
    let rank = |n: &str| id_rank(n);
    let wwn = rank("wwn-0x50014ee214caf529").unwrap();
    let ata = rank("ata-WDC_WD10SDRW-11A0XS1_WD-WXD2A51LAR33").unwrap();
    let usb = rank("usb-WD_easystore_2647_575844324135314C41523333-0:0").unwrap();
    assert!(wwn < ata, "the World Wide Name is the strongest identity");
    assert!(
        ata < usb,
        "a USB id may describe the caddy rather than the disk"
    );
}

#[test]
fn unranked_links_are_ignored() {
    let rank = |n: &str| id_rank(n);
    assert!(rank("dm-name-pool-ceph").is_none());
    assert!(rank("lvm-pv-uuid-3MOvZ3-dMBQ").is_none());
}

#[test]
fn the_kernel_name_remains_the_last_resort() {
    assert_eq!(disk_id_from("sdc", None), "dev-sdc");
    assert_eq!(disk_id_from("sdc", Some("")), "dev-sdc");
    assert_eq!(disk_id_from("sdc", Some("  \n ")), "dev-sdc");
}

#[test]
fn two_different_disks_never_sanitise_to_the_same_id() {
    let a = disk_id_from("sdb", Some("ata-WDC_WD10SDRW-11A0XS1_WD-WXD2A51LAR33"));
    let b = disk_id_from("sdc", Some("ata-WDC_WD10SDRW-11A0XS1_WD-WXD2A51LAR34"));
    assert_ne!(a, b);
    assert!(a.starts_with("serial-"));
}

#[test]
fn disk_id_prefers_the_serial_number() {
    assert_eq!(disk_id_from("sda", Some("S3Z1NB0K")), "serial-s3z1nb0k");
}

#[test]
fn disk_id_replaces_characters_a_configmap_key_cannot_hold() {
    assert_eq!(
        disk_id_from("sda", Some("WD/Blue 500:GB")),
        "serial-wd-blue-500-gb"
    );
}

#[test]
fn disk_id_trims_surrounding_whitespace_and_dashes() {
    assert_eq!(disk_id_from("sda", Some("  ABC123  ")), "serial-abc123");
    assert_eq!(disk_id_from("sda", Some("__ABC__")), "serial-abc");
}

#[test]
fn disk_id_falls_back_to_the_device_name_without_a_usable_serial() {
    assert_eq!(disk_id_from("sda", None), "dev-sda");
    assert_eq!(disk_id_from("sda", Some("")), "dev-sda");
    assert_eq!(disk_id_from("sda", Some("   \n")), "dev-sda");
}

#[test]
fn weight_prefers_cephs_own_kb_over_lsblk_bytes() {
    let kb = 1u64 << 30;
    assert_eq!(tib(weight_tib_from(kb, 999)), 1.0);
}

#[test]
fn weight_falls_back_to_size_bytes_when_ceph_reports_nothing() {
    assert_eq!(tib(weight_tib_from(0, 1u64 << 40)), 1.0);
    assert_eq!(tib(weight_tib_from(0, 1u64 << 39)), 0.5);
}

#[test]
fn weight_is_zero_when_no_size_is_known() {
    assert_eq!(tib(weight_tib_from(0, 0)), 0.0);
}

fn recs(pairs: &[(&str, &str)]) -> Vec<(String, String)> {
    pairs
        .iter()
        .map(|(k, v)| (k.to_string(), v.to_string()))
        .collect()
}

#[test]
fn every_new_disk_is_registered_off_whatever_it_holds() {
    let meta = Vec::from([
        ("dev-sdb".to_string(), disk(Ownership::Blank)),
        ("dev-sdc".to_string(), disk(Ownership::Ours)),
        ("dev-sdd".to_string(), disk(Ownership::Foreign)),
    ]);
    assert_eq!(
        new_disk_records("node1", &meta, &Vec::new()),
        vec![
            ("node1--dev-sdb".to_string(), "OFF"),
            ("node1--dev-sdc".to_string(), "OFF"),
            ("node1--dev-sdd".to_string(), "OFF"),
        ]
    );
}

#[test]
fn an_existing_record_is_never_overwritten_and_the_system_lv_needs_none() {
    let meta = Vec::from([
        ("dev-sdb".to_string(), disk(Ownership::Ours)),
        (SYSTEM_OSD_ID.to_string(), disk(Ownership::Blank)),
    ]);
    let desired = recs(&[("node1--dev-sdb", "OFF")]);
    assert!(new_disk_records("node1", &meta, &desired).is_empty());
}

#[test]
fn switches_are_read_from_ceph_and_an_unreadable_store_changes_nothing() {
    let mut host = FakeHost::new().ok(
        "ceph config-key dump yolab/disks/",
        r#"{"yolab/disks/node1--dev-sdb":"ON"}"#,
    );
    let desired = host.drive(|s| read_desired(s)).expect("readable");
    assert_eq!(
        at(&desired, "node1--dev-sdb").map(String::as_str),
        Some("ON")
    );

    let mut down = FakeHost::new().fail("ceph config-key dump", "error connecting to the cluster");
    assert_eq!(down.drive(|s| read_desired(s)), None);
}

#[test]
fn a_node_publishes_its_inventory_under_its_own_key() {
    let mut host = FakeHost::new().ok("ceph config-key set yolab/disk-status/node1", "");
    let meta = Vec::from([("dev-sdb".to_string(), disk(Ownership::Blank))]);
    host.drive(|s| write_status(s, "node1", &meta));
    assert!(host.ran("ceph config-key set yolab/disk-status/node1 {\"disks\":{\"dev-sdb\":"));
}

#[test]
fn an_unchanged_inventory_is_not_published_again() {
    let meta = Vec::from([("dev-sdb".to_string(), disk(Ownership::Blank))]);
    let mut first = FakeHost::new().ok("ceph config-key set yolab/disk-status/node-once", "");
    first.drive(|s| write_status(s, "node-once", &meta));
    assert!(first.ran("ceph config-key set yolab/disk-status/node-once"));

    let mut second = FakeHost { board: first.board, ..FakeHost::new() };
    second.drive(|s| write_status(s, "node-once", &meta));
    assert!(
        second.calls().is_empty(),
        "nothing changed, so nothing should be written: {:?}",
        second.calls()
    );
}

#[test]
fn registering_reports_how_many_disks_were_new() {
    let mut host = FakeHost::new().ok("ceph config-key set yolab/disks/node1--dev-sdb", "");
    let meta = Vec::from([("dev-sdb".to_string(), disk(Ownership::Blank))]);
    let registered = host.drive(|s| auto_register_all_disks(s, "node1", &meta, &Vec::new()));
    assert_eq!(registered, 1);
    assert!(host.ran("ceph config-key set yolab/disks/node1--dev-sdb"));
}

fn disk(ownership: Ownership) -> Disk {
    Disk {
        device: "sdb".into(),
        model: String::new(),
        size_bytes: 1_000_000_000,
        is_loop: false,
        ownership,
        has_partitions: false,
        mounted: false,
        osd_id: None,
        progress: None,
    }
}

#[test]
fn a_freshly_created_osd_is_activated_with_a_weight() {
    let steer = decide_steer(
        true,
        1u64 << 40,
        seen(0.0, 0.0, 0, true),
        0,
        &vec![],
        "osd",
        None,
    );
    assert_eq!(steer.set_weight.map(tib), Some(1.0));
    assert!(steer.mark_in);
    assert!(!steer.mark_out);
    assert!(!steer.needs_purge);
    assert_eq!(steer.phase, Some(Phase::Active));
}

#[test]
fn an_on_osd_that_is_down_reports_retrying() {
    let steer = decide_steer(true, 0, seen(1.0, 1.0, 0, false), 0, &vec![], "osd", None);
    assert_eq!(steer.set_weight, None);
    assert!(!steer.mark_in);
    assert!(!steer.mark_out);
    assert!(!steer.needs_purge);
    assert_eq!(steer.phase, Some(Phase::Retrying));
}

#[test]
fn a_weighted_in_osd_that_is_up_needs_no_steering() {
    let steer = decide_steer(true, 0, seen(1.0, 1.0, 0, true), 0, &vec![], "osd", None);
    assert_eq!(steer.set_weight, None);
    assert!(!steer.mark_in);
    assert!(!steer.mark_out);
    assert!(!steer.needs_purge);
    assert_eq!(steer.phase, Some(Phase::Active));
}

#[test]
fn an_off_disk_still_in_is_marked_out() {
    let steer = decide_steer(false, 0, seen(1.0, 1.0, 0, false), 0, &vec![], "osd", None);
    assert!(steer.mark_out);
    assert!(!steer.needs_purge);
    assert_eq!(steer.phase, Some(Phase::Draining));
    assert!(steer.message.is_some());
}

#[test]
fn an_off_disk_already_out_needs_purge() {
    let steer = decide_steer(false, 0, seen(1.0, 0.0, 0, false), 0, &vec![], "osd", None);
    assert!(steer.needs_purge);
    assert!(!steer.mark_out);
    assert!(!steer.mark_in);
    assert_eq!(steer.phase, None);
    assert_eq!(steer.message, None);
}

#[test]
fn a_unit_is_stopped_only_in_a_definitely_dead_state() {
    assert!(is_stopped(Some("inactive")));
    assert!(is_stopped(Some("failed")));
    assert!(!is_stopped(Some("active")));
    assert!(!is_stopped(Some("activating")));
    assert!(!is_stopped(None));
}

#[test]
fn a_unit_is_running_when_active_or_coming_up() {
    assert!(is_running(Some("active")));
    assert!(is_running(Some("activating")));
    assert!(is_running(Some("reloading")));
    assert!(!is_running(Some("inactive")));
    assert!(!is_running(None));
}

#[test]
fn a_successful_steer_reports_its_own_phase() {
    let steer = decide_steer(true, 0, seen(1.0, 1.0, 0, true), 0, &vec![], "osd", None);
    let (phase, _) = steer_report(&steer, true);
    assert_eq!(phase, Phase::Active);
}

#[test]
fn a_failed_steer_reports_retrying_not_active() {
    let steer = decide_steer(true, 0, seen(1.0, 1.0, 0, true), 0, &vec![], "osd", None);
    let (phase, message) = steer_report(&steer, false);
    assert_eq!(phase, Phase::Retrying);
    assert!(message.contains("keep trying"));
}

#[test]
fn a_wanted_disk_absent_from_the_node_is_unplugged() {
    let desired = Vec::from([("serial-abc".to_string(), "ON".to_string())]);
    let meta: Vec<(String, Disk)> = Vec::new();
    assert!(any_unplugged_but_wanted(&desired, "node1", &meta));
}

#[test]
fn a_node_scoped_wanted_disk_absent_is_unplugged() {
    let desired = Vec::from([("node1--dev-sdb".to_string(), "ON".to_string())]);
    let meta: Vec<(String, Disk)> = Vec::new();
    assert!(any_unplugged_but_wanted(&desired, "node1", &meta));
}

#[test]
fn a_present_disk_is_not_unplugged() {
    let desired = Vec::from([("serial-abc".to_string(), "ON".to_string())]);
    let meta = Vec::from([("serial-abc".to_string(), disk(Ownership::Blank))]);
    assert!(!any_unplugged_but_wanted(&desired, "node1", &meta));
}

#[test]
fn an_off_disk_is_not_unplugged() {
    let desired = Vec::from([("serial-abc".to_string(), "OFF".to_string())]);
    let meta: Vec<(String, Disk)> = Vec::new();
    assert!(!any_unplugged_but_wanted(&desired, "node1", &meta));
}

#[test]
fn a_blank_disk_may_be_turned_into_an_osd() {
    assert_eq!(refuse_osd_creation(&disk(Ownership::Blank)), None);
}

#[test]
fn our_own_osd_is_never_recreated_over() {
    assert!(
        refuse_osd_creation(&disk(Ownership::Ours)).is_some(),
        "a disk carrying our own BlueStore label must never be handed to ceph-volume create"
    );
}

#[test]
fn another_clusters_disk_is_auto_wiped() {
    assert_eq!(refuse_osd_creation(&disk(Ownership::Foreign)), None);
}

#[test]
fn a_disk_of_unknown_ownership_is_refused() {
    assert!(refuse_osd_creation(&disk(Ownership::Unknown)).is_some());
}

#[test]
fn only_provably_foreign_disks_are_auto_wiped() {
    for o in [Ownership::Ours, Ownership::Unknown] {
        assert!(
            refuse_osd_creation(&disk(o)).is_some(),
            "{o:?} must never be handed to ceph-volume create"
        );
    }
    assert_eq!(refuse_osd_creation(&disk(Ownership::Blank)), None);
    assert_eq!(refuse_osd_creation(&disk(Ownership::Foreign)), None);
}

#[test]
fn an_entry_without_a_device_is_refused() {
    let d = Disk {
        device: String::new(),
        ..disk(Ownership::Blank)
    };
    assert!(refuse_osd_creation(&d).is_some());
}

#[test]
fn a_blank_but_mounted_disk_is_still_refused() {
    let mounted = Disk {
        mounted: true,
        ..disk(Ownership::Blank)
    };
    let partitioned = Disk {
        has_partitions: true,
        ..disk(Ownership::Blank)
    };
    assert!(refuse_osd_creation(&mounted).is_some());
    assert_eq!(refuse_osd_creation(&partitioned), None);
}

#[test]
fn a_disk_ceph_knows_about_is_marked_as_ours() {
    let meta = Vec::from([("dev-sdb".to_string(), disk(Ownership::Blank))]);

    let meta = mark_known_osds(meta, &Vec::from([("dev-sdb".to_string(), 1i64)]));

    assert_eq!(at(&meta, "dev-sdb").unwrap().osd_id, Some(1));
    assert_eq!(
        at(&meta, "dev-sdb").unwrap().ownership,
        Ownership::Ours,
        "an OSD id from ceph-volume is authoritative over a missing on-disk label"
    );
}

#[test]
fn a_known_osd_is_never_left_marked_foreign() {
    let meta = Vec::from([("dev-sdb".to_string(), disk(Ownership::Foreign))]);
    let meta = mark_known_osds(meta, &Vec::from([("dev-sdb".to_string(), 4i64)]));
    assert_eq!(at(&meta, "dev-sdb").unwrap().ownership, Ownership::Ours);
}

#[test]
fn disks_ceph_does_not_know_are_left_alone() {
    let meta = Vec::from([("dev-sdc".to_string(), disk(Ownership::Foreign))]);
    let meta = mark_known_osds(meta, &Vec::new());
    assert_eq!(at(&meta, "dev-sdc").unwrap().ownership, Ownership::Foreign);
    assert_eq!(at(&meta, "dev-sdc").unwrap().osd_id, None);
}

#[test]
fn an_id_for_an_absent_disk_adds_nothing() {
    let meta: Vec<(String, Disk)> = Vec::new();
    let meta = mark_known_osds(meta, &Vec::from([("dev-gone".to_string(), 9i64)]));
    assert!(meta.is_empty());
}

#[test]
fn a_mounted_disk_is_refused_with_a_reason() {
    let d = Disk {
        device: "sda".into(),
        mounted: true,
        ..disk(Ownership::Blank)
    };
    let msg = refuse_osd_creation(&d).expect("a mounted disk must be refused");
    assert!(msg.contains("using this disk"), "{msg}");
}

#[test]
fn a_partitioned_disk_is_wiped_not_refused() {
    let d = Disk {
        has_partitions: true,
        ..disk(Ownership::Blank)
    };
    assert_eq!(refuse_osd_creation(&d), None);
}

#[test]
fn a_blank_unmounted_disk_is_accepted() {
    assert_eq!(refuse_osd_creation(&disk(Ownership::Blank)), None);
}

#[test]
fn foreign_ceph_no_longer_blocks() {
    assert_eq!(refuse_osd_creation(&disk(Ownership::Foreign)), None);
    assert!(refuse_osd_creation(&disk(Ownership::Ours)).is_some());
    assert!(refuse_osd_creation(&disk(Ownership::Unknown)).is_some());
}

#[test]
fn a_mounted_disk_is_not_offered_as_storage() {
    let v = json(
        r#"{"name": "sda", "type": "disk", "children": [
        {"name": "sda1", "type": "part", "mountpoints": ["/boot"]}
    ]}"#,
    );
    assert!(parse_disk_flags(&v).mounted, "must be seen as mounted");
}

#[test]
fn refusal_reasons_carry_no_jargon() {
    let cases = [
        disk(Ownership::Unknown),
        disk(Ownership::Ours),
        Disk {
            mounted: true,
            ..disk(Ownership::Blank)
        },
        Disk {
            device: String::new(),
            ..disk(Ownership::Blank)
        },
    ];
    const JARGON: [&str; 8] = [
        "BlueStore",
        "OSD",
        "ceph",
        "Ceph",
        "LVM",
        "device path",
        "metadata",
        "superblock",
    ];
    for c in cases {
        let msg = refuse_osd_creation(&c).expect("every case must refuse");
        for word in JARGON {
            assert!(
                !msg.contains(word),
                "refusal message leaks {word:?} to the user: {msg}"
            );
        }
        assert!(
            msg.ends_with('.'),
            "shown as a sentence to a person, so it needs to read as one: {msg}"
        );
    }
}

#[test]
fn osd_metadata_returns_only_this_hosts_osds() {
    let got = parse_osd_metadata(&meta_json(), "node1");
    let ids: Vec<i64> = got.iter().map(|(_, id)| *id).collect();
    assert!(ids.contains(&0) && ids.contains(&1));
    assert!(!ids.contains(&2), "osd.2 belongs to another machine");
}

#[test]
fn osd_metadata_reports_the_device_and_the_volume() {
    let got = parse_osd_metadata(&meta_json(), "node1");
    assert!(got.contains(&("sda".to_string(), 0)));
    assert!(got.contains(&("/dev/dm-1".to_string(), 0)));
}

#[test]
fn osd_metadata_splits_a_multi_device_osd() {
    let v = json(r#"[{"id": 4, "hostname": "n", "devices": "sdb,sdc"}]"#);
    let got = parse_osd_metadata(&v, "n");
    assert!(got.contains(&("sdb".to_string(), 4)));
    assert!(got.contains(&("sdc".to_string(), 4)));
}

#[test]
fn osd_metadata_ignores_placeholder_device_nodes() {
    let v = json(
        r#"[{"id": 5, "hostname": "n", "devices": "",
                    "bluestore_bdev_dev_node": "unknown"}]"#,
    );
    assert!(parse_osd_metadata(&v, "n").is_empty());
}

#[test]
fn osd_metadata_yields_nothing_from_a_shape_it_does_not_understand() {
    assert!(parse_osd_metadata(&json("{}"), "n").is_empty());
    assert!(parse_osd_metadata(&json("[]"), "n").is_empty());
    assert!(parse_osd_metadata(&json(r#"[{"hostname": "n"}]"#), "n").is_empty());
}

#[test]
fn other_usable_osds_are_counted_for_the_osd_domain() {
    let nodes = vec![osd(0, true, 1.0), osd(1, true, 0.0), osd(2, true, 1.0)];
    assert_eq!(drain_targets_remaining(&nodes, 1, "osd"), 2);
}

#[test]
fn down_and_out_osds_are_not_places_to_put_a_copy() {
    let nodes = vec![osd(0, false, 1.0), osd(1, true, 1.0), osd(2, true, 0.0)];
    assert_eq!(drain_targets_remaining(&nodes, 1, "osd"), 0);
}

#[test]
fn the_host_domain_counts_machines_not_disks() {
    let nodes = vec![
        host("node1", vec![0, 1]),
        osd(0, true, 1.0),
        osd(1, true, 1.0),
        host("node2", vec![2]),
        osd(2, true, 1.0),
    ];
    assert_eq!(
        drain_targets_remaining(&nodes, 0, "host"),
        2,
        "node1 still has osd.1"
    );
    assert_eq!(drain_targets_remaining(&nodes, 2, "host"), 1);
}

#[test]
fn a_drain_with_nowhere_to_go_says_so_and_says_what_to_do() {
    let m = drain_message(2, Some(3));
    assert!(m.contains("cannot be emptied"), "{m}");
    assert!(m.contains("Lower the number of copies to 2"), "{m}");
    assert!(m.contains("add another disk"), "{m}");
    assert!(
        !m.contains("until this finishes"),
        "must not promise completion it cannot deliver: {m}"
    );
}

#[test]
fn a_drain_that_can_finish_says_do_not_unplug() {
    let m = drain_message(3, Some(2));
    assert!(m.contains("Do not unplug"), "{m}");
    assert!(!m.contains("cannot be emptied"), "{m}");
}

#[test]
fn no_other_disk_at_all_is_its_own_message() {
    let m = drain_message(0, Some(1));
    assert!(m.contains("no other disk"), "{m}");
}

#[test]
fn an_unknown_copy_count_promises_nothing_it_cannot_check() {
    let m = drain_message(2, None);
    assert!(!m.contains("cannot be emptied"), "{m}");
    assert!(!m.contains("until this finishes"), "{m}");
}

#[test]
fn an_unreachable_cluster_does_nothing() {
    assert_eq!(plan_tick(false, true), TickPlan::Unreachable);
}

#[test]
fn an_unreadable_osd_map_does_nothing() {
    assert_eq!(plan_tick(true, false), TickPlan::UnknownOsdMap);
}

#[test]
fn an_unreachable_cluster_is_reported_before_an_unreadable_map() {
    assert_eq!(plan_tick(false, false), TickPlan::Unreachable);
}

#[test]
fn a_reachable_cluster_with_a_readable_map_proceeds() {
    assert_eq!(plan_tick(true, true), TickPlan::Proceed);
}

fn osds(pairs: &[(&str, i64)]) -> Vec<(String, i64)> {
    pairs.iter().map(|(k, v)| (k.to_string(), *v)).collect()
}

fn blank_disk(device: &str) -> Disk {
    Disk {
        device: device.into(),
        model: String::new(),
        size_bytes: 1_000_000_000,
        is_loop: false,
        ownership: Ownership::Blank,
        has_partitions: false,
        mounted: false,
        osd_id: None,
        progress: None,
    }
}

#[test]
fn a_disk_switched_on_with_no_osd_is_created() {
    let plan = plan_create(
        "node1",
        "dev-sdb",
        &blank_disk("sdb"),
        &recs(&[("node1--dev-sdb", "ON")]),
        &osds(&[]),
        false,
        0,
        None,
    );
    assert_eq!(format!("{plan:?}"), format!("{:?}", CreatePlan::Create {
            dev_path: "/dev/sdb".to_string()
        }));
}

#[test]
fn a_disk_switched_off_is_never_created() {
    for state in ["OFF", "", "on", "true", "1"] {
        let plan = plan_create(
            "node1",
            "dev-sdb",
            &blank_disk("sdb"),
            &recs(&[("node1--dev-sdb", state)]),
            &osds(&[]),
            false,
            0,
            None,
        );
        assert_eq!(format!("{plan:?}"), format!("{:?}", CreatePlan::Skip), "state {state:?} must not create");
    }
}

#[test]
fn a_disk_with_no_record_at_all_is_never_created() {
    let plan = plan_create(
        "node1",
        "dev-sdb",
        &blank_disk("sdb"),
        &recs(&[]),
        &osds(&[]),
        false,
        0,
        None,
    );
    assert_eq!(format!("{plan:?}"), format!("{:?}", CreatePlan::Skip));
}

#[test]
fn another_nodes_record_never_creates_on_this_node() {
    let plan = plan_create(
        "node1",
        "dev-sdb",
        &blank_disk("sdb"),
        &recs(&[("node2--dev-sdb", "ON")]),
        &osds(&[]),
        false,
        0,
        None,
    );
    assert_eq!(format!("{plan:?}"), format!("{:?}", CreatePlan::Skip));
}

#[test]
fn a_disk_that_already_has_an_osd_is_never_created() {
    let plan = plan_create(
        "node1",
        "dev-sdb",
        &blank_disk("sdb"),
        &recs(&[("node1--dev-sdb", "ON")]),
        &osds(&[("dev-sdb", 3)]),
        false,
        0,
        None,
    );
    assert_eq!(format!("{plan:?}"), format!("{:?}", CreatePlan::Skip));
}

#[test]
fn a_create_already_in_flight_is_not_started_again() {
    let plan = plan_create(
        "node1",
        "dev-sdb",
        &blank_disk("sdb"),
        &recs(&[("node1--dev-sdb", "ON")]),
        &osds(&[]),
        true,
        0,
        None,
    );
    assert_eq!(format!("{plan:?}"), format!("{:?}", CreatePlan::Skip));
}

#[test]
fn an_in_flight_create_wins_over_a_refusal() {
    let mounted = Disk {
        mounted: true,
        ..blank_disk("sdb")
    };
    let plan = plan_create(
        "node1",
        "dev-sdb",
        &mounted,
        &recs(&[("node1--dev-sdb", "ON")]),
        &osds(&[]),
        true,
        0,
        None,
    );
    assert_eq!(format!("{plan:?}"), format!("{:?}", CreatePlan::Skip));
}

#[test]
fn a_mounted_disk_switched_on_is_blocked_not_created() {
    let plan = plan_create(
        "node1",
        "dev-sda",
        &Disk {
            mounted: true,
            ..blank_disk("sda")
        },
        &recs(&[("node1--dev-sda", "ON")]),
        &osds(&[]),
        false,
        0,
        None,
    );
    assert!(matches!(plan, CreatePlan::Blocked(_)), "{plan:?}");
}

#[test]
fn a_partitioned_disk_switched_on_is_created_not_blocked() {
    let plan = plan_create(
        "node1",
        "dev-sdb",
        &Disk {
            has_partitions: true,
            ..blank_disk("sdb")
        },
        &recs(&[("node1--dev-sdb", "ON")]),
        &osds(&[]),
        false,
        0,
        None,
    );
    assert!(matches!(plan, CreatePlan::Create { .. }), "{plan:?}");
}

#[test]
fn a_foreign_cluster_disk_switched_on_is_created_not_blocked() {
    let plan = plan_create(
        "node1",
        "dev-sdb",
        &Disk {
            ownership: Ownership::Foreign,
            ..blank_disk("sdb")
        },
        &recs(&[("node1--dev-sdb", "ON")]),
        &osds(&[]),
        false,
        0,
        None,
    );
    assert!(matches!(plan, CreatePlan::Create { .. }), "{plan:?}");
}

#[test]
fn a_disk_without_a_usable_device_name_is_never_created() {
    let plan = plan_create(
        "node1",
        "dev-sdb",
        &blank_disk(""),
        &recs(&[("node1--dev-sdb", "ON")]),
        &osds(&[]),
        false,
        0,
        None,
    );
    assert!(!matches!(plan, CreatePlan::Create { .. }), "{plan:?}");
}

#[test]
fn a_disk_that_vanished_says_so() {
    let plan = plan_create(
        "node1",
        "dev-sdb",
        &blank_disk(""),
        &recs(&[("node1--dev-sdb", "ON")]),
        &osds(&[]),
        false,
        0,
        None,
    );
    let CreatePlan::Blocked(reason) = plan else {
        panic!("expected a reason, got {plan:?}");
    };
    assert!(reason.contains("disappeared"), "{reason}");
}

#[test]
fn a_bare_device_name_is_rooted_under_dev() {
    let plan = plan_create(
        "node1",
        "d",
        &blank_disk("nvme0n1"),
        &recs(&[("node1--d", "ON")]),
        &osds(&[]),
        false,
        0,
        None,
    );
    assert_eq!(format!("{plan:?}"), format!("{:?}", CreatePlan::Create {
            dev_path: "/dev/nvme0n1".to_string()
        }));
}

#[test]
fn an_absolute_device_path_is_left_alone() {
    let plan = plan_create(
        "node1",
        "d",
        &blank_disk("/dev/disk/by-id/wwn-0x5000"),
        &recs(&[("node1--d", "ON")]),
        &osds(&[]),
        false,
        0,
        None,
    );
    assert_eq!(format!("{plan:?}"), format!("{:?}", CreatePlan::Create {
            dev_path: "/dev/disk/by-id/wwn-0x5000".to_string()
        }));
}

#[test]
fn an_absent_record_is_off() {
    assert!(!wants_on(&recs(&[]), "node1", "dev-sdb"));
}

#[test]
fn only_on_is_on() {
    assert!(wants_on(&recs(&[("node1--d", "ON")]), "node1", "d"));
    for off in ["OFF", "off", "On", "USING", "", "REMOVING"] {
        assert!(
            !wants_on(&recs(&[("node1--d", off)]), "node1", "d"),
            "{off:?} must not read as on"
        );
    }
}

#[test]
fn a_hardware_id_record_is_found_without_a_node_prefix() {
    let id = "serial-wwn-0x50014ee214caf529";
    assert!(wants_on(&recs(&[(id, "ON")]), "node1", id));
    assert!(wants_on(&recs(&[(id, "ON")]), "node2", id));
}

#[test]
fn a_drain_still_in_progress_waits() {
    assert_eq!(plan_purge(false, false, None), PurgeVerdict::Wait);
}

#[test]
fn an_unsafe_osd_waits_whatever_else_is_true() {
    assert_eq!(
        plan_purge(false, true, Some(&loss(0, 100, false))),
        PurgeVerdict::Wait
    );
}

#[test]
fn an_osd_that_stops_being_safe_after_the_daemon_stops_is_left_alone() {
    assert_eq!(plan_purge(true, false, None), PurgeVerdict::Recheck);
}

#[test]
fn a_cluster_with_unrecoverable_stuck_pgs_refuses_to_purge() {
    assert_eq!(
        plan_purge(true, true, Some(&loss(63, 200, true))),
        PurgeVerdict::RefuseDataAtRisk
    );
}

#[test]
fn stuck_pgs_that_can_still_be_rebuilt_do_not_block_a_purge() {
    assert_eq!(
        plan_purge(true, true, Some(&loss(63, 200, false))),
        PurgeVerdict::Purge
    );
}

#[test]
fn a_single_copy_pool_with_nothing_stuck_does_not_block_a_purge() {
    assert_eq!(
        plan_purge(true, true, Some(&loss(0, 200, true))),
        PurgeVerdict::Purge
    );
}

#[test]
fn a_healthy_cluster_purges() {
    assert_eq!(
        plan_purge(true, true, Some(&loss(0, 200, false))),
        PurgeVerdict::Purge
    );
    assert_eq!(plan_purge(true, true, None), PurgeVerdict::Purge);
}

#[test]
fn nothing_but_a_clear_yes_ever_reaches_purge() {
    for before in [false, true] {
        for after in [false, true] {
            for l in [
                None,
                Some(loss(0, 10, false)),
                Some(loss(5, 10, false)),
                Some(loss(0, 10, true)),
                Some(loss(5, 10, true)),
            ] {
                let at_risk = l.as_ref().is_some_and(|x| x.unrecoverable && x.stuck > 0);
                let plan = plan_purge(before, after, l.as_ref());
                let should_purge = before && after && !at_risk;
                assert_eq!(
                    plan == PurgeVerdict::Purge,
                    should_purge,
                    "before={before} after={after} at_risk={at_risk} {plan:?}"
                );
            }
        }
    }
}

#[test]
fn phases_keep_the_names_the_ui_reads() {
    let wire: Vec<&str> = [
        Phase::Unset,
        Phase::Active,
        Phase::Creating,
        Phase::Retrying,
        Phase::Blocked,
        Phase::Draining,
        Phase::Removing,
        Phase::Removable,
        Phase::Unknown,
    ]
    .iter()
    .map(|p| p.as_str())
    .collect();
    assert_eq!(
        wire,
        [
            "",
            "active",
            "creating",
            "retrying",
            "blocked",
            "draining",
            "removing",
            "removable",
            "unknown"
        ]
    );
    assert_eq!(Phase::default(), Phase::Unset);
}

#[test]
fn a_machine_without_the_system_lv_is_an_error_not_a_skip() {
    let mut host = FakeHost::new();
    assert!(host.drive(|s| lv_osd_attempt(s, "/nonexistent/pool-ceph"))
        .is_err());
    assert!(host.calls().is_empty());
}

#[test]
fn an_unreachable_cluster_is_waited_for() {
    let mut host = FakeHost::new();
    let dev = host.device("pool-ceph", &vec![0u8; 4096]);
    let mut host = host.fail("ceph fsid", "error connecting to the cluster");
    let why = not_yet(host.drive(|s| lv_osd_attempt(s, &dev)).unwrap());
    assert!(why.contains("cluster's id"), "{why}");
    assert!(!host.ran("lvm create"));
}

#[test]
fn an_existing_system_osd_is_started_and_nothing_is_created() {
    let mut host = FakeHost::new();
    let dev = host.device("pool-ceph", &vec![0u8; 4096]);
    let mut host = host.ok("ceph fsid", &format!(r#"{{"fsid":"{OURS}"}}"#))
        .ok("ceph-volume lvm list", &listed_on(&dev, 0))
        .ok("ceph osd ls", "[0, 1]")
        .ok("systemctl start yolab-ceph-osd@0.service", "");

    let ready = host.drive(|s| lv_osd_attempt(s, &dev)).unwrap();

    assert!(matches!(ready, Attempt::Ready), "{ready:?}");
    assert!(host.ran("systemctl start yolab-ceph-osd@0.service"));
    assert!(!host.ran("lvm create") && !host.ran("zap"));
}

#[test]
fn a_system_osd_the_cluster_forgot_is_erased_and_made_again() {
    let mut host = FakeHost::new();
    let dev = host.device("pool-ceph", &vec![0u8; 4096]);
    let mut host = host.ok("ceph fsid", &format!(r#"{{"fsid":"{OURS}"}}"#))
        .ok("ceph-volume lvm list", &listed_on(&dev, 3))
        .ok("ceph osd ls", "[]")
        .ok("ceph-volume lvm zap", "")
        .ok("ceph-volume lvm list", "{}")
        .ok("ceph-volume lvm list", &listed_on(&dev, 0))
        .ok("wipefs --all", "")
        .ok("ceph-volume lvm create", "")
        .ok("systemctl start yolab-ceph-osd@0.service", "");

    let ready = host.drive(|s| lv_osd_attempt(s, &dev)).unwrap();

    assert!(matches!(ready, Attempt::Ready), "{ready:?}");
    assert!(host.ran(&format!("ceph-volume lvm zap {dev}")));
    assert!(!host.ran("--destroy"));
    assert!(
        !host.ran("yolab-ceph-osd@3"),
        "a forgotten OSD is never started"
    );
    assert!(host.position("lvm zap") < host.position("lvm create"));
}

#[test]
fn a_system_osd_is_never_erased_when_the_cluster_cannot_say() {
    let mut host = FakeHost::new();
    let dev = host.device("pool-ceph", &vec![0u8; 4096]);
    let mut host = host.ok("ceph fsid", &format!(r#"{{"fsid":"{OURS}"}}"#))
        .ok("ceph-volume lvm list", &listed_on(&dev, 3))
        .fail("ceph osd ls", "timed out");

    let attempt = host.drive(|s| lv_osd_attempt(s, &dev)).unwrap();

    assert!(not_yet(attempt).contains("osd.3"));
    assert!(!host.ran("zap") && !host.ran("systemctl"));
}

#[test]
fn a_blank_system_lv_becomes_an_osd() {
    let mut host = FakeHost::new();
    let dev = host.device("pool-ceph", &vec![0u8; 4096]);
    let mut host = host.ok("ceph fsid", &format!(r#"{{"fsid":"{OURS}"}}"#))
        .ok("ceph osd ls", "[]")
        .ok("ceph-volume lvm list", "{}")
        .ok("ceph-volume lvm list", "{}")
        .ok("ceph-volume lvm list", &listed_on(&dev, 0))
        .ok("wipefs --all", "")
        .ok("ceph-volume lvm create", "")
        .ok("systemctl start yolab-ceph-osd@0.service", "");

    let ready = host.drive(|s| lv_osd_attempt(s, &dev)).unwrap();

    assert!(matches!(ready, Attempt::Ready), "{ready:?}");
    assert!(host.ran(&format!("ceph-volume lvm create --bluestore --data {dev}")));
}

#[test]
fn a_failed_create_is_waited_on_and_says_so() {
    let mut host = FakeHost::new();
    let dev = host.device("pool-ceph", &vec![0u8; 4096]);
    let mut host = host.ok("ceph fsid", &format!(r#"{{"fsid":"{OURS}"}}"#))
        .ok("ceph osd ls", "[]")
        .ok("ceph-volume lvm list", "{}")
        .ok("wipefs --all", "")
        .fail(
            "ceph-volume lvm create",
            "RuntimeError: Unable to create a new OSD id",
        );

    let why = not_yet(host.drive(|s| lv_osd_attempt(s, &dev)).unwrap());

    assert!(why.contains("did not succeed"), "{why}");
}

#[test]
fn our_own_label_without_an_osd_is_never_wiped() {
    let mut host = FakeHost::new();
    let dev = host.device("pool-ceph", &bluestore_label(OURS));
    let mut host = host.ok("ceph fsid", &format!(r#"{{"fsid":"{OURS}"}}"#)).ok("ceph-volume lvm list", "{}");

    let why = not_yet(host.drive(|s| lv_osd_attempt(s, &dev)).unwrap());

    assert!(why.contains("already holds your files"), "{why}");
    assert!(!host.ran("lvm create") && !host.ran("zap") && !host.ran("wipefs"));
}

#[test]
fn the_system_disk_cannot_be_switched_off_by_a_record() {
    let desired = Vec::from([(record_key("node1", SYSTEM_OSD_ID), "OFF".to_string())]);
    assert!(wants_on(&desired, "node1", SYSTEM_OSD_ID));
    assert!(wants_on(&Vec::new(), "node1", SYSTEM_OSD_ID));
    assert!(!wants_on(&Vec::new(), "node1", "dev-sdb"));
}

#[test]
fn what_is_lost_follows_from_the_map_and_the_groups() {
    let dump = read_dump(
        &parse(
            r#"{"osds":[{"osd":0,"up":1,"in":1},{"osd":1,"up":0,"in":1}],
                "pools":[{"pool":3,"pool_name":"data"}]}"#,
        )
        .unwrap(),
    )
    .unwrap();
    let groups = |t: &str| pgs_of(&parse(t).unwrap()).unwrap();
    let lost = groups(
        r#"[{"pgid":"3.0","state":"active+clean","acting":[0]},
            {"pgid":"3.1","state":"stale","acting":[1]},
            {"pgid":"3.2","state":"down","acting":[0,1]}]"#,
    );
    assert_eq!(
        pg_loss(&dump, &lost),
        PgLoss { unrecoverable: true, stuck: 2, total: 3 },
        "one group has its only copy on a disk that is down"
    );
    let slow = groups(r#"[{"pgid":"3.2","state":"peering","acting":[0,1]}]"#);
    assert_eq!(pg_loss(&dump, &slow), PgLoss { unrecoverable: false, stuck: 1, total: 1 });
    assert_eq!(
        pg_loss(&dump, &Vec::new()),
        PgLoss { unrecoverable: false, stuck: 0, total: 0 }
    );
}

#[test]
fn copies_are_spread_across_what_the_rule_says_first() {
    let size = parse(r#"{"pool":"data","size":3}"#).unwrap();
    let rule = r#"{"steps":[{"op":"take"},{"op":"chooseleaf","type":"host"},{"type":"osd"}]}"#;
    let rule = parse(rule).unwrap();
    let p = policy_of(&size, &rule).unwrap();
    assert_eq!((p.size, p.failure_domain.as_str()), (3, "host"));
    assert!(policy_of(&size, &parse(r#"{"steps":[{"op":"take"}]}"#).unwrap()).is_none());
    assert!(policy_of(&parse("{}").unwrap(), &rule).is_none());
    assert!(policy_of(&parse(r#"{"size":4294967296}"#).unwrap(), &rule).is_none());
}
