//! The programs of the machine: what is run, and what their answers mean.

use std::collections::{BTreeSet, VecDeque};

use local_api::ceph::destructive::{
    is_destructive, purge_safe, safe_to_destroy, zap, Purged, ZapWarrant,
};
use local_api::ceph::model::{
    lost_pgs, parse_lvm_list, parse_pgs_brief, pgs_of, read_dump, read_named, read_safe, read_stat,
};
use local_api::ceph_cli::{ceph, ceph_volume, cluster_fsid, is_read_only};
use local_api::cephfs::{has_named, pool_listed};
use local_api::csi::{plugin_daemonset_exists, restart_local_plugin};
use local_api::effects::{Answer, Ask, Script};
use local_api::error::{status_for, AppError, Error, Outcome};
use local_api::exec::{
    classify, into_checked, is_not_found, CmdError, CommandOutput, Failure,
};
use local_api::host::{osd_dump, osd_ids};
use local_api::json::{parse, Json};
use local_api::kubectl;
use local_api::time::Duration;

const DUMP: &str = r#"{
    "flags": "noout,sortbitwise",
    "osds": [{"osd":0,"up":1,"in":1},{"osd":1,"up":0,"in":1}],
    "pools": [{"pool":1,"pool_name":".mgr","size":1,"min_size":1},
              {"pool":3,"pool_name":"yolab-fs-data0","size":2,"min_size":1}]
}"#;

struct FakeHost {
    calls: Vec<String>,
    script: Vec<(String, VecDeque<Result<String, String>>)>,
}

impl FakeHost {
    fn new() -> Self {
        FakeHost { calls: Vec::new(), script: Vec::new() }
    }

    fn push(&mut self, prefix: &str, answer: Result<String, String>) {
        match self.script.iter_mut().find(|(p, _)| p == prefix) {
            Some((_, q)) => q.push_back(answer),
            None => self.script.push((prefix.to_string(), VecDeque::from([answer]))),
        }
    }

    /// What a command answers; the last answer repeats.
    fn ok(mut self, prefix: &str, out: &str) -> Self {
        self.push(prefix, Ok(out.to_string()));
        self
    }

    fn fail(mut self, prefix: &str, err: &str) -> Self {
        self.push(prefix, Err(err.to_string()));
        self
    }

    /// The longest matching prefix wins.
    fn answer(&mut self, cmd: &str) -> Result<String, String> {
        self.calls.push(cmd.to_string());
        let best = self
            .script
            .iter_mut()
            .filter(|(p, _)| cmd.starts_with(p.as_str()))
            .max_by_key(|(p, _)| p.len());
        match best {
            Some((_, q)) if q.len() > 1 => q.pop_front().unwrap(),
            Some((_, q)) => q.front().unwrap().clone(),
            None => Err(format!("unscripted command: {cmd}")),
        }
    }

    fn calls(&self) -> Vec<String> {
        self.calls.clone()
    }

    fn ran(&self, needle: &str) -> bool {
        self.calls.iter().any(|c| c.contains(needle))
    }

    fn position(&self, needle: &str) -> Option<usize> {
        self.calls.iter().position(|c| c.contains(needle))
    }

    fn run(&mut self, bin: &str, args: &[String], input: &Option<String>) -> Answer {
        let cmd = match input {
            Some(text) => format!("{bin}-{} {text}", args[0]),
            None => format!("{bin} {}", args.join(" ")),
        };
        let (success, stdout, stderr) = match self.answer(&cmd) {
            Ok(out) => (true, out, String::new()),
            Err(err) => (false, String::new(), err),
        };
        Answer::Output(Ok(CommandOutput { success, stdout, stderr }))
    }

    fn perform(&mut self, ask: Ask) -> Answer {
        match ask {
            Ask::Run { bin, args, input, .. } => self.run(&bin, &args, &input),
            other => panic!("nothing answers {other:?}"),
        }
    }

    /// Runs a procedure, answering what it asks, until it is done.
    fn drive<T>(&mut self, f: impl Fn(&mut Script) -> Result<T, Ask>) -> T {
        let mut script = Script::new();
        loop {
            match f(&mut script) {
                Ok(done) => return done,
                Err(ask) => {
                    let answer = self.perform(ask);
                    script.answer(answer);
                }
            }
        }
    }
}

fn json(text: &str) -> Json {
    parse(text).unwrap()
}

fn node_named(name: &str, ips: &[(&str, &str)]) -> Json {
    let addresses: Vec<String> = ips
        .iter()
        .map(|(t, a)| format!(r#"{{"type": "{t}", "address": "{a}"}}"#))
        .collect();
    json(&format!(
        r#"{{"metadata": {{"name": "{name}"}}, "status": {{"addresses": [{}]}}}}"#,
        addresses.join(",")
    ))
}

fn node(ips: &[(&str, &str)]) -> Json {
    node_named("node", ips)
}

fn purge_osd_3(s: &mut Script) -> Result<Option<Purged>, Ask> {
    let proof = safe_to_destroy(s, 3)?.unwrap().unwrap();
    Ok(purge_safe(s, proof)?.unwrap())
}

#[test]
fn a_kubectl_not_found_is_classified_as_not_found() {
    let e = CmdError::failed(
        "kubectl get configmap yolab-disk-config -n rook-ceph -o json",
        "Error from server (NotFound): configmaps \"yolab-disk-config\" not found",
    );
    assert!(e.is_not_found());
    assert!(is_not_found(&e));
    assert!(!e.is_unanswered());
}

#[test]
fn an_unreachable_api_server_is_never_not_found() {
    for msg in [
        "The connection to the server localhost:6443 was refused - did you specify the right host or port?",
        "unable to connect to the server: EOF",
        "context deadline exceeded",
    ] {
        let e = CmdError::failed("kubectl get configmap x", msg);
        assert!(!e.is_not_found(), "{msg}");
        assert!(e.is_unanswered(), "{msg}");
    }
}

#[test]
fn a_timeout_is_unanswered_and_not_absent() {
    let e = CmdError::Timeout {
        cmd: "rbd ls images".into(),
        after: Duration::from_secs(30),
    };
    assert!(!e.is_not_found());
    assert!(e.is_unanswered());
    assert_eq!(e.failure(), None);
}

#[test]
fn a_parse_error_is_neither_absent_nor_unanswered() {
    let e = CmdError::parse("ceph osd dump", "expected value");
    assert!(!e.is_not_found());
    assert!(!e.is_unanswered());
}

#[test]
fn kubectl_conflicts_and_duplicates_are_distinguished() {
    assert_eq!(
        classify(
            "kubectl",
            "Error from server (Conflict): Operation cannot be fulfilled on configmaps \"x\": the object has been modified"
        ),
        Failure::Conflict
    );
    assert_eq!(
        classify(
            "kubectl",
            "Error from server (AlreadyExists): leases.coordination.k8s.io \"x\" already exists"
        ),
        Failure::AlreadyExists
    );
}

#[test]
fn ceph_errnos_are_classified() {
    assert_eq!(
        classify("ceph", "Error ENOENT: unrecognized pool 'x'"),
        Failure::NotFound
    );
    assert_eq!(
        classify(
            "ceph",
            "Error EBUSY: OSD(s) 3 have 25 pgs currently mapped to them."
        ),
        Failure::Busy
    );
    assert_eq!(
        classify("ceph", "Error EEXIST: entity osd.3 exists"),
        Failure::AlreadyExists
    );
    assert_eq!(classify("ceph", "Error EINVAL: bad"), Failure::Other);
}

#[test]
fn an_unknown_binary_is_never_classified_as_absent() {
    assert_eq!(classify("lsblk", "NotFound ENOENT"), Failure::Other);
}

#[test]
fn not_found_survives_anyhow_context() {
    let inner = CmdError::failed("kubectl get lease x", "Error from server (NotFound): x");
    let wrapped = Error::new(inner).context("reading the lease");
    assert!(is_not_found(&wrapped));
}

#[test]
fn prose_that_merely_mentions_notfound_is_not_a_not_found() {
    let e = Error::msg("helm: release NotFound in cache");
    assert!(!is_not_found(&e));
}

#[test]
fn a_shape_mismatch_is_a_parse_error() {
    let mut host = FakeHost::new().ok("ceph osd dump", "{}");
    let err = host.drive(|s| osd_dump(s)).unwrap_err();
    assert!(matches!(err, CmdError::Parse { .. }), "{err:?}");
}

#[test]
fn a_non_zero_exit_is_a_classified_failure() {
    let out = CommandOutput { success: false, stdout: String::new(), stderr: "nope\n".into() };
    let err = into_checked("sh", &["-c", "echo nope >&2; exit 3"], out).unwrap_err();
    match err {
        CmdError::Failed { stderr, kind, .. } => {
            assert_eq!(stderr, "nope");
            assert_eq!(kind, Failure::Other);
        }
        other => panic!("expected Failed, got {other:?}"),
    }
}

#[test]
fn a_missing_object_is_a_404_and_an_unreachable_server_is_not() {
    let nf = Error::new(CmdError::failed(
        "kubectl get secret x",
        "Error from server (NotFound): secrets \"x\" not found",
    ));
    assert_eq!(status_for(&nf), 404);

    let down = Error::new(CmdError::failed(
        "kubectl get secret x",
        "The connection to the server localhost:6443 was refused",
    ));
    assert_eq!(status_for(&down), 503);

    let slow = Error::new(CmdError::Timeout {
        cmd: "ceph -s".into(),
        after: Duration::from_secs(30),
    });
    assert_eq!(status_for(&slow), 504);
}

#[test]
fn best_effort_results_keep_the_value_and_drop_only_the_error() {
    let ok: std::result::Result<u8, String> = Ok(7);
    let err: std::result::Result<u8, String> = Err("boom".into());
    assert_eq!(ok.clone().ok_or_warn("x"), Some(7));
    assert_eq!(err.clone().ok_or_warn("x"), None);
    // These only log; what matters is that neither panics on either arm.
    ok.clone().warn_on_err("x");
    err.clone().warn_on_err("x");
    ok.debug_on_err("x");
    err.debug_on_err("x");
}

#[test]
fn an_app_error_displays_its_whole_chain() {
    let e = AppError(Error::msg("root cause").context("while reading the disk"));
    let shown = e.shown();
    assert!(shown.contains("while reading the disk") && shown.contains("root cause"));
}

#[test]
fn an_error_response_carries_its_status_and_message() {
    let e = AppError(Error::msg("nope"));
    assert_eq!(status_for(&e.0), 500);
    assert_eq!(e.shown(), "nope");
}

#[test]
fn a_plain_error_is_a_500() {
    assert_eq!(
        status_for(&Error::msg("boom")),
        500
    );
}

#[test]
fn a_conflict_is_a_409() {
    let c = Error::new(CmdError::failed(
        "kubectl replace -f -",
        "Error from server (Conflict): the object has been modified",
    ));
    assert_eq!(status_for(&c), 409);
}

#[test]
fn kubectl_this_node_is_never_its_own_peer() {
    // Fanning out to yourself is at best a wasted request; for the reboot
    // path it would mean this machine rebooting before it told the others.
    let nodes = vec![
        node(&[("InternalIP", "fd00:cafe::5")]),
        node(&[("InternalIP", "fd00:cafe::6")]),
    ];
    assert_eq!(kubectl::peer_ipv6(&nodes, "fd00:cafe::5"), vec!["fd00:cafe::6"]);
}

#[test]
fn an_ipv4_internal_ip_is_ignored() {
    let nodes = vec![node(&[("InternalIP", "10.0.0.7")])];
    assert!(kubectl::peer_ipv6(&nodes, "fd00:cafe::5").is_empty());
}

#[test]
fn the_hostname_entry_is_not_mistaken_for_an_address() {
    let nodes = vec![node(&[
        ("Hostname", "node2"),
        ("InternalIP", "fd00:cafe::6"),
    ])];
    assert_eq!(kubectl::peer_ipv6(&nodes, "fd00:cafe::5"), vec!["fd00:cafe::6"]);
}

#[test]
fn a_node_is_found_by_name_and_only_its_ipv6_is_used() {
    let nodes = vec![
        node_named("node1", &[("InternalIP", "fd00:cafe::5")]),
        node_named(
            "node2",
            &[("InternalIP", "10.0.0.7"), ("InternalIP", "fd00:cafe::6")],
        ),
        node_named("node3", &[("InternalIP", "10.0.0.8")]),
    ];
    assert_eq!(kubectl::node_ipv6(&nodes, "node2").as_deref(), Some("fd00:cafe::6"));
    assert_eq!(kubectl::node_ipv6(&nodes, "node3"), None, "no v6 address");
    assert_eq!(kubectl::node_ipv6(&nodes, "node9"), None, "no such node");
}

#[test]
fn a_single_node_cluster_has_no_peers() {
    let nodes = vec![node(&[("InternalIP", "fd00:cafe::5")])];
    assert!(kubectl::peer_ipv6(&nodes, "fd00:cafe::5").is_empty());
}

#[test]
fn every_peer_is_listed_once_and_in_order() {
    let nodes = vec![
        node(&[("InternalIP", "fd00:cafe::5")]),
        node(&[("InternalIP", "fd00:cafe::6")]),
        node(&[("InternalIP", "fd00:cafe::7")]),
    ];
    assert_eq!(
        kubectl::peer_ipv6(&nodes, "fd00:cafe::5"),
        vec!["fd00:cafe::6", "fd00:cafe::7"]
    );
}

#[test]
fn a_kubectl_not_found_is_a_missing_resource() {
    let e = CmdError::failed(
        "kubectl get configmap yolab-disk-config -n rook-ceph -o json",
        "Error from server (NotFound): configmaps \"yolab-disk-config\" not found",
    );
    assert!(kubectl::is_not_found(&e));
}

#[test]
fn a_connection_failure_is_not_a_missing_resource() {
    for msg in [
        "The connection to the server localhost:6443 was refused - did you specify the right host or port?",
        "context deadline exceeded",
        "unable to connect to the server: EOF",
    ] {
        let e = CmdError::failed("kubectl get configmap yolab-disk-config", msg);
        assert!(!kubectl::is_not_found(&e), "{msg}");
    }
}

#[test]
fn a_plain_anyhow_message_is_never_a_not_found() {
    let e = Error::msg("kubectl get configmap x: Error from server (NotFound)");
    assert!(!kubectl::is_not_found(&e));
}

#[test]
fn only_inspection_may_be_skipped() {
    assert!(is_read_only(&["lvm", "list", "--format", "json"]));
    assert!(is_read_only(&["inventory", "--format", "json"]));

    for mutating in [
        vec!["lvm", "create", "--bluestore", "--data", "/dev/vdb"],
        vec!["lvm", "zap", "--destroy", "/dev/vdb"],
        vec!["lvm", "prepare", "--data", "/dev/vdb"],
        vec!["lvm", "activate", "--all"],
    ] {
        assert!(
            !is_read_only(&mutating),
            "{mutating:?} changes the disk and must queue, never be dropped"
        );
    }
}

#[test]
fn anything_unrecognised_is_treated_as_mutating() {
    assert!(!is_read_only(&["something-new"]));
    assert!(!is_read_only(&[]));
}

#[test]
fn a_purge_through_the_plain_entry_point_is_refused_before_it_runs() {
    let err = FakeHost::new()
        .drive(|s| ceph(s, &["osd", "purge", "osd.3", "--yes-i-really-mean-it"]))
        .unwrap_err();
    assert!(matches!(err, CmdError::Forbidden { .. }));
}

#[test]
fn a_zap_through_the_plain_entry_point_is_refused_before_it_runs() {
    let err = FakeHost::new()
        .drive(|s| ceph_volume(s, &["lvm", "zap", "--destroy", "/dev/vdb"]))
        .unwrap_err();
    assert!(matches!(err, CmdError::Forbidden { .. }));
}

#[test]
fn osd_ids_that_are_not_a_list_are_an_error_not_an_empty_cluster() {
    let mut host = FakeHost::new().ok("ceph osd ls", r#"{"unexpected": true}"#);
    assert!(host.drive(|s| osd_ids(s)).is_err());
    let mut host = FakeHost::new().ok("ceph osd ls", "[0, 3]");
    assert_eq!(host.drive(|s| osd_ids(s)).unwrap(), vec![0, 3]);
}

#[test]
fn an_unreadable_fsid_is_an_error() {
    let mut host = FakeHost::new().fail("ceph fsid", "timed out");
    assert!(host.drive(|s| cluster_fsid(s)).is_err());
    let mut host = FakeHost::new()
        .ok("ceph fsid -f json", r#"{"fsid":""}"#)
        .ok("ceph fsid", "");
    assert!(host.drive(|s| cluster_fsid(s)).is_err());
}

#[test]
fn kubectl_get_opt_separates_absent_from_unreachable() {
    let mut absent = FakeHost::new().fail(
        "kubectl get configmap x",
        "Error from server (NotFound): configmaps \"x\" not found",
    );
    assert!(absent
        .drive(|s| kubectl::get_opt(s, &["get", "configmap", "x"]))
        .unwrap()
        .is_none());
    let mut down = FakeHost::new().fail(
        "kubectl get configmap x",
        "The connection to the server localhost:6443 was refused",
    );
    assert!(down.drive(|s| kubectl::get_opt(s, &["get", "configmap", "x"]))
        .is_err());
}

#[test]
fn only_the_local_plugin_pod_is_deleted_and_a_failure_is_reported() {
    let mut host = FakeHost::new().ok("kubectl delete pod", "");
    host.drive(|s| restart_local_plugin(s, "node1")).unwrap();
    assert!(host.ran("kubectl delete pod -n rook-ceph -l app=csi-cephfsplugin --field-selector spec.nodeName="));
    assert!(!host.ran("csi-cephfsplugin-provisioner"));

    let mut failing = FakeHost::new().fail("kubectl delete pod", "etcd timeout");
    assert!(failing.drive(|s| restart_local_plugin(s, "node1")).is_err());
}

#[test]
fn a_missing_daemonset_is_distinguished_from_an_unreachable_api() {
    let mut absent = FakeHost::new().fail(
        "kubectl get daemonset csi-cephfsplugin",
        "Error from server (NotFound): daemonsets.apps \"csi-cephfsplugin\" not found",
    );
    assert!(!absent.drive(|s| plugin_daemonset_exists(s)).unwrap());
    let mut down = FakeHost::new().fail(
        "kubectl get daemonset csi-cephfsplugin",
        "The connection to the server localhost:6443 was refused",
    );
    assert!(down.drive(|s| plugin_daemonset_exists(s)).is_err());
}

#[test]
fn has_named_finds_a_matching_entry() {
    let v = read_named(&json(r#"[{"name": "yolab-fs"}, {"name": "other"}]"#)).unwrap();
    assert!(has_named(&v, "yolab-fs"));
    assert!(!has_named(&v, "missing"));
}

#[test]
fn a_listing_that_is_not_a_list_is_an_error_not_an_empty_one() {
    assert!(read_named(&json("{}")).is_none());
    assert!(read_named(&json("\"nope\"")).is_none());
}

#[test]
fn pool_listed_matches_whole_lines_only() {
    let ls = "yolab-fs-metadata\nyolab-fs-data0\nimages\n";
    assert!(pool_listed(ls, "yolab-fs-metadata"));
    assert!(!pool_listed(ls, "metadata"));
    assert!(!pool_listed(ls, "yolab-fs-metadata-extra"));
}

#[test]
fn a_destructive_command_outside_the_door_is_refused_not_run() {
    let mut host = FakeHost::new().ok("ceph osd purge", "").ok("ceph-volume lvm zap", "");
    let purge =
        host.drive(|s| ceph(s, &["osd", "purge", "osd.3", "--yes-i-really-mean-it"]));
    assert!(matches!(purge, Err(CmdError::Forbidden { .. })));
    assert!(host.calls().is_empty(), "a refusal is not a run");
}

#[test]
fn destructive_commands_are_recognised() {
    for args in [
        vec!["osd", "purge", "osd.3", "--yes-i-really-mean-it"],
        vec!["osd", "destroy", "3"],
        vec!["osd", "lost", "3"],
        vec!["osd", "rm", "3"],
        vec!["osd", "force-create-pg", "2.1", "--yes-i-really-mean-it"],
        vec![
            "osd",
            "pool",
            "delete",
            "p",
            "p",
            "--yes-i-really-really-mean-it",
        ],
        vec!["fs", "rm", "yolab-fs", "--yes-i-really-mean-it"],
        vec!["fs", "fail", "yolab-fs"],
        vec!["mon", "remove", "n2"],
        vec!["auth", "del", "osd.3"],
        vec!["pg", "2.1", "mark_unfound_lost", "revert"],
        vec!["config", "set", "mon", "mon_allow_pool_delete", "true"],
        vec!["--connect-timeout", "10", "osd", "purge", "osd.3"],
    ] {
        assert!(is_destructive("ceph", &args), "{args:?}");
    }
    assert!(is_destructive("ceph-volume", &["lvm", "zap", "/dev/sdb"]));
    assert!(is_destructive(
        "ceph-volume",
        &["lvm", "zap", "--destroy", "/dev/sdb"]
    ));
}

#[test]
fn ordinary_commands_are_not() {
    for args in [
        vec!["-s"],
        vec!["osd", "dump", "-f", "json"],
        vec!["osd", "out", "osd.3"],
        vec!["osd", "in", "osd.3"],
        vec!["osd", "safe-to-destroy", "osd.3", "-f", "json"],
        vec!["osd", "pool", "create", "images", "32", "32"],
        vec!["osd", "pool", "ls"],
        vec!["fs", "ls", "-f", "json"],
        vec!["config", "set", "mon", "mon_allow_pool_delete", "false"],
        vec!["--connect-timeout", "10", "mon", "dump", "-f", "json"],
        vec!["mon", "add", "n2", "[v2:[::1]:3300]"],
    ] {
        assert!(!is_destructive("ceph", &args), "{args:?}");
    }
    assert!(!is_destructive(
        "ceph-volume",
        &["lvm", "list", "--format", "json"]
    ));
    assert!(!is_destructive(
        "ceph-volume",
        &["lvm", "create", "--data", "/dev/sdb"]
    ));
    assert!(!is_destructive("kubectl", &["delete", "namespace", "x"]));
}

#[test]
fn busy_means_not_yet_and_an_unanswered_check_is_an_error() {
    let mut busy = FakeHost::new().fail(
        "ceph osd safe-to-destroy osd.3",
        "Error EBUSY: OSD(s) 3 have 25 pgs currently mapped to them.",
    );
    assert!(busy.drive(|s| safe_to_destroy(s, 3)).unwrap().is_none());

    let mut silent = FakeHost::new().fail("ceph osd safe-to-destroy osd.3", "timed out");
    assert!(silent.drive(|s| safe_to_destroy(s, 3)).is_err());

    let mut other_osd = FakeHost::new().ok(
        "ceph osd safe-to-destroy osd.3",
        r#"{"safe_to_destroy":[4]}"#,
    );
    assert!(other_osd.drive(|s| safe_to_destroy(s, 3)).unwrap().is_none());

    let mut garbage = FakeHost::new().ok("ceph osd safe-to-destroy osd.3", "{}");
    assert!(garbage.drive(|s| safe_to_destroy(s, 3)).is_err());
}

#[test]
fn a_confirmed_purge_yields_a_receipt_only_when_the_osd_is_gone() {
    let mut gone = FakeHost::new()
        .ok(
            "ceph osd safe-to-destroy osd.3",
            r#"{"safe_to_destroy":[3]}"#,
        )
        .ok("ceph osd purge osd.3", "")
        .ok("ceph osd ls", "[1,2]");
    assert_eq!(gone.drive(purge_osd_3).map(|p| p.osd()), Some(3));

    let mut lingering = FakeHost::new()
        .ok(
            "ceph osd safe-to-destroy osd.3",
            r#"{"safe_to_destroy":[3]}"#,
        )
        .ok("ceph osd purge osd.3", "")
        .ok("ceph osd ls", "[1,2,3]");
    assert!(lingering.drive(purge_osd_3).is_none());
}

#[test]
fn the_system_lv_is_never_destroyed_whatever_the_warrant() {
    let mut host = FakeHost::new().ok("ceph-volume lvm zap", "");
    host.drive(|s| zap(s,
        "/dev/mapper/pool-ceph",
        ZapWarrant::ForeignCluster { osd: 1 }))
    .unwrap();
    assert!(host.ran("ceph-volume lvm zap /dev/mapper/pool-ceph"));
    assert!(!host.ran("--destroy"));
}

#[test]
fn a_reset_destroys_ceph_volume_groups_but_never_the_system_volumes() {
    let mut host = FakeHost::new().ok("ceph-volume lvm zap", "");
    host.drive(|s| zap(s, "/dev/ceph-abc/osd-block-1", ZapWarrant::MachineReset))
        .unwrap();
    host.drive(|s| zap(s, "/dev/mapper/pool-ceph", ZapWarrant::MachineReset))
        .unwrap();
    assert!(host.ran("ceph-volume lvm zap --destroy /dev/ceph-abc/osd-block-1"));
    assert!(host.ran("ceph-volume lvm zap /dev/mapper/pool-ceph"));
    assert!(!host.ran("--destroy /dev/mapper"));
}

#[test]
fn a_volume_the_cluster_forgot_is_erased_but_never_with_its_volume_group() {
    for dev in ["/dev/mapper/pool-ceph", "/dev/pool/ceph"] {
        let mut host = FakeHost::new().ok("ceph-volume lvm zap", "");
        host.drive(|s| zap(s,
            dev,
            ZapWarrant::ForgottenByCluster {
                osd: 4,
                whole_disk: false,
            }))
        .unwrap();
        assert!(host.ran(&format!("ceph-volume lvm zap {dev}")));
        assert!(!host.ran("--destroy"), "{dev}");
    }
    let mut host = FakeHost::new().ok("ceph-volume lvm zap", "");
    host.drive(|s| zap(s,
        "/dev/sdb",
        ZapWarrant::ForgottenByCluster {
            osd: 1,
            whole_disk: true,
        }))
    .unwrap();
    assert!(host.ran("ceph-volume lvm zap --destroy /dev/sdb"));
}

#[test]
fn a_stale_signature_warrant_needs_the_real_refusal() {
    let refusal = CmdError::failed(
        "ceph-volume lvm create",
        "RuntimeError: device /dev/sdb has a filesystem signature",
    );
    assert!(ZapWarrant::stale_signature(&refusal).is_some());
    let other = CmdError::failed("ceph-volume lvm create", "No space left on device");
    assert!(ZapWarrant::stale_signature(&other).is_none());
}

#[test]
fn the_plain_fake_entry_point_refuses_destruction_too() {
    let mut host = FakeHost::new().ok("ceph osd purge", "");
    let err = host
        .drive(|s| ceph(s, &["osd", "purge", "osd.1", "--yes-i-really-mean-it"]))
        .unwrap_err();
    assert!(matches!(err, CmdError::Forbidden { .. }));
}

#[test]
fn osd_dump_parses_up_in_and_pools() {
    let d = read_dump(&json(DUMP)).unwrap();
    assert_eq!(d.down(), BTreeSet::from([1]));
}

#[test]
fn an_osd_dump_without_osds_is_an_error_not_an_empty_cluster() {
    assert!(read_dump(&json(r#"{"pools": []}"#)).is_none());
}

#[test]
fn an_up_flag_that_is_not_zero_or_one_is_refused() {
    let raw = r#"{"osds":[{"osd":0,"up":7,"in":1}],"pools":[]}"#;
    assert!(read_dump(&json(raw)).is_none());
}

#[test]
fn pgs_brief_accepts_both_shapes() {
    let bare = r#"[{"pgid":"1.0","state":"active+clean","up":[0],"acting":[0]}]"#;
    let wrapped =
        r#"{"pg_stats":[{"pgid":"1.0","state":"active+clean","up":[0],"acting":[0]}]}"#;
    assert_eq!(parse_pgs_brief("x", bare).unwrap().len(), 1);
    assert_eq!(parse_pgs_brief("x", wrapped).unwrap().len(), 1);
    assert!(parse_pgs_brief("x", r#"{"nope": 1}"#).is_err());
}

#[test]
fn a_group_is_lost_only_when_every_holder_is_down() {
    let d = read_dump(&json(DUMP)).unwrap();
    let pgs = parse_pgs_brief(
        "x",
        r#"[
          {"pgid":"3.0","state":"down","up":[1],"acting":[1]},
          {"pgid":"3.1","state":"active+degraded","up":[0,1],"acting":[0,1]},
          {"pgid":"1.0","state":"unknown","up":[0],"acting":[0]},
          {"pgid":"3.2","state":"unknown","up":[],"acting":[]}
        ]"#,
    )
    .unwrap();
    let (lost, holders) = lost_pgs(&d, &pgs);
    assert_eq!(
        lost.get("yolab-fs-data0").map(|l| l.list().clone()),
        Some(vec!["3.0".to_string()])
    );
    assert_eq!(lost.len(), 1);
    assert_eq!(holders, BTreeSet::from([1]));
}

#[test]
fn lvm_list_skips_progress_lines_but_never_reads_garbage_as_empty() {
    let raw = "--> some progress\n{\"3\":[{\"devices\":[\"/dev/sdb\"],\"tags\":{\"ceph.cluster_fsid\":\"abc\"}}]}";
    let m = parse_lvm_list(raw).unwrap();
    assert_eq!(m[&3][0].cluster_fsid(), Some("abc"));
    assert!(parse_lvm_list("").is_err());
    assert!(parse_lvm_list("--> no json here").is_err());
    assert!(parse_lvm_list("{\"x\": []}").is_err());
    assert!(parse_lvm_list("{}").unwrap().is_empty());
}

#[test]
fn a_cluster_that_ran_out_of_time_is_unreachable() {
    let e = CmdError::failed("ceph osd ls", "RADOS timed out");
    assert_eq!(e.failure(), Some(Failure::Unreachable));
    let e = CmdError::failed("rbd ls", "monclient(hunting): authenticate timed out after 300");
    assert_eq!(e.failure(), Some(Failure::Unreachable));
    let e = CmdError::failed("ceph osd ls", "timed out");
    assert_eq!(e.failure(), None);
    assert!(e.is_unanswered());
    assert!(matches!(e, CmdError::Timeout { .. }));
    let e = CmdError::failed("kubectl get x", "connection refused: timed out");
    assert_eq!(e.failure(), Some(Failure::Unreachable));
}

#[test]
fn what_ceph_reports_is_read_by_name_and_in_order() {
    let d = read_dump(&json(r#"[[[0,1,1],{"osd":1,"up":0,"in":1}],[[3,"data",2,1],[4,"meta"]]]"#))
        .unwrap();
    assert_eq!(d.osds[0].osd, 0);
    assert!(d.osds[0].up && d.osds[0].is_in && !d.osds[1].up);
    assert_eq!((d.pools[0].pool, d.pools[0].size, d.pools[0].min_size), (3, 2, 1));
    assert_eq!((d.pools[1].pool_name.as_str(), d.pools[1].size), ("meta", 0));
    assert!(read_dump(&json("[[],[],[]]")).is_none(), "too many");
    assert!(read_dump(&json("[[]]")).is_none(), "too few");
    assert!(read_dump(&json("[[[0,1]],[]]")).is_none(), "a field short");
    assert!(read_dump(&json(r#"[[],[[3,"data",2,1,0]]]"#)).is_none(), "a field too many");

    let pgs = parse_pgs_brief("x", r#"[["3.0","active",[0],[1]],["3.1","down"]]"#).unwrap();
    assert_eq!((pgs[0].up.clone(), pgs[0].acting.clone()), (vec![0], vec![1]));
    assert_eq!((pgs[1].pgid.as_str(), pgs[1].up.len()), ("3.1", 0));
    assert!(parse_pgs_brief("x", r#"[["3.0"]]"#).is_err());

    assert_eq!(read_stat(&json("[3,2,1]")).unwrap().num_up_osds, 2);
    assert!(read_stat(&json("[3,2]")).is_none());
    assert_eq!(read_named(&json(r#"[["a"],{"name":"b"}]"#)).unwrap()[0].name, "a");
    assert!(read_named(&json(r#"[["a","b"]]"#)).is_none());
    assert_eq!(read_safe(&json("[[4,5]]")).unwrap().safe_to_destroy, vec![4, 5]);
    assert!(read_safe(&json("[]")).is_none());

    let m = parse_lvm_list(r#"{"7":[[["/dev/sdb"],{"k":"v"},"block"],[]]}"#).unwrap();
    assert_eq!((m[&7][0].devices[0].as_str(), m[&7][0].kind.as_str()), ("/dev/sdb", "block"));
    assert_eq!((m[&7][1].devices.len(), m[&7][1].kind.as_str()), (0, ""));
}

#[test]
fn both_shapes_of_placement_groups_say_the_same() {
    let list = r#"[{"pgid":"1.0","state":"active","up":[1],"acting":[2]}]"#;
    let wrapped = format!(r#"{{"pg_ready":true,"pg_stats":{list}}}"#);
    let a = pgs_of(&json(list)).unwrap();
    let b = pgs_of(&json(&wrapped)).unwrap();
    assert_eq!(format!("{a:?}"), format!("{b:?}"));
    assert_eq!(a[0].holders(), &vec![2]);
    for none in ["{}", r#"{"pg_stats":{}}"#, "null", "7"] {
        assert!(pgs_of(&json(none)).is_none(), "{none}");
    }
    assert_eq!(pgs_of(&json("[]")).unwrap().len(), 0);
}
