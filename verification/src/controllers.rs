//! The controllers that run on this machine.
use vstd::prelude::*;

use crate::model::Model;
use crate::text;

verus! {

/// The names of all controllers.
pub open spec fn names_all() -> Seq<Seq<char>> {
    seq![
        "backup-scheduler"@,
        "restore-watchdog"@,
        "uninstall-watchdog"@,
        "backup-lock-sweeper"@,
        "disks"@,
        "cephfs"@,
        "topology"@,
        "heal"@,
        "backup-credentials"@,
        "notifier"@,
        "shared-names"@,
        "mesh-paths"@,
        "mesh-discovery"@,
        "chart-sync"@,
        "osd-activate"@,
        "images-grow"@,
        "ceph-dashboard"@,
        "mon-member"@,
        "csi-secrets"@,
        "ceph-keys"@,
        "ceph-join"@,
        "csi-recovery"@,
    ]
}

/// The names of all controllers.
pub fn names() -> (r: [&'static str; 22])
    ensures
        (&r).model() == names_all(),
{
    let r: [&'static str; 22] = [
        "backup-scheduler",
        "restore-watchdog",
        "uninstall-watchdog",
        "backup-lock-sweeper",
        "disks",
        "cephfs",
        "topology",
        "heal",
        "backup-credentials",
        "notifier",
        "shared-names",
        "mesh-paths",
        "mesh-discovery",
        "chart-sync",
        "osd-activate",
        "images-grow",
        "ceph-dashboard",
        "mon-member",
        "csi-secrets",
        "ceph-keys",
        "ceph-join",
        "csi-recovery",
    ];
    assert((&r).model() =~= names_all());
    r
}

/// Whether a controller has a name.
pub open spec fn known(name: Seq<char>) -> bool {
    text::listed(names_all(), name)
}

/// The complaint about a name that no controller has.
pub open spec fn unknown(name: Seq<char>) -> Seq<char> {
    "unknown controller '"@ + name + "' (known: "@ + text::joined(names_all(), ", "@) + ")"@
}

/// Whether the controller of a name can be run; otherwise the complaint.
pub fn run_named(name: &str) -> (r: Result<(), String>)
    ensures
        r.model() == (if known(name@) {
            Ok::<(), Seq<char>>(())
        } else {
            Err(unknown(name@))
        }),
{
    let all = names();
    let ghost v = names_all();
    assert(v.len() == 22);
    let mut k: usize = 0;
    while k < 22
        invariant
            k <= 22,
            v == names_all(),
            v.len() == 22,
            (&all).model() == v,
            forall|j: int| 0 <= j < k ==> v[j] != name@,
        decreases 22 - k,
    {
        assert(v[k as int] == all@[k as int]@);
        if text::same(all[k], name) {
            return Ok(());
        }
        k += 1;
    }
    assert(text::views(all@) =~= v);
    let known_names = text::join_str(&all, ", ");
    Err(text::cat5("unknown controller '", name, "' (known: ", known_names.as_str(), ")"))
}

/// The controllers that are started, in order: those of the storage only on a
/// machine that is set up for it.
pub open spec fn started(storage: bool) -> Seq<Seq<char>> {
    let first = seq![
        "backup-scheduler"@,
        "restore-watchdog"@,
        "uninstall-watchdog"@,
        "backup-lock-sweeper"@,
        "disks"@,
        "cephfs"@,
        "topology"@,
        "mesh-paths"@,
        "mesh-discovery"@,
        "chart-sync"@,
        "heal"@,
        "backup-credentials"@,
        "notifier"@,
        "shared-names"@,
    ];
    if storage {
        first + seq![
            "osd-activate"@,
            "images-grow"@,
            "ceph-dashboard"@,
            "mon-member"@,
            "ceph-keys"@,
            "ceph-join"@,
            "csi-secrets"@,
            "csi-recovery"@,
        ]
    } else {
        first
    }
}

/// The controllers that are started, in order.
pub fn spawn_all(storage_configured: bool) -> (r: Vec<&'static str>)
    ensures
        text::views(r@) == started(storage_configured),
{
    let mut r: Vec<&'static str> = vec![
        "backup-scheduler",
        "restore-watchdog",
        "uninstall-watchdog",
        "backup-lock-sweeper",
        "disks",
        "cephfs",
        "topology",
        "mesh-paths",
        "mesh-discovery",
        "chart-sync",
        "heal",
        "backup-credentials",
        "notifier",
        "shared-names",
    ];
    if storage_configured {
        r.push("osd-activate");
        r.push("images-grow");
        r.push("ceph-dashboard");
        r.push("mon-member");
        r.push("ceph-keys");
        r.push("ceph-join");
        r.push("csi-secrets");
        r.push("csi-recovery");
    }
    assert(text::views(r@) =~= started(storage_configured));
    r
}

/// Every controller that is started is known by its name.
pub proof fn every_started_controller_is_known(storage: bool, k: int)
    requires
        0 <= k < started(storage).len(),
    ensures
        known(started(storage)[k]),
{
    let n = started(storage)[k];
    let all = names_all();
    let place: int = if k < 7 {
        k
    } else if k < 10 {
        k + 4
    } else if k < 14 {
        k - 3
    } else if k == 18 {
        19
    } else if k == 19 {
        20
    } else if k == 20 {
        18
    } else {
        k
    };
    assert(all[place] == n);
}

} // verus!
