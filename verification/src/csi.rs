//! The storage plugin of this machine.
use vstd::prelude::*;

use crate::effects;
use crate::effects::{Answer, Ask, Flow, Script};
use crate::exec::{CmdError, CmdErrorModel};
use crate::json::Json;
use crate::kubectl;
use crate::model::Model;
use crate::text;

verus! {

/// Where the plugin runs.
pub const NS: &'static str = "rook-ceph";

/// How this machine's plugin is deleted, and no other's.
pub open spec fn delete_args(hostname: Seq<char>) -> Seq<Seq<char>> {
    seq![
        "delete"@,
        "pod"@,
        "-n"@,
        NS@,
        "-l"@,
        "app=csi-cephfsplugin"@,
        "--field-selector"@,
        "spec.nodeName="@ + hostname,
        "--ignore-not-found"@,
    ]
}

/// Restarting this machine's plugin.
pub open spec fn restart_flow(hostname: Seq<char>, a: Seq<Answer>, i: int) -> Flow<
    Result<(), CmdErrorModel>,
> {
    kubectl::run_flow(delete_args(hostname), a, i).and_then(
        |r: Result<Seq<char>, CmdErrorModel>, j: int|
            Flow::Done(
                match r {
                    Ok(_) => Ok(()),
                    Err(e) => Err(e),
                },
                j,
            ),
    )
}

/// Restarts this machine's plugin: it is deleted, and comes back.
pub fn restart_local_plugin(s: &mut Script, hostname: &str) -> (r: Result<Result<(), CmdError>, Ask>)
    ensures
        effects::went(
            r,
            restart_flow(hostname@, old(s).answers@, old(s).at as int),
            *old(s),
            *final(s),
        ),
{
    let selector = text::cat("spec.nodeName=", hostname);
    let args: [&str; 9] = [
        "delete",
        "pod",
        "-n",
        NS,
        "-l",
        "app=csi-cephfsplugin",
        "--field-selector",
        selector.as_str(),
        "--ignore-not-found",
    ];
    assert((&args).model() =~= delete_args(hostname@));
    match kubectl::run(s, &args)? {
        Ok(_) => Ok(Ok(())),
        Err(e) => Ok(Err(e)),
    }
}

/// Asking whether the plugin is installed.
pub open spec fn installed_flow(a: Seq<Answer>, i: int) -> Flow<Result<bool, CmdErrorModel>> {
    kubectl::get_opt_flow(
        seq!["get"@, "daemonset"@, "csi-cephfsplugin"@, "-n"@, NS@, "-o"@, "json"@],
        a,
        i,
    ).and_then(
        |r: Result<Option<Json>, CmdErrorModel>, j: int|
            Flow::Done(
                match r {
                    Ok(o) => Ok(o is Some),
                    Err(e) => Err(e),
                },
                j,
            ),
    )
}

/// Whether the plugin is installed. That the cluster does not answer is an error,
/// not a no.
pub fn plugin_daemonset_exists(s: &mut Script) -> (r: Result<Result<bool, CmdError>, Ask>)
    ensures
        effects::went(r, installed_flow(old(s).answers@, old(s).at as int), *old(s), *final(s)),
{
    let args: [&str; 7] = ["get", "daemonset", "csi-cephfsplugin", "-n", NS, "-o", "json"];
    assert((&args).model() =~= seq![
        "get"@,
        "daemonset"@,
        "csi-cephfsplugin"@,
        "-n"@,
        NS@,
        "-o"@,
        "json"@,
    ]);
    match kubectl::get_opt(s, &args)? {
        Ok(o) => Ok(Ok(o.is_some())),
        Err(e) => Ok(Err(e)),
    }
}

} // verus!
