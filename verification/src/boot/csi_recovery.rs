//! Clearing what the storage plugin still holds from before a restart: this
//! machine's plugin is restarted, and no other's.
use vstd::prelude::*;

use crate::csi;
use crate::effects;
use crate::effects::{Answer, Ask, AskModel, Flow, Script};
use crate::error::{Error, ErrorModel};
use crate::exec::CmdErrorModel;
use crate::kubectl;
use crate::model::Model;

verus! {

/// How often the plugin is looked for.
pub const ATTEMPTS: u32 = 30;

/// How long to wait in between.
pub const DELAY_SECS: u64 = 10;

/// Looking for the plugin, `left` more times: whether it is there.
pub open spec fn find_flow(left: nat, a: Seq<Answer>, i: int) -> Flow<bool>
    decreases left,
{
    if left == 0 {
        Flow::Done(false, i)
    } else {
        kubectl::run_flow(
            seq!["get"@, "daemonset"@, "csi-cephfsplugin"@, "-n"@, csi::NS@],
            a,
            i,
        ).and_then(
            |r: Result<Seq<char>, CmdErrorModel>, j: int|
                match r {
                    Ok(_) => Flow::Done(true, j),
                    Err(_) => effects::done_flow(
                        AskModel::Sleep { secs: DELAY_SECS },
                        a,
                        j,
                    ).and_then(|u: (), k: int| find_flow((left - 1) as nat, a, k)),
                },
        )
    }
}

fn find(s: &mut Script) -> (r: Result<bool, Ask>)
    ensures
        effects::went(
            r,
            find_flow(ATTEMPTS as nat, old(s).answers@, old(s).at as int),
            *old(s),
            *final(s),
        ),
{
    let mut left: u32 = ATTEMPTS;
    while left > 0
        invariant
            s.answers == old(s).answers,
            find_flow(ATTEMPTS as nat, s.answers@, old(s).at as int) == find_flow(
                left as nat,
                s.answers@,
                s.at as int,
            ),
        decreases left,
    {
        let args: [&str; 5] = ["get", "daemonset", "csi-cephfsplugin", "-n", csi::NS];
        assert((&args).model() =~= seq![
            "get"@,
            "daemonset"@,
            "csi-cephfsplugin"@,
            "-n"@,
            csi::NS@,
        ]);
        if kubectl::run(s, &args)?.is_ok() {
            return Ok(true);
        }
        s.sleep(DELAY_SECS)?;
        left -= 1;
    }
    Ok(false)
}

/// Restarting the plugin once it is there.
pub open spec fn run_flow(hostname: Seq<char>, a: Seq<Answer>, i: int) -> Flow<
    Result<(), ErrorModel>,
> {
    find_flow(ATTEMPTS as nat, a, i).and_then(
        |found: bool, j: int|
            if found {
                csi::restart_flow(hostname, a, j).and_then(
                    |r: Result<(), CmdErrorModel>, k: int| Flow::Done(Ok(()), k),
                )
            } else {
                Flow::Done(
                    Err(ErrorModel::message("csi-cephfsplugin DaemonSet never appeared"@)),
                    j,
                )
            },
    )
}

/// Restarts the plugin once it is there. That it does not restart is not an error.
pub fn run(s: &mut Script, hostname: &str) -> (r: Result<Result<(), Error>, Ask>)
    ensures
        effects::went(
            r,
            run_flow(hostname@, old(s).answers@, old(s).at as int),
            *old(s),
            *final(s),
        ),
{
    if !find(s)? {
        return Ok(Err(Error::msg("csi-cephfsplugin DaemonSet never appeared")));
    }
    let _ = csi::restart_local_plugin(s, hostname)?;
    Ok(Ok(()))
}

} // verus!
