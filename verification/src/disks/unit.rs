//! The services that run OSDs.
use vstd::prelude::*;

use crate::disks::plan;
use crate::effects;
use crate::effects::{Answer, Ask, AskModel, Flow, Script};
use crate::exec::{CmdErrorModel, CommandOutputModel};
use crate::host;
use crate::model::Model;
use crate::text;

verus! {

/// The service that runs an OSD.
pub open spec fn unit_of(osd: i64) -> Seq<char> {
    "yolab-ceph-osd@"@ + text::signed_decimal(osd as int) + ".service"@
}

/// The service that runs an OSD.
pub fn unit_name(osd: i64) -> (r: String)
    ensures
        r@ == unit_of(osd),
{
    let n = text::signed_decimal_of(osd);
    text::cat3("yolab-ceph-osd@", n.as_str(), ".service")
}

/// The state that a unit's answer shows; nothing when it shows none.
pub open spec fn state_in(r: Result<CommandOutputModel, CmdErrorModel>) -> Option<Seq<char>> {
    match r {
        Ok(o) => if text::trimmed(o.stdout).len() > 0 {
            Some(text::trimmed(o.stdout))
        } else {
            None
        },
        Err(_) => None,
    }
}

/// The command that shows a unit's state.
pub open spec fn show_args(osd: i64) -> Seq<Seq<char>> {
    seq!["show"@, "-p"@, "ActiveState"@, "--value"@, unit_of(osd)]
}

/// Asking for the state of an OSD's service.
pub open spec fn unit_state_flow(osd: i64, a: Seq<Answer>, i: int) -> Flow<Option<Seq<char>>> {
    host::systemctl_flow(show_args(osd), a, i).and_then(
        |r: Result<CommandOutputModel, CmdErrorModel>, j: int| Flow::Done(state_in(r), j),
    )
}

/// Asks for the state of an OSD's service.
pub fn osd_unit_state(s: &mut Script, osd: i64) -> (r: Result<Option<String>, Ask>)
    ensures
        effects::went(r, unit_state_flow(osd, old(s).answers@, old(s).at as int), *old(s), *final(s)),
{
    let unit = unit_name(osd);
    let args: [&str; 5] = ["show", "-p", "ActiveState", "--value", unit.as_str()];
    assert((&args).model() =~= show_args(osd));
    match host::systemctl(s, &args)? {
        Ok(o) => {
            let t = text::trim(o.stdout.as_str());
            if t.unicode_len() > 0 {
                Ok(Some(t.to_owned()))
            } else {
                Ok(None)
            }
        },
        Err(_) => Ok(None),
    }
}

/// Telling the service of an OSD to do something, whatever comes of it.
pub open spec fn tell_flow(verb: Seq<char>, osd: i64, a: Seq<Answer>, i: int) -> Flow<()> {
    host::systemctl_flow(seq![verb, unit_of(osd)], a, i).and_then(
        |r: Result<CommandOutputModel, CmdErrorModel>, j: int| Flow::Done((), j),
    )
}

fn tell(s: &mut Script, verb: &str, osd: i64) -> (r: Result<(), Ask>)
    ensures
        effects::went(
            r,
            tell_flow(verb@, osd, old(s).answers@, old(s).at as int),
            *old(s),
            *final(s),
        ),
{
    let unit = unit_name(osd);
    let args: [&str; 2] = [verb, unit.as_str()];
    assert((&args).model() =~= seq![verb@, unit_of(osd)]);
    let _ = host::systemctl(s, &args)?;
    Ok(())
}

/// Starting the service of an OSD.
pub open spec fn start_flow(osd: i64, a: Seq<Answer>, i: int) -> Flow<()> {
    tell_flow("start"@, osd, a, i)
}

/// Starts the service of an OSD. A failure is tried again with the next tick.
pub fn start_osd_unit(s: &mut Script, osd: i64) -> (r: Result<(), Ask>)
    ensures
        effects::went(r, start_flow(osd, old(s).answers@, old(s).at as int), *old(s), *final(s)),
{
    tell(s, "start", osd)
}

/// Stopping the service of an OSD.
pub open spec fn stop_flow(osd: i64, a: Seq<Answer>, i: int) -> Flow<()> {
    tell_flow("stop"@, osd, a, i)
}

/// Stops the service of an OSD.
pub fn stop_osd_unit(s: &mut Script, osd: i64) -> (r: Result<(), Ask>)
    ensures
        effects::went(r, stop_flow(osd, old(s).answers@, old(s).at as int), *old(s), *final(s)),
{
    tell(s, "stop", osd)
}

/// Seeing to it that the service of an OSD runs.
pub open spec fn ensure_flow(osd: i64, a: Seq<Answer>, i: int) -> Flow<()> {
    unit_state_flow(osd, a, i).and_then(
        |st: Option<Seq<char>>, j: int|
            if plan::runs(st) {
                Flow::Done((), j)
            } else {
                start_flow(osd, a, j)
            },
    )
}

/// Starts the service of an OSD unless it runs.
pub fn ensure_osd_unit_running(s: &mut Script, osd: i64) -> (r: Result<(), Ask>)
    ensures
        effects::went(r, ensure_flow(osd, old(s).answers@, old(s).at as int), *old(s), *final(s)),
{
    let st = osd_unit_state(s, osd)?;
    let running = match &st {
        Some(t) => plan::is_running(Some(t.as_str())),
        None => plan::is_running(None),
    };
    if running {
        return Ok(());
    }
    start_osd_unit(s, osd)
}

/// Waiting, a second at a time, until the service of an OSD has stopped.
pub open spec fn await_stop_flow(osd: i64, left: nat, a: Seq<Answer>, i: int) -> Flow<()>
    decreases left,
{
    if left == 0 {
        Flow::Done((), i)
    } else {
        unit_state_flow(osd, a, i).and_then(
            |st: Option<Seq<char>>, j: int|
                if plan::stopped(st) {
                    Flow::Done((), j)
                } else {
                    effects::done_flow(AskModel::Sleep { secs: 1 }, a, j).and_then(
                        |u: (), k: int| await_stop_flow(osd, (left - 1) as nat, a, k),
                    )
                },
        )
    }
}

/// Stopping the service of an OSD, and waiting up to fifteen seconds for it.
pub open spec fn disable_flow(osd: i64, a: Seq<Answer>, i: int) -> Flow<()> {
    stop_flow(osd, a, i).and_then(|u: (), j: int| await_stop_flow(osd, 15, a, j))
}

/// Stops the service of an OSD, and waits up to fifteen seconds for it.
pub fn disable_osd_unit(s: &mut Script, osd: i64) -> (r: Result<(), Ask>)
    ensures
        effects::went(r, disable_flow(osd, old(s).answers@, old(s).at as int), *old(s), *final(s)),
{
    stop_osd_unit(s, osd)?;
    let ghost a = s.answers@;
    let ghost whole = await_stop_flow(osd, 15, a, s.at as int);
    let mut left: u64 = 15;
    while left > 0
        invariant
            left <= 15,
            s.answers == old(s).answers,
            a == s.answers@,
            disable_flow(osd, a, old(s).at as int) == whole,
            whole == await_stop_flow(osd, left as nat, a, s.at as int),
        decreases left,
    {
        let st = osd_unit_state(s, osd)?;
        let stopped = match &st {
            Some(t) => plan::is_stopped(Some(t.as_str())),
            None => plan::is_stopped(None),
        };
        if stopped {
            return Ok(());
        }
        s.sleep(1)?;
        left = left - 1;
    }
    Ok(())
}

/// Whether a question is one about the services of the machine, or to wait.
pub open spec fn about_services(q: AskModel) -> bool {
    q is Sleep || (q matches AskModel::Run { bin, .. } && bin == "systemctl"@)
}

proof fn lemma_awaiting(osd: i64, left: nat, a: Seq<Answer>, i: int)
    ensures
        match await_stop_flow(osd, left, a, i) {
            Flow::Wants(q) => about_services(q),
            Flow::Done(_, j) => j >= i,
        },
    decreases left,
{
    if left > 0 {
        lemma_awaiting(osd, (left - 1) as nat, a, i + 2);
    }
}

/// Stopping the service of an OSD asks about services only.
pub proof fn lemma_disabling(osd: i64, a: Seq<Answer>, i: int)
    ensures
        match disable_flow(osd, a, i) {
            Flow::Wants(q) => about_services(q),
            Flow::Done(_, j) => j > i,
        },
{
    lemma_awaiting(osd, 15, a, i + 1);
}

// ── What holds of every unit ─────────────────────────────────────────────────

/// An OSD is started exactly when it neither runs nor is coming up.
pub proof fn what_does_not_run_is_started(osd: i64, st: Option<Seq<char>>, a: Seq<Answer>, i: int)
    requires
        0 <= i,
        a.len() == i + 1,
        unit_state_flow(osd, a, i) == Flow::Done(st, i + 1),
    ensures
        st == Some("active"@) || st == Some("activating"@) || st == Some("reloading"@)
            ==> ensure_flow(osd, a, i) == Flow::<()>::Done((), i + 1),
        st != Some("active"@) && st != Some("activating"@) && st != Some("reloading"@) ==> (
        ensure_flow(osd, a, i) matches Flow::Wants(AskModel::Run { bin, args, .. }) && bin
            == "systemctl"@ && args == seq!["start"@, unit_of(osd)]),
{
}

/// Waiting for an OSD to stop ends early only when it is inactive or failed; as long as it
/// is not, it is asked about again after a second.
pub proof fn a_stop_is_awaited(osd: i64, left: nat, st: Option<Seq<char>>, a: Seq<Answer>, i: int)
    requires
        0 <= i < a.len(),
        left > 0,
        unit_state_flow(osd, a, i) == Flow::Done(st, i + 1),
    ensures
        st == Some("inactive"@) || st == Some("failed"@) ==> await_stop_flow(osd, left, a, i)
            == Flow::<()>::Done((), i + 1),
        st != Some("inactive"@) && st != Some("failed"@) && a.len() == i + 1 ==> await_stop_flow(
            osd,
            left,
            a,
            i,
        ) == Flow::<()>::Wants(AskModel::Sleep { secs: 1 }),
        st != Some("inactive"@) && st != Some("failed"@) && a.len() > i + 1 ==> await_stop_flow(
            osd,
            left,
            a,
            i,
        ) == await_stop_flow(osd, (left - 1) as nat, a, i + 2),
{
}

} // verus!
