//! Going through a heal: one step after the other, until one has to wait.
use vstd::prelude::*;

use crate::ceph::destructive::HealMandate;
use crate::effects;
use crate::effects::{Answer, Ask, AskModel, Flow, Script};
use crate::error::{Error, ErrorModel};
use crate::exec::{CmdErrorModel, CommandOutputModel};
use crate::heal::apps;
use crate::heal::drive;
use crate::heal::drive::LocalRecord;
use crate::heal::repair;
use crate::heal::repair::{Heal, HealModel, Machine, MachineModel, Step};
use crate::heal::steps;
use crate::heal::steps::{StepResult, StepResultModel};
use crate::host;
use crate::kubectl;
use crate::model::Model;
use crate::names::Names;
use crate::runtime::{Tick, TickModel};
use crate::text;

verus! {

// ── Restart ──────────────────────────────────────────────────────────────────

/// Restarting this machine.
pub open spec fn reboot_flow(a: Seq<Answer>, i: int) -> Flow<Result<(), ErrorModel>> {
    host::systemctl_flow(seq!["reboot"@], a, i).and_then(
        |r: Result<CommandOutputModel, CmdErrorModel>, j: int|
            Flow::Done(
                match r {
                    Err(e) => steps::failed(e),
                    Ok(o) => if o.success {
                        Ok(())
                    } else {
                        Err(
                            ErrorModel::message("systemctl reboot: "@ + text::trimmed(o.stderr)),
                        )
                    },
                },
                j,
            ),
    )
}

/// Restarts this machine.
pub fn restart_this_machine(s: &mut Script) -> (r: Result<Result<(), Error>, Ask>)
    ensures
        effects::went(r, reboot_flow(old(s).answers@, old(s).at as int), *old(s), *final(s)),
{
    let args: [&str; 1] = ["reboot"];
    assert((&args).model() =~= seq!["reboot"@]);
    match host::systemctl(s, &args)? {
        Err(e) => Ok(Err(Error::new(e))),
        Ok(o) => {
            if o.success {
                Ok(Ok(()))
            } else {
                let why = text::cat("systemctl reboot: ", text::trim(o.stderr.as_str()));
                Ok(Err(Error::msg(why.as_str())))
            }
        },
    }
}

/// Asking the machines from the `k`th on to restart; `out` are those before it that
/// refused and still answer.
pub open spec fn restart_peers_flow(
    peers: Seq<MachineModel>,
    k: int,
    out: Seq<Seq<char>>,
    a: Seq<Answer>,
    i: int,
) -> Flow<Seq<Seq<char>>>
    decreases peers.len() - k,
{
    if k < 0 || k >= peers.len() {
        Flow::Done(out, i)
    } else {
        let p = peers[k];
        effects::did_flow(AskModel::RestartPeer { name: p.name, addr: p.addr }, a, i).and_then(
            |r: Result<(), Seq<char>>, j: int|
                match r {
                    Ok(_) => restart_peers_flow(peers, k + 1, out, a, j),
                    Err(_) => effects::yes_flow(
                        AskModel::Answers { name: p.name, addr: p.addr },
                        a,
                        j,
                    ).and_then(
                        |there: bool, m: int|
                            restart_peers_flow(
                                peers,
                                k + 1,
                                if there {
                                    out.push(p.name)
                                } else {
                                    out
                                },
                                a,
                                m,
                            ),
                    ),
                },
        )
    }
}

fn restart_peers(s: &mut Script, peers: &Vec<Machine>) -> (r: Result<Vec<String>, Ask>)
    ensures
        effects::went(
            r,
            restart_peers_flow(peers.model(), 0, seq![], old(s).answers@, old(s).at as int),
            *old(s),
            *final(s),
        ),
{
    let mut out: Vec<String> = Vec::new();
    let mut k: usize = 0;
    assert(out.model() =~= seq![]);
    while k < peers.len()
        invariant
            k <= peers@.len(),
            s.answers == old(s).answers,
            restart_peers_flow(peers.model(), 0, seq![], s.answers@, old(s).at as int)
                == restart_peers_flow(
                peers.model(),
                k as int,
                out.model(),
                s.answers@,
                s.at as int,
            ),
        decreases peers@.len() - k,
    {
        let p = &peers[k];
        assert(peers.model()[k as int] == p.model());
        if let Err(_) = s.did(Ask::RestartPeer { name: p.name.clone(), addr: p.addr.clone() })? {
            if s.yes(Ask::Answers { name: p.name.clone(), addr: p.addr.clone() })? {
                let ghost before = out.model();
                out.push(p.name.clone());
                assert(out.model() =~= before.push(p.name@));
            }
        }
        k += 1;
    }
    Ok(out)
}

/// The heal as it is saved before this machine restarts.
pub open spec fn restarting(h: HealModel, boot: Seq<char>) -> HealModel {
    HealModel {
        step: Step::Finish,
        restart_boot_id: Some(boot),
        waiting: Some("restarting this machine"@),
        ..h
    }
}

/// The restart: every other machine first; one that refuses and still answers is
/// asked again. Then the record is saved, and this machine restarts.
pub open spec fn restart_step_flow(
    path: Seq<char>,
    h: HealModel,
    boot: Seq<char>,
    a: Seq<Answer>,
    i: int,
) -> Flow<(HealModel, Result<StepResultModel, ErrorModel>)> {
    restart_peers_flow(h.peers, 0, seq![], a, i).and_then(
        |refused: Seq<Seq<char>>, j: int|
            if refused.len() > 0 {
                Flow::Done(
                    (
                        h,
                        Ok(
                            StepResultModel::NotYet(
                                text::joined(refused, ", "@)
                                    + " did not accept the restart — trying again"@,
                            ),
                        ),
                    ),
                    j,
                )
            } else {
                let now = restarting(h, boot);
                drive::save_flow(path, now, a, j).and_then(
                    |r: Result<(), ErrorModel>, k: int|
                        match r {
                            Err(e) => Flow::Done((now, Err(e)), k),
                            Ok(_) => reboot_flow(a, k).and_then(
                                |b: Result<(), ErrorModel>, m: int|
                                    Flow::Done(
                                        (
                                            now,
                                            match b {
                                                Ok(_) => Ok(StepResultModel::Restarting),
                                                Err(e) => Err(e),
                                            },
                                        ),
                                        m,
                                    ),
                            ),
                        },
                )
            },
    )
}

fn restart_step(s: &mut Script, local: &LocalRecord, heal: Heal, boot_id: &str) -> (r: Result<
    (Heal, Result<StepResult, Error>),
    Ask,
>)
    ensures
        effects::went(
            r,
            restart_step_flow(
                local.path@,
                heal.model(),
                boot_id@,
                old(s).answers@,
                old(s).at as int,
            ),
            *old(s),
            *final(s),
        ),
{
    let refused = restart_peers(s, &heal.peers)?;
    assert(refused.model().len() == refused@.len());
    if refused.len() > 0 {
        assert(text::texts(refused@) =~= refused.model());
        let who = text::join(&refused, ", ");
        return Ok(
            (
                heal,
                Ok(
                    StepResult::NotYet(
                        text::cat(who.as_str(), " did not accept the restart — trying again"),
                    ),
                ),
            ),
        );
    }
    let mut now = heal;
    now.step = Step::Finish;
    now.restart_boot_id = Some(boot_id.to_owned());
    now.waiting = Some(String::from_str("restarting this machine"));
    if let Err(e) = drive::save(s, local, &now)? {
        return Ok((now, Err(e)));
    }
    match restart_this_machine(s)? {
        Ok(_) => Ok((now, Ok(StepResult::Restarting))),
        Err(e) => Ok((now, Err(e))),
    }
}

// ── Finish ───────────────────────────────────────────────────────────────────

/// Removing the nodes from the `k`th on from Kubernetes, until one cannot be.
pub open spec fn delete_nodes_flow(gone: Seq<Seq<char>>, k: int, a: Seq<Answer>, i: int) -> Flow<
    Result<(), ErrorModel>,
>
    decreases gone.len() - k,
{
    if k < 0 || k >= gone.len() {
        Flow::Done(Ok(()), i)
    } else {
        kubectl::run_flow(
            seq!["delete"@, "node"@, gone[k], "--ignore-not-found"@],
            a,
            i,
        ).and_then(
            |r: Result<Seq<char>, CmdErrorModel>, j: int|
                match r {
                    Err(e) => Flow::Done(steps::failed(e), j),
                    Ok(_) => delete_nodes_flow(gone, k + 1, a, j),
                },
        )
    }
}

fn delete_nodes(s: &mut Script, gone: &Names) -> (r: Result<Result<(), Error>, Ask>)
    ensures
        effects::went(
            r,
            delete_nodes_flow(gone.model(), 0, old(s).answers@, old(s).at as int),
            *old(s),
            *final(s),
        ),
{
    let l = gone.list();
    let mut k: usize = 0;
    while k < l.len()
        invariant
            k <= l@.len(),
            text::texts(l@) == gone.model(),
            s.answers == old(s).answers,
            delete_nodes_flow(gone.model(), 0, s.answers@, old(s).at as int) == delete_nodes_flow(
                gone.model(),
                k as int,
                s.answers@,
                s.at as int,
            ),
        decreases l@.len() - k,
    {
        assert(gone.model()[k as int] == l@[k as int]@);
        let args: [&str; 4] = ["delete", "node", l[k].as_str(), "--ignore-not-found"];
        assert((&args).model() =~= seq![
            "delete"@,
            "node"@,
            gone.model()[k as int],
            "--ignore-not-found"@,
        ]);
        if let Err(e) = kubectl::run(s, &args)? {
            return Ok(Err(Error::new(e)));
        }
        k += 1;
    }
    Ok(Ok(()))
}

/// The end: after this machine has restarted and Kubernetes answers, the machines
/// that are gone leave it, and every app is removed.
pub open spec fn finish_flow(h: HealModel, boot: Seq<char>, a: Seq<Answer>, i: int) -> Flow<
    Result<StepResultModel, ErrorModel>,
> {
    if h.restart_boot_id == Some(boot) {
        reboot_flow(a, i).and_then(
            |b: Result<(), ErrorModel>, j: int|
                Flow::Done(
                    match b {
                        Ok(_) => Ok(StepResultModel::Restarting),
                        Err(e) => Err(e),
                    },
                    j,
                ),
        )
    } else {
        drive::kubernetes_flow(a, i).and_then(
            |up: bool, j: int|
                if !up {
                    Flow::Done(
                        Ok(StepResultModel::NotYet("waiting for Kubernetes to start"@)),
                        j,
                    )
                } else {
                    delete_nodes_flow(h.gone, 0, a, j).and_then(
                        |r: Result<(), ErrorModel>, k: int|
                            match r {
                                Err(e) => Flow::Done(Err(e), k),
                                Ok(_) => apps::remove_apps_flow(a, k),
                            },
                    )
                },
        )
    }
}

fn finish_step(s: &mut Script, h: &Heal, boot_id: &str) -> (r: Result<
    Result<StepResult, Error>,
    Ask,
>)
    ensures
        effects::went(
            r,
            finish_flow(h.model(), boot_id@, old(s).answers@, old(s).at as int),
            *old(s),
            *final(s),
        ),
{
    let not_yet = match &h.restart_boot_id {
        Some(b) => text::same(b.as_str(), boot_id),
        None => false,
    };
    if not_yet {
        return match restart_this_machine(s)? {
            Ok(_) => Ok(Ok(StepResult::Restarting)),
            Err(e) => Ok(Err(e)),
        };
    }
    if !drive::kubernetes_answers(s)? {
        return Ok(Ok(StepResult::NotYet(String::from_str("waiting for Kubernetes to start"))));
    }
    if let Err(e) = delete_nodes(s, &h.gone)? {
        return Ok(Err(e));
    }
    apps::remove_apps(s)
}

// ── One step ─────────────────────────────────────────────────────────────────

/// A step that leaves the record as it is.
pub open spec fn keeping(
    h: HealModel,
    f: Flow<Result<StepResultModel, ErrorModel>>,
) -> Flow<(HealModel, Result<StepResultModel, ErrorModel>)> {
    f.and_then(|r: Result<StepResultModel, ErrorModel>, j: int| Flow::Done((h, r), j))
}

/// One step of a heal, and the record after it. No step runs for a heal that is
/// not going on.
pub open spec fn step_flow(
    path: Seq<char>,
    h: HealModel,
    me: Seq<char>,
    boot: Seq<char>,
    now: u64,
    a: Seq<Answer>,
    i: int,
) -> Flow<(HealModel, Result<StepResultModel, ErrorModel>)> {
    if !h.running() {
        Flow::Done(
            (
                h,
                Err(
                    ErrorModel::message(
                        "heal "@ + h.id + " is not running — no step may run"@,
                    ),
                ),
            ),
            i,
        )
    } else {
        match h.step {
            Step::Claim => keeping(h, steps::claim_step_flow(h, now, a, i)),
            Step::Consensus => keeping(h, steps::consensus_flow(h, me, a, i)),
            Step::Wipe => keeping(h, steps::wipe_flow(h, a, i)),
            Step::Restart => restart_step_flow(path, h, boot, a, i),
            Step::Finish => keeping(h, finish_flow(h, boot, a, i)),
        }
    }
}

/// A heal that is not going on asks for nothing.
pub proof fn no_step_runs_after_the_end(
    path: Seq<char>,
    h: HealModel,
    me: Seq<char>,
    boot: Seq<char>,
    now: u64,
    a: Seq<Answer>,
    i: int,
)
    requires
        !h.running(),
    ensures
        step_flow(path, h, me, boot, now, a, i) matches Flow::Done(r, j) && j == i && r.0 == h
            && r.1 is Err,
{
}

/// A step that is done leaves the record as it is.
pub proof fn lemma_done_keeps(
    path: Seq<char>,
    h: HealModel,
    me: Seq<char>,
    boot: Seq<char>,
    now: u64,
    a: Seq<Answer>,
    i: int,
)
    ensures
        match step_flow(path, h, me, boot, now, a, i) {
            Flow::Done(r, j) => r.1 is Ok && r.1->Ok_0 is Done ==> r.0 == h,
            Flow::Wants(_) => true,
        },
{
}

/// Does one step of a heal, and gives back its record.
pub fn run_step(
    s: &mut Script,
    local: &LocalRecord,
    heal: Heal,
    me: &str,
    boot_id: &str,
    now: u64,
) -> (r: Result<(Heal, Result<StepResult, Error>), Ask>)
    ensures
        effects::went(
            r,
            step_flow(
                local.path@,
                heal.model(),
                me@,
                boot_id@,
                now,
                old(s).answers@,
                old(s).at as int,
            ),
            *old(s),
            *final(s),
        ),
{
    if !heal.running() {
        let why = text::cat3("heal ", heal.id.as_str(), " is not running — no step may run");
        return Ok((heal, Err(Error::msg(why.as_str()))));
    }
    let mandate = HealMandate::from_persisted_heal(heal.id.as_str());
    let r = match heal.step {
        Step::Claim => steps::claim_step(s, &heal, now)?,
        Step::Consensus => steps::consensus_step(s, &mandate, &heal, me)?,
        Step::Wipe => steps::wipe(s, &mandate, &heal)?,
        Step::Restart => return restart_step(s, local, heal, boot_id),
        Step::Finish => finish_step(s, &heal, boot_id)?,
    };
    Ok((heal, r))
}

// ── The tick ─────────────────────────────────────────────────────────────────

/// Sharing a finished record: when the cluster shares none, or an older state of
/// this same heal. Never over another heal.
pub open spec fn publish_finished_flow(h: HealModel, a: Seq<Answer>, i: int) -> Flow<()> {
    drive::shared_flow(a, i).and_then(
        |r: Result<Option<HealModel>, ErrorModel>, j: int|
            {
                let needed = match r {
                    Ok(None) => true,
                    Ok(Some(o)) => o.id == h.id && o != h,
                    Err(_) => false,
                };
                if needed {
                    drive::share_flow(h, a, j).and_then(
                        |x: Result<(), CmdErrorModel>, k: int| Flow::Done((), k),
                    )
                } else {
                    Flow::Done((), j)
                }
            },
    )
}

/// A finished record is never shared over another heal.
pub proof fn another_heal_is_never_overwritten(h: HealModel, o: HealModel, a: Seq<Answer>, i: int, j: int)
    requires
        drive::shared_flow(a, i) == Flow::Done(Ok::<Option<HealModel>, ErrorModel>(Some(o)), j),
        o.id != h.id,
    ensures
        publish_finished_flow(h, a, i) == Flow::Done((), j),
{
}

fn same_machines(a: &Vec<Machine>, b: &Vec<Machine>) -> (r: bool)
    ensures
        r == (a.model() == b.model()),
{
    assert(a.model().len() == a@.len() && b.model().len() == b@.len());
    if a.len() != b.len() {
        return false;
    }
    let mut k: usize = 0;
    while k < a.len()
        invariant
            k <= a@.len(),
            a@.len() == b@.len(),
            forall|i: int| 0 <= i < k ==> #[trigger] a.model()[i] == b.model()[i],
        decreases a@.len() - k,
    {
        assert(a.model()[k as int] == a@[k as int].model());
        assert(b.model()[k as int] == b@[k as int].model());
        if !text::same(a[k].name.as_str(), b[k].name.as_str()) || !text::same(
            a[k].addr.as_str(),
            b[k].addr.as_str(),
        ) {
            assert(a.model()[k as int] != b.model()[k as int]);
            return false;
        }
        k += 1;
    }
    assert(a.model() =~= b.model());
    true
}

fn same_text(a: &Option<String>, b: &Option<String>) -> (r: bool)
    ensures
        r == (a.model() == b.model()),
{
    match (a, b) {
        (Some(x), Some(y)) => text::same(x.as_str(), y.as_str()),
        (None, None) => true,
        _ => false,
    }
}

/// Whether two records are the same.
pub fn same_heal(a: &Heal, b: &Heal) -> (r: bool)
    ensures
        r == (a.model() == b.model()),
{
    text::same(a.id.as_str(), b.id.as_str()) && text::same(a.driver.as_str(), b.driver.as_str())
        && a.started_at == b.started_at && a.finished_at == b.finished_at && a.step == b.step
        && a.gone.same(&b.gone) && same_machines(&a.peers, &b.peers) && a.reset_kubernetes
        == b.reset_kubernetes && a.claim_after == b.claim_after && same_text(
        &a.restart_boot_id,
        &b.restart_boot_id,
    ) && same_text(&a.waiting, &b.waiting)
}

/// Shares a finished record.
pub fn publish_finished(s: &mut Script, heal: &Heal) -> (r: Result<(), Ask>)
    ensures
        effects::went(
            r,
            publish_finished_flow(heal.model(), old(s).answers@, old(s).at as int),
            *old(s),
            *final(s),
        ),
{
    let needed = match drive::shared_heal(s)? {
        Ok(None) => true,
        Ok(Some(o)) => text::same(o.id.as_str(), heal.id.as_str()) && !same_heal(&o, heal),
        Err(_) => false,
    };
    if needed {
        let _ = drive::share(s, heal)?;
    }
    Ok(())
}

/// The record after a step that is done: at the next step, or finished.
pub open spec fn advanced(h: HealModel, now: u64) -> HealModel {
    match repair::step_after(h.step) {
        Some(n) => HealModel { waiting: None, step: n, ..h },
        None => HealModel { waiting: None, finished_at: Some(now), ..h },
    }
}

/// The record with another reason to wait.
pub open spec fn with_waiting(h: HealModel, why: Seq<char>) -> HealModel {
    HealModel { waiting: Some(why), ..h }
}

/// Saving the record, and an answer once it is saved.
pub open spec fn saved_flow(
    path: Seq<char>,
    h: HealModel,
    t: Result<TickModel, ErrorModel>,
    a: Seq<Answer>,
    i: int,
) -> Flow<Result<TickModel, ErrorModel>> {
    drive::save_flow(path, h, a, i).and_then(
        |r: Result<(), ErrorModel>, j: int|
            Flow::Done(
                match r {
                    Err(e) => Err(e),
                    Ok(_) => t,
                },
                j,
            ),
    )
}

/// How many steps may still be done.
pub open spec fn steps_left(h: HealModel) -> nat {
    if h.running() {
        (5 - repair::place_of(h.step)) as nat
    } else {
        0
    }
}

/// Doing one step after the other, until one has to wait, fails or restarts.
pub open spec fn steps_flow(
    path: Seq<char>,
    h: HealModel,
    me: Seq<char>,
    boot: Seq<char>,
    now: u64,
    a: Seq<Answer>,
    i: int,
) -> Flow<Result<TickModel, ErrorModel>>
    decreases steps_left(h),
{
    if !h.running() {
        Flow::Done(Ok(TickModel::Done), i)
    } else {
        step_flow(path, h, me, boot, now, a, i).and_then(
            |r: (HealModel, Result<StepResultModel, ErrorModel>), j: int|
                match r.1 {
                    Err(e) => saved_flow(path, with_waiting(r.0, e.chain()), Err(e), a, j),
                    Ok(StepResultModel::NotYet(why)) => if r.0.waiting == Some(why) {
                        Flow::Done(Ok(TickModel::Done), j)
                    } else {
                        saved_flow(path, with_waiting(r.0, why), Ok(TickModel::Done), a, j)
                    },
                    Ok(StepResultModel::Abandon) => drive::forget_flow(path, a, j).and_then(
                        |x: Result<(), ErrorModel>, k: int|
                            Flow::Done(
                                match x {
                                    Err(e) => Err(e),
                                    Ok(_) => Ok(
                                        TickModel::Idle("another machine drives the heal"@),
                                    ),
                                },
                                k,
                            ),
                    ),
                    Ok(StepResultModel::Restarting) => Flow::Done(Ok(TickModel::Done), j),
                    Ok(StepResultModel::Done) => drive::save_flow(
                        path,
                        advanced(h, now),
                        a,
                        j,
                    ).and_then(
                        |x: Result<(), ErrorModel>, k: int|
                            match x {
                                Err(e) => Flow::Done(Err(e), k),
                                Ok(_) => steps_flow(path, advanced(h, now), me, boot, now, a, k),
                            },
                    ),
                },
        )
    }
}

/// The tick of a machine that may drive a heal.
pub open spec fn tick_flow(
    path: Seq<char>,
    me: Seq<char>,
    boot: Seq<char>,
    now: u64,
    a: Seq<Answer>,
    i: int,
) -> Flow<Result<TickModel, ErrorModel>> {
    drive::load_flow(path, a, i).and_then(
        |r: Result<Option<HealModel>, ErrorModel>, j: int|
            match r {
                Err(e) => Flow::Done(Err(e), j),
                Ok(None) => Flow::Done(
                    Ok(TickModel::Idle("no heal is driven from this machine"@)),
                    j,
                ),
                Ok(Some(h)) => if !h.running() {
                    publish_finished_flow(h, a, j).and_then(
                        |u: (), k: int|
                            Flow::Done(
                                Ok(TickModel::Idle("heal "@ + h.id + " finished"@)),
                                k,
                            ),
                    )
                } else if boot.len() == 0 {
                    Flow::Done(
                        Err(
                            ErrorModel::message(
                                "this boot has no id — a heal cannot tell whether its restart happened"@,
                            ),
                        ),
                        j,
                    )
                } else {
                    steps_flow(path, h, me, boot, now, a, j)
                },
            },
    )
}

fn run_steps(
    s: &mut Script,
    local: &LocalRecord,
    start: Heal,
    me: &str,
    boot_id: &str,
    now: u64,
) -> (r: Result<Result<Tick, Error>, Ask>)
    ensures
        effects::went(
            r,
            steps_flow(
                local.path@,
                start.model(),
                me@,
                boot_id@,
                now,
                old(s).answers@,
                old(s).at as int,
            ),
            *old(s),
            *final(s),
        ),
{
    let mut heal = start;
    while heal.running()
        invariant
            s.answers == old(s).answers,
            steps_flow(
                local.path@,
                start.model(),
                me@,
                boot_id@,
                now,
                s.answers@,
                old(s).at as int,
            ) == steps_flow(
                local.path@,
                heal.model(),
                me@,
                boot_id@,
                now,
                s.answers@,
                s.at as int,
            ),
        decreases steps_left(heal.model()),
    {
        let ghost h = heal.model();
        proof {
            lemma_done_keeps(local.path@, h, me@, boot_id@, now, s.answers@, s.at as int);
        }
        let (mut next, r) = run_step(s, local, heal, me, boot_id, now)?;
        match r {
            Err(e) => {
                next.waiting = Some(e.chain());
                if let Err(x) = drive::save(s, local, &next)? {
                    return Ok(Err(x));
                }
                return Ok(Err(e));
            },
            Ok(StepResult::NotYet(why)) => {
                let known = match &next.waiting {
                    Some(w) => text::same(w.as_str(), why.as_str()),
                    None => false,
                };
                if !known {
                    next.waiting = Some(why);
                    if let Err(x) = drive::save(s, local, &next)? {
                        return Ok(Err(x));
                    }
                }
                return Ok(Ok(Tick::Done));
            },
            Ok(StepResult::Abandon) => {
                if let Err(x) = local.remove(s)? {
                    return Ok(Err(x));
                }
                return Ok(
                    Ok(Tick::Idle(String::from_str("another machine drives the heal"))),
                );
            },
            Ok(StepResult::Restarting) => return Ok(Ok(Tick::Done)),
            Ok(StepResult::Done) => {
                next.waiting = None;
                match next.step.next() {
                    Some(n) => {
                        next.step = n;
                    },
                    None => {
                        next.finished_at = Some(now);
                    },
                }
                assert(next.model() == advanced(h, now));
                if let Err(x) = drive::save(s, local, &next)? {
                    return Ok(Err(x));
                }
            },
        }
        heal = next;
    }
    Ok(Ok(Tick::Done))
}

/// The tick of a machine that may drive a heal: goes on with the one it drives.
pub fn tick(s: &mut Script, local: &LocalRecord, me: &str, boot_id: &str, now: u64) -> (r: Result<
    Result<Tick, Error>,
    Ask,
>)
    ensures
        effects::went(
            r,
            tick_flow(local.path@, me@, boot_id@, now, old(s).answers@, old(s).at as int),
            *old(s),
            *final(s),
        ),
{
    let heal = match local.load(s)? {
        Err(e) => return Ok(Err(e)),
        Ok(None) => {
            return Ok(
                Ok(Tick::Idle(String::from_str("no heal is driven from this machine"))),
            );
        },
        Ok(Some(h)) => h,
    };
    if !heal.running() {
        publish_finished(s, &heal)?;
        return Ok(Ok(Tick::Idle(text::cat3("heal ", heal.id.as_str(), " finished"))));
    }
    if boot_id.unicode_len() == 0 {
        return Ok(
            Err(
                Error::msg(
                    "this boot has no id — a heal cannot tell whether its restart happened",
                ),
            ),
        );
    }
    run_steps(s, local, heal, me, boot_id, now)
}

/// Which of two records is shown: the one that started last, and this machine's
/// own when both did.
pub open spec fn newest_of(local: Option<HealModel>, stored: Option<HealModel>) -> Option<HealModel> {
    match (local, stored) {
        (Some(l), Some(s)) => Some(
            if s.started_at > l.started_at {
                s
            } else {
                l
            },
        ),
        (Some(l), None) => Some(l),
        (None, s) => s,
    }
}

/// Which of two records is shown.
pub fn newest(local: Option<Heal>, stored: Option<Heal>) -> (r: Option<Heal>)
    ensures
        r.model() == newest_of(local.model(), stored.model()),
{
    match (local, stored) {
        (Some(l), Some(s)) => {
            if s.started_at > l.started_at {
                Some(s)
            } else {
                Some(l)
            }
        },
        (Some(l), None) => Some(l),
        (None, s) => s,
    }
}

/// Nothing repairs itself: a machine that was never told to heal has no record of
/// a heal, and does nothing about one.
pub proof fn nothing_repairs_itself(
    path: Seq<char>,
    me: Seq<char>,
    boot: Seq<char>,
    now: u64,
    a: Seq<Answer>,
    i: int,
    j: int,
)
    requires
        drive::load_flow(path, a, i) == Flow::<Result<Option<HealModel>, ErrorModel>>::Done(
            Ok(None),
            j,
        ),
    ensures
        tick_flow(path, me, boot, now, a, i) == Flow::<Result<TickModel, ErrorModel>>::Done(
            Ok(TickModel::Idle("no heal is driven from this machine"@)),
            j,
        ),
{
}

proof fn lemma_peers_are_asked(peers: Seq<MachineModel>, k: int, out: Seq<Seq<char>>, a: Seq<Answer>, i: int)
    ensures
        restart_peers_flow(peers, k, out, a, i) matches Flow::Wants(q) ==> q is RestartPeer
            || q is Answers,
    decreases peers.len() - k,
{
    if 0 <= k < peers.len() {
        let p = peers[k];
        lemma_peers_are_asked(peers, k + 1, out, a, i + 1);
        lemma_peers_are_asked(peers, k + 1, out, a, i + 2);
        lemma_peers_are_asked(peers, k + 1, out.push(p.name), a, i + 2);
    }
}

/// This machine restarts last: it asks for its own restart only when every other
/// machine was asked, and none of them refused and still answers.
pub proof fn this_machine_restarts_last(
    path: Seq<char>,
    h: HealModel,
    boot: Seq<char>,
    a: Seq<Answer>,
    i: int,
    q: AskModel,
)
    requires
        restart_step_flow(path, h, boot, a, i) == Flow::<
            (HealModel, Result<StepResultModel, ErrorModel>),
        >::Wants(q),
        q is Run,
    ensures
        restart_peers_flow(h.peers, 0, seq![], a, i) matches Flow::Done(refused, _) && refused.len()
            == 0,
{
    lemma_peers_are_asked(h.peers, 0, seq![], a, i);
}

// ── What holds of every heal ─────────────────────────────────────────────────

/// Every other machine is asked to restart. Nobody is said to have refused exactly when
/// each accepted or does not answer.
pub proof fn every_peer_is_restarted(
    peers: Seq<MachineModel>,
    k: int,
    out: Seq<Seq<char>>,
    a: Seq<Answer>,
    i: int,
)
    requires
        0 <= k <= peers.len(),
        0 <= i <= a.len(),
    ensures
        restart_peers_flow(peers, k, out, a, i) matches Flow::Done(r, j) ==> i <= j <= a.len()
            && r.len() >= out.len() && (r.len() == 0 ==> forall|x: int|
            k <= x < peers.len() ==> {
                let m = #[trigger] peers[x];
                exists|n: int|
                    i <= n < j && restart_peers_flow(peers, k, out, #[trigger] a.take(n), i)
                        == Flow::<Seq<Seq<char>>>::Wants(
                        AskModel::RestartPeer { name: m.name, addr: m.addr },
                    ) && ((a[n] matches Answer::Did(Ok(_))) || !(a[n + 1] == Answer::Yes(true)))
            }),
        k < peers.len() && a.len() == i ==> restart_peers_flow(peers, k, out, a, i) == Flow::<
            Seq<Seq<char>>,
        >::Wants(AskModel::RestartPeer { name: peers[k].name, addr: peers[k].addr }),
    decreases peers.len() - k,
{
    if k < peers.len() && i < a.len() {
        let p = peers[k];
        let ok = a[i] matches Answer::Did(Ok(_));
        let there = i + 1 < a.len() && (a[i + 1] == Answer::Yes(true) || a[i + 1] == Answer::Board(
            crate::disks::board::BoardReply::Yes(true),
        ));
        let by: int = if ok {
            1
        } else {
            2
        };
        let next = if ok || !there {
            out
        } else {
            out.push(p.name)
        };
        if i + by <= a.len() {
            every_peer_is_restarted(peers, k + 1, next, a, i + by);
            assert(restart_peers_flow(peers, k, out, a, i) == restart_peers_flow(
                peers,
                k + 1,
                next,
                a,
                i + by,
            ));
            if let Flow::Done(r, j) = restart_peers_flow(peers, k, out, a, i) {
                if r.len() == 0 {
                    assert forall|x: int| k <= x < peers.len() implies {
                        let m = #[trigger] peers[x];
                        exists|n: int|
                            i <= n < j && restart_peers_flow(peers, k, out, #[trigger] a.take(n), i)
                                == Flow::<Seq<Seq<char>>>::Wants(
                                AskModel::RestartPeer { name: m.name, addr: m.addr },
                            ) && ((a[n] matches Answer::Did(Ok(_))) || !(a[n + 1] == Answer::Yes(
                                true,
                            )))
                    } by {
                        let m = peers[x];
                        if x == k {
                            assert(restart_peers_flow(peers, k, out, a.take(i), i) == Flow::<
                                Seq<Seq<char>>,
                            >::Wants(AskModel::RestartPeer { name: m.name, addr: m.addr }));
                        } else {
                            let n = choose|n: int|
                                i + by <= n < j && restart_peers_flow(
                                    peers,
                                    k + 1,
                                    next,
                                    #[trigger] a.take(n),
                                    i + by,
                                ) == Flow::<Seq<Seq<char>>>::Wants(
                                    AskModel::RestartPeer { name: m.name, addr: m.addr },
                                ) && ((a[n] matches Answer::Did(Ok(_))) || !(a[n + 1]
                                    == Answer::Yes(true)));
                            let t = a.take(n);
                            assert(t[i] == a[i]);
                            if by == 2 {
                                assert(t[i + 1] == a[i + 1]);
                            }
                            assert(restart_peers_flow(peers, k, out, t, i) == restart_peers_flow(
                                peers,
                                k + 1,
                                next,
                                t,
                                i + by,
                            ));
                        }
                    }
                }
            }
        }
    }
}

/// While a machine that answers has not accepted the restart, nothing is recorded and
/// this machine stays up; after that the heal is recorded as one that restarted in this
/// boot, before this machine restarts.
pub proof fn a_restart_is_recorded_first(
    path: Seq<char>,
    h: HealModel,
    boot: Seq<char>,
    refused: Seq<Seq<char>>,
    a: Seq<Answer>,
    i: int,
    j: int,
)
    requires
        restart_peers_flow(h.peers, 0, seq![], a, i) == Flow::<Seq<Seq<char>>>::Done(refused, j),
    ensures
        ({
            let f = restart_step_flow(path, h, boot, a, i);
            let next = HealModel {
                step: Step::Finish,
                restart_boot_id: Some(boot),
                waiting: Some("restarting this machine"@),
                ..h
            };
            &&& refused.len() > 0 ==> (f matches Flow::Done((was, Ok(StepResultModel::NotYet(_))), k)
                && was == h && k == j)
            &&& refused.len() == 0 ==> match drive::save_flow(path, next, a, j) {
                Flow::Wants(q) => f == Flow::<
                    (HealModel, Result<StepResultModel, ErrorModel>),
                >::Wants(q),
                Flow::Done(Err(e), k) => f matches Flow::Done((was, Err(_)), n) && n == k,
                Flow::Done(Ok(_), k) => match reboot_flow(a, k) {
                    Flow::Wants(q) => f == Flow::<
                        (HealModel, Result<StepResultModel, ErrorModel>),
                    >::Wants(q),
                    Flow::Done(Ok(_), n) => f == Flow::Done(
                        (next, Ok::<StepResultModel, ErrorModel>(StepResultModel::Restarting)),
                        n,
                    ),
                    Flow::Done(Err(e), n) => f == Flow::Done(
                        (next, Err::<StepResultModel, ErrorModel>(e)),
                        n,
                    ),
                },
            }
        }),
{
}

/// The command that deletes a machine from Kubernetes.
pub open spec fn delete_args(name: Seq<char>) -> Seq<Seq<char>> {
    seq!["delete"@, "node"@, name, "--ignore-not-found"@]
}

/// Deleting is done only when every machine that is gone was asked to be deleted, in its
/// turn, and every command succeeded.
pub proof fn every_gone_node_is_deleted(gone: Seq<Seq<char>>, k: int, a: Seq<Answer>, i: int)
    requires
        0 <= k <= gone.len(),
        0 <= i <= a.len(),
    ensures
        delete_nodes_flow(gone, k, a, i) matches Flow::Done(Ok(_), j) ==> j == i + gone.len() - k
            && j <= a.len() && forall|x: int|
            k <= x < gone.len() ==> {
                let args = delete_args(#[trigger] gone[x]);
                &&& (kubectl::run_flow(args, a, i + x - k) matches Flow::Done(Ok(_), _))
                &&& (delete_nodes_flow(gone, k, a.take(i + x - k), i) matches Flow::Wants(
                    AskModel::Run { bin, args: given, .. },
                ) && bin == "kubectl"@ && given == args)
            },
    decreases gone.len() - k,
{
    if k < gone.len() && i < a.len() {
        let f = kubectl::run_flow(delete_args(gone[k]), a, i);
        if let Flow::Done(Ok(_), j) = f {
            every_gone_node_is_deleted(gone, k + 1, a, i + 1);
            assert(delete_nodes_flow(gone, k, a, i) == delete_nodes_flow(gone, k + 1, a, i + 1));
            if delete_nodes_flow(gone, k, a, i) matches Flow::Done(Ok(_), _) {
                assert forall|x: int| k <= x < gone.len() implies {
                    let args = delete_args(#[trigger] gone[x]);
                    &&& (kubectl::run_flow(args, a, i + x - k) matches Flow::Done(Ok(_), _))
                    &&& (delete_nodes_flow(gone, k, a.take(i + x - k), i) matches Flow::Wants(
                        AskModel::Run { bin, args: given, .. },
                    ) && bin == "kubectl"@ && given == args)
                } by {
                    let t = a.take(i + x - k);
                    if x > k {
                        assert(i + 1 + x - (k + 1) == i + x - k);
                        assert(t[i] == a[i]);
                        assert(kubectl::run_flow(delete_args(gone[k]), t, i) == f);
                        assert(delete_nodes_flow(gone, k, t, i) == delete_nodes_flow(
                            gone,
                            k + 1,
                            t,
                            i + 1,
                        ));
                    } else {
                        assert(i + x - k == i);
                    }
                }
            }
        }
    }
}

/// A heal is finished only after the restart, when Kubernetes answers, every machine that
/// is gone was deleted from it, and the apps were removed, each after the other.
pub proof fn a_heal_finishes_after_the_restart(h: HealModel, boot: Seq<char>, a: Seq<Answer>, i: int)
    ensures
        finish_flow(h, boot, a, i) matches Flow::Done(Ok(StepResultModel::Done), z) ==> {
            &&& h.restart_boot_id != Some(boot)
            &&& exists|j: int, k: int|
                (#[trigger] drive::kubernetes_flow(a, i)) == Flow::<bool>::Done(true, j) && (
                #[trigger] delete_nodes_flow(h.gone, 0, a, j) matches Flow::Done(Ok(_), n) && n
                    == k) && (#[trigger] apps::remove_apps_flow(a, k) matches Flow::Done(
                    Ok(StepResultModel::Done),
                    n,
                ) && n == z)
        },
        h.restart_boot_id == Some(boot) ==> (finish_flow(h, boot, a, i) matches Flow::Done(
            Ok(r),
            _,
        ) ==> r is Restarting),
        h.restart_boot_id != Some(boot) && (drive::kubernetes_flow(a, i) matches Flow::Done(
            false,
            _,
        )) ==> (finish_flow(h, boot, a, i) matches Flow::Done(
            Ok(StepResultModel::NotYet(_)),
            _,
        )),
{
    if h.restart_boot_id != Some(boot) {
        if let Flow::Done(true, j) = drive::kubernetes_flow(a, i) {
            if let Flow::Done(Ok(_), k) = delete_nodes_flow(h.gone, 0, a, j) {
                assert(finish_flow(h, boot, a, i) == apps::remove_apps_flow(a, k));
            }
        }
    }
}

/// A heal goes through its five steps in order and is finished after the last; nothing
/// else of its record changes but that nothing is waited for.
pub proof fn a_repair_goes_on_in_order(h: HealModel, now: u64)
    ensures
        ({
            let n = advanced(h, now);
            &&& h.step is Claim ==> n.step is Consensus
            &&& h.step is Consensus ==> n.step is Wipe
            &&& h.step is Wipe ==> n.step is Restart
            &&& h.step is Restart ==> n.step is Finish
            &&& h.step is Finish ==> n.step is Finish && n.finished_at == Some(now)
            &&& !(h.step is Finish) ==> n.finished_at == h.finished_at
            &&& n.waiting is None
            &&& n.id == h.id && n.driver == h.driver && n.started_at == h.started_at && n.gone
                == h.gone && n.peers == h.peers && n.reset_kubernetes == h.reset_kubernetes
                && n.claim_after == h.claim_after && n.restart_boot_id == h.restart_boot_id
        }),
{
}

/// A step that is done is recorded and followed by the next; one that is not yet is
/// recorded with its reason; one that lost its claim is forgotten on this machine; a
/// restart ends the tick.
pub proof fn a_repair_goes_on_until_it_must_wait(
    path: Seq<char>,
    h: HealModel,
    me: Seq<char>,
    boot: Seq<char>,
    now: u64,
    a: Seq<Answer>,
    i: int,
)
    requires
        h.finished_at is None,
    ensures
        ({
            let f = steps_flow(path, h, me, boot, now, a, i);
            match step_flow(path, h, me, boot, now, a, i) {
                Flow::Wants(q) => f == Flow::<Result<TickModel, ErrorModel>>::Wants(q),
                Flow::Done((was, Ok(StepResultModel::Done)), j) => match drive::save_flow(
                    path,
                    advanced(h, now),
                    a,
                    j,
                ) {
                    Flow::Wants(q) => f == Flow::<Result<TickModel, ErrorModel>>::Wants(q),
                    Flow::Done(Ok(_), k) => f == steps_flow(
                        path,
                        advanced(h, now),
                        me,
                        boot,
                        now,
                        a,
                        k,
                    ),
                    Flow::Done(Err(e), k) => f == Flow::Done(Err::<TickModel, ErrorModel>(e), k),
                },
                Flow::Done((was, Ok(StepResultModel::NotYet(why))), j) => if was.waiting == Some(
                    why,
                ) {
                    f == Flow::Done(Ok::<TickModel, ErrorModel>(TickModel::Done), j)
                } else {
                    drive::save_flow(path, HealModel { waiting: Some(why), ..was }, a, j)
                        matches Flow::Wants(q) ==> f == Flow::<
                        Result<TickModel, ErrorModel>,
                    >::Wants(q)
                },
                Flow::Done((was, Ok(StepResultModel::Abandon)), j) => match drive::forget_flow(
                    path,
                    a,
                    j,
                ) {
                    Flow::Wants(q) => f == Flow::<Result<TickModel, ErrorModel>>::Wants(q),
                    Flow::Done(Ok(_), k) => f matches Flow::Done(Ok(TickModel::Idle(_)), n) && n
                        == k,
                    Flow::Done(Err(e), k) => f == Flow::Done(Err::<TickModel, ErrorModel>(e), k),
                },
                Flow::Done((was, Ok(StepResultModel::Restarting)), j) => f == Flow::Done(
                    Ok::<TickModel, ErrorModel>(TickModel::Done),
                    j,
                ),
                Flow::Done((was, Err(e)), j) => f matches Flow::Done(r, _) ==> r is Err,
            }
        }),
{
}

/// What a tick does: a heal that goes on goes on only in a boot that can be told from
/// others; one that is finished is published where the shared copy does not have it yet.
pub proof fn a_tick_needs_to_know_its_boot(
    path: Seq<char>,
    me: Seq<char>,
    boot: Seq<char>,
    now: u64,
    h: HealModel,
    a: Seq<Answer>,
    i: int,
    j: int,
)
    requires
        drive::load_flow(path, a, i) == Flow::Done(
            Ok::<Option<HealModel>, ErrorModel>(Some(h)),
            j,
        ),
    ensures
        h.finished_at is None && boot.len() == 0 ==> (tick_flow(path, me, boot, now, a, i)
            matches Flow::Done(Err(_), k) && k == j),
        h.finished_at is None && boot.len() > 0 ==> tick_flow(path, me, boot, now, a, i)
            == steps_flow(path, h, me, boot, now, a, j),
        h.finished_at is Some ==> match publish_finished_flow(h, a, j) {
            Flow::Wants(q) => tick_flow(path, me, boot, now, a, i) == Flow::<
                Result<TickModel, ErrorModel>,
            >::Wants(q),
            Flow::Done(_, k) => tick_flow(path, me, boot, now, a, i) matches Flow::Done(
                Ok(TickModel::Idle(_)),
                n,
            ) && n == k,
        },
{
}

/// A heal that is finished is written to the shared copy exactly when there is none, or
/// an older state of the same heal.
pub proof fn a_finished_heal_is_published(
    h: HealModel,
    r: Result<Option<HealModel>, ErrorModel>,
    a: Seq<Answer>,
    i: int,
    j: int,
)
    requires
        drive::shared_flow(a, i) == Flow::Done(r, j),
    ensures
        ({
            let due = r matches Ok(o) && (o is None || (o->0.id == h.id && o->0 != h));
            &&& !due ==> publish_finished_flow(h, a, i) == Flow::<()>::Done((), j)
            &&& due ==> (drive::share_flow(h, a, j) matches Flow::Wants(q)
                ==> publish_finished_flow(h, a, i) == Flow::<()>::Wants(q))
        }),
{
}

/// Of two records the one that was started later counts, this machine's own when both
/// were started at once.
pub proof fn the_later_heal_counts(l: HealModel, s: HealModel)
    ensures
        newest_of(Some(l), Some(s)) == Some(
            if l.started_at < s.started_at {
                s
            } else {
                l
            },
        ),
        newest_of(Some(l), None) == Some(l),
        newest_of(None, Some(s)) == Some(s),
        newest_of(None, None) is None,
{
}

} // verus!
