//! Carrying out a reinstall: prepare, arm, restart, rebuild, and undoing it.
use vstd::prelude::*;

use crate::effects;
use crate::effects::{Answer, Ask, AskModel, Flow, Script};
use crate::error::{Error, ErrorModel};
use crate::heal::drive;
use crate::heal::drive::LocalRecord;
use crate::heal::fleet;
use crate::heal::reinstall;
use crate::heal::reinstall::{
    Gone, GoneModel, Heal, HealModel, Member, MemberModel, PeerInfo, PeerInfoModel, PhaseView,
    PrepareRequestModel, Step, PREPARE_WAIT_HOURS, PREPARE_WAIT_SECS,
};
use crate::heal::run;
use crate::model::Model;
use crate::runtime::{Tick, TickModel};
use crate::text;

verus! {

/// What came of a step.
#[derive(Debug)]
pub enum StepResult {
    Done,
    /// Look again with the next tick, for this reason.
    NotYet(String),
    /// Abandon the heal, for this reason, and undo it.
    Fail(String),
    /// This machine is restarting.
    Restarting,
}

/// A `StepResult` with its text as characters.
pub enum StepResultModel {
    Done,
    NotYet(Seq<char>),
    Fail(Seq<char>),
    Restarting,
}

impl Model for StepResult {
    type M = StepResultModel;

    open spec fn model(&self) -> StepResultModel {
        match *self {
            StepResult::Done => StepResultModel::Done,
            StepResult::NotYet(why) => StepResultModel::NotYet(why@),
            StepResult::Fail(why) => StepResultModel::Fail(why@),
            StepResult::Restarting => StepResultModel::Restarting,
        }
    }
}

/// The phase of a machine's part in this heal, when it has one.
pub open spec fn phase_in(p: PeerInfoModel, id: Seq<char>) -> Option<PhaseView> {
    match p.reset {
        Some(r) => if r.heal_id == id {
            Some(r.phase)
        } else {
            None
        },
        None => None,
    }
}

/// The phase of a machine's part in this heal, when it has one.
pub fn phase_of(p: &PeerInfo, id: &str) -> (r: Option<PhaseView>)
    ensures
        r == phase_in(p.model(), id@),
{
    match &p.reset {
        Some(v) => {
            if text::same(v.heal_id.as_str(), id) {
                Some(v.phase)
            } else {
                None
            }
        },
        None => None,
    }
}

// ── Prepare ──────────────────────────────────────────────────────────────────

/// Waiting for what is left to prepare, for as long as that may take.
pub open spec fn still_preparing(h: HealModel, now: u64, waiting: Seq<Seq<char>>) -> StepResultModel {
    let all = text::joined(waiting, "; "@);
    if waiting.len() == 0 {
        StepResultModel::Done
    } else if now >= h.started_at + PREPARE_WAIT_SECS {
        StepResultModel::Fail(
            "the machines did not finish preparing in "@ + text::decimal(PREPARE_WAIT_HOURS as nat)
                + " hours: "@ + all,
        )
    } else {
        StepResultModel::NotYet(all)
    }
}

/// Why a machine's part failed.
pub open spec fn why_failed(p: PeerInfoModel) -> Seq<char> {
    match p.reset {
        Some(r) => match r.error {
            Some(e) => e,
            None => seq![],
        },
        None => seq![],
    }
}

/// What a machine that answered means for preparing: nothing more to do for it
/// with what is waited for, if anything; or the end of the heal.
pub open spec fn prepared(m: MemberModel, p: PeerInfoModel, phase: PhaseView) -> Result<
    Option<Seq<char>>,
    Seq<char>,
> {
    match phase {
        PhaseView::Preparing => Ok(Some(m.name + " is preparing"@)),
        PhaseView::Prepared => Ok(None),
        PhaseView::Armed => Ok(None),
        PhaseView::Failed => Err(m.name + " could not prepare: "@ + why_failed(p)),
        PhaseView::Undone => Err(m.name + " abandoned its part in the heal"@),
        PhaseView::Restarted => Err(m.name + " abandoned its part in the heal"@),
    }
}

/// Asking a machine to prepare, and what is waited for.
pub open spec fn ask_prepare_flow(
    m: MemberModel,
    request: PrepareRequestModel,
    a: Seq<Answer>,
    i: int,
) -> Flow<Seq<char>> {
    effects::did_flow(AskModel::Prepare { addr: m.addr, request }, a, i).and_then(
        |r: Result<(), Seq<char>>, j: int|
            Flow::Done(
                match r {
                    Ok(_) => m.name + " is preparing"@,
                    Err(e) => m.name + " did not start preparing ("@ + e + ")"@,
                },
                j,
            ),
    )
}

/// Preparing the members from the `k`th on; `waiting` is what those before it are
/// waited for.
pub open spec fn prepare_flow(
    h: HealModel,
    now: u64,
    k: int,
    waiting: Seq<Seq<char>>,
    a: Seq<Answer>,
    i: int,
) -> Flow<Result<StepResultModel, ErrorModel>>
    decreases h.members.len() - k,
{
    if k < 0 || k >= h.members.len() {
        Flow::Done(Ok(still_preparing(h, now, waiting)), i)
    } else {
        let m = h.members[k];
        effects::peer_flow(AskModel::Peer { addr: m.addr }, a, i).and_then(
            |r: Result<PeerInfoModel, Seq<char>>, j: int|
                match r {
                    Err(e) => prepare_flow(
                        h,
                        now,
                        k + 1,
                        waiting.push(m.name + " does not answer ("@ + e + ")"@),
                        a,
                        j,
                    ),
                    Ok(p) => if p.name != m.name {
                        Flow::Done(
                            Ok(
                                StepResultModel::Fail(
                                    m.addr + " now answers as "@ + p.name + ", not "@ + m.name,
                                ),
                            ),
                            j,
                        )
                    } else {
                        match phase_in(p, h.id) {
                            None => match h.request_for(m) {
                                Err(e) => Flow::Done(Err(e), j),
                                Ok(q) => ask_prepare_flow(m, q, a, j).and_then(
                                    |w: Seq<char>, n: int|
                                        prepare_flow(h, now, k + 1, waiting.push(w), a, n),
                                ),
                            },
                            Some(phase) => match prepared(m, p, phase) {
                                Err(why) => Flow::Done(Ok(StepResultModel::Fail(why)), j),
                                Ok(None) => prepare_flow(h, now, k + 1, waiting, a, j),
                                Ok(Some(w)) => prepare_flow(h, now, k + 1, waiting.push(w), a, j),
                            },
                        }
                    },
                },
        )
    }
}

fn still(h: &Heal, now: u64, waiting: &Vec<String>) -> (r: StepResult)
    ensures
        r.model() == still_preparing(h.model(), now, waiting.model()),
{
    assert(text::texts(waiting@) =~= waiting.model());
    if waiting.len() == 0 {
        return StepResult::Done;
    }
    let all = text::join(waiting, "; ");
    if now >= h.started_at && now - h.started_at >= PREPARE_WAIT_SECS {
        let hours = text::decimal_of(PREPARE_WAIT_HOURS);
        StepResult::Fail(
            text::cat4(
                "the machines did not finish preparing in ",
                hours.as_str(),
                " hours: ",
                all.as_str(),
            ),
        )
    } else {
        StepResult::NotYet(all)
    }
}

fn prepared_of(m: &Member, p: &PeerInfo, phase: PhaseView) -> (r: Result<Option<String>, String>)
    ensures
        r.model() == prepared(m.model(), p.model(), phase),
{
    match phase {
        PhaseView::Preparing => Ok(Some(text::cat(m.name.as_str(), " is preparing"))),
        PhaseView::Prepared => Ok(None),
        PhaseView::Armed => Ok(None),
        PhaseView::Failed => {
            let mut why = String::new();
            assert(why@ =~= seq![]);
            if let Some(v) = &p.reset {
                if let Some(e) = &v.error {
                    why = e.clone();
                }
            }
            Err(text::cat3(m.name.as_str(), " could not prepare: ", why.as_str()))
        },
        PhaseView::Undone => Err(text::cat(m.name.as_str(), " abandoned its part in the heal")),
        PhaseView::Restarted => Err(text::cat(m.name.as_str(), " abandoned its part in the heal")),
    }
}

fn ask_prepare(s: &mut Script, m: &Member, request: reinstall::PrepareRequest) -> (r: Result<
    String,
    Ask,
>)
    ensures
        effects::went(
            r,
            ask_prepare_flow(m.model(), request.model(), old(s).answers@, old(s).at as int),
            *old(s),
            *final(s),
        ),
{
    match s.did(Ask::Prepare { addr: m.addr.clone(), request })? {
        Ok(_) => Ok(text::cat(m.name.as_str(), " is preparing")),
        Err(e) => Ok(
            text::cat4(m.name.as_str(), " did not start preparing (", e.as_str(), ")"),
        ),
    }
}

/// Has every member prepare, and waits for it.
pub fn prepare_step(s: &mut Script, heal: &Heal, now: u64) -> (r: Result<
    Result<StepResult, Error>,
    Ask,
>)
    ensures
        effects::went(
            r,
            prepare_flow(heal.model(), now, 0, seq![], old(s).answers@, old(s).at as int),
            *old(s),
            *final(s),
        ),
{
    let mut waiting: Vec<String> = Vec::new();
    let mut k: usize = 0;
    let ghost h = heal.model();
    assert(waiting.model() =~= seq![]);
    while k < heal.members.len()
        invariant
            k <= heal.members@.len(),
            h == heal.model(),
            s.answers == old(s).answers,
            prepare_flow(h, now, 0, seq![], s.answers@, old(s).at as int) == prepare_flow(
                h,
                now,
                k as int,
                waiting.model(),
                s.answers@,
                s.at as int,
            ),
        decreases heal.members@.len() - k,
    {
        let m = &heal.members[k];
        assert(h.members[k as int] == m.model());
        k += 1;
        let info = match s.peer(Ask::Peer { addr: m.addr.clone() })? {
            Ok(p) => p,
            Err(e) => {
                fleet::push_text(
                    &mut waiting,
                    text::cat4(m.name.as_str(), " does not answer (", e.as_str(), ")"),
                );
                continue ;
            },
        };
        if !text::same(info.name.as_str(), m.name.as_str()) {
            let why = text::cat5(
                m.addr.as_str(),
                " now answers as ",
                info.name.as_str(),
                ", not ",
                m.name.as_str(),
            );
            return Ok(Ok(StepResult::Fail(why)));
        }
        match phase_of(&info, heal.id.as_str()) {
            None => {
                let q = match heal.request_for(m) {
                    Ok(q) => q,
                    Err(e) => return Ok(Err(e)),
                };
                let w = ask_prepare(s, m, q)?;
                fleet::push_text(&mut waiting, w);
            },
            Some(phase) => match prepared_of(m, &info, phase) {
                Err(why) => return Ok(Ok(StepResult::Fail(why))),
                Ok(None) => {},
                Ok(Some(w)) => fleet::push_text(&mut waiting, w),
            },
        }
    }
    Ok(Ok(still(heal, now, &waiting)))
}

// ── Arm ──────────────────────────────────────────────────────────────────────

/// How the phase of a machine that is not prepared is told.
pub open spec fn unprepared(p: Option<PhaseView>) -> Seq<char> {
    match p {
        Some(p) => reinstall::phase_name(p),
        None => "it has nothing for this heal"@,
    }
}

/// Arming the members from the `k`th on, until one cannot be.
pub open spec fn arm_flow(h: HealModel, k: int, a: Seq<Answer>, i: int) -> Flow<StepResultModel>
    decreases h.members.len() - k,
{
    if k < 0 || k >= h.members.len() {
        Flow::Done(StepResultModel::Done, i)
    } else {
        let m = h.members[k];
        effects::peer_flow(AskModel::Peer { addr: m.addr }, a, i).and_then(
            |r: Result<PeerInfoModel, Seq<char>>, j: int|
                match r {
                    Err(e) => Flow::Done(
                        StepResultModel::Fail(m.name + " stopped answering: "@ + e),
                        j,
                    ),
                    Ok(p) => match phase_in(p, h.id) {
                        Some(PhaseView::Armed) => arm_flow(h, k + 1, a, j),
                        Some(PhaseView::Prepared) => effects::did_flow(
                            AskModel::Arm { addr: m.addr, heal_id: h.id },
                            a,
                            j,
                        ).and_then(
                            |x: Result<(), Seq<char>>, n: int|
                                match x {
                                    Ok(_) => arm_flow(h, k + 1, a, n),
                                    Err(e) => Flow::Done(
                                        StepResultModel::Fail(
                                            m.name + " could not be armed: "@ + e,
                                        ),
                                        n,
                                    ),
                                },
                        ),
                        other => Flow::Done(
                            StepResultModel::Fail(
                                m.name + " is no longer prepared ("@ + unprepared(other) + ")"@,
                            ),
                            j,
                        ),
                    },
                },
        )
    }
}

/// Arms every member, the driver last: if another machine cannot be armed, the
/// machine that would create the cluster is not either.
pub fn arm_step(s: &mut Script, heal: &Heal) -> (r: Result<StepResult, Ask>)
    ensures
        effects::went(
            r,
            arm_flow(heal.model(), 0, old(s).answers@, old(s).at as int),
            *old(s),
            *final(s),
        ),
{
    let mut k: usize = 0;
    let ghost h = heal.model();
    while k < heal.members.len()
        invariant
            k <= heal.members@.len(),
            h == heal.model(),
            s.answers == old(s).answers,
            arm_flow(h, 0, s.answers@, old(s).at as int) == arm_flow(
                h,
                k as int,
                s.answers@,
                s.at as int,
            ),
        decreases heal.members@.len() - k,
    {
        let m = &heal.members[k];
        assert(h.members[k as int] == m.model());
        k += 1;
        let info = match s.peer(Ask::Peer { addr: m.addr.clone() })? {
            Ok(p) => p,
            Err(e) => {
                return Ok(
                    StepResult::Fail(text::cat3(m.name.as_str(), " stopped answering: ", e.as_str())),
                );
            },
        };
        match phase_of(&info, heal.id.as_str()) {
            Some(PhaseView::Armed) => {},
            Some(PhaseView::Prepared) => {
                let r = s.did(Ask::Arm { addr: m.addr.clone(), heal_id: heal.id.clone() })?;
                if let Err(e) = r {
                    return Ok(
                        StepResult::Fail(
                            text::cat3(m.name.as_str(), " could not be armed: ", e.as_str()),
                        ),
                    );
                }
            },
            other => {
                let what = match other {
                    Some(p) => p.as_str(),
                    None => "it has nothing for this heal",
                };
                return Ok(
                    StepResult::Fail(
                        text::cat4(m.name.as_str(), " is no longer prepared (", what, ")"),
                    ),
                );
            },
        }
    }
    Ok(StepResult::Done)
}

// ── Restart ──────────────────────────────────────────────────────────────────

/// Restarting the members from the `k`th on, but the driver, whatever comes of it.
pub open spec fn reboot_all_flow(h: HealModel, k: int, a: Seq<Answer>, i: int) -> Flow<()>
    decreases h.members.len() - k,
{
    if k < 0 || k >= h.members.len() {
        Flow::Done((), i)
    } else if h.members[k].name == h.driver {
        reboot_all_flow(h, k + 1, a, i)
    } else {
        effects::did_flow(AskModel::Reboot { addr: h.members[k].addr }, a, i).and_then(
            |r: Result<(), Seq<char>>, j: int| reboot_all_flow(h, k + 1, a, j),
        )
    }
}

fn reboot_all(s: &mut Script, heal: &Heal) -> (r: Result<(), Ask>)
    ensures
        effects::went(
            r,
            reboot_all_flow(heal.model(), 0, old(s).answers@, old(s).at as int),
            *old(s),
            *final(s),
        ),
{
    let mut k: usize = 0;
    let ghost h = heal.model();
    while k < heal.members.len()
        invariant
            k <= heal.members@.len(),
            h == heal.model(),
            s.answers == old(s).answers,
            reboot_all_flow(h, 0, s.answers@, old(s).at as int) == reboot_all_flow(
                h,
                k as int,
                s.answers@,
                s.at as int,
            ),
        decreases heal.members@.len() - k,
    {
        let m = &heal.members[k];
        assert(h.members[k as int] == m.model());
        if !text::same(m.name.as_str(), heal.driver.as_str()) {
            let _ = s.did(Ask::Reboot { addr: m.addr.clone() })?;
        }
        k += 1;
    }
    Ok(())
}

/// The record while this machine restarts.
pub open spec fn restarting(h: HealModel, boot: Seq<char>) -> HealModel {
    HealModel {
        step: Step::Rebuild,
        restart_boot_id: Some(boot),
        waiting: Some("restarting this machine"@),
        ..h
    }
}

/// Restarting this machine, once what is to be known afterwards is saved.
pub open spec fn restart_self_flow(h: HealModel, a: Seq<Answer>, i: int) -> Flow<
    (HealModel, Result<StepResultModel, ErrorModel>),
> {
    run::reboot_flow(a, i).and_then(
        |r: Result<(), ErrorModel>, j: int|
            Flow::Done(
                (
                    h,
                    match r {
                        Err(e) => Err(e),
                        Ok(_) => Ok(StepResultModel::Restarting),
                    },
                ),
                j,
            ),
    )
}

/// Restarting every machine, this one last.
pub open spec fn restart_flow(path: Seq<char>, h: HealModel, boot: Seq<char>, a: Seq<Answer>, i: int) -> Flow<
    (HealModel, Result<StepResultModel, ErrorModel>),
> {
    reboot_all_flow(h, 0, a, i).and_then(
        |u: (), j: int|
            fleet::save_flow(path, restarting(h, boot), a, j).and_then(
                |r: Result<(), ErrorModel>, k: int|
                    match r {
                        Err(e) => Flow::Done((restarting(h, boot), Err(e)), k),
                        Ok(_) => restart_self_flow(restarting(h, boot), a, k),
                    },
            ),
    )
}

fn restart_self(s: &mut Script, heal: Heal) -> (r: Result<(Heal, Result<StepResult, Error>), Ask>)
    ensures
        effects::went(
            r,
            restart_self_flow(heal.model(), old(s).answers@, old(s).at as int),
            *old(s),
            *final(s),
        ),
{
    match run::restart_this_machine(s)? {
        Ok(_) => Ok((heal, Ok(StepResult::Restarting))),
        Err(e) => Ok((heal, Err(e))),
    }
}

fn restart_step(s: &mut Script, local: &LocalRecord, heal: Heal, boot_id: &str) -> (r: Result<
    (Heal, Result<StepResult, Error>),
    Ask,
>)
    ensures
        effects::went(
            r,
            restart_flow(
                local.path@,
                heal.model(),
                boot_id@,
                old(s).answers@,
                old(s).at as int,
            ),
            *old(s),
            *final(s),
        ),
{
    reboot_all(s, &heal)?;
    let mut now = heal;
    now.step = Step::Rebuild;
    now.restart_boot_id = Some(boot_id.to_owned());
    now.waiting = Some(String::from_str("restarting this machine"));
    if let Err(e) = fleet::save(s, local, &now)? {
        return Ok((now, Err(e)));
    }
    restart_self(s, now)
}

// ── Rebuild ──────────────────────────────────────────────────────────────────

/// Restarting once more every member from the `k`th on, but the driver, that has
/// not restarted yet; `waiting` are those before it.
pub open spec fn again_flow(h: HealModel, k: int, waiting: Seq<Seq<char>>, a: Seq<Answer>, i: int) -> Flow<
    Seq<Seq<char>>,
>
    decreases h.members.len() - k,
{
    if k < 0 || k >= h.members.len() {
        Flow::Done(waiting, i)
    } else if h.members[k].name == h.driver {
        again_flow(h, k + 1, waiting, a, i)
    } else {
        let m = h.members[k];
        effects::peer_flow(AskModel::Peer { addr: m.addr }, a, i).and_then(
            |r: Result<PeerInfoModel, Seq<char>>, j: int|
                match r {
                    Ok(p) => if phase_in(p, h.id) == Some(PhaseView::Armed) {
                        effects::did_flow(AskModel::Reboot { addr: m.addr }, a, j).and_then(
                            |x: Result<(), Seq<char>>, n: int|
                                again_flow(
                                    h,
                                    k + 1,
                                    waiting.push(m.name + " has not restarted yet"@),
                                    a,
                                    n,
                                ),
                        )
                    } else {
                        again_flow(h, k + 1, waiting, a, j)
                    },
                    Err(_) => again_flow(h, k + 1, waiting, a, j),
                },
        )
    }
}

fn again(s: &mut Script, heal: &Heal) -> (r: Result<Vec<String>, Ask>)
    ensures
        effects::went(
            r,
            again_flow(heal.model(), 0, seq![], old(s).answers@, old(s).at as int),
            *old(s),
            *final(s),
        ),
{
    let mut waiting: Vec<String> = Vec::new();
    let mut k: usize = 0;
    let ghost h = heal.model();
    assert(waiting.model() =~= seq![]);
    while k < heal.members.len()
        invariant
            k <= heal.members@.len(),
            h == heal.model(),
            s.answers == old(s).answers,
            again_flow(h, 0, seq![], s.answers@, old(s).at as int) == again_flow(
                h,
                k as int,
                waiting.model(),
                s.answers@,
                s.at as int,
            ),
        decreases heal.members@.len() - k,
    {
        let m = &heal.members[k];
        assert(h.members[k as int] == m.model());
        k += 1;
        if text::same(m.name.as_str(), heal.driver.as_str()) {
            continue ;
        }
        if let Ok(p) = s.peer(Ask::Peer { addr: m.addr.clone() })? {
            if let Some(PhaseView::Armed) = phase_of(&p, heal.id.as_str()) {
                let _ = s.did(Ask::Reboot { addr: m.addr.clone() })?;
                fleet::push_text(
                    &mut waiting,
                    text::cat(m.name.as_str(), " has not restarted yet"),
                );
            }
        }
    }
    Ok(waiting)
}

/// Whether a node of this name is listed among the first `n`.
pub open spec fn joined_as(
    nodes: Seq<(Seq<char>, Option<Seq<char>>)>,
    name: Seq<char>,
    n: int,
) -> bool
    decreases n,
{
    n > 0 && (nodes[n - 1].0 == name || joined_as(nodes, name, n - 1))
}

/// With each of the first `n` members that has not joined.
pub open spec fn not_joined(
    l: Seq<MemberModel>,
    nodes: Seq<(Seq<char>, Option<Seq<char>>)>,
    waiting: Seq<Seq<char>>,
    n: int,
) -> Seq<Seq<char>>
    decreases n,
{
    if n <= 0 {
        waiting
    } else {
        let rest = not_joined(l, nodes, waiting, n - 1);
        if joined_as(nodes, l[n - 1].name, nodes.len() as int) {
            rest
        } else {
            rest.push(l[n - 1].name + " has not joined the new cluster yet"@)
        }
    }
}

fn has_joined(nodes: &Vec<(String, Option<String>)>, name: &str) -> (r: bool)
    ensures
        r == joined_as(nodes.model(), name@, nodes@.len() as int),
{
    let mut found = false;
    let mut k: usize = 0;
    while k < nodes.len()
        invariant
            k <= nodes@.len(),
            found == joined_as(nodes.model(), name@, k as int),
        decreases nodes@.len() - k,
    {
        let e = &nodes[k];
        assert(nodes.model()[k as int] == e.model());
        if text::same(e.0.as_str(), name) {
            found = true;
        }
        k += 1;
    }
    found
}

fn add_not_joined(waiting: &mut Vec<String>, l: &Vec<Member>, nodes: &Vec<(String, Option<String>)>)
    ensures
        final(waiting).model() == not_joined(
            l.model(),
            nodes.model(),
            old(waiting).model(),
            l@.len() as int,
        ),
{
    let ghost start = waiting.model();
    let mut k: usize = 0;
    while k < l.len()
        invariant
            k <= l@.len(),
            waiting.model() == not_joined(l.model(), nodes.model(), start, k as int),
        decreases l@.len() - k,
    {
        let m = &l[k];
        assert(l.model()[k as int] == m.model());
        if !has_joined(nodes, m.name.as_str()) {
            fleet::push_text(
                waiting,
                text::cat(m.name.as_str(), " has not joined the new cluster yet"),
            );
        }
        k += 1;
    }
}

/// Removing the registrations from the `k`th machine left behind on, whatever
/// comes of it.
pub open spec fn deregister_flow(l: Seq<GoneModel>, k: int, a: Seq<Answer>, i: int) -> Flow<()>
    decreases l.len() - k,
{
    if k < 0 || k >= l.len() {
        Flow::Done((), i)
    } else {
        match l[k].platform_id {
            None => deregister_flow(l, k + 1, a, i),
            Some(id) => effects::did_flow(AskModel::DeletePlatformNode { id }, a, i).and_then(
                |r: Result<(), Seq<char>>, j: int| deregister_flow(l, k + 1, a, j),
            ),
        }
    }
}

fn deregister(s: &mut Script, l: &Vec<Gone>) -> (r: Result<(), Ask>)
    ensures
        effects::went(
            r,
            deregister_flow(l.model(), 0, old(s).answers@, old(s).at as int),
            *old(s),
            *final(s),
        ),
{
    let mut k: usize = 0;
    while k < l.len()
        invariant
            k <= l@.len(),
            s.answers == old(s).answers,
            deregister_flow(l.model(), 0, s.answers@, old(s).at as int) == deregister_flow(
                l.model(),
                k as int,
                s.answers@,
                s.at as int,
            ),
        decreases l@.len() - k,
    {
        assert(l.model()[k as int] == l@[k as int].model());
        if let Some(id) = l[k].platform_id {
            let _ = s.did(Ask::DeletePlatformNode { id })?;
        }
        k += 1;
    }
    Ok(())
}

/// What is left to do once the nodes of the new cluster are known.
pub open spec fn settle_flow(
    h: HealModel,
    waiting: Seq<Seq<char>>,
    r: Result<Seq<(Seq<char>, Option<Seq<char>>)>, ErrorModel>,
    a: Seq<Answer>,
    i: int,
) -> Flow<Result<StepResultModel, ErrorModel>> {
    match r {
        Err(e) => Flow::Done(Err(e), i),
        Ok(nodes) => {
            let w = not_joined(h.members, nodes, waiting, h.members.len() as int);
            if w.len() > 0 {
                Flow::Done(Ok(StepResultModel::NotYet(text::joined(w, "; "@))), i)
            } else {
                deregister_flow(h.gone, 0, a, i).and_then(
                    |u: (), j: int| Flow::Done(Ok(StepResultModel::Done), j),
                )
            }
        },
    }
}

/// Waiting for every machine to be in the new cluster, and forgetting those left
/// behind.
pub open spec fn rebuild_flow(h: HealModel, a: Seq<Answer>, i: int) -> Flow<
    Result<StepResultModel, ErrorModel>,
> {
    again_flow(h, 0, seq![], a, i).and_then(
        |w: Seq<Seq<char>>, j: int|
            drive::kubernetes_flow(a, j).and_then(
                |kube: bool, k: int|
                    if !kube {
                        Flow::Done(
                            Ok(
                                StepResultModel::NotYet(
                                    text::joined(w.push("Kubernetes is starting"@), "; "@),
                                ),
                            ),
                            k,
                        )
                    } else {
                        fleet::nodes_flow(a, k).and_then(
                            |r: Result<Seq<(Seq<char>, Option<Seq<char>>)>, ErrorModel>, n: int|
                                settle_flow(h, w, r, a, n),
                        )
                    },
            ),
    )
}

/// Waits for every machine to be in the new cluster, and forgets those left
/// behind.
pub fn rebuild_step(s: &mut Script, heal: &Heal) -> (r: Result<Result<StepResult, Error>, Ask>)
    ensures
        effects::went(
            r,
            rebuild_flow(heal.model(), old(s).answers@, old(s).at as int),
            *old(s),
            *final(s),
        ),
{
    let mut waiting = again(s, heal)?;
    if !drive::kubernetes_answers(s)? {
        fleet::push_text(&mut waiting, String::from_str("Kubernetes is starting"));
        assert(text::texts(waiting@) =~= waiting.model());
        return Ok(Ok(StepResult::NotYet(text::join(&waiting, "; "))));
    }
    let nodes = match fleet::kubernetes_nodes(s)? {
        Ok(n) => n,
        Err(e) => return Ok(Err(e)),
    };
    add_not_joined(&mut waiting, &heal.members, &nodes);
    assert(waiting.model().len() == waiting@.len());
    assert(text::texts(waiting@) =~= waiting.model());
    if waiting.len() > 0 {
        return Ok(Ok(StepResult::NotYet(text::join(&waiting, "; "))));
    }
    deregister(s, &heal.gone)?;
    Ok(Ok(StepResult::Done))
}

// ── Undo ─────────────────────────────────────────────────────────────────────

/// Putting the members from the `k`th on back as they were; `stuck` are those
/// before it that could not be.
pub open spec fn undo_flow(h: HealModel, k: int, stuck: Seq<Seq<char>>, a: Seq<Answer>, i: int) -> Flow<
    Seq<Seq<char>>,
>
    decreases h.members.len() - k,
{
    if k < 0 || k >= h.members.len() {
        Flow::Done(stuck, i)
    } else {
        let m = h.members[k];
        effects::did_flow(AskModel::Undo { addr: m.addr, heal_id: h.id }, a, i).and_then(
            |r: Result<(), Seq<char>>, j: int|
                undo_flow(
                    h,
                    k + 1,
                    match r {
                        Ok(_) => stuck,
                        Err(e) => stuck.push(m.name + " ("@ + e + ")"@),
                    },
                    a,
                    j,
                ),
        )
    }
}

/// What came of putting everything back.
pub open spec fn put_back(stuck: Seq<Seq<char>>) -> StepResultModel {
    if stuck.len() == 0 {
        StepResultModel::Done
    } else {
        StepResultModel::NotYet(
            "putting back "@ + text::joined(stuck, ", "@)
                + " — a machine left armed wipes itself at its next restart"@,
        )
    }
}

/// Puts every member back as it was.
pub fn undo_step(s: &mut Script, heal: &Heal) -> (r: Result<StepResult, Ask>)
    ensures
        effects::went(
            r,
            undo_flow(heal.model(), 0, seq![], old(s).answers@, old(s).at as int).and_then(
                |stuck: Seq<Seq<char>>, j: int| Flow::Done(put_back(stuck), j),
            ),
            *old(s),
            *final(s),
        ),
{
    let mut stuck: Vec<String> = Vec::new();
    let mut k: usize = 0;
    let ghost h = heal.model();
    assert(stuck.model() =~= seq![]);
    while k < heal.members.len()
        invariant
            k <= heal.members@.len(),
            h == heal.model(),
            s.answers == old(s).answers,
            undo_flow(h, 0, seq![], s.answers@, old(s).at as int) == undo_flow(
                h,
                k as int,
                stuck.model(),
                s.answers@,
                s.at as int,
            ),
        decreases heal.members@.len() - k,
    {
        let m = &heal.members[k];
        assert(h.members[k as int] == m.model());
        let r = s.did(Ask::Undo { addr: m.addr.clone(), heal_id: heal.id.clone() })?;
        if let Err(e) = r {
            fleet::push_text(&mut stuck, text::cat4(m.name.as_str(), " (", e.as_str(), ")"));
        }
        k += 1;
    }
    assert(stuck.model().len() == stuck@.len());
    assert(text::texts(stuck@) =~= stuck.model());
    if stuck.len() == 0 {
        Ok(StepResult::Done)
    } else {
        let all = text::join(&stuck, ", ");
        Ok(
            StepResult::NotYet(
                text::cat3(
                    "putting back ",
                    all.as_str(),
                    " — a machine left armed wipes itself at its next restart",
                ),
            ),
        )
    }
}

// ── One step after the other ─────────────────────────────────────────────────

/// A result together with the record it leaves unchanged.
pub open spec fn keeping(h: HealModel, f: Flow<Result<StepResultModel, ErrorModel>>) -> Flow<
    (HealModel, Result<StepResultModel, ErrorModel>),
> {
    f.and_then(|r: Result<StepResultModel, ErrorModel>, j: int| Flow::Done((h, r), j))
}

/// A result that is never an error.
pub open spec fn surely(f: Flow<StepResultModel>) -> Flow<Result<StepResultModel, ErrorModel>> {
    f.and_then(|r: StepResultModel, j: int| Flow::Done(Ok(r), j))
}

/// Doing the step that the record is at.
pub open spec fn step_flow(
    path: Seq<char>,
    h: HealModel,
    boot: Seq<char>,
    now: u64,
    a: Seq<Answer>,
    i: int,
) -> Flow<(HealModel, Result<StepResultModel, ErrorModel>)> {
    match h.step {
        Step::Prepare => keeping(h, prepare_flow(h, now, 0, seq![], a, i)),
        Step::Arm => keeping(h, surely(arm_flow(h, 0, a, i))),
        Step::Restart => restart_flow(path, h, boot, a, i),
        Step::Rebuild => if h.restart_boot_id == Some(boot) {
            restart_self_flow(h, a, i)
        } else {
            keeping(h, rebuild_flow(h, a, i))
        },
        Step::Undo => keeping(
            h,
            surely(
                undo_flow(h, 0, seq![], a, i).and_then(
                    |stuck: Seq<Seq<char>>, j: int| Flow::Done(put_back(stuck), j),
                ),
            ),
        ),
    }
}

/// Does the step that the record is at.
pub fn run_step(s: &mut Script, local: &LocalRecord, heal: Heal, boot_id: &str, now: u64) -> (r: Result<
    (Heal, Result<StepResult, Error>),
    Ask,
>)
    ensures
        effects::went(
            r,
            step_flow(
                local.path@,
                heal.model(),
                boot_id@,
                now,
                old(s).answers@,
                old(s).at as int,
            ),
            *old(s),
            *final(s),
        ),
{
    match heal.step {
        Step::Prepare => {
            let r = prepare_step(s, &heal, now)?;
            Ok((heal, r))
        },
        Step::Arm => {
            let r = arm_step(s, &heal)?;
            Ok((heal, Ok(r)))
        },
        Step::Restart => restart_step(s, local, heal, boot_id),
        Step::Rebuild => {
            let same = match &heal.restart_boot_id {
                Some(b) => text::same(b.as_str(), boot_id),
                None => false,
            };
            if same {
                return restart_self(s, heal);
            }
            let r = rebuild_step(s, &heal)?;
            Ok((heal, r))
        },
        Step::Undo => {
            let r = undo_step(s, &heal)?;
            Ok((heal, Ok(r)))
        },
    }
}

/// The record after a step that is done: at the next step, or finished.
pub open spec fn advanced(h: HealModel, now: u64) -> HealModel {
    match reinstall::step_after(h.step) {
        Some(n) => HealModel { waiting: None, step: n, ..h },
        None => HealModel { waiting: None, finished_at: Some(now), ..h },
    }
}

/// The record of a heal that is abandoned and about to be undone.
pub open spec fn abandoned(h: HealModel, why: Seq<char>) -> HealModel {
    HealModel { failed: Some(why), step: Step::Undo, waiting: None, ..h }
}

/// Saving the record with another reason to wait, and an answer once it is saved.
pub open spec fn waiting_flow(
    path: Seq<char>,
    h: HealModel,
    why: Seq<char>,
    t: Result<TickModel, ErrorModel>,
    a: Seq<Answer>,
    i: int,
) -> Flow<Result<TickModel, ErrorModel>> {
    fleet::save_flow(path, HealModel { waiting: Some(why), ..h }, a, i).and_then(
        |r: Result<(), ErrorModel>, j: int|
            Flow::Done(
                match r {
                    Err(e) => Err(e),
                    Ok(_) => t,
                },
                j,
            ),
    )
}

/// How many steps a heal may still take.
pub open spec fn steps_left(h: HealModel) -> nat {
    if h.running() {
        reinstall::steps_left(h.step)
    } else {
        0
    }
}

/// Doing one step after the other, until one has to wait, restarts or is in
/// error. A step that fails for good is followed by undoing everything.
pub open spec fn steps_flow(
    path: Seq<char>,
    h: HealModel,
    boot: Seq<char>,
    now: u64,
    a: Seq<Answer>,
    i: int,
) -> Flow<Result<TickModel, ErrorModel>>
    decreases steps_left(h),
{
    if !h.running() {
        Flow::Done(Ok(TickModel::Idle("heal "@ + h.id + " finished"@)), i)
    } else {
        step_flow(path, h, boot, now, a, i).and_then(
            |r: (HealModel, Result<StepResultModel, ErrorModel>), j: int|
                match r.1 {
                    Err(e) => waiting_flow(path, r.0, e.chain(), Err(e), a, j),
                    Ok(StepResultModel::NotYet(why)) => if r.0.waiting == Some(why) {
                        Flow::Done(Ok(TickModel::Done), j)
                    } else {
                        waiting_flow(path, r.0, why, Ok(TickModel::Done), a, j)
                    },
                    Ok(StepResultModel::Restarting) => Flow::Done(Ok(TickModel::Done), j),
                    Ok(StepResultModel::Fail(why)) => fleet::save_flow(
                        path,
                        abandoned(h, why),
                        a,
                        j,
                    ).and_then(
                        |x: Result<(), ErrorModel>, k: int|
                            match x {
                                Err(e) => Flow::Done(Err(e), k),
                                Ok(_) => if h.step is Undo {
                                    Flow::Done(Ok(TickModel::Done), k)
                                } else {
                                    steps_flow(path, abandoned(h, why), boot, now, a, k)
                                },
                            },
                    ),
                    Ok(StepResultModel::Done) => fleet::save_flow(
                        path,
                        advanced(h, now),
                        a,
                        j,
                    ).and_then(
                        |x: Result<(), ErrorModel>, k: int|
                            match x {
                                Err(e) => Flow::Done(Err(e), k),
                                Ok(_) => steps_flow(path, advanced(h, now), boot, now, a, k),
                            },
                    ),
                },
        )
    }
}

/// Putting everything back is never given up: it is done, or tried again. And only
/// the restart changes the record by itself.
pub proof fn an_undo_is_never_given_up(
    path: Seq<char>,
    h: HealModel,
    boot: Seq<char>,
    now: u64,
    a: Seq<Answer>,
    i: int,
)
    ensures
        match step_flow(path, h, boot, now, a, i) {
            Flow::Wants(_) => true,
            Flow::Done(r, j) => {
                &&& h.step is Undo || h.step is Rebuild ==> !(r.1 matches Ok(
                    StepResultModel::Fail(_),
                ))
                &&& r.1 matches Ok(StepResultModel::Done) ==> r.0 == h
                &&& r.1 matches Ok(StepResultModel::Fail(_)) ==> r.0 == h
            },
        },
{
}

/// The tick of a machine that may drive a heal.
pub open spec fn tick_flow(path: Seq<char>, boot: Seq<char>, now: u64, a: Seq<Answer>, i: int) -> Flow<
    Result<TickModel, ErrorModel>,
> {
    fleet::load_flow(path, a, i).and_then(
        |r: Result<Option<HealModel>, ErrorModel>, j: int|
            match r {
                Err(e) => Flow::Done(Err(e), j),
                Ok(None) => Flow::Done(
                    Ok(TickModel::Idle("no heal is driven from this machine"@)),
                    j,
                ),
                Ok(Some(h)) => steps_flow(path, h, boot, now, a, j),
            },
    )
}

fn same_reason(w: &Option<String>, why: &str) -> (r: bool)
    ensures
        r == (w.model() == Some(why@)),
{
    match w {
        Some(x) => text::same(x.as_str(), why),
        None => false,
    }
}

fn run_steps(s: &mut Script, local: &LocalRecord, start: Heal, boot_id: &str, now: u64) -> (r: Result<
    Result<Tick, Error>,
    Ask,
>)
    ensures
        effects::went(
            r,
            steps_flow(
                local.path@,
                start.model(),
                boot_id@,
                now,
                old(s).answers@,
                old(s).at as int,
            ),
            *old(s),
            *final(s),
        ),
{
    let mut heal = start;
    while heal.running()
        invariant
            s.answers == old(s).answers,
            steps_flow(
                local.path@,
                start.model(),
                boot_id@,
                now,
                s.answers@,
                old(s).at as int,
            ) == steps_flow(
                local.path@,
                heal.model(),
                boot_id@,
                now,
                s.answers@,
                s.at as int,
            ),
        decreases steps_left(heal.model()),
    {
        let ghost h = heal.model();
        proof {
            an_undo_is_never_given_up(local.path@, h, boot_id@, now, s.answers@, s.at as int);
        }
        let (mut next, r) = run_step(s, local, heal, boot_id, now)?;
        match r {
            Err(e) => {
                let chain = e.chain();
                next.waiting = Some(chain);
                if let Err(x) = fleet::save(s, local, &next)? {
                    return Ok(Err(x));
                }
                return Ok(Err(e));
            },
            Ok(StepResult::NotYet(why)) => {
                if !same_reason(&next.waiting, why.as_str()) {
                    next.waiting = Some(why);
                    if let Err(x) = fleet::save(s, local, &next)? {
                        return Ok(Err(x));
                    }
                }
                return Ok(Ok(Tick::Done));
            },
            Ok(StepResult::Restarting) => return Ok(Ok(Tick::Done)),
            Ok(StepResult::Fail(why)) => {
                next.failed = Some(why);
                next.step = Step::Undo;
                next.waiting = None;
                if let Err(x) = fleet::save(s, local, &next)? {
                    return Ok(Err(x));
                }
                assert(next.model() == abandoned(h, why@));
            },
            Ok(StepResult::Done) => {
                next.waiting = None;
                match next.step.next() {
                    Some(n) => next.step = n,
                    None => next.finished_at = Some(now),
                }
                if let Err(x) = fleet::save(s, local, &next)? {
                    return Ok(Err(x));
                }
                assert(next.model() == advanced(h, now));
            },
        }
        heal = next;
    }
    Ok(Ok(Tick::Idle(text::cat3("heal ", heal.id.as_str(), " finished"))))
}

/// Goes on with the heal that this machine drives, if it drives one.
pub fn tick(s: &mut Script, local: &LocalRecord, boot_id: &str, now: u64) -> (r: Result<
    Result<Tick, Error>,
    Ask,
>)
    ensures
        effects::went(
            r,
            tick_flow(local.path@, boot_id@, now, old(s).answers@, old(s).at as int),
            *old(s),
            *final(s),
        ),
{
    match fleet::load(s, local)? {
        Err(e) => Ok(Err(e)),
        Ok(None) => Ok(Ok(Tick::Idle(String::from_str("no heal is driven from this machine")))),
        Ok(Some(h)) => run_steps(s, local, h, boot_id, now),
    }
}

/// Preparing neither arms nor restarts anything: machines are asked how they stand,
/// and to prepare.
pub proof fn preparing_arms_nothing(
    h: HealModel,
    now: u64,
    k: int,
    waiting: Seq<Seq<char>>,
    a: Seq<Answer>,
    i: int,
)
    ensures
        prepare_flow(h, now, k, waiting, a, i) matches Flow::Wants(q) ==> q is Peer || q is Prepare,
    decreases h.members.len() - k,
{
    if 0 <= k < h.members.len() {
        let m = h.members[k];
        if let Flow::Done(r, j) = effects::peer_flow(AskModel::Peer { addr: m.addr }, a, i) {
            match r {
                Err(e) => {
                    let w = waiting.push(m.name + " does not answer ("@ + e + ")"@);
                    preparing_arms_nothing(h, now, k + 1, w, a, j);
                },
                Ok(p) => {
                    match phase_in(p, h.id) {
                        None => {
                            if let Ok(q) = h.request_for(m) {
                                if let Flow::Done(w, n) = ask_prepare_flow(m, q, a, j) {
                                    preparing_arms_nothing(h, now, k + 1, waiting.push(w), a, n);
                                }
                            }
                        },
                        Some(phase) => {
                            match prepared(m, p, phase) {
                                Err(_) => {},
                                Ok(None) => {
                                    preparing_arms_nothing(h, now, k + 1, waiting, a, j);
                                },
                                Ok(Some(w)) => {
                                    preparing_arms_nothing(h, now, k + 1, waiting.push(w), a, j);
                                },
                            }
                        },
                    }
                },
            }
        }
    }
}

/// A machine is armed only after it was just seen prepared for this very heal.
pub proof fn only_a_prepared_machine_is_armed(h: HealModel, k: int, a: Seq<Answer>, i: int)
    requires
        0 <= i <= a.len(),
    ensures
        arm_flow(h, k, a, i) matches Flow::Wants(AskModel::Arm { addr, heal_id }) ==> {
            &&& heal_id == h.id
            &&& a.len() > i
            &&& a.last() matches Answer::Peer(Ok(p)) && phase_in(p.model(), h.id) == Some(
                PhaseView::Prepared,
            )
        },
    decreases h.members.len() - k,
{
    if 0 <= k < h.members.len() {
        let m = h.members[k];
        if let Flow::Done(r, j) = effects::peer_flow(AskModel::Peer { addr: m.addr }, a, i) {
            if let Ok(p) = r {
                if phase_in(p, h.id) == Some(PhaseView::Armed) {
                    only_a_prepared_machine_is_armed(h, k + 1, a, j);
                } else if phase_in(p, h.id) == Some(PhaseView::Prepared) {
                    if let Flow::Done(x, n) = effects::did_flow(
                        AskModel::Arm { addr: m.addr, heal_id: h.id },
                        a,
                        j,
                    ) {
                        if x is Ok {
                            only_a_prepared_machine_is_armed(h, k + 1, a, n);
                        }
                    }
                }
            }
        }
    }
}

/// Nothing heals itself: without the record of a heal that somebody started here,
/// nothing is done.
pub proof fn nothing_heals_itself(
    path: Seq<char>,
    boot: Seq<char>,
    now: u64,
    a: Seq<Answer>,
    i: int,
    j: int,
)
    requires
        fleet::load_flow(path, a, i) == Flow::<Result<Option<HealModel>, ErrorModel>>::Done(
            Ok(None),
            j,
        ),
    ensures
        tick_flow(path, boot, now, a, i) == Flow::<Result<TickModel, ErrorModel>>::Done(
            Ok(TickModel::Idle("no heal is driven from this machine"@)),
            j,
        ),
{
}

proof fn lemma_members_are_asked(h: HealModel, k: int, a: Seq<Answer>, i: int)
    ensures
        reboot_all_flow(h, k, a, i) matches Flow::Wants(q) ==> q is Reboot,
    decreases h.members.len() - k,
{
    if 0 <= k < h.members.len() {
        lemma_members_are_asked(h, k + 1, a, i);
        lemma_members_are_asked(h, k + 1, a, i + 1);
    }
}

/// This machine restarts last: it asks for its own restart only when every other
/// member was asked.
pub proof fn this_machine_restarts_last(
    path: Seq<char>,
    h: HealModel,
    boot: Seq<char>,
    a: Seq<Answer>,
    i: int,
    q: AskModel,
)
    requires
        restart_flow(path, h, boot, a, i) == Flow::<
            (HealModel, Result<StepResultModel, ErrorModel>),
        >::Wants(q),
        q is Run,
    ensures
        reboot_all_flow(h, 0, a, i) is Done,
{
    lemma_members_are_asked(h, 0, a, i);
}

/// A heal only fails before the restart, and one that fails is undone: what was
/// abandoned is recorded, and undoing it comes next.
pub proof fn a_failed_heal_is_undone(
    path: Seq<char>,
    h: HealModel,
    boot: Seq<char>,
    now: u64,
    a: Seq<Answer>,
    i: int,
    was: HealModel,
    why: Seq<char>,
    j: int,
)
    requires
        h.running(),
        step_flow(path, h, boot, now, a, i) == Flow::Done(
            (was, Ok::<StepResultModel, ErrorModel>(StepResultModel::Fail(why))),
            j,
        ),
    ensures
        h.step is Prepare || h.step is Arm,
        abandoned(h, why).step is Undo,
        abandoned(h, why).failed == Some(why),
        match fleet::save_flow(path, abandoned(h, why), a, j) {
            Flow::Wants(q) => steps_flow(path, h, boot, now, a, i) == Flow::<
                Result<TickModel, ErrorModel>,
            >::Wants(q),
            Flow::Done(Ok(_), k) => steps_flow(path, h, boot, now, a, i) == steps_flow(
                path,
                abandoned(h, why),
                boot,
                now,
                a,
                k,
            ),
            Flow::Done(Err(e), k) => steps_flow(path, h, boot, now, a, i) == Flow::Done(
                Err::<TickModel, ErrorModel>(e),
                k,
            ),
        },
{
    an_undo_is_never_given_up(path, h, boot, now, a, i);
}

// ── What holds of every heal ─────────────────────────────────────────────────

/// Whether an answer is that of a machine under its own name which is prepared or armed
/// for a heal.
pub open spec fn ready(x: Answer, m: MemberModel, id: Seq<char>) -> bool {
    x matches Answer::Peer(Ok(p)) && p.model().name == m.name && (p.model().reset matches Some(r)
        && r.heal_id == id && (r.phase == PhaseView::Prepared || r.phase == PhaseView::Armed))
}

proof fn lemma_all_prepared(
    h: HealModel,
    now: u64,
    k: int,
    waiting: Seq<Seq<char>>,
    a: Seq<Answer>,
    i: int,
)
    requires
        0 <= k <= h.members.len(),
        0 <= i <= a.len(),
    ensures
        prepare_flow(h, now, k, waiting, a, i) matches Flow::Done(Ok(StepResultModel::Done), j) ==> j
            == i + h.members.len() - k,
        prepare_flow(h, now, k, waiting, a, i) matches Flow::Done(Ok(StepResultModel::Done), _)
            <==> {
            &&& waiting.len() == 0
            &&& i + h.members.len() - k <= a.len()
            &&& forall|x: int|
                k <= x < h.members.len() ==> ready(a[i + x - k], #[trigger] h.members[x], h.id)
        },
    decreases h.members.len() - k,
{
    if k < h.members.len() && i < a.len() {
        let m = h.members[k];
        let e = match a[i] {
            Answer::Peer(Err(e)) => e@,
            _ => "answered in another shape"@,
        };
        lemma_all_prepared(h, now, k + 1, waiting, a, i + 1);
        lemma_all_prepared(
            h,
            now,
            k + 1,
            waiting.push(m.name + " does not answer ("@ + e + ")"@),
            a,
            i + 1,
        );
        lemma_all_prepared(h, now, k + 1, waiting.push(m.name + " is preparing"@), a, i + 1);
        if i + 1 < a.len() {
            let f = match a[i + 1] {
                Answer::Did(Err(e)) => e@,
                _ => "answered in another shape"@,
            };
            lemma_all_prepared(h, now, k + 1, waiting.push(m.name + " is preparing"@), a, i + 2);
            lemma_all_prepared(
                h,
                now,
                k + 1,
                waiting.push(m.name + " did not start preparing ("@ + f + ")"@),
                a,
                i + 2,
            );
        }
        if ready(a[i], m, h.id) {
            assert(prepare_flow(h, now, k, waiting, a, i) == prepare_flow(
                h,
                now,
                k + 1,
                waiting,
                a,
                i + 1,
            ));
        } else {
            assert(!ready(a[i + k - k], h.members[k], h.id));
            assert(!(prepare_flow(h, now, k, waiting, a, i) matches Flow::Done(
                Ok(StepResultModel::Done),
                _,
            )));
        }
        assert forall|x: int| k + 1 <= x < h.members.len() implies ready(
            a[i + 1 + x - (k + 1)],
            #[trigger] h.members[x],
            h.id,
        ) == ready(a[i + x - k], h.members[x], h.id) by {
            assert(i + 1 + x - (k + 1) == i + x - k);
        }
    } else if k < h.members.len() {
        assert(prepare_flow(h, now, k, waiting, a, i) is Wants);
    }
}

/// Preparing is done exactly when every member was asked, answered under its own name,
/// and said that it is prepared or armed for this heal: one that does not answer, or is
/// still at it, is waited for.
pub proof fn preparing_is_done_when_all_are_prepared(h: HealModel, now: u64, a: Seq<Answer>, i: int)
    requires
        0 <= i <= a.len(),
    ensures
        prepare_flow(h, now, 0, seq![], a, i) matches Flow::Done(Ok(StepResultModel::Done), j) ==> j
            == i + h.members.len(),
        prepare_flow(h, now, 0, seq![], a, i) matches Flow::Done(Ok(StepResultModel::Done), _)
            <==> {
            &&& i + h.members.len() <= a.len()
            &&& forall|y: int|
                i <= y < i + h.members.len() ==> (#[trigger] a[y] matches Answer::Peer(Ok(p))
                    && p.model().name == h.members[y - i].name && (p.model().reset matches Some(r)
                    && r.heal_id == h.id && (r.phase == PhaseView::Prepared || r.phase
                    == PhaseView::Armed)))
        },
{
    lemma_all_prepared(h, now, 0, seq![], a, i);
    if i + h.members.len() <= a.len() {
        if forall|x: int|
            0 <= x < h.members.len() ==> ready(a[i + x - 0], #[trigger] h.members[x], h.id) {
            assert forall|y: int| i <= y < i + h.members.len() implies ready(
                #[trigger] a[y],
                h.members[y - i],
                h.id,
            ) by {
                let m = h.members[y - i];
                assert(i + (y - i) - 0 == y);
            }
        }
        if forall|y: int|
            i <= y < i + h.members.len() ==> ready(#[trigger] a[y], h.members[y - i], h.id) {
            assert forall|x: int| 0 <= x < h.members.len() implies ready(
                a[i + x - 0],
                #[trigger] h.members[x],
                h.id,
            ) by {
                assert(a[i + x] == a[i + x - 0]);
            }
        }
    }
}

/// Each member is asked in turn; one that has nothing for this heal is asked to prepare
/// for it, with the identity of the new cluster; one that answers under another name, or
/// that failed or gave up its part, ends the heal at once.
pub proof fn each_member_is_asked_to_prepare(
    h: HealModel,
    now: u64,
    k: int,
    waiting: Seq<Seq<char>>,
    a: Seq<Answer>,
    i: int,
)
    requires
        0 <= k < h.members.len(),
        0 <= i,
    ensures
        a.len() == i ==> prepare_flow(h, now, k, waiting, a, i) == Flow::<
            Result<StepResultModel, ErrorModel>,
        >::Wants(AskModel::Peer { addr: h.members[k].addr }),
        a.len() == i + 1 && (a[i] matches Answer::Peer(Ok(p)) && p.model().name
            == h.members[k].name && !(p.model().reset matches Some(r) && r.heal_id == h.id)) && (
        h.members[k].name == h.driver || h.driver_member() is Ok) ==> (prepare_flow(
            h,
            now,
            k,
            waiting,
            a,
            i,
        ) matches Flow::Wants(AskModel::Prepare { addr, request }) && addr == h.members[k].addr
            && request.heal_id == h.id && request.driver == h.driver && request.fsid == h.fsid && (
        request.server_addr.len() == 0 <==> h.members[k].name == h.driver)),
        i < a.len() && (a[i] matches Answer::Peer(Ok(p)) && (p.model().name != h.members[k].name || (
        p.model().reset matches Some(r) && r.heal_id == h.id && (r.phase == PhaseView::Failed
            || r.phase == PhaseView::Undone || r.phase == PhaseView::Restarted)))) ==> (
        prepare_flow(h, now, k, waiting, a, i) matches Flow::Done(
            Ok(StepResultModel::Fail(_)),
            j,
        ) && j == i + 1),
{
    reveal_strlit("https://[");
    if let Ok(d) = h.driver_member() {
        assert(("https://["@ + d.addr + "]:6443"@).len() > 0);
    }
}

/// Before its time is up, preparing fails only because of a machine that answers under
/// another name, failed, or gave up its part: silence is no reason.
pub proof fn silence_does_not_fail_preparing(
    h: HealModel,
    now: u64,
    k: int,
    waiting: Seq<Seq<char>>,
    a: Seq<Answer>,
    i: int,
)
    requires
        now < h.started_at + 3 * 3600,
        0 <= i <= a.len(),
    ensures
        prepare_flow(h, now, k, waiting, a, i) matches Flow::Done(
            Ok(StepResultModel::Fail(_)),
            j,
        ) ==> i < j <= a.len() && (a[j - 1] matches Answer::Peer(Ok(p)) && exists|x: int|
            0 <= x < h.members.len() && (p.model().name != (#[trigger] h.members[x]).name || (
            p.model().reset matches Some(r) && r.heal_id == h.id && (r.phase == PhaseView::Failed
                || r.phase == PhaseView::Undone || r.phase == PhaseView::Restarted)))),
    decreases h.members.len() - k,
{
    if 0 <= k < h.members.len() && i < a.len() {
        let m = h.members[k];
        let e = match a[i] {
            Answer::Peer(Err(e)) => e@,
            _ => "answered in another shape"@,
        };
        silence_does_not_fail_preparing(h, now, k + 1, waiting, a, i + 1);
        silence_does_not_fail_preparing(
            h,
            now,
            k + 1,
            waiting.push(m.name + " does not answer ("@ + e + ")"@),
            a,
            i + 1,
        );
        silence_does_not_fail_preparing(
            h,
            now,
            k + 1,
            waiting.push(m.name + " is preparing"@),
            a,
            i + 1,
        );
        if i + 1 < a.len() {
            let f = match a[i + 1] {
                Answer::Did(Err(e)) => e@,
                _ => "answered in another shape"@,
            };
            silence_does_not_fail_preparing(
                h,
                now,
                k + 1,
                waiting.push(m.name + " is preparing"@),
                a,
                i + 2,
            );
            silence_does_not_fail_preparing(
                h,
                now,
                k + 1,
                waiting.push(m.name + " did not start preparing ("@ + f + ")"@),
                a,
                i + 2,
            );
        }
        assert(h.members[k] == m);
    }
}

/// Whether a machine is armed by the answers from `n` on: it is already, or it is
/// prepared and was armed.
pub open spec fn armed_at(a: Seq<Answer>, n: int, id: Seq<char>) -> bool {
    a[n] matches Answer::Peer(Ok(p)) && (p.model().reset matches Some(r) && r.heal_id == id && (
    r.phase == PhaseView::Armed || (r.phase == PhaseView::Prepared && a[n + 1] matches Answer::Did(
        Ok(_),
    ))))
}

/// Arming is done only when every member was asked and is armed; it ends otherwise only
/// by failing, and a member that does not answer, is not prepared or cannot be armed
/// fails it.
pub proof fn arming_is_done_when_all_are_armed(h: HealModel, k: int, a: Seq<Answer>, i: int)
    requires
        0 <= k <= h.members.len(),
        0 <= i <= a.len(),
    ensures
        match arm_flow(h, k, a, i) {
            Flow::Done(StepResultModel::Done, j) => i <= j <= a.len() && forall|x: int|
                k <= x < h.members.len() ==> {
                    let m = #[trigger] h.members[x];
                    exists|n: int|
                        i <= n < j && #[trigger] armed_at(a, n, h.id) && arm_flow(
                            h,
                            k,
                            a.take(n),
                            i,
                        ) == Flow::<StepResultModel>::Wants(AskModel::Peer { addr: m.addr })
                },
            Flow::Done(r, j) => r is Fail,
            Flow::Wants(q) => q is Peer || q is Arm,
        },
        k < h.members.len() && i < a.len() && !(a[i] matches Answer::Peer(Ok(p)) && (p.model().reset
            matches Some(r) && r.heal_id == h.id && (r.phase == PhaseView::Armed || r.phase
            == PhaseView::Prepared))) ==> (arm_flow(h, k, a, i) matches Flow::Done(
            StepResultModel::Fail(_),
            j,
        ) && j == i + 1),
        k < h.members.len() && i + 1 < a.len() && (a[i] matches Answer::Peer(Ok(p)) && (
        p.model().reset matches Some(r) && r.heal_id == h.id && r.phase == PhaseView::Prepared))
            && !(a[i + 1] matches Answer::Did(Ok(_))) ==> (arm_flow(h, k, a, i) matches Flow::Done(
            StepResultModel::Fail(_),
            j,
        ) && j == i + 2),
    decreases h.members.len() - k,
{
    if k < h.members.len() && i < a.len() {
        arming_is_done_when_all_are_armed(h, k + 1, a, i + 1);
        if i + 1 < a.len() {
            arming_is_done_when_all_are_armed(h, k + 1, a, i + 2);
        }
        if let Flow::Done(StepResultModel::Done, j) = arm_flow(h, k, a, i) {
            assert(armed_at(a, i, h.id));
            let by: int = if a[i] matches Answer::Peer(Ok(p)) && phase_in(p.model(), h.id) == Some(
                PhaseView::Armed,
            ) {
                1
            } else {
                2
            };
            assert(arm_flow(h, k, a, i) == arm_flow(h, k + 1, a, i + by));
            assert(arm_flow(h, k, a.take(i), i) == Flow::<StepResultModel>::Wants(
                AskModel::Peer { addr: h.members[k].addr },
            ));
            assert forall|x: int| k <= x < h.members.len() implies {
                let m = #[trigger] h.members[x];
                exists|n: int|
                    i <= n < j && #[trigger] armed_at(a, n, h.id) && arm_flow(
                        h,
                        k,
                        a.take(n),
                        i,
                    ) == Flow::<StepResultModel>::Wants(AskModel::Peer { addr: m.addr })
            } by {
                let m = h.members[x];
                if x > k {
                    let n = choose|n: int|
                        i + by <= n < j && #[trigger] armed_at(a, n, h.id) && arm_flow(
                            h,
                            k + 1,
                            a.take(n),
                            i + by,
                        ) == Flow::<StepResultModel>::Wants(AskModel::Peer { addr: m.addr });
                    assert(a.take(n)[i] == a[i]);
                    if by == 2 {
                        assert(a.take(n)[i + 1] == a[i + 1]);
                    }
                    assert(arm_flow(h, k, a.take(n), i) == arm_flow(h, k + 1, a.take(n), i + by));
                }
            }
        }
    }
}

/// Every member but the driver is asked to restart, and no other machine is.
pub proof fn every_other_member_is_restarted(h: HealModel, k: int, a: Seq<Answer>, i: int)
    requires
        0 <= k <= h.members.len(),
        0 <= i <= a.len(),
    ensures
        match reboot_all_flow(h, k, a, i) {
            Flow::Done(_, j) => i <= j <= a.len() && forall|x: int|
                k <= x < h.members.len() && (#[trigger] h.members[x]).name != h.driver
                    ==> exists|n: int|
                    i <= n < j && reboot_all_flow(h, k, #[trigger] a.take(n), i) == Flow::<
                        (),
                    >::Wants(AskModel::Reboot { addr: h.members[x].addr }),
            Flow::Wants(q) => exists|x: int|
                k <= x < h.members.len() && (#[trigger] h.members[x]).name != h.driver && q
                    == (AskModel::Reboot { addr: h.members[x].addr }),
        },
    decreases h.members.len() - k,
{
    if k < h.members.len() {
        if h.members[k].name == h.driver {
            every_other_member_is_restarted(h, k + 1, a, i);
            if let Flow::Done(_, j) = reboot_all_flow(h, k, a, i) {
                assert forall|x: int|
                    k <= x < h.members.len() && (#[trigger] h.members[x]).name != h.driver implies exists|
                    n: int,
                |
                    i <= n < j && reboot_all_flow(h, k, #[trigger] a.take(n), i) == Flow::<
                        (),
                    >::Wants(AskModel::Reboot { addr: h.members[x].addr }) by {
                    let n = choose|n: int|
                        i <= n < j && reboot_all_flow(h, k + 1, #[trigger] a.take(n), i) == Flow::<
                            (),
                        >::Wants(AskModel::Reboot { addr: h.members[x].addr });
                    assert(reboot_all_flow(h, k, a.take(n), i) == reboot_all_flow(
                        h,
                        k + 1,
                        a.take(n),
                        i,
                    ));
                }
            }
        } else if i < a.len() {
            every_other_member_is_restarted(h, k + 1, a, i + 1);
            if let Flow::Done(_, j) = reboot_all_flow(h, k, a, i) {
                assert forall|x: int|
                    k <= x < h.members.len() && (#[trigger] h.members[x]).name != h.driver implies exists|
                    n: int,
                |
                    i <= n < j && reboot_all_flow(h, k, #[trigger] a.take(n), i) == Flow::<
                        (),
                    >::Wants(AskModel::Reboot { addr: h.members[x].addr }) by {
                    if x == k {
                        assert(reboot_all_flow(h, k, a.take(i), i) == Flow::<()>::Wants(
                            AskModel::Reboot { addr: h.members[x].addr },
                        ));
                    } else {
                        let n = choose|n: int|
                            i + 1 <= n < j && reboot_all_flow(h, k + 1, #[trigger] a.take(n), i + 1)
                                == Flow::<()>::Wants(
                                AskModel::Reboot { addr: h.members[x].addr },
                            );
                        assert(reboot_all_flow(h, k, a.take(n), i) == reboot_all_flow(
                            h,
                            k + 1,
                            a.take(n),
                            i + 1,
                        ));
                    }
                }
            }
        } else {
            assert(h.members[k].name != h.driver);
        }
    }
}

/// A member that is still armed after the restart is restarted again and waited for;
/// the driver is never restarted here.
pub proof fn an_armed_member_is_restarted_again(
    h: HealModel,
    k: int,
    waiting: Seq<Seq<char>>,
    a: Seq<Answer>,
    i: int,
)
    requires
        0 <= k < h.members.len(),
        h.members[k].name != h.driver,
        0 <= i,
    ensures
        a.len() == i ==> again_flow(h, k, waiting, a, i) == Flow::<Seq<Seq<char>>>::Wants(
            AskModel::Peer { addr: h.members[k].addr },
        ),
        i < a.len() && (a[i] matches Answer::Peer(Ok(p)) && (p.model().reset matches Some(r)
            && r.heal_id == h.id && r.phase == PhaseView::Armed)) ==> {
            &&& a.len() == i + 1 ==> again_flow(h, k, waiting, a, i) == Flow::<
                Seq<Seq<char>>,
            >::Wants(AskModel::Reboot { addr: h.members[k].addr })
            &&& a.len() > i + 1 ==> again_flow(h, k, waiting, a, i) == again_flow(
                h,
                k + 1,
                waiting.push(h.members[k].name + " has not restarted yet"@),
                a,
                i + 2,
            )
        },
        i < a.len() && !(a[i] matches Answer::Peer(Ok(p)) && (p.model().reset matches Some(r)
            && r.heal_id == h.id && r.phase == PhaseView::Armed)) ==> again_flow(
            h,
            k,
            waiting,
            a,
            i,
        ) == again_flow(h, k + 1, waiting, a, i + 1),
{
}

/// Whoever is waited for stays waited for.
proof fn lemma_again_keeps(h: HealModel, k: int, waiting: Seq<Seq<char>>, a: Seq<Answer>, i: int)
    requires
        0 <= k <= h.members.len(),
        0 <= i <= a.len(),
    ensures
        again_flow(h, k, waiting, a, i) matches Flow::Done(w, j) ==> w.len() >= waiting.len() && i
            <= j <= a.len() && forall|x: int|
            i <= x < j && (#[trigger] a[x] matches Answer::Peer(Ok(p)) && (p.model().reset
                matches Some(r) && r.heal_id == h.id && r.phase == PhaseView::Armed)) ==> w.len()
                > 0,
    decreases h.members.len() - k,
{
    if k < h.members.len() {
        let m = h.members[k];
        lemma_again_keeps(h, k + 1, waiting, a, i);
        if i < a.len() {
            lemma_again_keeps(h, k + 1, waiting, a, i + 1);
            if i + 1 < a.len() {
                lemma_again_keeps(
                    h,
                    k + 1,
                    waiting.push(m.name + " has not restarted yet"@),
                    a,
                    i + 2,
                );
            }
        }
    }
}

proof fn lemma_joined_as(nodes: Seq<(Seq<char>, Option<Seq<char>>)>, name: Seq<char>, n: int)
    requires
        0 <= n <= nodes.len(),
    ensures
        joined_as(nodes, name, n) <==> exists|i: int|
            0 <= i < n && (#[trigger] nodes[i]).0 == name,
    decreases n,
{
    if n > 0 {
        lemma_joined_as(nodes, name, n - 1);
    }
}

proof fn lemma_not_joined(
    l: Seq<MemberModel>,
    nodes: Seq<(Seq<char>, Option<Seq<char>>)>,
    waiting: Seq<Seq<char>>,
    n: int,
)
    requires
        0 <= n <= l.len(),
    ensures
        not_joined(l, nodes, waiting, n).len() == 0 <==> waiting.len() == 0 && forall|x: int|
            0 <= x < n ==> exists|i: int|
                0 <= i < nodes.len() && (#[trigger] nodes[i]).0 == (#[trigger] l[x]).name,
    decreases n,
{
    if n > 0 {
        lemma_not_joined(l, nodes, waiting, n - 1);
        lemma_joined_as(nodes, l[n - 1].name, nodes.len() as int);
    }
}

/// A heal is done only once nobody is armed any more, Kubernetes answers, and every
/// member is among its nodes; it is done then, after the registrations of the machines
/// left behind were removed.
pub proof fn a_heal_is_done_when_all_have_joined(
    h: HealModel,
    waiting: Seq<Seq<char>>,
    nodes: Seq<(Seq<char>, Option<Seq<char>>)>,
    a: Seq<Answer>,
    i: int,
)
    ensures
        ({
            let f = settle_flow(h, waiting, Ok(nodes), a, i);
            let all = waiting.len() == 0 && forall|x: int|
                0 <= x < h.members.len() ==> exists|n: int|
                    0 <= n < nodes.len() && (#[trigger] nodes[n]).0 == (#[trigger] h.members[x]).name;
            &&& f matches Flow::Done(Ok(StepResultModel::Done), _) ==> all
            &&& !all ==> (f matches Flow::Done(Ok(StepResultModel::NotYet(_)), j) && j == i)
            &&& all ==> match deregister_flow(h.gone, 0, a, i) {
                Flow::Wants(q) => f == Flow::<Result<StepResultModel, ErrorModel>>::Wants(q),
                Flow::Done(_, j) => f == Flow::Done(
                    Ok::<StepResultModel, ErrorModel>(StepResultModel::Done),
                    j,
                ),
            }
        }),
        forall|e: ErrorModel|
            settle_flow(h, waiting, Err(e), a, i) == Flow::Done(
                Err::<StepResultModel, ErrorModel>(e),
                i,
            ),
{
    lemma_not_joined(h.members, nodes, waiting, h.members.len() as int);
}

/// While a member is still armed, or Kubernetes does not answer, the heal goes on.
pub proof fn a_heal_waits_for_the_restart(h: HealModel, a: Seq<Answer>, i: int)
    requires
        0 <= i <= a.len(),
    ensures
        rebuild_flow(h, a, i) matches Flow::Done(Ok(StepResultModel::Done), _) ==> (again_flow(
            h,
            0,
            seq![],
            a,
            i,
        ) matches Flow::Done(w, j) && i <= j <= a.len() && w.len() == 0 && (forall|x: int|
            i <= x < j ==> !(#[trigger] a[x] matches Answer::Peer(Ok(p)) && (p.model().reset
                matches Some(r) && r.heal_id == h.id && r.phase == PhaseView::Armed))) && (
        drive::kubernetes_flow(a, j) matches Flow::Done(up, k) && up && (fleet::nodes_flow(a, k)
            matches Flow::Done(Ok(nodes), _) && forall|x: int|
            0 <= x < h.members.len() ==> exists|n: int|
                0 <= n < nodes.len() && (#[trigger] nodes[n]).0 == (
                #[trigger] h.members[x]).name))),
{
    lemma_again_keeps(h, 0, seq![], a, i);
    if let Flow::Done(w, j) = again_flow(h, 0, seq![], a, i) {
        if let Flow::Done(up, k) = drive::kubernetes_flow(a, j) {
            if let Flow::Done(Ok(nodes), n) = fleet::nodes_flow(a, k) {
                a_heal_is_done_when_all_have_joined(h, w, nodes, a, n);
            }
        }
    }
}

/// Every machine left behind that is registered is removed from the platform, and none
/// that is not.
pub proof fn every_registration_is_removed(l: Seq<GoneModel>, k: int, a: Seq<Answer>, i: int)
    requires
        0 <= k <= l.len(),
        0 <= i <= a.len(),
    ensures
        match deregister_flow(l, k, a, i) {
            Flow::Done(_, j) => i <= j <= a.len() && forall|x: int|
                k <= x < l.len() && (#[trigger] l[x]).platform_id is Some ==> exists|n: int|
                    i <= n < j && deregister_flow(l, k, #[trigger] a.take(n), i) == Flow::<
                        (),
                    >::Wants(AskModel::DeletePlatformNode { id: l[x].platform_id->0 }),
            Flow::Wants(q) => exists|x: int|
                k <= x < l.len() && (#[trigger] l[x]).platform_id is Some && q
                    == (AskModel::DeletePlatformNode { id: l[x].platform_id->0 }),
        },
    decreases l.len() - k,
{
    if k < l.len() {
        let by: int = if l[k].platform_id is Some {
            1
        } else {
            0
        };
        if i + by <= a.len() {
            every_registration_is_removed(l, k + 1, a, i + by);
            if let Flow::Done(_, j) = deregister_flow(l, k, a, i) {
                assert forall|x: int| k <= x < l.len() && (#[trigger] l[x]).platform_id is Some implies exists|
                    n: int,
                |
                    i <= n < j && deregister_flow(l, k, #[trigger] a.take(n), i) == Flow::<
                        (),
                    >::Wants(AskModel::DeletePlatformNode { id: l[x].platform_id->0 }) by {
                    if x == k {
                        assert(deregister_flow(l, k, a.take(i), i) == Flow::<()>::Wants(
                            AskModel::DeletePlatformNode { id: l[x].platform_id->0 },
                        ));
                    } else {
                        let n = choose|n: int|
                            i + by <= n < j && deregister_flow(l, k + 1, #[trigger] a.take(n), i + by)
                                == Flow::<()>::Wants(
                                AskModel::DeletePlatformNode { id: l[x].platform_id->0 },
                            );
                        assert(deregister_flow(l, k, a.take(n), i) == deregister_flow(
                            l,
                            k + 1,
                            a.take(n),
                            i + by,
                        ));
                    }
                }
            }
        } else {
            assert(l[k].platform_id is Some);
        }
    }
}

proof fn lemma_undone(h: HealModel, k: int, stuck: Seq<Seq<char>>, a: Seq<Answer>, i: int)
    requires
        0 <= k <= h.members.len(),
        0 <= i <= a.len(),
    ensures
        match undo_flow(h, k, stuck, a, i) {
            Flow::Done(s, j) => {
                &&& j == i + h.members.len() - k
                &&& j <= a.len()
                &&& s.len() == 0 <==> stuck.len() == 0 && forall|y: int|
                    i <= y < j ==> (#[trigger] a[y] matches Answer::Did(Ok(_)))
            },
            Flow::Wants(q) => a.len() - i < h.members.len() - k && q == (AskModel::Undo {
                addr: h.members[k + a.len() - i].addr,
                heal_id: h.id,
            }),
        },
    decreases h.members.len() - k,
{
    if k < h.members.len() && i < a.len() {
        let m = h.members[k];
        let e = match a[i] {
            Answer::Did(Err(e)) => e@,
            _ => "answered in another shape"@,
        };
        lemma_undone(h, k + 1, stuck, a, i + 1);
        lemma_undone(h, k + 1, stuck.push(m.name + " ("@ + e + ")"@), a, i + 1);
    }
}

/// An undo asks every member, whatever the others answer, and is done exactly when each
/// of them said that it is back as it was.
pub proof fn an_undo_is_done_when_all_are_back(h: HealModel, a: Seq<Answer>, i: int)
    requires
        0 <= i <= a.len(),
    ensures
        match undo_flow(h, 0, seq![], a, i) {
            Flow::Done(stuck, j) => {
                &&& j == i + h.members.len()
                &&& put_back(stuck) is Done <==> forall|y: int|
                    i <= y < j ==> (#[trigger] a[y] matches Answer::Did(Ok(_)))
                &&& !(put_back(stuck) is Done) ==> put_back(stuck) is NotYet
            },
            Flow::Wants(q) => a.len() - i < h.members.len() && q == (AskModel::Undo {
                addr: h.members[a.len() - i].addr,
                heal_id: h.id,
            }),
        },
{
    lemma_undone(h, 0, seq![], a, i);
}

/// A heal goes through preparing, arming, restarting and rebuilding in this order, and is
/// finished after rebuilding or undoing; nothing else of its record changes but that
/// nothing is waited for.
pub proof fn a_heal_goes_on_in_order(h: HealModel, now: u64)
    ensures
        ({
            let n = advanced(h, now);
            &&& h.step is Prepare ==> n.step is Arm
            &&& h.step is Arm ==> n.step is Restart
            &&& h.step is Restart ==> n.step is Rebuild
            &&& h.step is Rebuild || h.step is Undo ==> n.step == h.step && n.finished_at == Some(
                now,
            )
            &&& !(h.step is Rebuild || h.step is Undo) ==> n.finished_at == h.finished_at
            &&& n.waiting is None
            &&& n.id == h.id && n.driver == h.driver && n.started_at == h.started_at && n.fsid
                == h.fsid && n.members == h.members && n.gone == h.gone && n.restart_boot_id
                == h.restart_boot_id && n.failed == h.failed
        }),
{
}

/// A step that is done is recorded and followed by the next; one that is not yet is
/// recorded with its reason and ends the tick; a heal that is finished is left alone.
pub proof fn a_tick_goes_on_until_it_must_wait(
    path: Seq<char>,
    h: HealModel,
    boot: Seq<char>,
    now: u64,
    a: Seq<Answer>,
    i: int,
)
    ensures
        h.finished_at is Some ==> (steps_flow(path, h, boot, now, a, i) matches Flow::Done(
            Ok(TickModel::Idle(_)),
            j,
        ) && j == i),
        h.finished_at is None ==> match step_flow(path, h, boot, now, a, i) {
            Flow::Wants(q) => steps_flow(path, h, boot, now, a, i) == Flow::<
                Result<TickModel, ErrorModel>,
            >::Wants(q),
            Flow::Done((was, Ok(StepResultModel::Done)), j) => match fleet::save_flow(
                path,
                advanced(h, now),
                a,
                j,
            ) {
                Flow::Wants(q) => steps_flow(path, h, boot, now, a, i) == Flow::<
                    Result<TickModel, ErrorModel>,
                >::Wants(q),
                Flow::Done(Ok(_), k) => steps_flow(path, h, boot, now, a, i) == steps_flow(
                    path,
                    advanced(h, now),
                    boot,
                    now,
                    a,
                    k,
                ),
                Flow::Done(Err(e), k) => steps_flow(path, h, boot, now, a, i) == Flow::Done(
                    Err::<TickModel, ErrorModel>(e),
                    k,
                ),
            },
            Flow::Done((was, Ok(StepResultModel::NotYet(why))), j) => if was.waiting == Some(why) {
                steps_flow(path, h, boot, now, a, i) == Flow::Done(
                    Ok::<TickModel, ErrorModel>(TickModel::Done),
                    j,
                )
            } else {
                a.len() == j && j >= 0 ==> (steps_flow(path, h, boot, now, a, i) matches Flow::Wants(
                    q,
                ) && fleet::save_flow(path, HealModel { waiting: Some(why), ..was }, a, j)
                    == Flow::<Result<(), ErrorModel>>::Wants(q))
            },
            Flow::Done((was, Ok(StepResultModel::Restarting)), j) => steps_flow(
                path,
                h,
                boot,
                now,
                a,
                i,
            ) == Flow::Done(Ok::<TickModel, ErrorModel>(TickModel::Done), j),
            _ => true,
        },
{
}

/// Until the machine has really restarted it restarts itself again, and asks nobody
/// whether the new cluster is there.
pub proof fn the_driver_restarts_until_it_did(
    path: Seq<char>,
    h: HealModel,
    boot: Seq<char>,
    now: u64,
    a: Seq<Answer>,
    i: int,
)
    requires
        h.step is Rebuild,
    ensures
        h.restart_boot_id == Some(boot) ==> (step_flow(path, h, boot, now, a, i) matches Flow::Done(
            (n, r),
            _,
        ) ==> n == h && !(r matches Ok(StepResultModel::Done))),
        h.restart_boot_id == Some(boot) && a.len() == i && i >= 0 ==> (step_flow(
            path,
            h,
            boot,
            now,
            a,
            i,
        ) matches Flow::Wants(q) && q is Run),
        h.restart_boot_id != Some(boot) ==> (step_flow(path, h, boot, now, a, i) matches Flow::Done(
            (n, r),
            j,
        ) ==> rebuild_flow(h, a, i) == Flow::Done(r, j)),
{
}

} // verus!
