//! The steps of a heal: agreeing again, wiping, restarting, and removing the apps.
use vstd::prelude::*;

use crate::ceph::destructive;
use crate::ceph::destructive::{HealMandate, RECOVERABLE_FS};
use crate::ceph::model;
use crate::ceph::model::{OsdDump, OsdDumpModel};
use crate::ceph_cli;
use crate::disks::lvm;
use crate::effects;
use crate::effects::{Answer, Ask, AskModel, Flow, Script};
use crate::error::{Error, ErrorModel};
use crate::exec::{CmdErrorModel, CommandOutputModel};
use crate::heal::drive;
use crate::heal::drive::MONMAP_PATH;
use crate::heal::repair::{Heal, HealModel, Machine, MachineModel};
use crate::heal::survey;
use crate::heal::survey::MonStatusModel;
use crate::host;
use crate::json;
use crate::json::Json;
use crate::model::Model;
use crate::names::Names;
use crate::settings;
use crate::text;

verus! {

/// What came of a step.
#[derive(Debug)]
pub enum StepResult {
    Done,
    /// Look again with the next tick, for this reason.
    NotYet(String),
    /// Another machine's claim won.
    Abandon,
    /// This machine is restarting.
    Restarting,
}

/// A `StepResult` with its text as characters.
pub enum StepResultModel {
    Done,
    NotYet(Seq<char>),
    Abandon,
    Restarting,
}

impl Model for StepResult {
    type M = StepResultModel;

    open spec fn model(&self) -> StepResultModel {
        match *self {
            StepResult::Done => StepResultModel::Done,
            StepResult::NotYet(why) => StepResultModel::NotYet(why@),
            StepResult::Abandon => StepResultModel::Abandon,
            StepResult::Restarting => StepResultModel::Restarting,
        }
    }
}

/// An error of a command, as the error of what ran it.
pub open spec fn failed<T>(e: CmdErrorModel) -> Result<T, ErrorModel> {
    Err(ErrorModel::command(e))
}

// ── Claim ────────────────────────────────────────────────────────────────────

/// Whether this machine's claim still stands, once it has had time to settle.
pub open spec fn claim_step_flow(h: HealModel, now: u64, a: Seq<Answer>, i: int) -> Flow<
    Result<StepResultModel, ErrorModel>,
> {
    match h.claim_after {
        None => Flow::Done(Ok(StepResultModel::Done), i),
        Some(after) => if now < after {
            Flow::Done(
                Ok(StepResultModel::NotYet("making sure no other machine is healing"@)),
                i,
            )
        } else {
            drive::shared_flow(a, i).and_then(
                |r: Result<Option<HealModel>, ErrorModel>, j: int|
                    Flow::Done(
                        match r {
                            Err(e) => Err(e),
                            Ok(Some(o)) => if o.id == h.id {
                                Ok(StepResultModel::Done)
                            } else {
                                Ok(StepResultModel::Abandon)
                            },
                            Ok(None) => Ok(StepResultModel::Abandon),
                        },
                        j,
                    ),
            )
        },
    }
}

pub(crate) fn claim_step(s: &mut Script, h: &Heal, now: u64) -> (r: Result<Result<StepResult, Error>, Ask>)
    ensures
        effects::went(
            r,
            claim_step_flow(h.model(), now, old(s).answers@, old(s).at as int),
            *old(s),
            *final(s),
        ),
{
    let after: u64 = match h.claim_after {
        Some(t) => t,
        None => return Ok(Ok(StepResult::Done)),
    };
    if now < after {
        return Ok(
            Ok(StepResult::NotYet(String::from_str("making sure no other machine is healing"))),
        );
    }
    match drive::shared_heal(s)? {
        Err(e) => Ok(Err(e)),
        Ok(Some(o)) => {
            if text::same(o.id.as_str(), h.id.as_str()) {
                Ok(Ok(StepResult::Done))
            } else {
                Ok(Ok(StepResult::Abandon))
            }
        },
        Ok(None) => Ok(Ok(StepResult::Abandon)),
    }
}

// ── Consensus ────────────────────────────────────────────────────────────────

/// Those of the first `n` machines that are gone.
pub open spec fn gone_mons(l: Seq<MachineModel>, gone: Seq<Seq<char>>, n: int) -> Seq<Seq<char>>
    decreases n,
{
    if n <= 0 {
        seq![]
    } else if gone.contains(l[n - 1].name) {
        gone_mons(l, gone, n - 1).push(l[n - 1].name)
    } else {
        gone_mons(l, gone, n - 1)
    }
}

fn find_gone(l: &Vec<Machine>, gone: &Names) -> (r: Vec<String>)
    ensures
        r.model() == gone_mons(l.model(), gone.model(), l@.len() as int),
{
    let mut out: Vec<String> = Vec::new();
    let mut k: usize = 0;
    assert(out.model() =~= seq![]);
    while k < l.len()
        invariant
            k <= l@.len(),
            out.model() == gone_mons(l.model(), gone.model(), k as int),
        decreases l@.len() - k,
    {
        let ghost before = out.model();
        assert(l.model()[k as int].name == l@[k as int].name@);
        if gone.contains(l[k].name.as_str()) {
            out.push(l[k].name.clone());
            assert(out.model() =~= before.push(l@[k as int].name@));
        }
        k += 1;
    }
    out
}

/// Removing the monitors from the `k`th on, until one cannot be.
pub open spec fn remove_mons_flow(l: Seq<Seq<char>>, k: int, a: Seq<Answer>, i: int) -> Flow<
    Result<(), ErrorModel>,
>
    decreases l.len() - k,
{
    if k < 0 || k >= l.len() {
        Flow::Done(Ok(()), i)
    } else {
        destructive::remove_mon_flow(l[k], a, i).and_then(
            |r: Result<(), ErrorModel>, j: int|
                match r {
                    Err(e) => Flow::Done(Err(e), j),
                    Ok(_) => remove_mons_flow(l, k + 1, a, j),
                },
        )
    }
}

fn remove_mons(s: &mut Script, mandate: &HealMandate, l: &Vec<String>) -> (r: Result<
    Result<(), Error>,
    Ask,
>)
    ensures
        effects::went(
            r,
            remove_mons_flow(l.model(), 0, old(s).answers@, old(s).at as int),
            *old(s),
            *final(s),
        ),
{
    let mut k: usize = 0;
    while k < l.len()
        invariant
            k <= l@.len(),
            s.answers == old(s).answers,
            remove_mons_flow(l.model(), 0, s.answers@, old(s).at as int) == remove_mons_flow(
                l.model(),
                k as int,
                s.answers@,
                s.at as int,
            ),
        decreases l@.len() - k,
    {
        assert(l.model()[k as int] == l@[k as int]@);
        if let Err(e) = destructive::remove_mon(s, mandate, l[k].as_str())? {
            return Ok(Err(e));
        }
        k += 1;
    }
    Ok(Ok(()))
}

/// Whether the storage agrees: asked with a short patience.
pub open spec fn quorum_flow(a: Seq<Answer>, i: int) -> Flow<bool> {
    ceph_cli::ceph_json_flow(seq!["--connect-timeout"@, "10"@, "mon"@, "dump"@], a, i).and_then(
        |r: Result<Json, CmdErrorModel>, j: int| Flow::Done(r is Ok, j),
    )
}

/// Removing the monitors of the machines that are gone: from the quorum when there
/// is one, from this machine's own map of them when there is none. A reason to wait
/// while there is none.
pub open spec fn ceph_consensus_flow(
    h: HealModel,
    me: Seq<char>,
    a: Seq<Answer>,
    i: int,
) -> Flow<Result<Option<Seq<char>>, ErrorModel>> {
    drive::mon_status_flow(me, a, i).and_then(
        |r: Result<MonStatusModel, ErrorModel>, j: int|
            match r {
                Err(e) => Flow::Done(Err(e), j),
                Ok(st) => {
                    let listed = gone_mons(st.machines, h.gone, st.machines.len() as int);
                    quorum_flow(a, j).and_then(
                        |quorum: bool, k: int|
                            if quorum {
                                remove_mons_flow(listed, 0, a, k).and_then(
                                    |x: Result<(), ErrorModel>, m: int|
                                        Flow::Done(
                                            match x {
                                                Ok(_) => Ok(None),
                                                Err(e) => Err(e),
                                            },
                                            m,
                                        ),
                                )
                            } else if listed.len() == 0 {
                                Flow::Done(
                                    Ok(Some("waiting for Ceph to form a quorum"@)),
                                    k,
                                )
                            } else {
                                destructive::remove_mons_offline_flow(
                                    me,
                                    listed,
                                    MONMAP_PATH@,
                                    a,
                                    k,
                                ).and_then(
                                    |x: Result<(), ErrorModel>, m: int|
                                        Flow::Done(
                                            match x {
                                                Ok(_) => Ok(
                                                    Some("waiting for Ceph to form a quorum"@),
                                                ),
                                                Err(e) => Err(e),
                                            },
                                            m,
                                        ),
                                )
                            },
                    )
                },
            },
    )
}

/// Removes the monitors of the machines that are gone.
pub fn ceph_consensus(s: &mut Script, mandate: &HealMandate, h: &Heal, me: &str) -> (r: Result<
    Result<Option<String>, Error>,
    Ask,
>)
    ensures
        effects::went(
            r,
            ceph_consensus_flow(h.model(), me@, old(s).answers@, old(s).at as int),
            *old(s),
            *final(s),
        ),
{
    let st = match drive::mon_status(s, me)? {
        Ok(st) => st,
        Err(e) => return Ok(Err(e)),
    };
    let listed = find_gone(&st.machines, &h.gone);
    let args: [&str; 4] = ["--connect-timeout", "10", "mon", "dump"];
    assert((&args).model() =~= seq!["--connect-timeout"@, "10"@, "mon"@, "dump"@]);
    let quorum = match ceph_cli::ceph_json(s, &args)? {
        Ok(_) => true,
        Err(_) => false,
    };
    if quorum {
        return match remove_mons(s, mandate, &listed)? {
            Ok(_) => Ok(Ok(None)),
            Err(e) => Ok(Err(e)),
        };
    }
    assert(listed.model().len() == listed@.len());
    if listed.len() > 0 {
        if let Err(e) = destructive::remove_mons_offline(s, mandate, me, &listed, MONMAP_PATH)? {
            return Ok(Err(e));
        }
    }
    Ok(Ok(Some(String::from_str("waiting for Ceph to form a quorum"))))
}

/// Resetting Kubernetes to this machine, after stopping it.
pub open spec fn reset_flow(a: Seq<Answer>, i: int) -> Flow<Result<(), ErrorModel>> {
    host::systemctl_flow(seq!["stop"@, "k3s.service"@], a, i).and_then(
        |r: Result<CommandOutputModel, CmdErrorModel>, j: int|
            match r {
                Err(e) => Flow::Done(failed(e), j),
                Ok(o) => if !o.success {
                    Flow::Done(
                        Err(
                            ErrorModel::message(
                                "systemctl stop k3s: "@ + text::trimmed(o.stderr),
                            ),
                        ),
                        j,
                    )
                } else {
                    destructive::reset_membership_flow(a, j)
                },
            },
    )
}

/// Getting storage, and then Kubernetes, to agree again.
pub open spec fn consensus_flow(h: HealModel, me: Seq<char>, a: Seq<Answer>, i: int) -> Flow<
    Result<StepResultModel, ErrorModel>,
> {
    ceph_consensus_flow(h, me, a, i).and_then(
        |r: Result<Option<Seq<char>>, ErrorModel>, j: int|
            match r {
                Err(e) => Flow::Done(Err(e), j),
                Ok(Some(why)) => Flow::Done(Ok(StepResultModel::NotYet(why)), j),
                Ok(None) => if !h.reset_kubernetes {
                    Flow::Done(Ok(StepResultModel::Done), j)
                } else {
                    drive::kubernetes_flow(a, j).and_then(
                        |up: bool, k: int|
                            if up {
                                Flow::Done(Ok(StepResultModel::Done), k)
                            } else {
                                reset_flow(a, k).and_then(
                                    |x: Result<(), ErrorModel>, m: int|
                                        Flow::Done(
                                            match x {
                                                Ok(_) => Ok(StepResultModel::Done),
                                                Err(e) => Err(e),
                                            },
                                            m,
                                        ),
                                )
                            },
                    )
                },
            },
    )
}

fn reset(s: &mut Script, mandate: &HealMandate) -> (r: Result<Result<(), Error>, Ask>)
    ensures
        effects::went(r, reset_flow(old(s).answers@, old(s).at as int), *old(s), *final(s)),
{
    let args: [&str; 2] = ["stop", "k3s.service"];
    assert((&args).model() =~= seq!["stop"@, "k3s.service"@]);
    match host::systemctl(s, &args)? {
        Err(e) => return Ok(Err(Error::new(e))),
        Ok(o) => {
            if !o.success {
                let why = text::cat("systemctl stop k3s: ", text::trim(o.stderr.as_str()));
                return Ok(Err(Error::msg(why.as_str())));
            }
        },
    }
    destructive::reset_kubernetes_membership(s, mandate)
}

pub(crate) fn consensus_step(s: &mut Script, mandate: &HealMandate, h: &Heal, me: &str) -> (r: Result<
    Result<StepResult, Error>,
    Ask,
>)
    ensures
        effects::went(
            r,
            consensus_flow(h.model(), me@, old(s).answers@, old(s).at as int),
            *old(s),
            *final(s),
        ),
{
    match ceph_consensus(s, mandate, h, me)? {
        Err(e) => return Ok(Err(e)),
        Ok(Some(why)) => return Ok(Ok(StepResult::NotYet(why))),
        Ok(None) => {},
    }
    if h.reset_kubernetes {
        let up = drive::kubernetes_answers(s)?;
        if !up {
            if let Err(e) = reset(s, mandate)? {
                return Ok(Err(e));
            }
        }
    }
    Ok(Ok(StepResult::Done))
}

// ── Wipe ─────────────────────────────────────────────────────────────────────

/// The whole numbers from 0 on among the first `n` documents, added to `out` in
/// increasing order.
pub open spec fn ids_in(l: Seq<Json>, n: int, out: Seq<i64>) -> Seq<i64>
    decreases n,
{
    if n <= 0 {
        out
    } else {
        match json::int_of(l[n - 1]) {
            Some(id) => if id >= 0 {
                lvm::with_int(ids_in(l, n - 1, out), id)
            } else {
                ids_in(l, n - 1, out)
            },
            None => ids_in(l, n - 1, out),
        }
    }
}

/// Whether a node of the tree is one of these hosts.
pub open spec fn one_of_hosts(n: Json, hosts: Seq<Seq<char>>) -> bool {
    json::text_at(n, "type"@) == Some("host"@) && match json::text_at(n, "name"@) {
        Some(name) => hosts.contains(name),
        None => false,
    }
}

/// The OSDs below these hosts among the first `n` nodes, in increasing order.
pub open spec fn osds_below(l: Seq<Json>, hosts: Seq<Seq<char>>, n: int) -> Seq<i64>
    decreases n,
{
    if n <= 0 {
        seq![]
    } else {
        let rest = osds_below(l, hosts, n - 1);
        match json::items_at(l[n - 1], "children"@) {
            Some(c) => if one_of_hosts(l[n - 1], hosts) {
                ids_in(c, c.len() as int, rest)
            } else {
                rest
            },
            None => rest,
        }
    }
}

/// The OSDs below these hosts, in increasing order.
pub open spec fn on_hosts(tree: Json, hosts: Seq<Seq<char>>) -> Seq<i64> {
    match json::items_at(tree, "nodes"@) {
        Some(l) => osds_below(l, hosts, l.len() as int),
        None => seq![],
    }
}

fn add_ids(out: &mut Vec<i64>, l: &Vec<Json>)
    ensures
        final(out)@ == ids_in(l@, l@.len() as int, old(out)@),
{
    let ghost start = out@;
    let mut k: usize = 0;
    while k < l.len()
        invariant
            k <= l@.len(),
            out@ == ids_in(l@, k as int, start),
        decreases l@.len() - k,
    {
        if let Some(id) = l[k].as_i64() {
            if id >= 0 {
                lvm::put_int(out, id);
            }
        }
        k += 1;
    }
}

/// The OSDs below these hosts, in increasing order.
pub fn osds_on_hosts(tree: &Json, hosts: &Names) -> (r: Vec<i64>)
    ensures
        r@ == on_hosts(*tree, hosts.model()),
{
    let mut out: Vec<i64> = Vec::new();
    if let Some(l) = tree.list_at("nodes") {
        let mut k: usize = 0;
        while k < l.len()
            invariant
                k <= l@.len(),
                out@ == osds_below(l@, hosts.model(), k as int),
            decreases l@.len() - k,
        {
            let n = &l[k];
            let ours = n.says("type", "host") && match n.str_at("name") {
                Some(name) => hosts.contains(name),
                None => false,
            };
            if ours {
                if let Some(c) = n.list_at("children") {
                    add_ids(&mut out, c);
                }
            }
            k += 1;
        }
    }
    out
}

/// Marking those OSDs from the `k`th on down that the map still calls up.
pub open spec fn mark_down_flow(
    ids: Seq<i64>,
    d: OsdDumpModel,
    k: int,
    a: Seq<Answer>,
    i: int,
) -> Flow<Result<(), ErrorModel>>
    decreases ids.len() - k,
{
    if k < 0 || k >= ids.len() {
        Flow::Done(Ok(()), i)
    } else if !destructive::is_up(d, ids[k]) {
        mark_down_flow(ids, d, k + 1, a, i)
    } else {
        ceph_cli::ceph_flow(seq!["osd"@, "down"@, destructive::osd_name(ids[k])], a, i).and_then(
            |r: Result<Seq<char>, CmdErrorModel>, j: int|
                match r {
                    Err(e) => Flow::Done(failed(e), j),
                    Ok(_) => mark_down_flow(ids, d, k + 1, a, j),
                },
        )
    }
}

fn mark_down(s: &mut Script, ids: &Vec<i64>, d: &OsdDump) -> (r: Result<Result<(), Error>, Ask>)
    ensures
        effects::went(
            r,
            mark_down_flow(ids@, d.model(), 0, old(s).answers@, old(s).at as int),
            *old(s),
            *final(s),
        ),
{
    let mut k: usize = 0;
    while k < ids.len()
        invariant
            k <= ids@.len(),
            s.answers == old(s).answers,
            mark_down_flow(ids@, d.model(), 0, s.answers@, old(s).at as int) == mark_down_flow(
                ids@,
                d.model(),
                k as int,
                s.answers@,
                s.at as int,
            ),
        decreases ids@.len() - k,
    {
        if destructive::osd_up(d, ids[k]) {
            let name = destructive::name_of(ids[k]);
            let args: [&str; 3] = ["osd", "down", name.as_str()];
            assert((&args).model() =~= seq!["osd"@, "down"@, destructive::osd_name(ids@[k as int])]);
            if let Err(e) = ceph_cli::ceph(s, &args)? {
                return Ok(Err(Error::new(e)));
            }
        }
        k += 1;
    }
    Ok(Ok(()))
}

/// A list of numbers in increasing order with those of another put in.
pub open spec fn with_ints(l: Seq<i64>, more: Seq<i64>, n: int) -> Seq<i64>
    decreases n,
{
    if n <= 0 {
        l
    } else {
        lvm::with_int(with_ints(l, more, n - 1), more[n - 1])
    }
}

/// The OSDs that are removed: those not up, and those of the machines that are
/// gone.
pub open spec fn targets_of(d: OsdDumpModel, on_gone: Seq<i64>) -> Seq<i64> {
    with_ints(
        survey::down_list(d, d.osds.len() as int),
        on_gone,
        on_gone.len() as int,
    )
}

fn find_targets(d: &OsdDump, on_gone: &Vec<i64>) -> (r: Vec<i64>)
    ensures
        r@ == targets_of(d.model(), on_gone@),
{
    let mut out = survey::down_in_order(d);
    let ghost start = out@;
    let mut k: usize = 0;
    while k < on_gone.len()
        invariant
            k <= on_gone@.len(),
            out@ == with_ints(start, on_gone@, k as int),
        decreases on_gone@.len() - k,
    {
        lvm::put_int(&mut out, on_gone[k]);
        k += 1;
    }
    out
}

/// Removing OSDs from the `k`th on, whatever comes of it.
pub open spec fn purge_all_flow(ids: Seq<i64>, k: int, a: Seq<Answer>, i: int) -> Flow<()>
    decreases ids.len() - k,
{
    if k < 0 || k >= ids.len() {
        Flow::Done((), i)
    } else {
        destructive::purge_down_flow(ids[k], a, i).and_then(
            |r: Result<(), ErrorModel>, j: int| purge_all_flow(ids, k + 1, a, j),
        )
    }
}

fn purge_all(s: &mut Script, mandate: &HealMandate, ids: &Vec<i64>) -> (r: Result<(), Ask>)
    ensures
        effects::went(
            r,
            purge_all_flow(ids@, 0, old(s).answers@, old(s).at as int),
            *old(s),
            *final(s),
        ),
{
    let mut k: usize = 0;
    while k < ids.len()
        invariant
            k <= ids@.len(),
            s.answers == old(s).answers,
            purge_all_flow(ids@, 0, s.answers@, old(s).at as int) == purge_all_flow(
                ids@,
                k as int,
                s.answers@,
                s.at as int,
            ),
        decreases ids@.len() - k,
    {
        let _ = destructive::purge_down(s, mandate, ids[k])?;
        k += 1;
    }
    Ok(())
}

/// Removing the traces of one machine, and remembering that it was removed.
pub open spec fn forget_machine_flow(
    machine: Seq<char>,
    id: Seq<char>,
    a: Seq<Answer>,
    i: int,
) -> Flow<Result<(), ErrorModel>> {
    ceph_cli::ceph_flow(seq!["osd"@, "crush"@, "rm"@, machine], a, i).and_then(
        |c: Result<Seq<char>, CmdErrorModel>, j: int|
            destructive::forget_daemons_flow(machine, a, j).and_then(
                |r: Result<(), ErrorModel>, k: int|
                    match r {
                        Err(e) => Flow::Done(Err(e), k),
                        Ok(_) => settings::set_flow(
                            settings::REMOVED_MACHINES@ + machine,
                            id,
                            a,
                            k,
                        ).and_then(
                            |x: Result<(), CmdErrorModel>, m: int|
                                Flow::Done(
                                    match x {
                                        Ok(_) => Ok(()),
                                        Err(e) => failed(e),
                                    },
                                    m,
                                ),
                        ),
                    },
            ),
    )
}

/// Removing the traces of the machines from the `k`th on, until one cannot be.
pub open spec fn forget_all_flow(
    gone: Seq<Seq<char>>,
    id: Seq<char>,
    k: int,
    a: Seq<Answer>,
    i: int,
) -> Flow<Result<(), ErrorModel>>
    decreases gone.len() - k,
{
    if k < 0 || k >= gone.len() {
        Flow::Done(Ok(()), i)
    } else {
        forget_machine_flow(gone[k], id, a, i).and_then(
            |r: Result<(), ErrorModel>, j: int|
                match r {
                    Err(e) => Flow::Done(Err(e), j),
                    Ok(_) => forget_all_flow(gone, id, k + 1, a, j),
                },
        )
    }
}

fn forget_machine(s: &mut Script, mandate: &HealMandate, machine: &str, id: &str) -> (r: Result<
    Result<(), Error>,
    Ask,
>)
    ensures
        effects::went(
            r,
            forget_machine_flow(machine@, id@, old(s).answers@, old(s).at as int),
            *old(s),
            *final(s),
        ),
{
    let args: [&str; 4] = ["osd", "crush", "rm", machine];
    assert((&args).model() =~= seq!["osd"@, "crush"@, "rm"@, machine@]);
    let _ = ceph_cli::ceph(s, &args)?;
    if let Err(e) = destructive::forget_daemons(s, mandate, machine)? {
        return Ok(Err(e));
    }
    let key = text::cat(settings::REMOVED_MACHINES, machine);
    match settings::set(s, key.as_str(), id)? {
        Ok(_) => Ok(Ok(())),
        Err(e) => Ok(Err(Error::new(e))),
    }
}

fn forget_all(s: &mut Script, mandate: &HealMandate, gone: &Names, id: &str) -> (r: Result<
    Result<(), Error>,
    Ask,
>)
    ensures
        effects::went(
            r,
            forget_all_flow(gone.model(), id@, 0, old(s).answers@, old(s).at as int),
            *old(s),
            *final(s),
        ),
{
    let l = gone.list();
    let mut k: usize = 0;
    while k < l.len()
        invariant
            k <= l@.len(),
            text::texts(l@) == gone.model(),
            s.answers == old(s).answers,
            forget_all_flow(gone.model(), id@, 0, s.answers@, old(s).at as int) == forget_all_flow(
                gone.model(),
                id@,
                k as int,
                s.answers@,
                s.at as int,
            ),
        decreases l@.len() - k,
    {
        assert(gone.model()[k as int] == l@[k as int]@);
        if let Err(e) = forget_machine(s, mandate, l[k].as_str(), id)? {
            return Ok(Err(e));
        }
        k += 1;
    }
    Ok(Ok(()))
}

/// Whether the filesystem of the apps is listed.
pub open spec fn fs_listed(r: Result<Json, CmdErrorModel>) -> Result<bool, ErrorModel> {
    match r {
        Err(e) => failed(e),
        Ok(j) => match model::named_in(j) {
            None => Err(ErrorModel::message("no list of filesystems"@).during("ceph fs ls"@)),
            Some(l) => Ok(text::listed(l, RECOVERABLE_FS@)),
        },
    }
}

/// The names on the first `n` lines, without blanks around them and without empty
/// ones.
pub open spec fn named_lines(l: Seq<Seq<char>>, n: int) -> Seq<Seq<char>>
    decreases n,
{
    if n <= 0 {
        seq![]
    } else {
        let t = text::trimmed(l[n - 1]);
        if t.len() > 0 {
            named_lines(l, n - 1).push(t)
        } else {
            named_lines(l, n - 1)
        }
    }
}

/// The names on the lines of a text.
pub open spec fn names_on_lines(s: Seq<char>) -> Seq<Seq<char>> {
    named_lines(text::lines_of(s), text::lines_of(s).len() as int)
}

fn read_lines(t: &str) -> (r: Vec<String>)
    ensures
        r.model() == names_on_lines(t@),
{
    let l = text::lines(t);
    let mut out: Vec<String> = Vec::new();
    let mut k: usize = 0;
    assert(out.model() =~= seq![]);
    assert(text::views(l@).len() == l@.len());
    while k < l.len()
        invariant
            k <= l@.len(),
            text::views(l@) == text::lines_of(t@),
            out.model() == named_lines(text::lines_of(t@), k as int),
        decreases l@.len() - k,
    {
        let ghost before = out.model();
        assert(text::views(l@)[k as int] == l@[k as int]@);
        let name = text::trim(l[k]);
        if name.unicode_len() > 0 {
            out.push(name.to_owned());
            assert(out.model() =~= before.push(name@));
        }
        k += 1;
    }
    out
}

/// Deleting the filesystem of the apps and every pool.
pub open spec fn delete_storage_flow(a: Seq<Answer>, i: int) -> Flow<Result<(), ErrorModel>> {
    ceph_cli::ceph_json_flow(seq!["fs"@, "ls"@], a, i).and_then(
        |f: Result<Json, CmdErrorModel>, j: int|
            match fs_listed(f) {
                Err(e) => Flow::Done(Err(e), j),
                Ok(fs_exists) => ceph_cli::ceph_flow(seq!["osd"@, "pool"@, "ls"@], a, j).and_then(
                    |p: Result<Seq<char>, CmdErrorModel>, k: int|
                        match p {
                            Err(e) => Flow::Done(failed(e), k),
                            Ok(t) => destructive::delete_all_storage_flow(
                                fs_exists,
                                names_on_lines(t),
                                a,
                                k,
                            ),
                        },
                ),
            },
    )
}

fn has_fs(l: &Vec<model::FsEntry>) -> (r: bool)
    ensures
        r == text::listed(l.model(), RECOVERABLE_FS@),
{
    let mut k: usize = 0;
    while k < l.len()
        invariant
            k <= l@.len(),
            forall|i: int| 0 <= i < k ==> #[trigger] l.model()[i] != RECOVERABLE_FS@,
        decreases l@.len() - k,
    {
        assert(l.model()[k as int] == l@[k as int].name@);
        if text::same(l[k].name.as_str(), RECOVERABLE_FS) {
            assert(l.model()[k as int] == RECOVERABLE_FS@);
            return true;
        }
        k += 1;
    }
    false
}

fn delete_storage(s: &mut Script, mandate: &HealMandate) -> (r: Result<Result<(), Error>, Ask>)
    ensures
        effects::went(r, delete_storage_flow(old(s).answers@, old(s).at as int), *old(s), *final(s)),
{
    let args: [&str; 2] = ["fs", "ls"];
    assert((&args).model() =~= seq!["fs"@, "ls"@]);
    let fs_exists = match ceph_cli::ceph_json(s, &args)? {
        Err(e) => return Ok(Err(Error::new(e))),
        Ok(j) => match model::read_named(&j) {
            None => return Ok(Err(Error::msg("no list of filesystems").context("ceph fs ls"))),
            Some(l) => has_fs(&l),
        },
    };
    let args: [&str; 3] = ["osd", "pool", "ls"];
    assert((&args).model() =~= seq!["osd"@, "pool"@, "ls"@]);
    let pools = match ceph_cli::ceph(s, &args)? {
        Err(e) => return Ok(Err(Error::new(e))),
        Ok(t) => read_lines(t.as_str()),
    };
    destructive::delete_all_storage(s, mandate, fs_exists, &pools)
}

/// Removing the keys below a prefix from the `k`th on, until one cannot be.
pub open spec fn clear_keys_flow(
    prefix: Seq<char>,
    keys: Seq<(Seq<char>, Seq<char>)>,
    k: int,
    a: Seq<Answer>,
    i: int,
) -> Flow<Result<(), ErrorModel>>
    decreases keys.len() - k,
{
    if k < 0 || k >= keys.len() {
        Flow::Done(Ok(()), i)
    } else {
        settings::remove_flow(prefix + keys[k].0, a, i).and_then(
            |r: Result<(), CmdErrorModel>, j: int|
                match r {
                    Err(e) => Flow::Done(failed(e), j),
                    Ok(_) => clear_keys_flow(prefix, keys, k + 1, a, j),
                },
        )
    }
}

/// Removing every key below a prefix.
pub open spec fn clear_flow(prefix: Seq<char>, a: Seq<Answer>, i: int) -> Flow<
    Result<(), ErrorModel>,
> {
    settings::dump_flow(prefix, a, i).and_then(
        |r: Result<Seq<(Seq<char>, Seq<char>)>, CmdErrorModel>, j: int|
            match r {
                Err(e) => Flow::Done(failed(e), j),
                Ok(keys) => clear_keys_flow(prefix, keys, 0, a, j),
            },
    )
}

fn clear(s: &mut Script, prefix: &str) -> (r: Result<Result<(), Error>, Ask>)
    ensures
        effects::went(r, clear_flow(prefix@, old(s).answers@, old(s).at as int), *old(s), *final(s)),
{
    let keys = match settings::dump(s, prefix)? {
        Ok(l) => l,
        Err(e) => return Ok(Err(Error::new(e))),
    };
    let mut k: usize = 0;
    while k < keys.len()
        invariant
            k <= keys@.len(),
            s.answers == old(s).answers,
            clear_flow(prefix@, s.answers@, old(s).at as int) == clear_keys_flow(
                prefix@,
                keys.model(),
                k as int,
                s.answers@,
                s.at as int,
            ),
        decreases keys@.len() - k,
    {
        assert(keys.model()[k as int].0 == keys@[k as int].0@);
        let key = text::cat(prefix, keys[k].0.as_str());
        if let Err(e) = settings::remove(s, key.as_str())? {
            return Ok(Err(Error::new(e)));
        }
        k += 1;
    }
    Ok(Ok(()))
}

/// Those of the first `n` numbers that are targets.
pub open spec fn left_of(ids: Seq<i64>, targets: Seq<i64>, n: int) -> Seq<i64>
    decreases n,
{
    if n <= 0 {
        seq![]
    } else if targets.contains(ids[n - 1]) {
        left_of(ids, targets, n - 1).push(ids[n - 1])
    } else {
        left_of(ids, targets, n - 1)
    }
}

/// Numbers as texts.
pub open spec fn numerals(l: Seq<i64>) -> Seq<Seq<char>> {
    Seq::new(l.len(), |i: int| text::signed_decimal(l[i] as int))
}

/// A list of numbers in brackets.
pub open spec fn bracketed(l: Seq<i64>) -> Seq<char> {
    "["@ + text::joined(numerals(l), ", "@) + "]"@
}

/// What came of a wipe: done once no target is listed any more.
pub open spec fn wiped(r: Result<Seq<i64>, CmdErrorModel>, targets: Seq<i64>) -> Result<
    StepResultModel,
    ErrorModel,
> {
    match r {
        Err(e) => failed(e),
        Ok(ids) => {
            let left = left_of(ids, targets, ids.len() as int);
            if left.len() == 0 {
                Ok(StepResultModel::Done)
            } else {
                Ok(
                    StepResultModel::NotYet(
                        "waiting for "@ + bracketed(left) + " to be purged"@,
                    ),
                )
            }
        },
    }
}

fn bracket(l: &Vec<i64>) -> (r: String)
    ensures
        r@ == bracketed(l@),
{
    let mut out: Vec<String> = Vec::new();
    let mut k: usize = 0;
    while k < l.len()
        invariant
            k <= l@.len(),
            out@.len() == k,
            text::texts(out@) == numerals(l@).take(k as int),
        decreases l@.len() - k,
    {
        out.push(text::signed_decimal_of(l[k]));
        assert(text::texts(out@) =~= numerals(l@).take(k + 1));
        k += 1;
    }
    assert(numerals(l@).take(l@.len() as int) =~= numerals(l@));
    let body = text::join(&out, ", ");
    text::cat3("[", body.as_str(), "]")
}

fn still_listed(ids: &Vec<i64>, targets: &Vec<i64>) -> (r: Vec<i64>)
    ensures
        r@ == left_of(ids@, targets@, ids@.len() as int),
{
    let mut out: Vec<i64> = Vec::new();
    let mut k: usize = 0;
    while k < ids.len()
        invariant
            k <= ids@.len(),
            out@ == left_of(ids@, targets@, k as int),
        decreases ids@.len() - k,
    {
        if destructive::holds(targets, ids[k]) {
            out.push(ids[k]);
        }
        k += 1;
    }
    out
}

/// After the OSDs: the machines' traces, the storage, the switches, and whether all
/// targets are gone.
pub open spec fn wipe_rest_flow(
    h: HealModel,
    targets: Seq<i64>,
    a: Seq<Answer>,
    i: int,
) -> Flow<Result<StepResultModel, ErrorModel>> {
    forget_all_flow(h.gone, h.id, 0, a, i).and_then(
        |f: Result<(), ErrorModel>, j: int|
            match f {
                Err(e) => Flow::Done(Err(e), j),
                Ok(_) => delete_storage_flow(a, j).and_then(
                    |d: Result<(), ErrorModel>, k: int|
                        match d {
                            Err(e) => Flow::Done(Err(e), k),
                            Ok(_) => clear_flow(settings::DISKS@, a, k).and_then(
                                |c: Result<(), ErrorModel>, m: int|
                                    match c {
                                        Err(e) => Flow::Done(Err(e), m),
                                        Ok(_) => clear_flow(
                                            settings::DISK_STATUS@,
                                            a,
                                            m,
                                        ).and_then(
                                            |c2: Result<(), ErrorModel>, n: int|
                                                match c2 {
                                                    Err(e) => Flow::Done(Err(e), n),
                                                    Ok(_) => host::osd_ids_flow(a, n).and_then(
                                                        |r: Result<Seq<i64>, CmdErrorModel>, o: int|
                                                            Flow::Done(wiped(r, targets), o),
                                                    ),
                                                },
                                        ),
                                    },
                            ),
                        },
                ),
            },
    )
}

/// Throwing everything away but the machines that answer: every OSD that is not up
/// or is on a machine that is gone, the traces of those machines, all storage, and
/// every switch and list of disks.
pub open spec fn wipe_flow(h: HealModel, a: Seq<Answer>, i: int) -> Flow<
    Result<StepResultModel, ErrorModel>,
> {
    ceph_cli::ceph_json_flow(seq!["osd"@, "tree"@], a, i).and_then(
        |t: Result<Json, CmdErrorModel>, j: int|
            match t {
                Err(e) => Flow::Done(failed(e), j),
                Ok(tree) => host::osd_dump_flow(a, j).and_then(
                    |d: Result<OsdDumpModel, CmdErrorModel>, k: int|
                        match d {
                            Err(e) => Flow::Done(failed(e), k),
                            Ok(dump) => {
                                let on_gone = on_hosts(tree, h.gone);
                                let targets = targets_of(dump, on_gone);
                                mark_down_flow(on_gone, dump, 0, a, k).and_then(
                                    |r: Result<(), ErrorModel>, m: int|
                                        match r {
                                            Err(e) => Flow::Done(Err(e), m),
                                            Ok(_) => purge_all_flow(targets, 0, a, m).and_then(
                                                |u: (), n: int| wipe_rest_flow(h, targets, a, n),
                                            ),
                                        },
                                )
                            },
                        },
                ),
            },
    )
}

/// Throws everything away but the machines that answer.
pub fn wipe(s: &mut Script, mandate: &HealMandate, h: &Heal) -> (r: Result<
    Result<StepResult, Error>,
    Ask,
>)
    ensures
        effects::went(
            r,
            wipe_flow(h.model(), old(s).answers@, old(s).at as int),
            *old(s),
            *final(s),
        ),
{
    let args: [&str; 2] = ["osd", "tree"];
    assert((&args).model() =~= seq!["osd"@, "tree"@]);
    let tree = match ceph_cli::ceph_json(s, &args)? {
        Ok(t) => t,
        Err(e) => return Ok(Err(Error::new(e))),
    };
    let dump = match host::osd_dump(s)? {
        Ok(d) => d,
        Err(e) => return Ok(Err(Error::new(e))),
    };
    let on_gone = osds_on_hosts(&tree, &h.gone);
    let targets = find_targets(&dump, &on_gone);
    if let Err(e) = mark_down(s, &on_gone, &dump)? {
        return Ok(Err(e));
    }
    purge_all(s, mandate, &targets)?;
    if let Err(e) = forget_all(s, mandate, &h.gone, h.id.as_str())? {
        return Ok(Err(e));
    }
    if let Err(e) = delete_storage(s, mandate)? {
        return Ok(Err(e));
    }
    if let Err(e) = clear(s, settings::DISKS)? {
        return Ok(Err(e));
    }
    if let Err(e) = clear(s, settings::DISK_STATUS)? {
        return Ok(Err(e));
    }
    match host::osd_ids(s)? {
        Err(e) => Ok(Err(Error::new(e))),
        Ok(ids) => {
            assert(ids.model() =~= ids@);
            let left = still_listed(&ids, &targets);
            if left.len() == 0 {
                Ok(Ok(StepResult::Done))
            } else {
                let list = bracket(&left);
                Ok(
                    Ok(
                        StepResult::NotYet(
                            text::cat3("waiting for ", list.as_str(), " to be purged"),
                        ),
                    ),
                )
            }
        },
    }
}

proof fn lemma_down(d: OsdDumpModel, n: int, x: i64)
    requires
        0 <= n <= d.osds.len(),
        survey::down_list(d, n).contains(x),
    ensures
        exists|i: int| 0 <= i < n && !(#[trigger] d.osds[i]).up && d.osds[i].osd == x,
    decreases n,
{
    if n > 0 {
        if d.osds[n - 1].up {
            lemma_down(d, n - 1, x);
        } else {
            lvm::lemma_with_int(survey::down_list(d, n - 1), d.osds[n - 1].osd, x);
            if x == d.osds[n - 1].osd {
                assert(!d.osds[n - 1].up);
            } else {
                lemma_down(d, n - 1, x);
            }
        }
    }
}

proof fn lemma_with_ints(l: Seq<i64>, more: Seq<i64>, n: int, x: i64)
    requires
        0 <= n <= more.len(),
        with_ints(l, more, n).contains(x),
    ensures
        l.contains(x) || more.contains(x),
    decreases n,
{
    if n > 0 {
        lvm::lemma_with_int(with_ints(l, more, n - 1), more[n - 1], x);
        if x == more[n - 1] {
            assert(more.contains(x));
        } else {
            lemma_with_ints(l, more, n - 1, x);
        }
    }
}

/// What runs on a machine that stays is kept: an OSD is only removed when the map
/// says that it is not up, or when it is on a machine that is gone.
pub proof fn what_runs_is_kept(d: OsdDumpModel, on_gone: Seq<i64>, x: i64)
    requires
        targets_of(d, on_gone).contains(x),
    ensures
        on_gone.contains(x) || exists|i: int|
            0 <= i < d.osds.len() && !(#[trigger] d.osds[i]).up && d.osds[i].osd == x,
{
    let down = survey::down_list(d, d.osds.len() as int);
    lemma_with_ints(down, on_gone, on_gone.len() as int, x);
    if down.contains(x) {
        lemma_down(d, d.osds.len() as int, x);
    }
}

/// Only the OSDs that are to go are removed, each by its own command.
pub proof fn only_targets_are_removed(ids: Seq<i64>, k: int, a: Seq<Answer>, i: int, q: AskModel)
    requires
        purge_all_flow(ids, k, a, i) == Flow::<()>::Wants(q),
        ceph_cli::runs_destruction(q),
    ensures
        exists|n: int|
            k <= n < ids.len() && (q matches AskModel::Run { args, .. } && args
                == destructive::purge_args(#[trigger] ids[n])),
    decreases ids.len() - k,
{
    match destructive::purge_down_flow(ids[k], a, i) {
        Flow::Wants(_) => {
            ceph_cli::nothing_is_destroyed_in_passing(seq!["osd"@, "dump"@], a, i);
            assert(q matches AskModel::Run { args, .. } && args == destructive::purge_args(
                ids[k],
            ));
        },
        Flow::Done(_, j) => {
            only_targets_are_removed(ids, k + 1, a, j, q);
        },
    }
}

/// A heal only goes on from its claim when the claim was shared by nobody else: it is
/// the one that all machines see, or there was nowhere to share it.
pub proof fn a_lost_claim_is_given_up(h: HealModel, now: u64, a: Seq<Answer>, i: int, j: int)
    requires
        claim_step_flow(h, now, a, i) == Flow::Done(
            Ok::<StepResultModel, ErrorModel>(StepResultModel::Done),
            j,
        ),
    ensures
        h.claim_after matches Some(after) ==> after <= now && (drive::shared_flow(a, i) matches Flow::Done(
            Ok(Some(o)),
            _,
        ) && o.id == h.id),
{
}

/// Whether it was recorded, at some point of the answers, that a heal removed a
/// machine.
pub open spec fn recorded(machine: Seq<char>, id: Seq<char>, a: Seq<Answer>) -> bool {
    exists|p: int|
        #[trigger] settings::set_flow(settings::REMOVED_MACHINES@ + machine, id, a, p) matches Flow::Done(
            Ok(_),
            _,
        )
}

/// A removed machine is remembered: once the traces of the machines that are gone are
/// removed, each of them is recorded as removed by this heal.
pub proof fn a_removed_machine_is_remembered(
    gone: Seq<Seq<char>>,
    id: Seq<char>,
    k: int,
    a: Seq<Answer>,
    i: int,
    j: int,
)
    requires
        0 <= k,
        forget_all_flow(gone, id, k, a, i) == Flow::Done(Ok::<(), ErrorModel>(()), j),
    ensures
        forall|n: int| k <= n < gone.len() ==> recorded(#[trigger] gone[n], id, a),
    decreases gone.len() - k,
{
    if k < gone.len() {
        let machine = gone[k];
        let f = forget_machine_flow(machine, id, a, i);
        a_removed_machine_is_remembered(gone, id, k + 1, a, f->Done_1, j);
        let c = ceph_cli::ceph_flow(seq!["osd"@, "crush"@, "rm"@, machine], a, i);
        let d = destructive::forget_daemons_flow(machine, a, c->Done_1);
        assert(settings::set_flow(
            settings::REMOVED_MACHINES@ + machine,
            id,
            a,
            d->Done_1,
        ) matches Flow::Done(Ok(_), _));
        assert(recorded(machine, id, a));
    }
}

// ── What holds of every step ─────────────────────────────────────────────────

/// A claim is waited for until its time, then it holds exactly when the shared copy is
/// this heal, and is given up when it is another one or there is none. Without storage
/// to claim in, nothing is waited for.
pub proof fn a_claim_holds_when_it_is_still_there(
    h: HealModel,
    now: u64,
    a: Seq<Answer>,
    i: int,
    r: Result<Option<HealModel>, ErrorModel>,
    j: int,
)
    ensures
        h.claim_after is None ==> claim_step_flow(h, now, a, i) == Flow::Done(
            Ok::<StepResultModel, ErrorModel>(StepResultModel::Done),
            i,
        ),
        h.claim_after matches Some(t) ==> now < t ==> (claim_step_flow(h, now, a, i) matches Flow::Done(
            Ok(StepResultModel::NotYet(_)),
            k,
        ) && k == i),
        h.claim_after matches Some(t) ==> now >= t && drive::shared_flow(a, i) == Flow::Done(r, j)
            ==> {
            let f = claim_step_flow(h, now, a, i);
            &&& r is Err ==> (f matches Flow::Done(Err(_), k) && k == j)
            &&& (r matches Ok(Some(o)) && o.id == h.id) <==> f == Flow::Done(
                Ok::<StepResultModel, ErrorModel>(StepResultModel::Done),
                j,
            )
            &&& r matches Ok(o) ==> !(o matches Some(x) && x.id == h.id) ==> f == Flow::Done(
                Ok::<StepResultModel, ErrorModel>(StepResultModel::Abandon),
                j,
            )
        },
{
}

proof fn lemma_gone_mons(l: Seq<MachineModel>, gone: Seq<Seq<char>>, n: int, x: Seq<char>)
    requires
        0 <= n <= l.len(),
    ensures
        gone_mons(l, gone, n).contains(x) <==> gone.contains(x) && exists|k: int|
            0 <= k < n && (#[trigger] l[k]).name == x,
    decreases n,
{
    if n > 0 {
        lemma_gone_mons(l, gone, n - 1, x);
        let before = gone_mons(l, gone, n - 1);
        let all = gone_mons(l, gone, n);
        if gone.contains(l[n - 1].name) {
            assert(all[before.len() as int] == l[n - 1].name);
            if before.contains(x) {
                let k = choose|k: int| 0 <= k < before.len() && before[k] == x;
                assert(all[k] == x);
            }
            if all.contains(x) {
                let k = choose|k: int| 0 <= k < all.len() && all[k] == x;
                if k < before.len() {
                    assert(before[k] == x);
                }
            }
        }
    }
}

/// The monitors that are removed are exactly those of machines that are gone.
pub proof fn only_monitors_of_gone_machines_leave(
    l: Seq<MachineModel>,
    gone: Seq<Seq<char>>,
    x: Seq<char>,
)
    ensures
        gone_mons(l, gone, l.len() as int).contains(x) <==> gone.contains(x) && exists|k: int|
            0 <= k < l.len() && (#[trigger] l[k]).name == x,
{
    lemma_gone_mons(l, gone, l.len() as int, x);
}

/// The command that removes a machine's monitor.
pub open spec fn mon_args(name: Seq<char>) -> Seq<Seq<char>> {
    seq!["mon"@, "remove"@, name]
}

/// Removing monitors is done only when each of them was asked to be removed, in its turn,
/// and every command succeeded; it fails as the first that cannot be.
pub proof fn every_gone_monitor_is_removed(l: Seq<Seq<char>>, k: int, a: Seq<Answer>, i: int)
    requires
        0 <= k <= l.len(),
        0 <= i <= a.len(),
    ensures
        remove_mons_flow(l, k, a, i) matches Flow::Done(Ok(_), j) ==> j == i + l.len() - k && j
            <= a.len() && forall|x: int|
            k <= x < l.len() ==> {
                let args = mon_args(#[trigger] l[x]);
                &&& (ceph_cli::run_bin_flow(args, a, i + x - k) matches Flow::Done(Ok(_), _))
                &&& (remove_mons_flow(l, k, a.take(i + x - k), i) matches Flow::Wants(
                    AskModel::Run { bin, args: given, .. },
                ) && bin == "ceph"@ && given == args)
            },
        k < l.len() ==> (destructive::remove_mon_flow(l[k], a, i) matches Flow::Done(Err(e), j)
            ==> remove_mons_flow(l, k, a, i) == Flow::Done(Err::<(), ErrorModel>(e), j)),
    decreases l.len() - k,
{
    if k < l.len() && i < a.len() {
        let f = destructive::remove_mon_flow(l[k], a, i);
        if let Flow::Done(Ok(_), j) = f {
            every_gone_monitor_is_removed(l, k + 1, a, i + 1);
            assert(remove_mons_flow(l, k, a, i) == remove_mons_flow(l, k + 1, a, i + 1));
            if remove_mons_flow(l, k, a, i) matches Flow::Done(Ok(_), _) {
                assert forall|x: int| k <= x < l.len() implies {
                    let args = mon_args(#[trigger] l[x]);
                    &&& (ceph_cli::run_bin_flow(args, a, i + x - k) matches Flow::Done(Ok(_), _))
                    &&& (remove_mons_flow(l, k, a.take(i + x - k), i) matches Flow::Wants(
                        AskModel::Run { bin, args: given, .. },
                    ) && bin == "ceph"@ && given == args)
                } by {
                    let t = a.take(i + x - k);
                    if x > k {
                        assert(i + 1 + x - (k + 1) == i + x - k);
                        assert(t[i] == a[i]);
                        assert(destructive::remove_mon_flow(l[k], t, i) == f);
                        assert(remove_mons_flow(l, k, t, i) == remove_mons_flow(l, k + 1, t, i + 1));
                    } else {
                        assert(i + x - k == i);
                    }
                }
            }
        }
    }
}

/// The machines agree again only once the storage has a quorum, with every monitor of a
/// machine that is gone removed from it; until then it is waited for.
pub proof fn agreeing_needs_a_quorum(
    h: HealModel,
    me: Seq<char>,
    st: MonStatusModel,
    quorum: bool,
    a: Seq<Answer>,
    i: int,
    j: int,
    k: int,
)
    requires
        drive::mon_status_flow(me, a, i) == Flow::Done(Ok::<MonStatusModel, ErrorModel>(st), j),
        quorum_flow(a, j) == Flow::<bool>::Done(quorum, k),
    ensures
        ({
            let f = ceph_consensus_flow(h, me, a, i);
            let listed = gone_mons(st.machines, h.gone, st.machines.len() as int);
            &&& f matches Flow::Done(Ok(None), m) ==> quorum && (remove_mons_flow(
                listed,
                0,
                a,
                k,
            ) matches Flow::Done(Ok(_), n) && n == m)
            &&& !quorum && listed.len() == 0 ==> (f matches Flow::Done(Ok(Some(_)), m) && m == k)
            &&& !quorum && listed.len() > 0 ==> match destructive::remove_mons_offline_flow(
                me,
                listed,
                MONMAP_PATH@,
                a,
                k,
            ) {
                Flow::Wants(q) => f == Flow::<Result<Option<Seq<char>>, ErrorModel>>::Wants(q),
                Flow::Done(Ok(_), m) => f matches Flow::Done(Ok(Some(_)), n) && n == m,
                Flow::Done(Err(e), m) => f == Flow::Done(Err::<Option<Seq<char>>, ErrorModel>(e), m),
            }
            &&& quorum ==> (remove_mons_flow(listed, 0, a, k) matches Flow::Done(Ok(_), m) ==> f
                == Flow::Done(Ok::<Option<Seq<char>>, ErrorModel>(None), m))
        }),
{
}

/// Kubernetes is reset only where the heal says so, only while it does not answer, and
/// the step is done only when it answers or was reset.
pub proof fn kubernetes_is_reset_when_it_must_be(
    h: HealModel,
    me: Seq<char>,
    a: Seq<Answer>,
    i: int,
    j: int,
)
    requires
        ceph_consensus_flow(h, me, a, i) == Flow::Done(
            Ok::<Option<Seq<char>>, ErrorModel>(None),
            j,
        ),
    ensures
        ({
            let f = consensus_flow(h, me, a, i);
            &&& !h.reset_kubernetes ==> f == Flow::Done(
                Ok::<StepResultModel, ErrorModel>(StepResultModel::Done),
                j,
            )
            &&& h.reset_kubernetes ==> match drive::kubernetes_flow(a, j) {
                Flow::Wants(q) => f == Flow::<Result<StepResultModel, ErrorModel>>::Wants(q),
                Flow::Done(true, k) => f == Flow::Done(
                    Ok::<StepResultModel, ErrorModel>(StepResultModel::Done),
                    k,
                ),
                Flow::Done(false, k) => match reset_flow(a, k) {
                    Flow::Wants(q) => f == Flow::<Result<StepResultModel, ErrorModel>>::Wants(q),
                    Flow::Done(Ok(_), m) => f == Flow::Done(
                        Ok::<StepResultModel, ErrorModel>(StepResultModel::Done),
                        m,
                    ),
                    Flow::Done(Err(e), m) => f == Flow::Done(
                        Err::<StepResultModel, ErrorModel>(e),
                        m,
                    ),
                },
            }
        }),
{
}

/// A step that does not agree yet says why and does nothing to Kubernetes.
pub proof fn without_agreement_nothing_is_reset(
    h: HealModel,
    me: Seq<char>,
    why: Seq<char>,
    a: Seq<Answer>,
    i: int,
    j: int,
)
    requires
        ceph_consensus_flow(h, me, a, i) == Flow::Done(
            Ok::<Option<Seq<char>>, ErrorModel>(Some(why)),
            j,
        ),
    ensures
        consensus_flow(h, me, a, i) == Flow::Done(
            Ok::<StepResultModel, ErrorModel>(StepResultModel::NotYet(why)),
            j,
        ),
{
}

proof fn lemma_ids_in(l: Seq<Json>, n: int, out: Seq<i64>, x: i64)
    requires
        0 <= n <= l.len(),
    ensures
        ids_in(l, n, out).contains(x) <==> out.contains(x) || (x >= 0 && exists|k: int|
            0 <= k < n && json::int_of(#[trigger] l[k]) == Some(x)),
    decreases n,
{
    if n > 0 {
        lemma_ids_in(l, n - 1, out, x);
        if let Some(id) = json::int_of(l[n - 1]) {
            lvm::lemma_with_int(ids_in(l, n - 1, out), id, x);
        }
    }
}

/// Whether an OSD stands below a host of the tree that is one of these.
pub open spec fn below_one(l: Seq<Json>, hosts: Seq<Seq<char>>, n: int, x: i64) -> bool {
    exists|k: int|
        0 <= k < n && json::text_at(#[trigger] l[k], "type"@) == Some("host"@) && (json::text_at(
            l[k],
            "name"@,
        ) matches Some(name) && hosts.contains(name)) && (json::items_at(l[k], "children"@)
            matches Some(c) && exists|m: int|
            0 <= m < c.len() && json::int_of(#[trigger] c[m]) == Some(x))
}

proof fn lemma_osds_below(l: Seq<Json>, hosts: Seq<Seq<char>>, n: int, x: i64)
    requires
        0 <= n <= l.len(),
        x >= 0,
    ensures
        osds_below(l, hosts, n).contains(x) <==> below_one(l, hosts, n, x),
    decreases n,
{
    if n > 0 {
        lemma_osds_below(l, hosts, n - 1, x);
        let rest = osds_below(l, hosts, n - 1);
        if let Some(c) = json::items_at(l[n - 1], "children"@) {
            lemma_ids_in(c, c.len() as int, rest, x);
        }
        if below_one(l, hosts, n - 1, x) {
            let k = choose|k: int|
                0 <= k < n - 1 && json::text_at(#[trigger] l[k], "type"@) == Some("host"@) && (
                json::text_at(l[k], "name"@) matches Some(name) && hosts.contains(name)) && (
                json::items_at(l[k], "children"@) matches Some(c) && exists|m: int|
                    0 <= m < c.len() && json::int_of(#[trigger] c[m]) == Some(x));
            assert(json::text_at(l[k], "type"@) == Some("host"@));
            assert(below_one(l, hosts, n, x));
        }
        if osds_below(l, hosts, n).contains(x) && !rest.contains(x) {
            assert(json::text_at(l[n - 1], "type"@) == Some("host"@));
            assert(below_one(l, hosts, n, x));
        }
    } else {
        assert(!below_one(l, hosts, n, x));
    }
}

/// The OSDs of the machines that are gone are exactly those below their hosts in the
/// tree.
pub proof fn what_stands_on_gone_machines(tree: Json, l: Seq<Json>, hosts: Seq<Seq<char>>, x: i64)
    requires
        json::items_at(tree, "nodes"@) == Some(l),
        x >= 0,
    ensures
        on_hosts(tree, hosts).contains(x) <==> below_one(l, hosts, l.len() as int, x),
{
    lemma_osds_below(l, hosts, l.len() as int, x);
}

proof fn lemma_all_ints(l: Seq<i64>, more: Seq<i64>, n: int, x: i64)
    requires
        0 <= n <= more.len(),
    ensures
        with_ints(l, more, n).contains(x) <==> l.contains(x) || exists|k: int|
            0 <= k < n && #[trigger] more[k] == x,
    decreases n,
{
    if n > 0 {
        lemma_all_ints(l, more, n - 1, x);
        lvm::lemma_with_int(with_ints(l, more, n - 1), more[n - 1], x);
    }
}

/// What is removed is every OSD that is not up and every one on a machine that is gone,
/// and nothing else.
pub proof fn everything_lost_is_removed(d: OsdDumpModel, on_gone: Seq<i64>, x: i64)
    ensures
        targets_of(d, on_gone).contains(x) <==> on_gone.contains(x) || exists|i: int|
            0 <= i < d.osds.len() && (#[trigger] d.osds[i]).osd == x && !d.osds[i].up,
{
    survey::down_is_what_is_not_up(d, x);
    lemma_all_ints(
        survey::down_list(d, d.osds.len() as int),
        on_gone,
        on_gone.len() as int,
        x,
    );
}

/// The command that marks an OSD down.
pub open spec fn down_args(id: i64) -> Seq<Seq<char>> {
    seq!["osd"@, "down"@, destructive::osd_name(id)]
}

/// Every OSD of a machine that is gone which is still said to be up is asked to be marked
/// down, and marking is done only when every command succeeded.
pub proof fn every_gone_osd_is_marked_down(
    ids: Seq<i64>,
    d: OsdDumpModel,
    k: int,
    a: Seq<Answer>,
    i: int,
)
    requires
        0 <= k <= ids.len(),
        0 <= i <= a.len(),
    ensures
        mark_down_flow(ids, d, k, a, i) matches Flow::Done(Ok(_), j) ==> i <= j <= a.len()
            && forall|x: int|
            k <= x < ids.len() && destructive::is_up(d, #[trigger] ids[x]) ==> exists|n: int|
                i <= n < j && (mark_down_flow(ids, d, k, #[trigger] a.take(n), i)
                    matches Flow::Wants(AskModel::Run { bin, args, .. }) && bin == "ceph"@ && args
                    == down_args(ids[x])) && (ceph_cli::run_bin_flow(down_args(ids[x]), a, n)
                    matches Flow::Done(Ok(_), _)),
    decreases ids.len() - k,
{
    if k < ids.len() {
        let up = destructive::is_up(d, ids[k]);
        let by: int = if up {
            1
        } else {
            0
        };
        let f = ceph_cli::ceph_flow(down_args(ids[k]), a, i);
        if !up || (f matches Flow::Done(Ok(_), _)) {
            if up {
                assert(i < a.len());
            }
            every_gone_osd_is_marked_down(ids, d, k + 1, a, i + by);
            assert(mark_down_flow(ids, d, k, a, i) == mark_down_flow(ids, d, k + 1, a, i + by));
            if let Flow::Done(Ok(_), j) = mark_down_flow(ids, d, k, a, i) {
                assert forall|x: int|
                    k <= x < ids.len() && destructive::is_up(d, #[trigger] ids[x]) implies exists|
                    n: int,
                |
                    i <= n < j && (mark_down_flow(ids, d, k, #[trigger] a.take(n), i)
                        matches Flow::Wants(AskModel::Run { bin, args, .. }) && bin == "ceph"@
                        && args == down_args(ids[x])) && (ceph_cli::run_bin_flow(
                        down_args(ids[x]),
                        a,
                        n,
                    ) matches Flow::Done(Ok(_), _)) by {
                    if x == k {
                        let t = a.take(i);
                        assert(ceph_cli::ceph_flow(down_args(ids[k]), t, i) is Wants);
                        assert(mark_down_flow(ids, d, k, t, i) is Wants);
                    } else {
                        let n = choose|n: int|
                            i + by <= n < j && (mark_down_flow(
                                ids,
                                d,
                                k + 1,
                                #[trigger] a.take(n),
                                i + by,
                            ) matches Flow::Wants(AskModel::Run { bin, args, .. }) && bin
                                == "ceph"@ && args == down_args(ids[x])) && (ceph_cli::run_bin_flow(
                                down_args(ids[x]),
                                a,
                                n,
                            ) matches Flow::Done(Ok(_), _));
                        let t = a.take(n);
                        if up {
                            assert(t[i] == a[i]);
                            assert(ceph_cli::ceph_flow(down_args(ids[k]), t, i) == f);
                        }
                        assert(mark_down_flow(ids, d, k, t, i) == mark_down_flow(
                            ids,
                            d,
                            k + 1,
                            t,
                            i + by,
                        ));
                    }
                }
            }
        }
    }
}

proof fn lemma_purge_prefix(id: i64, a: Seq<Answer>, i: int, n: int)
    requires
        0 <= i <= a.len(),
        n <= a.len(),
    ensures
        destructive::purge_down_flow(id, a, i) matches Flow::Done(_, j) ==> i <= j <= a.len() && (n
            >= j ==> destructive::purge_down_flow(id, a.take(n), i) == destructive::purge_down_flow(
            id,
            a,
            i,
        )),
        i == n && (host::osd_dump_flow(a, i) matches Flow::Done(Ok(_), _))
            ==> host::osd_dump_flow(a.take(n), i) is Wants,
        i < a.len() && i < n ==> host::osd_dump_flow(a.take(n), i) == host::osd_dump_flow(a, i),
        host::osd_dump_flow(a, i) matches Flow::Done(Ok(_), j) ==> j == i + 1 && i < a.len(),
{
    let t = a.take(n);
    if i < n {
        assert(t[i] == a[i]);
    }
    if i + 1 < n {
        assert(t[i + 1] == a[i + 1]);
    }
}

/// Every target is tried in its turn, whatever came of the others: the map is asked for,
/// and where it says that the target is not up, the target is asked to be purged.
pub proof fn every_target_is_purged(ids: Seq<i64>, k: int, a: Seq<Answer>, i: int)
    requires
        0 <= k <= ids.len(),
        0 <= i <= a.len(),
    ensures
        purge_all_flow(ids, k, a, i) matches Flow::Done(_, j) ==> i <= j <= a.len() && forall|x: int|
            k <= x < ids.len() ==> reached(ids, k, #[trigger] ids[x], a, i, j),
    decreases ids.len() - k,
{
    if k < ids.len() {
        let f = destructive::purge_down_flow(ids[k], a, i);
        lemma_purge_prefix(ids[k], a, i, i);
        if let Flow::Done(r, j1) = f {
            every_target_is_purged(ids, k + 1, a, j1);
            assert(purge_all_flow(ids, k, a, i) == purge_all_flow(ids, k + 1, a, j1));
            if let Flow::Done(_, j) = purge_all_flow(ids, k, a, i) {
                assert forall|x: int| k <= x < ids.len() implies reached(
                    ids,
                    k,
                    #[trigger] ids[x],
                    a,
                    i,
                    j,
                ) by {
                    if x == k {
                        if i + 1 <= a.len() {
                            lemma_purge_prefix(ids[k], a, i, i + 1);
                        }
                        assert(purges(ids, k, ids[x], a, i, i));
                    } else {
                        let n = choose|n: int|
                            j1 <= n <= j && #[trigger] purges(ids, k + 1, ids[x], a, j1, n);
                        lemma_purge_prefix(ids[k], a, i, n);
                        assert(purge_all_flow(ids, k, a.take(n), i) == purge_all_flow(
                            ids,
                            k + 1,
                            a.take(n),
                            j1,
                        ));
                        if n + 1 <= a.len() {
                            lemma_purge_prefix(ids[k], a, i, n + 1);
                            assert(purge_all_flow(ids, k, a.take(n + 1), i) == purge_all_flow(
                                ids,
                                k + 1,
                                a.take(n + 1),
                                j1,
                            ));
                        }
                        assert(purges(ids, k, ids[x], a, i, n));
                    }
                }
            }
        }
    }
}

/// Whether purging reaches an OSD on its way from one answer to another.
pub open spec fn reached(ids: Seq<i64>, k: int, id: i64, a: Seq<Answer>, i: int, j: int) -> bool {
    exists|n: int| i <= n <= j && #[trigger] purges(ids, k, id, a, i, n)
}

/// Whether purging reaches an OSD at an answer: the map is asked for there or is known to
/// be refused, and where it says that the OSD is not up, the next thing is to purge it.
pub open spec fn purges(ids: Seq<i64>, k: int, id: i64, a: Seq<Answer>, i: int, n: int) -> bool {
    match host::osd_dump_flow(a, n) {
        Flow::Done(Ok(d), m) => {
            &&& purge_all_flow(ids, k, a.take(n), i) is Wants
            &&& m == n + 1
            &&& !destructive::is_up(d, id) ==> (purge_all_flow(ids, k, a.take(m), i)
                matches Flow::Wants(AskModel::Run { bin, args, .. }) && bin == "ceph"@ && args
                == destructive::purge_args(id))
        },
        Flow::Done(Err(_), _) => true,
        Flow::Wants(_) => false,
    }
}

proof fn lemma_left(ids: Seq<i64>, targets: Seq<i64>, n: int)
    requires
        0 <= n <= ids.len(),
    ensures
        left_of(ids, targets, n).len() == 0 <==> forall|k: int|
            0 <= k < n ==> !targets.contains(#[trigger] ids[k]),
    decreases n,
{
    if n > 0 {
        lemma_left(ids, targets, n - 1);
    }
}

/// Wiping is done exactly when none of what was to be removed is left; what is left is
/// waited for, and that it cannot be told is an error.
pub proof fn wiping_is_done_when_nothing_is_left(
    r: Result<Seq<i64>, CmdErrorModel>,
    targets: Seq<i64>,
)
    ensures
        wiped(r, targets) matches Ok(StepResultModel::Done) <==> (r matches Ok(ids) && forall|k: int|
            0 <= k < ids.len() ==> !targets.contains(#[trigger] ids[k])),
        r is Err <==> wiped(r, targets) is Err,
        !(wiped(r, targets) matches Ok(StepResultModel::Done)) && r is Ok ==> wiped(r, targets)
            matches Ok(StepResultModel::NotYet(_)),
{
    if let Ok(ids) = r {
        lemma_left(ids, targets, ids.len() as int);
    }
}

/// The command that removes a key.
pub open spec fn key_args(key: Seq<char>) -> Seq<Seq<char>> {
    seq!["config-key"@, "rm"@, key]
}

/// Clearing is done only when every key was asked to be removed, in its turn, and every
/// command succeeded.
pub proof fn every_key_is_cleared(
    prefix: Seq<char>,
    keys: Seq<(Seq<char>, Seq<char>)>,
    k: int,
    a: Seq<Answer>,
    i: int,
)
    requires
        0 <= k <= keys.len(),
        0 <= i <= a.len(),
    ensures
        clear_keys_flow(prefix, keys, k, a, i) matches Flow::Done(Ok(_), j) ==> j == i + keys.len()
            - k && j <= a.len() && forall|x: int|
            k <= x < keys.len() ==> {
                let args = key_args(prefix + (#[trigger] keys[x]).0);
                &&& (ceph_cli::run_bin_flow(args, a, i + x - k) matches Flow::Done(Ok(_), _))
                &&& (clear_keys_flow(prefix, keys, k, a.take(i + x - k), i) matches Flow::Wants(
                    AskModel::Run { bin, args: given, .. },
                ) && bin == "ceph"@ && given == args)
            },
    decreases keys.len() - k,
{
    if k < keys.len() {
        let key = prefix + keys[k].0;
        let f = settings::remove_flow(key, a, i);
        if let Flow::Done(Ok(_), j) = f {
            assert(ceph_cli::ceph_flow(key_args(key), a, i) matches Flow::Done(Ok(_), _));
            assert(i < a.len());
            every_key_is_cleared(prefix, keys, k + 1, a, i + 1);
            assert(clear_keys_flow(prefix, keys, k, a, i) == clear_keys_flow(
                prefix,
                keys,
                k + 1,
                a,
                i + 1,
            ));
            if clear_keys_flow(prefix, keys, k, a, i) matches Flow::Done(Ok(_), _) {
                assert forall|x: int| k <= x < keys.len() implies {
                    let args = key_args(prefix + (#[trigger] keys[x]).0);
                    &&& (ceph_cli::run_bin_flow(args, a, i + x - k) matches Flow::Done(Ok(_), _))
                    &&& (clear_keys_flow(prefix, keys, k, a.take(i + x - k), i) matches Flow::Wants(
                        AskModel::Run { bin, args: given, .. },
                    ) && bin == "ceph"@ && given == args)
                } by {
                    let t = a.take(i + x - k);
                    if x > k {
                        assert(i + 1 + x - (k + 1) == i + x - k);
                        assert(t[i] == a[i]);
                        assert(settings::remove_flow(key, t, i) == f);
                        assert(clear_keys_flow(prefix, keys, k, t, i) == clear_keys_flow(
                            prefix,
                            keys,
                            k + 1,
                            t,
                            i + 1,
                        ));
                    } else {
                        assert(i + x - k == i);
                        assert(ceph_cli::ceph_flow(key_args(key), t, i) is Wants);
                    }
                }
            }
        }
    }
}

/// What is left of a wipe after the OSDs is done only when every machine that is gone is
/// recorded as removed, the storage is deleted, the settings of the disks are cleared,
/// and no target is left, each after the other.
pub proof fn the_rest_of_a_wipe_is_whole(
    h: HealModel,
    targets: Seq<i64>,
    a: Seq<Answer>,
    i: int,
)
    ensures
        wipe_rest_flow(h, targets, a, i) matches Flow::Done(Ok(StepResultModel::Done), z)
            ==> exists|j: int, k: int, m: int, n: int|
            (#[trigger] forget_all_flow(h.gone, h.id, 0, a, i) matches Flow::Done(Ok(_), y) && y
                == j) && (#[trigger] delete_storage_flow(a, j) matches Flow::Done(Ok(_), y) && y
                == k) && (#[trigger] clear_flow(settings::DISKS@, a, k) matches Flow::Done(Ok(_), y)
                && y == m) && (#[trigger] clear_flow(settings::DISK_STATUS@, a, m)
                matches Flow::Done(Ok(_), y) && y == n) && (#[trigger] host::osd_ids_flow(a, n)
                matches Flow::Done(Ok(ids), y) && y == z && forall|x: int|
                0 <= x < ids.len() ==> !targets.contains(#[trigger] ids[x])),
{
    if wipe_rest_flow(h, targets, a, i) matches Flow::Done(Ok(StepResultModel::Done), _) {
        let f = forget_all_flow(h.gone, h.id, 0, a, i);
        assert(f matches Flow::Done(Ok(_), _));
        let d = delete_storage_flow(a, f->Done_1);
        assert(d matches Flow::Done(Ok(_), _));
        let c = clear_flow(settings::DISKS@, a, d->Done_1);
        assert(c matches Flow::Done(Ok(_), _));
        let c2 = clear_flow(settings::DISK_STATUS@, a, c->Done_1);
        assert(c2 matches Flow::Done(Ok(_), _));
        let o = host::osd_ids_flow(a, c2->Done_1);
        assert(o is Done);
        wiping_is_done_when_nothing_is_left(o->Done_0, targets);
    }
}

/// A wipe is done only when every OSD of a machine that is gone was marked down, every
/// target was tried, and the rest was done, each after the other.
pub proof fn a_wipe_is_whole(
    h: HealModel,
    tree: Json,
    dump: OsdDumpModel,
    a: Seq<Answer>,
    i: int,
    j: int,
    k: int,
)
    requires
        ceph_cli::ceph_json_flow(seq!["osd"@, "tree"@], a, i) == Flow::Done(
            Ok::<Json, CmdErrorModel>(tree),
            j,
        ),
        host::osd_dump_flow(a, j) == Flow::Done(Ok::<OsdDumpModel, CmdErrorModel>(dump), k),
    ensures
        wipe_flow(h, a, i) matches Flow::Done(Ok(StepResultModel::Done), z) ==> ({
            let on_gone = on_hosts(tree, h.gone);
            let targets = targets_of(dump, on_gone);
            exists|m: int, n: int|
                (#[trigger] mark_down_flow(on_gone, dump, 0, a, k) matches Flow::Done(Ok(_), y) && y
                    == m) && #[trigger] purge_all_flow(targets, 0, a, m) == Flow::<()>::Done((), n)
                    && (#[trigger] wipe_rest_flow(h, targets, a, n) matches Flow::Done(
                    Ok(StepResultModel::Done),
                    y,
                ) && y == z)
        }),
{
    let on_gone = on_hosts(tree, h.gone);
    let targets = targets_of(dump, on_gone);
    if wipe_flow(h, a, i) matches Flow::Done(Ok(StepResultModel::Done), _) {
        let f = mark_down_flow(on_gone, dump, 0, a, k);
        assert(f matches Flow::Done(Ok(_), _));
        let g = purge_all_flow(targets, 0, a, f->Done_1);
        assert(g is Done);
        assert(g->Done_0 == ());
        assert(wipe_rest_flow(h, targets, a, g->Done_1) is Done);
    }
}

} // verus!
