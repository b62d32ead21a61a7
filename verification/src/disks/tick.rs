//! One tick over the disks of a machine whose storage answers: forgotten OSDs are
//! erased, switched-on disks are set up and kept running, switched-off ones are
//! drained and removed.
use vstd::prelude::*;

use crate::ceph::destructive;
use crate::ceph::destructive::{ZapWarrant, ZapWarrantModel};
use crate::ceph_cli;
use crate::disks::board::{BoardAsk, BoardAskModel, Phase, StandingModel};
use crate::disks::create;
use crate::disks::disk;
use crate::disks::disk::{Disk, DiskModel, SYSTEM_OSD_ID};
use crate::disks::lvm;
use crate::disks::plan;
use crate::disks::plan::{CreatePlan, CreatePlanModel};
use crate::disks::setup;
use crate::disks::unit;
use crate::effects;
use crate::effects::{Answer, Ask, AskModel, Flow, Script};
use crate::exec::CmdErrorModel;
use crate::host;
use crate::json;
use crate::model::Model;
use crate::table;
use crate::text;

verus! {

// ── Saying the same of all disks ─────────────────────────────────────────────

/// Saying the same of every disk from the `k`th on.
pub open spec fn say_all_flow(
    ids: Seq<Seq<char>>,
    phase: Phase,
    message: Seq<char>,
    k: int,
    a: Seq<Answer>,
    i: int,
) -> Flow<()>
    decreases ids.len() - k,
{
    if k < 0 || k >= ids.len() {
        Flow::Done((), i)
    } else {
        create::say_flow(ids[k], phase, message, a, i).and_then(
            |u: (), j: int| say_all_flow(ids, phase, message, k + 1, a, j),
        )
    }
}

/// Says the same of every disk.
pub fn say_all(s: &mut Script, meta: &Vec<(String, Disk)>, phase: Phase, message: &str) -> (r: Result<
    (),
    Ask,
>)
    ensures
        effects::went(
            r,
            say_all_flow(
                table::keys(meta.model()),
                phase,
                message@,
                0,
                old(s).answers@,
                old(s).at as int,
            ),
            *old(s),
            *final(s),
        ),
{
    let ghost ids = table::keys(meta.model());
    let mut k: usize = 0;
    while k < meta.len()
        invariant
            k <= meta@.len(),
            ids == table::keys(meta.model()),
            s.answers == old(s).answers,
            say_all_flow(ids, phase, message@, 0, s.answers@, old(s).at as int) == say_all_flow(
                ids,
                phase,
                message@,
                k as int,
                s.answers@,
                s.at as int,
            ),
        decreases meta@.len() - k,
    {
        assert(ids[k as int] == meta@[k as int].0@);
        create::set_phase(s, meta[k].0.as_str(), phase, message)?;
        k += 1;
    }
    Ok(())
}

// ── OSDs the cluster no longer has ───────────────────────────────────────────

pub const NOT_IN_USE: &'static str = "Not in use. Safe to unplug.";

pub const ERASING: &'static str = "Erasing old data before adding this disk.";

/// Whether a disk is being set up.
pub open spec fn is_creating_flow(disk: Seq<char>, a: Seq<Answer>, i: int) -> Flow<bool> {
    effects::yes_flow(AskModel::Board(BoardAskModel::IsCreating { disk }), a, i)
}

/// A disk carries an OSD that the cluster no longer has: its service is stopped,
/// and it is erased if it is switched on.
pub open spec fn erase_one_flow(
    node: Seq<char>,
    meta: Seq<(Seq<char>, DiskModel)>,
    desired: Seq<(Seq<char>, Seq<char>)>,
    disk: Seq<char>,
    osd: i64,
    a: Seq<Answer>,
    i: int,
) -> Flow<()> {
    unit::stop_flow(osd, a, i).and_then(
        |u: (), j: int|
            if !plan::wanted(desired, node, disk) {
                create::say_flow(disk, Phase::Removable, NOT_IN_USE@, a, j)
            } else {
                match path_in(meta, disk) {
                    None => Flow::Done((), j),
                    Some(dev) => destructive::zap_flow(
                        dev,
                        ZapWarrantModel::ForgottenByCluster { osd, whole_disk: true },
                        a,
                        j,
                    ).and_then(
                        |z: Result<(), CmdErrorModel>, k: int|
                            match z {
                                Ok(_) => create::say_flow(disk, Phase::Creating, ERASING@, a, k),
                                Err(_) => create::say_flow(
                                    disk,
                                    Phase::Retrying,
                                    setup::COULD_NOT_ERASE@,
                                    a,
                                    k,
                                ),
                            },
                    ),
                }
            },
    )
}

/// The path of a disk's device, when the disk is there and has one.
pub open spec fn path_in(meta: Seq<(Seq<char>, DiskModel)>, disk: Seq<char>) -> Option<Seq<char>> {
    match table::find(meta, disk) {
        Some(d) => d.path(),
        None => None,
    }
}

/// Going through the disks from the `k`th on; `out` are those found to carry an
/// OSD that the cluster no longer has.
pub open spec fn erase_flow(
    node: Seq<char>,
    meta: Seq<(Seq<char>, DiskModel)>,
    desired: Seq<(Seq<char>, Seq<char>)>,
    osds: Seq<(Seq<char>, i64)>,
    ids: Seq<i64>,
    k: int,
    out: Seq<Seq<char>>,
    a: Seq<Answer>,
    i: int,
) -> Flow<Seq<Seq<char>>>
    decreases osds.len() - k,
{
    if k < 0 || k >= osds.len() {
        Flow::Done(out, i)
    } else if osds[k].0 == SYSTEM_OSD_ID@ || ids.contains(osds[k].1) {
        erase_flow(node, meta, desired, osds, ids, k + 1, out, a, i)
    } else {
        is_creating_flow(osds[k].0, a, i).and_then(
            |busy: bool, j: int|
                if busy {
                    erase_flow(node, meta, desired, osds, ids, k + 1, out, a, j)
                } else {
                    erase_one_flow(node, meta, desired, osds[k].0, osds[k].1, a, j).and_then(
                        |u: (), m: int|
                            erase_flow(
                                node,
                                meta,
                                desired,
                                osds,
                                ids,
                                k + 1,
                                out.push(osds[k].0),
                                a,
                                m,
                            ),
                    )
                },
        )
    }
}

/// Erasing the disks whose OSD the cluster no longer has.
pub open spec fn forgotten_flow(
    node: Seq<char>,
    meta: Seq<(Seq<char>, DiskModel)>,
    desired: Seq<(Seq<char>, Seq<char>)>,
    osds: Seq<(Seq<char>, i64)>,
    a: Seq<Answer>,
    i: int,
) -> Flow<Seq<Seq<char>>> {
    host::osd_ids_flow(a, i).and_then(
        |r: Result<Seq<i64>, CmdErrorModel>, j: int|
            match r {
                Err(_) => Flow::Done(seq![], j),
                Ok(ids) => erase_flow(node, meta, desired, osds, ids, 0, seq![], a, j),
            },
    )
}

fn erase_one(
    s: &mut Script,
    node: &str,
    meta: &Vec<(String, Disk)>,
    desired: &Vec<(String, String)>,
    disk_id: &str,
    osd_id: i64,
) -> (r: Result<(), Ask>)
    ensures
        effects::went(
            r,
            erase_one_flow(
                node@,
                meta.model(),
                desired.model(),
                disk_id@,
                osd_id,
                old(s).answers@,
                old(s).at as int,
            ),
            *old(s),
            *final(s),
        ),
{
    unit::stop_osd_unit(s, osd_id)?;
    if !plan::wants_on(desired, node, disk_id) {
        return create::set_phase(s, disk_id, Phase::Removable, NOT_IN_USE);
    }
    let dev_path = match table::get(meta, disk_id) {
        Some(d) => match d.dev_path() {
            Some(p) => p,
            None => return Ok(()),
        },
        None => return Ok(()),
    };
    match destructive::zap(
        s,
        dev_path.as_str(),
        ZapWarrant::ForgottenByCluster { osd: osd_id, whole_disk: true },
    )? {
        Ok(_) => create::set_phase(s, disk_id, Phase::Creating, ERASING),
        Err(_) => create::set_phase(s, disk_id, Phase::Retrying, setup::COULD_NOT_ERASE),
    }
}

/// Erases the disks whose OSD the cluster no longer has, and says which those are.
pub fn erase_forgotten_osds(
    s: &mut Script,
    node: &str,
    meta: &Vec<(String, Disk)>,
    desired: &Vec<(String, String)>,
    disk_to_osd: &Vec<(String, i64)>,
) -> (r: Result<Vec<String>, Ask>)
    ensures
        effects::went(
            r,
            forgotten_flow(
                node@,
                meta.model(),
                desired.model(),
                disk_to_osd.model(),
                old(s).answers@,
                old(s).at as int,
            ),
            *old(s),
            *final(s),
        ),
{
    let mut out: Vec<String> = Vec::new();
    assert(out.model() =~= seq![]);
    let ids = match host::osd_ids(s)? {
        Ok(ids) => ids,
        Err(_) => return Ok(out),
    };
    assert(ids.model() =~= ids@);
    let ghost osds = disk_to_osd.model();
    let mut k: usize = 0;
    while k < disk_to_osd.len()
        invariant
            k <= disk_to_osd@.len(),
            osds == disk_to_osd.model(),
            s.answers == old(s).answers,
            forgotten_flow(
                node@,
                meta.model(),
                desired.model(),
                osds,
                s.answers@,
                old(s).at as int,
            ) == erase_flow(
                node@,
                meta.model(),
                desired.model(),
                osds,
                ids@,
                k as int,
                out.model(),
                s.answers@,
                s.at as int,
            ),
        decreases disk_to_osd@.len() - k,
    {
        let disk_id = disk_to_osd[k].0.as_str();
        let osd_id: i64 = disk_to_osd[k].1;
        assert(osds[k as int] == (disk_id@, osd_id));
        if !text::same(disk_id, SYSTEM_OSD_ID) && !destructive::holds(&ids, osd_id) {
            let busy = s.yes(Ask::Board(BoardAsk::IsCreating { disk: disk_id.to_owned() }))?;
            if !busy {
                let ghost before = out.model();
                erase_one(s, node, meta, desired, disk_id, osd_id)?;
                out.push(disk_id.to_owned());
                assert(out.model() =~= before.push(disk_id@));
            }
        }
        k += 1;
    }
    Ok(out)
}

// ── Setting up what is switched on ───────────────────────────────────────────

/// The first `n` entries whose name is not listed.
pub open spec fn without(osds: Seq<(Seq<char>, i64)>, names: Seq<Seq<char>>, n: int) -> Seq<
    (Seq<char>, i64),
>
    decreases n,
{
    if n <= 0 {
        seq![]
    } else if text::listed(names, osds[n - 1].0) {
        without(osds, names, n - 1)
    } else {
        without(osds, names, n - 1).push(osds[n - 1])
    }
}

pub(crate) fn leave_out(osds: &Vec<(String, i64)>, names: &Vec<String>) -> (r: Vec<(String, i64)>)
    ensures
        r.model() == without(osds.model(), names.model(), osds@.len() as int),
{
    let mut out: Vec<(String, i64)> = Vec::new();
    let mut k: usize = 0;
    assert(out.model() =~= seq![]);
    assert(text::texts(names@) =~= names.model());
    while k < osds.len()
        invariant
            k <= osds@.len(),
            text::texts(names@) == names.model(),
            out.model() == without(osds.model(), names.model(), k as int),
        decreases osds@.len() - k,
    {
        let ghost before = out.model();
        assert(osds.model()[k as int] == (osds@[k as int].0@, osds@[k as int].1));
        if !text::has(names, osds[k].0.as_str()) {
            out.push((osds[k].0.clone(), osds[k].1));
            assert(out.model() =~= before.push(osds.model()[k as int]));
        }
        k += 1;
    }
    out
}

/// What is done about one disk that may become storage.
pub open spec fn consider_flow(
    node: Seq<char>,
    disk: Seq<char>,
    d: DiskModel,
    desired: Seq<(Seq<char>, Seq<char>)>,
    live: Seq<(Seq<char>, i64)>,
    a: Seq<Answer>,
    i: int,
) -> Flow<()> {
    is_creating_flow(disk, a, i).and_then(
        |busy: bool, j: int|
            create::look_flow(disk, a, j).and_then(
                |st: StandingModel, k: int|
                    match plan::create_plan(
                        node,
                        disk,
                        d,
                        desired,
                        live,
                        busy,
                        st.progress.attempts,
                        st.since_last,
                    ) {
                        CreatePlanModel::Blocked(reason) => create::say_flow(
                            disk,
                            Phase::Blocked,
                            reason,
                            a,
                            k,
                        ),
                        CreatePlanModel::Create { dev_path } => setup::spawn_flow(
                            disk,
                            dev_path,
                            a,
                            k,
                        ),
                        _ => Flow::Done((), k),
                    },
            ),
    )
}

/// What is done about the disks from the `k`th on.
pub open spec fn consider_all_flow(
    node: Seq<char>,
    meta: Seq<(Seq<char>, DiskModel)>,
    desired: Seq<(Seq<char>, Seq<char>)>,
    live: Seq<(Seq<char>, i64)>,
    forgotten: Seq<Seq<char>>,
    k: int,
    a: Seq<Answer>,
    i: int,
) -> Flow<()>
    decreases meta.len() - k,
{
    if k < 0 || k >= meta.len() {
        Flow::Done((), i)
    } else if text::listed(forgotten, meta[k].0) {
        consider_all_flow(node, meta, desired, live, forgotten, k + 1, a, i)
    } else {
        consider_flow(node, meta[k].0, meta[k].1, desired, live, a, i).and_then(
            |u: (), j: int|
                consider_all_flow(node, meta, desired, live, forgotten, k + 1, a, j),
        )
    }
}

fn consider(
    s: &mut Script,
    node: &str,
    disk_id: &str,
    d: &Disk,
    desired: &Vec<(String, String)>,
    live: &Vec<(String, i64)>,
) -> (r: Result<(), Ask>)
    ensures
        effects::went(
            r,
            consider_flow(
                node@,
                disk_id@,
                d.model(),
                desired.model(),
                live.model(),
                old(s).answers@,
                old(s).at as int,
            ),
            *old(s),
            *final(s),
        ),
{
    let busy = s.yes(Ask::Board(BoardAsk::IsCreating { disk: disk_id.to_owned() }))?;
    let st = s.standing(Ask::Board(BoardAsk::Look { disk: disk_id.to_owned() }))?;
    match plan::plan_create(
        node,
        disk_id,
        d,
        desired,
        live,
        busy,
        st.progress.attempts,
        st.since_last,
    ) {
        CreatePlan::Blocked(reason) => create::set_phase(s, disk_id, Phase::Blocked, reason),
        CreatePlan::Create { dev_path } => setup::spawn_create(s, disk_id, dev_path.as_str()),
        _ => Ok(()),
    }
}

pub(crate) fn consider_all(
    s: &mut Script,
    node: &str,
    meta: &Vec<(String, Disk)>,
    desired: &Vec<(String, String)>,
    live: &Vec<(String, i64)>,
    forgotten: &Vec<String>,
) -> (r: Result<(), Ask>)
    ensures
        effects::went(
            r,
            consider_all_flow(
                node@,
                meta.model(),
                desired.model(),
                live.model(),
                forgotten.model(),
                0,
                old(s).answers@,
                old(s).at as int,
            ),
            *old(s),
            *final(s),
        ),
{
    assert(text::texts(forgotten@) =~= forgotten.model());
    let mut k: usize = 0;
    while k < meta.len()
        invariant
            k <= meta@.len(),
            text::texts(forgotten@) == forgotten.model(),
            s.answers == old(s).answers,
            consider_all_flow(
                node@,
                meta.model(),
                desired.model(),
                live.model(),
                forgotten.model(),
                0,
                s.answers@,
                old(s).at as int,
            ) == consider_all_flow(
                node@,
                meta.model(),
                desired.model(),
                live.model(),
                forgotten.model(),
                k as int,
                s.answers@,
                s.at as int,
            ),
        decreases meta@.len() - k,
    {
        assert(meta.model()[k as int] == (meta@[k as int].0@, meta@[k as int].1.model()));
        if !text::has(forgotten, meta[k].0.as_str()) {
            consider(s, node, meta[k].0.as_str(), &meta[k].1, desired, live)?;
        }
        k += 1;
    }
    Ok(())
}

/// Keeping the services of switched-on disks running, from the `k`th disk on.
pub open spec fn keep_running_flow(
    node: Seq<char>,
    ids: Seq<Seq<char>>,
    desired: Seq<(Seq<char>, Seq<char>)>,
    live: Seq<(Seq<char>, i64)>,
    k: int,
    a: Seq<Answer>,
    i: int,
) -> Flow<()>
    decreases ids.len() - k,
{
    if k < 0 || k >= ids.len() {
        Flow::Done((), i)
    } else {
        match table::find(live, ids[k]) {
            Some(osd) => if plan::wanted(desired, node, ids[k]) {
                unit::ensure_flow(osd, a, i).and_then(
                    |u: (), j: int| keep_running_flow(node, ids, desired, live, k + 1, a, j),
                )
            } else {
                keep_running_flow(node, ids, desired, live, k + 1, a, i)
            },
            None => keep_running_flow(node, ids, desired, live, k + 1, a, i),
        }
    }
}

pub(crate) fn keep_running(
    s: &mut Script,
    node: &str,
    meta: &Vec<(String, Disk)>,
    desired: &Vec<(String, String)>,
    live: &Vec<(String, i64)>,
) -> (r: Result<(), Ask>)
    ensures
        effects::went(
            r,
            keep_running_flow(
                node@,
                table::keys(meta.model()),
                desired.model(),
                live.model(),
                0,
                old(s).answers@,
                old(s).at as int,
            ),
            *old(s),
            *final(s),
        ),
{
    let ghost ids = table::keys(meta.model());
    let mut k: usize = 0;
    while k < meta.len()
        invariant
            k <= meta@.len(),
            ids == table::keys(meta.model()),
            s.answers == old(s).answers,
            keep_running_flow(
                node@,
                ids,
                desired.model(),
                live.model(),
                0,
                s.answers@,
                old(s).at as int,
            ) == keep_running_flow(
                node@,
                ids,
                desired.model(),
                live.model(),
                k as int,
                s.answers@,
                s.at as int,
            ),
        decreases meta@.len() - k,
    {
        let disk_id = meta[k].0.as_str();
        assert(ids[k as int] == disk_id@);
        if plan::wants_on(desired, node, disk_id) {
            if let Some(osd) = table::get(live, disk_id) {
                unit::ensure_osd_unit_running(s, *osd)?;
            }
        }
        k += 1;
    }
    Ok(())
}

/// Stopping the services of other clusters' OSDs, from the `k`th on: those that
/// show a state and are not inactive.
pub open spec fn stop_foreign_from_flow(ids: Seq<i64>, k: int, a: Seq<Answer>, i: int) -> Flow<()>
    decreases ids.len() - k,
{
    if k < 0 || k >= ids.len() {
        Flow::Done((), i)
    } else {
        unit::unit_state_flow(ids[k], a, i).and_then(
            |st: Option<Seq<char>>, j: int|
                if st is None || st == Some("inactive"@) {
                    stop_foreign_from_flow(ids, k + 1, a, j)
                } else {
                    unit::stop_flow(ids[k], a, j).and_then(
                        |u: (), m: int| stop_foreign_from_flow(ids, k + 1, a, m),
                    )
                },
        )
    }
}

/// Stopping the services of other clusters' OSDs.
pub open spec fn stop_foreign_flow(a: Seq<Answer>, i: int) -> Flow<()> {
    create::list_flow(a, i).and_then(
        |r: Result<Seq<char>, CmdErrorModel>, j: int|
            match r {
                Err(_) => Flow::Done((), j),
                Ok(raw) => create::our_fsid_flow(a, j).and_then(
                    |fsid: Seq<char>, k: int|
                        if fsid.len() == 0 {
                            Flow::Done((), k)
                        } else {
                            stop_foreign_from_flow(lvm::foreign_ids(raw, fsid), 0, a, k)
                        },
                ),
            },
    )
}

/// Stops the services of other clusters' OSDs.
pub fn stop_foreign_osd_units(s: &mut Script) -> (r: Result<(), Ask>)
    ensures
        effects::went(r, stop_foreign_flow(old(s).answers@, old(s).at as int), *old(s), *final(s)),
{
    let args: [&str; 4] = ["lvm", "list", "--format", "json"];
    assert((&args).model() =~= create::list_args());
    let raw = match ceph_cli::ceph_volume(s, &args)? {
        Ok(raw) => raw,
        Err(_) => return Ok(()),
    };
    let fsid = create::our_fsid(s)?;
    if fsid.as_str().unicode_len() == 0 {
        return Ok(());
    }
    let ids = lvm::foreign_osd_ids(raw.as_str(), fsid.as_str());
    let mut k: usize = 0;
    while k < ids.len()
        invariant
            k <= ids@.len(),
            s.answers == old(s).answers,
            stop_foreign_flow(s.answers@, old(s).at as int) == stop_foreign_from_flow(
                ids@,
                k as int,
                s.answers@,
                s.at as int,
            ),
        decreases ids@.len() - k,
    {
        let st = unit::osd_unit_state(s, ids[k])?;
        let leave = match &st {
            Some(t) => text::same(t.as_str(), "inactive"),
            None => true,
        };
        if !leave {
            unit::stop_osd_unit(s, ids[k])?;
        }
        k += 1;
    }
    Ok(())
}

/// Whether a question is to erase a disk of the list: the cluster does not have its
/// OSD, it is switched on, and it is not the machine's own volume.
pub open spec fn erases_forgotten(
    node: Seq<char>,
    meta: Seq<(Seq<char>, DiskModel)>,
    desired: Seq<(Seq<char>, Seq<char>)>,
    osds: Seq<(Seq<char>, i64)>,
    ids: Seq<i64>,
    q: AskModel,
) -> bool {
    exists|n: int|
        0 <= n < osds.len() && (#[trigger] osds[n]).0 != SYSTEM_OSD_ID@ && !ids.contains(osds[n].1)
            && plan::wanted(desired, node, osds[n].0) && path_in(meta, osds[n].0) is Some && (
        q matches AskModel::Run { args, .. } && args == destructive::zap_args(
            path_in(meta, osds[n].0).unwrap(),
            ZapWarrantModel::ForgottenByCluster { osd: osds[n].1, whole_disk: true },
        ))
}

proof fn lemma_erased(
    node: Seq<char>,
    meta: Seq<(Seq<char>, DiskModel)>,
    desired: Seq<(Seq<char>, Seq<char>)>,
    osds: Seq<(Seq<char>, i64)>,
    ids: Seq<i64>,
    k: int,
    out: Seq<Seq<char>>,
    a: Seq<Answer>,
    i: int,
    q: AskModel,
)
    requires
        erase_flow(node, meta, desired, osds, ids, k, out, a, i) == Flow::<Seq<Seq<char>>>::Wants(q),
        q matches AskModel::Run { bin, .. } && bin == "ceph-volume"@,
    ensures
        erases_forgotten(node, meta, desired, osds, ids, q),
    decreases osds.len() - k,
{
    let (disk, osd) = osds[k];
    if disk == SYSTEM_OSD_ID@ || ids.contains(osd) {
        lemma_erased(node, meta, desired, osds, ids, k + 1, out, a, i, q);
    } else if let Flow::Done(busy, j) = is_creating_flow(disk, a, i) {
        if busy {
            lemma_erased(node, meta, desired, osds, ids, k + 1, out, a, j, q);
        } else {
            match erase_one_flow(node, meta, desired, disk, osd, a, j) {
                Flow::Done(u, m) => {
                    lemma_erased(node, meta, desired, osds, ids, k + 1, out.push(disk), a, m, q);
                },
                Flow::Wants(w) => {
                    reveal_strlit("ceph-volume");
                    reveal_strlit("systemctl");
                    assert("ceph-volume"@.len() != "systemctl"@.len());
                    assert(w == q);
                    assert(osds[k].0 == disk);
                },
            }
        }
    }
}

/// A disk is erased only when the cluster was asked and no longer has its OSD, the
/// disk is switched on, and it is not the machine's own volume.
pub proof fn only_a_forgotten_disk_is_erased(
    node: Seq<char>,
    meta: Seq<(Seq<char>, DiskModel)>,
    desired: Seq<(Seq<char>, Seq<char>)>,
    osds: Seq<(Seq<char>, i64)>,
    a: Seq<Answer>,
    i: int,
    q: AskModel,
)
    requires
        forgotten_flow(node, meta, desired, osds, a, i) == Flow::<Seq<Seq<char>>>::Wants(q),
        q matches AskModel::Run { bin, .. } && bin == "ceph-volume"@,
    ensures
        host::osd_ids_flow(a, i) matches Flow::Done(Ok(ids), _) && erases_forgotten(
            node,
            meta,
            desired,
            osds,
            ids,
            q,
        ),
{
    match host::osd_ids_flow(a, i) {
        Flow::Done(Ok(ids), j) => {
            lemma_erased(node, meta, desired, osds, ids, 0, seq![], a, j, q);
        },
        _ => {
            reveal_strlit("ceph-volume");
            reveal_strlit("ceph");
            assert("ceph-volume"@.len() != "ceph"@.len());
        },
    }
}

/// Only a disk that may be taken is set up: it is switched on, carries no OSD of
/// ours, holds nothing that speaks against it, and is taken where it is.
pub proof fn only_a_wanted_disk_is_set_up(
    node: Seq<char>,
    meta: Seq<(Seq<char>, DiskModel)>,
    desired: Seq<(Seq<char>, Seq<char>)>,
    live: Seq<(Seq<char>, i64)>,
    forgotten: Seq<Seq<char>>,
    k: int,
    a: Seq<Answer>,
    i: int,
    disk: Seq<char>,
    dev: Seq<char>,
)
    requires
        consider_all_flow(node, meta, desired, live, forgotten, k, a, i) == Flow::<()>::Wants(
            AskModel::SpawnCreate { disk, dev_path: dev },
        ),
    ensures
        plan::wanted(desired, node, disk),
        !table::has(live, disk),
        exists|n: int|
            0 <= n < meta.len() && (#[trigger] meta[n]).0 == disk && plan::refusal(meta[n].1) is None
                && meta[n].1.path() == Some(dev),
    decreases meta.len() - k,
{
    let (id, d) = meta[k];
    if text::listed(forgotten, id) {
        only_a_wanted_disk_is_set_up(node, meta, desired, live, forgotten, k + 1, a, i, disk, dev);
    } else {
        match consider_flow(node, id, d, desired, live, a, i) {
            Flow::Done(_, j) => {
                only_a_wanted_disk_is_set_up(
                    node,
                    meta,
                    desired,
                    live,
                    forgotten,
                    k + 1,
                    a,
                    j,
                    disk,
                    dev,
                );
            },
            Flow::Wants(_) => {
                assert(meta[k].0 == id);
            },
        }
    }
}

// ── What holds of every tick ─────────────────────────────────────────────────

/// Saying something of one disk.
pub open spec fn telling(phase: Phase, message: Seq<char>, a: Seq<Answer>) -> spec_fn(
    Seq<char>,
    int,
) -> Flow<()> {
    |disk: Seq<char>, p: int|
        effects::done_flow(
            AskModel::Board(BoardAskModel::SetPhase { disk, phase, message }),
            a,
            p,
        )
}

/// Every disk is told the same, each in its turn.
pub proof fn every_disk_is_told(
    ids: Seq<Seq<char>>,
    phase: Phase,
    message: Seq<char>,
    k: int,
    a: Seq<Answer>,
    i: int,
)
    requires
        0 <= k <= ids.len(),
        0 <= i <= a.len(),
    ensures
        say_all_flow(ids, phase, message, k, a, i) == effects::in_turn(
            telling(phase, message, a),
            ids,
            k,
            i,
        ),
        say_all_flow(ids, phase, message, k, a, i) matches Flow::Done(_, j) ==> j == i + ids.len()
            - k,
    decreases ids.len() - k,
{
    if k < ids.len() && i < a.len() {
        every_disk_is_told(ids, phase, message, k + 1, a, i + 1);
    }
}

/// Setting one disk up where that can be, unless its OSD was just forgotten.
pub open spec fn considering(
    node: Seq<char>,
    desired: Seq<(Seq<char>, Seq<char>)>,
    live: Seq<(Seq<char>, i64)>,
    forgotten: Seq<Seq<char>>,
    a: Seq<Answer>,
) -> spec_fn((Seq<char>, DiskModel), int) -> Flow<()> {
    |d: (Seq<char>, DiskModel), p: int|
        if text::listed(forgotten, d.0) {
            Flow::Done((), p)
        } else {
            consider_flow(node, d.0, d.1, desired, live, a, p)
        }
}

/// Every disk whose OSD was not just forgotten is considered, each in its turn.
pub proof fn every_disk_is_considered(
    node: Seq<char>,
    meta: Seq<(Seq<char>, DiskModel)>,
    desired: Seq<(Seq<char>, Seq<char>)>,
    live: Seq<(Seq<char>, i64)>,
    forgotten: Seq<Seq<char>>,
    k: int,
    a: Seq<Answer>,
    i: int,
)
    requires
        0 <= k <= meta.len(),
    ensures
        consider_all_flow(node, meta, desired, live, forgotten, k, a, i) == effects::in_turn(
            considering(node, desired, live, forgotten, a),
            meta,
            k,
            i,
        ),
    decreases meta.len() - k,
{
    if k < meta.len() {
        if text::listed(forgotten, meta[k].0) {
            every_disk_is_considered(node, meta, desired, live, forgotten, k + 1, a, i);
        } else if let Flow::Done(_, j) = consider_flow(
            node,
            meta[k].0,
            meta[k].1,
            desired,
            live,
            a,
            i,
        ) {
            every_disk_is_considered(node, meta, desired, live, forgotten, k + 1, a, j);
        }
    }
}

/// What is decided about a disk is done: a reason against it is told, and where it can be
/// set up that is claimed; otherwise nothing more happens.
pub proof fn what_is_decided_of_a_disk_is_done(
    node: Seq<char>,
    disk: Seq<char>,
    d: DiskModel,
    desired: Seq<(Seq<char>, Seq<char>)>,
    live: Seq<(Seq<char>, i64)>,
    busy: bool,
    st: StandingModel,
    a: Seq<Answer>,
    i: int,
)
    requires
        0 <= i,
        a.len() == i + 2,
        is_creating_flow(disk, a, i) == Flow::<bool>::Done(busy, i + 1),
        create::look_flow(disk, a, i + 1) == Flow::Done(st, i + 2),
    ensures
        ({
            let f = consider_flow(node, disk, d, desired, live, a, i);
            match plan::create_plan(
                node,
                disk,
                d,
                desired,
                live,
                busy,
                st.progress.attempts,
                st.since_last,
            ) {
                CreatePlanModel::Blocked(reason) => f == Flow::<()>::Wants(
                    AskModel::Board(
                        BoardAskModel::SetPhase { disk, phase: Phase::Blocked, message: reason },
                    ),
                ),
                CreatePlanModel::Create { dev_path } => f == Flow::<()>::Wants(
                    AskModel::Board(BoardAskModel::Claim { disk }),
                ),
                _ => f == Flow::<()>::Done((), i + 2),
            }
        }),
{
}

/// Keeping the OSD of one disk running where it is wanted.
pub open spec fn keeping(
    node: Seq<char>,
    desired: Seq<(Seq<char>, Seq<char>)>,
    live: Seq<(Seq<char>, i64)>,
    a: Seq<Answer>,
) -> spec_fn(Seq<char>, int) -> Flow<()> {
    |id: Seq<char>, p: int|
        if table::find(live, id) is Some && plan::wanted(desired, node, id) {
            unit::ensure_flow(table::find(live, id)->0, a, p)
        } else {
            Flow::Done((), p)
        }
}

/// The OSD of every disk that is wanted is kept running, each in its turn.
pub proof fn every_wanted_osd_is_kept_running(
    node: Seq<char>,
    ids: Seq<Seq<char>>,
    desired: Seq<(Seq<char>, Seq<char>)>,
    live: Seq<(Seq<char>, i64)>,
    k: int,
    a: Seq<Answer>,
    i: int,
)
    requires
        0 <= k <= ids.len(),
    ensures
        keep_running_flow(node, ids, desired, live, k, a, i) == effects::in_turn(
            keeping(node, desired, live, a),
            ids,
            k,
            i,
        ),
    decreases ids.len() - k,
{
    if k < ids.len() {
        let f = keeping(node, desired, live, a)(ids[k], i);
        if let Flow::Done(_, j) = f {
            every_wanted_osd_is_kept_running(node, ids, desired, live, k + 1, a, j);
        }
    }
}

/// Stopping one OSD of another cluster, unless it is known not to run or its state cannot
/// be told.
pub open spec fn stopping(a: Seq<Answer>) -> spec_fn(i64, int) -> Flow<()> {
    |osd: i64, p: int|
        match unit::unit_state_flow(osd, a, p) {
            Flow::Wants(q) => Flow::Wants(q),
            Flow::Done(Some(st), j) => if st != "inactive"@ {
                unit::stop_flow(osd, a, j)
            } else {
                Flow::Done((), j)
            },
            Flow::Done(None, j) => Flow::Done((), j),
        }
}

/// Every OSD of another cluster that runs is stopped, each in its turn.
pub proof fn every_foreign_osd_is_stopped(ids: Seq<i64>, k: int, a: Seq<Answer>, i: int)
    requires
        0 <= k <= ids.len(),
    ensures
        stop_foreign_from_flow(ids, k, a, i) == effects::in_turn(stopping(a), ids, k, i),
    decreases ids.len() - k,
{
    if k < ids.len() {
        if let Flow::Done(_, j) = stopping(a)(ids[k], i) {
            every_foreign_osd_is_stopped(ids, k + 1, a, j);
        }
    }
}

/// What stays live is exactly what is not named.
pub proof fn what_is_not_named_stays(
    osds: Seq<(Seq<char>, i64)>,
    names: Seq<Seq<char>>,
    n: int,
    e: (Seq<char>, i64),
)
    requires
        0 <= n <= osds.len(),
    ensures
        without(osds, names, n).contains(e) <==> !names.contains(e.0) && exists|x: int|
            0 <= x < n && #[trigger] osds[x] == e,
    decreases n,
{
    if n > 0 {
        what_is_not_named_stays(osds, names, n - 1, e);
        let rest = without(osds, names, n - 1);
        if !text::listed(names, osds[n - 1].0) {
            let all = rest.push(osds[n - 1]);
            assert(all[rest.len() as int] == osds[n - 1]);
            if rest.contains(e) {
                let x = choose|x: int| 0 <= x < rest.len() && rest[x] == e;
                assert(all[x] == e);
            }
            if all.contains(e) && e != osds[n - 1] {
                let x = choose|x: int| 0 <= x < all.len() && all[x] == e;
                assert(rest[x] == e);
            }
        }
    }
}

/// An OSD that the cluster no longer has is stopped before anything else. A disk that is
/// not wanted is then only told to be removable; one that is wanted is erased, and it is
/// told whether that succeeded.
pub proof fn a_forgotten_osd_is_stopped_first(
    node: Seq<char>,
    meta: Seq<(Seq<char>, DiskModel)>,
    desired: Seq<(Seq<char>, Seq<char>)>,
    disk: Seq<char>,
    osd: i64,
    a: Seq<Answer>,
    i: int,
)
    requires
        0 <= i <= a.len(),
    ensures
        ({
            let f = erase_one_flow(node, meta, desired, disk, osd, a, i);
            let on = plan::wanted(desired, node, disk);
            &&& a.len() == i ==> (f matches Flow::Wants(AskModel::Run { bin, args, .. }) && bin
                == "systemctl"@ && args == seq!["stop"@, unit::unit_of(osd)])
            &&& a.len() == i + 1 && !on ==> f == Flow::<()>::Wants(
                AskModel::Board(
                    BoardAskModel::SetPhase {
                        disk,
                        phase: Phase::Removable,
                        message: NOT_IN_USE@,
                    },
                ),
            )
            &&& a.len() == i + 2 && !on ==> f == Flow::<()>::Done((), i + 2)
            &&& a.len() >= i + 1 && on && path_in(meta, disk) is None ==> f == Flow::<()>::Done(
                (),
                i + 1,
            )
            &&& a.len() >= i + 1 && on ==> (path_in(meta, disk) matches Some(dev)
                ==> match destructive::zap_flow(
                dev,
                ZapWarrantModel::ForgottenByCluster { osd, whole_disk: true },
                a,
                i + 1,
            ) {
                Flow::Wants(q) => f == Flow::<()>::Wants(q),
                Flow::Done(Ok(_), j) => f == create::say_flow(disk, Phase::Creating, ERASING@, a, j),
                Flow::Done(Err(_), j) => f == create::say_flow(
                    disk,
                    Phase::Retrying,
                    setup::COULD_NOT_ERASE@,
                    a,
                    j,
                ),
            })
        }),
{
}

/// What is erased as forgotten is never the machine's own volume and never an OSD that
/// the cluster still has.
pub proof fn only_forgotten_osds_are_erased(
    node: Seq<char>,
    meta: Seq<(Seq<char>, DiskModel)>,
    desired: Seq<(Seq<char>, Seq<char>)>,
    osds: Seq<(Seq<char>, i64)>,
    ids: Seq<i64>,
    k: int,
    out: Seq<Seq<char>>,
    a: Seq<Answer>,
    i: int,
)
    requires
        0 <= k <= osds.len(),
    ensures
        erase_flow(node, meta, desired, osds, ids, k, out, a, i) matches Flow::Done(r, _)
            ==> r.len() >= out.len() && forall|x: int|
            #![trigger r[x]]
            out.len() <= x < r.len() ==> r[x] != SYSTEM_OSD_ID@ && exists|n: int|
                k <= n < osds.len() && (#[trigger] osds[n]).0 == r[x] && !ids.contains(osds[n].1),
        k < osds.len() && osds[k].0 != SYSTEM_OSD_ID@ && !ids.contains(osds[k].1) && i == a.len()
            && 0 <= i ==> erase_flow(node, meta, desired, osds, ids, k, out, a, i) == Flow::<
            Seq<Seq<char>>,
        >::Wants(AskModel::Board(BoardAskModel::IsCreating { disk: osds[k].0 })),
        k < osds.len() && (osds[k].0 == SYSTEM_OSD_ID@ || ids.contains(osds[k].1)) ==> erase_flow(
            node,
            meta,
            desired,
            osds,
            ids,
            k,
            out,
            a,
            i,
        ) == erase_flow(node, meta, desired, osds, ids, k + 1, out, a, i),
    decreases osds.len() - k,
{
    if k < osds.len() {
        if osds[k].0 == SYSTEM_OSD_ID@ || ids.contains(osds[k].1) {
            only_forgotten_osds_are_erased(node, meta, desired, osds, ids, k + 1, out, a, i);
        } else if let Flow::Done(busy, j) = is_creating_flow(osds[k].0, a, i) {
            if busy {
                only_forgotten_osds_are_erased(node, meta, desired, osds, ids, k + 1, out, a, j);
            } else if let Flow::Done(_, m) = erase_one_flow(
                node,
                meta,
                desired,
                osds[k].0,
                osds[k].1,
                a,
                j,
            ) {
                let next = out.push(osds[k].0);
                only_forgotten_osds_are_erased(node, meta, desired, osds, ids, k + 1, next, a, m);
                assert(erase_flow(node, meta, desired, osds, ids, k, out, a, i) == erase_flow(
                    node,
                    meta,
                    desired,
                    osds,
                    ids,
                    k + 1,
                    next,
                    a,
                    m,
                ));
                lemma_erased_keeps(node, meta, desired, osds, ids, k + 1, next, a, m);
                if let Flow::Done(r, _) = erase_flow(
                    node,
                    meta,
                    desired,
                    osds,
                    ids,
                    k + 1,
                    next,
                    a,
                    m,
                ) {
                    assert(r.take(next.len() as int)[out.len() as int] == osds[k].0);
                    assert(r[out.len() as int] == osds[k].0);
                }
            }
        }
    }
}

proof fn lemma_erased_keeps(
    node: Seq<char>,
    meta: Seq<(Seq<char>, DiskModel)>,
    desired: Seq<(Seq<char>, Seq<char>)>,
    osds: Seq<(Seq<char>, i64)>,
    ids: Seq<i64>,
    k: int,
    out: Seq<Seq<char>>,
    a: Seq<Answer>,
    i: int,
)
    requires
        0 <= k <= osds.len(),
    ensures
        erase_flow(node, meta, desired, osds, ids, k, out, a, i) matches Flow::Done(r, _)
            ==> r.len() >= out.len() && r.take(out.len() as int) == out,
    decreases osds.len() - k,
{
    if k < osds.len() {
        if osds[k].0 == SYSTEM_OSD_ID@ || ids.contains(osds[k].1) {
            lemma_erased_keeps(node, meta, desired, osds, ids, k + 1, out, a, i);
        } else if let Flow::Done(busy, j) = is_creating_flow(osds[k].0, a, i) {
            if busy {
                lemma_erased_keeps(node, meta, desired, osds, ids, k + 1, out, a, j);
            } else if let Flow::Done(_, m) = erase_one_flow(
                node,
                meta,
                desired,
                osds[k].0,
                osds[k].1,
                a,
                j,
            ) {
                let next = out.push(osds[k].0);
                lemma_erased_keeps(node, meta, desired, osds, ids, k + 1, next, a, m);
                if let Flow::Done(r, _) = erase_flow(
                    node,
                    meta,
                    desired,
                    osds,
                    ids,
                    k + 1,
                    next,
                    a,
                    m,
                ) {
                    assert(r.take(next.len() as int)[out.len() as int] == osds[k].0);
                    assert forall|x: int| 0 <= x < out.len() implies r[x] == out[x] by {
                        assert(r.take(next.len() as int)[x] == next[x]);
                    }
                    assert(r.take(out.len() as int) =~= out);
                }
            }
        }
    }
}

} // verus!
