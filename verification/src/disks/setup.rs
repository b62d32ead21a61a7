//! Setting up a disk as storage, and what is done when that fails.
use vstd::prelude::*;

use crate::ceph::destructive;
use crate::ceph::destructive::{ZapWarrant, ZapWarrantModel};
use crate::ceph_cli;
use crate::disks::board::{BoardAsk, BoardAskModel, Phase, StandingModel};
use crate::disks::create;
use crate::disks::disk::{DiskModel, SYSTEM_OSD_DEV, SYSTEM_OSD_ID};
use crate::disks::plan;
use crate::disks::unit;
use crate::effects;
use crate::effects::{Answer, Ask, AskModel, Flow, Script};
use crate::error::{Error, ErrorModel};
use crate::exec::{CmdError, CmdErrorModel, CommandOutputModel};
use crate::host;
use crate::model::Model;
use crate::text;

verus! {

// ── What a failed attempt left behind ────────────────────────────────────────

/// Removing an OSD that Ceph said can be destroyed, and forgetting it once it is
/// gone.
pub open spec fn purge_orphan_flow(disk: Seq<char>, id: i64, a: Seq<Answer>, i: int) -> Flow<()> {
    destructive::purge_flow(id, a, i).and_then(
        |p: Result<Option<i64>, CmdErrorModel>, j: int|
            match p {
                Ok(Some(_)) => create::orphan_flow(disk, None, a, j),
                _ => Flow::Done((), j),
            },
    )
}

/// Removing what a failed attempt left behind: only an OSD that still exists, and
/// only once Ceph says it can be destroyed.
pub open spec fn remove_orphan_flow(disk: Seq<char>, id: i64, a: Seq<Answer>, i: int) -> Flow<()> {
    host::osd_ids_flow(a, i).and_then(
        |r: Result<Seq<i64>, CmdErrorModel>, j: int|
            match r {
                Err(_) => Flow::Done((), j),
                Ok(ids) => if !ids.contains(id) {
                    create::orphan_flow(disk, None, a, j)
                } else {
                    destructive::safe_flow(id, a, j).and_then(
                        |p: Result<Option<i64>, CmdErrorModel>, k: int|
                            match p {
                                Ok(Some(safe)) => purge_orphan_flow(disk, safe, a, k),
                                _ => Flow::Done((), k),
                            },
                    )
                },
            },
    )
}

/// Removing what a failed attempt on a disk left behind, if it did.
pub open spec fn reclaim_flow(disk: Seq<char>, a: Seq<Answer>, i: int) -> Flow<()> {
    create::look_flow(disk, a, i).and_then(
        |st: StandingModel, j: int|
            match st.progress.orphan_osd_id {
                None => Flow::Done((), j),
                Some(id) => remove_orphan_flow(disk, id, a, j),
            },
    )
}

fn forget_orphan(s: &mut Script, disk: &str) -> (r: Result<(), Ask>)
    ensures
        effects::went(
            r,
            create::orphan_flow(disk@, None, old(s).answers@, old(s).at as int),
            *old(s),
            *final(s),
        ),
{
    s.done(Ask::Board(BoardAsk::SetOrphan { disk: disk.to_owned(), osd: None }))
}

/// Removes what a failed attempt on a disk left behind, if it did.
pub fn reclaim_orphan(s: &mut Script, disk_id: &str) -> (r: Result<(), Ask>)
    ensures
        effects::went(r, reclaim_flow(disk_id@, old(s).answers@, old(s).at as int), *old(s), *final(s)),
{
    let st = s.standing(Ask::Board(BoardAsk::Look { disk: disk_id.to_owned() }))?;
    let id: i64 = match st.progress.orphan_osd_id {
        Some(id) => id,
        None => return Ok(()),
    };
    let existing = match host::osd_ids(s)? {
        Ok(ids) => ids,
        Err(_) => return Ok(()),
    };
    assert(existing.model() =~= existing@);
    if !destructive::holds(&existing, id) {
        return forget_orphan(s, disk_id);
    }
    let evidence = match destructive::safe_to_destroy(s, id)? {
        Ok(Some(p)) => p,
        _ => return Ok(()),
    };
    match destructive::purge_safe(s, evidence)? {
        Ok(Some(_)) => forget_orphan(s, disk_id),
        _ => Ok(()),
    }
}

// ── Setting up ───────────────────────────────────────────────────────────────

pub const COULD_NOT_ERASE: &'static str = "Could not erase this disk yet. YoLab will keep trying.";

pub const COULD_NOT_ADD: &'static str = "Could not add this disk yet. YoLab will keep trying.";

pub const ADDED: &'static str = "Added to the storage pool.";

pub const ADDED_WAITING: &'static str = "Added to the storage pool; waiting for it to come online.";

pub const ADDED_CHECKING: &'static str = "Added. Checking it is working…";

/// The command that makes a device an OSD.
pub open spec fn create_args(dev: Seq<char>) -> Seq<Seq<char>> {
    seq!["lvm"@, "create"@, "--bluestore"@, "--data"@, dev, "--no-systemd"@]
}

/// The first of a list that another one does not have.
pub open spec fn first_new(after: Seq<i64>, before: Seq<i64>, k: int) -> Option<i64>
    decreases after.len() - k,
{
    if k < 0 || k >= after.len() {
        None
    } else if before.contains(after[k]) {
        first_new(after, before, k + 1)
    } else {
        Some(after[k])
    }
}

fn find_new(after: &Vec<i64>, before: &Vec<i64>) -> (r: Option<i64>)
    ensures
        r == first_new(after@, before@, 0),
{
    let mut k: usize = 0;
    while k < after.len()
        invariant
            k <= after@.len(),
            first_new(after@, before@, 0) == first_new(after@, before@, k as int),
        decreases after@.len() - k,
    {
        if !destructive::holds(before, after[k]) {
            return Some(after[k]);
        }
        k += 1;
    }
    None
}

/// The OSD that a failed attempt left behind, if it can be told.
pub open spec fn leaked(before: Option<Seq<i64>>, after: Option<Seq<i64>>) -> Option<i64> {
    match (before, after) {
        (Some(b), Some(n)) => first_new(n, b, 0),
        _ => None,
    }
}

/// A list that may not have been read.
pub open spec fn known(r: Result<Seq<i64>, CmdErrorModel>) -> Option<Seq<i64>> {
    match r {
        Ok(l) => Some(l),
        Err(_) => None,
    }
}

/// After a failed attempt: an OSD it left behind is noted and removed, and the
/// disk is tried again later.
pub open spec fn failed_flow(
    disk: Seq<char>,
    before: Option<Seq<i64>>,
    a: Seq<Answer>,
    i: int,
) -> Flow<()> {
    host::osd_ids_flow(a, i).and_then(
        |r: Result<Seq<i64>, CmdErrorModel>, j: int|
            match leaked(before, known(r)) {
                Some(id) => create::orphan_flow(disk, Some(id), a, j).and_then(
                    |u: (), k: int|
                        reclaim_flow(disk, a, k).and_then(
                            |u: (), m: int|
                                create::say_flow(disk, Phase::Retrying, COULD_NOT_ADD@, a, m),
                        ),
                ),
                None => create::say_flow(disk, Phase::Retrying, COULD_NOT_ADD@, a, j),
            },
    )
}

/// After a successful attempt: the disk is in use once its OSD is seen on it.
pub open spec fn added_flow(disk: Seq<char>, dev: Seq<char>, a: Seq<Answer>, i: int) -> Flow<()> {
    create::local_osds_flow(a, i).and_then(
        |r: Result<Seq<(Seq<char>, i64)>, ErrorModel>, j: int|
            match r {
                Err(_) => create::say_flow(disk, Phase::Creating, ADDED_CHECKING@, a, j),
                Ok(local) => create::canonical_flow(dev, a, j).and_then(
                    |want: Seq<char>, k: int|
                        create::find_on_flow(local, want, 0, a, k).and_then(
                            |f: Option<i64>, m: int|
                                match f {
                                    None => create::say_flow(
                                        disk,
                                        Phase::Creating,
                                        ADDED_WAITING@,
                                        a,
                                        m,
                                    ),
                                    Some(id) => unit::start_flow(id, a, m).and_then(
                                        |u: (), n: int|
                                            create::say_flow(
                                                disk,
                                                Phase::Active,
                                                ADDED@,
                                                a,
                                                n,
                                            ).and_then(
                                                |u: (), o: int|
                                                    effects::done_flow(
                                                        AskModel::Board(
                                                            BoardAskModel::Settle { disk },
                                                        ),
                                                        a,
                                                        o,
                                                    ),
                                            ),
                                    ),
                                },
                        ),
                ),
            },
    )
}

/// After an attempt.
pub open spec fn attempted_flow(
    disk: Seq<char>,
    dev: Seq<char>,
    before: Option<Seq<i64>>,
    r: Result<Seq<char>, CmdErrorModel>,
    a: Seq<Answer>,
    i: int,
) -> Flow<()> {
    match r {
        Ok(_) => added_flow(disk, dev, a, i),
        Err(_) => failed_flow(disk, before, a, i),
    }
}

/// Making a device an OSD: once more after erasing it, if an old signature stood in
/// the way.
pub open spec fn attempt_flow(
    disk: Seq<char>,
    dev: Seq<char>,
    before: Option<Seq<i64>>,
    a: Seq<Answer>,
    i: int,
) -> Flow<()> {
    ceph_cli::ceph_volume_flow(create_args(dev), a, i).and_then(
        |r: Result<Seq<char>, CmdErrorModel>, j: int|
            if r matches Err(e) && destructive::stale(e) {
                destructive::zap_flow(dev, ZapWarrantModel::StaleSignature, a, j).and_then(
                    |z: Result<(), CmdErrorModel>, k: int|
                        match z {
                            Err(_) => attempted_flow(disk, dev, before, r, a, k),
                            Ok(_) => ceph_cli::ceph_volume_flow(create_args(dev), a, k).and_then(
                                |again: Result<Seq<char>, CmdErrorModel>, m: int|
                                    attempted_flow(disk, dev, before, again, a, m),
                            ),
                        },
                )
            } else {
                attempted_flow(disk, dev, before, r, a, j)
            },
    )
}

/// Clearing a disk of old signatures, then making it an OSD. A logical volume is
/// not cleared.
pub open spec fn prepare_flow(
    disk: Seq<char>,
    dev: Seq<char>,
    before: Option<Seq<i64>>,
    a: Seq<Answer>,
    i: int,
) -> Flow<()> {
    if destructive::is_volume(dev) {
        attempt_flow(disk, dev, before, a, i)
    } else {
        host::run_cmd_flow("wipefs"@, seq!["--all"@, dev], host::RUN_CMD_SECS, a, i).and_then(
            |r: Result<CommandOutputModel, CmdErrorModel>, j: int|
                attempt_flow(disk, dev, before, a, j),
        )
    }
}

/// Setting up a disk: what a failed attempt left behind is removed first, and an
/// OSD of another cluster on it is erased before it is made one of ours.
pub open spec fn create_osd_flow(disk: Seq<char>, dev: Seq<char>, a: Seq<Answer>, i: int) -> Flow<
    (),
> {
    reclaim_flow(disk, a, i).and_then(
        |u: (), j: int|
            host::osd_ids_flow(a, j).and_then(
                |before: Result<Seq<i64>, CmdErrorModel>, k: int|
                    create::foreign_on_flow(dev, a, k).and_then(
                        |f: Option<i64>, m: int|
                            match f {
                                None => prepare_flow(disk, dev, known(before), a, m),
                                Some(osd) => destructive::zap_flow(
                                    dev,
                                    ZapWarrantModel::ForeignCluster { osd },
                                    a,
                                    m,
                                ).and_then(
                                    |z: Result<(), CmdErrorModel>, n: int|
                                        match z {
                                            Err(_) => create::say_flow(
                                                disk,
                                                Phase::Retrying,
                                                COULD_NOT_ERASE@,
                                                a,
                                                n,
                                            ),
                                            Ok(_) => prepare_flow(
                                                disk,
                                                dev,
                                                known(before),
                                                a,
                                                n,
                                            ),
                                        },
                                ),
                            },
                    ),
            ),
    )
}

fn make_osd(s: &mut Script, dev: &str) -> (r: Result<Result<String, CmdError>, Ask>)
    ensures
        effects::went(
            r,
            ceph_cli::ceph_volume_flow(create_args(dev@), old(s).answers@, old(s).at as int),
            *old(s),
            *final(s),
        ),
{
    let args: [&str; 6] = ["lvm", "create", "--bluestore", "--data", dev, "--no-systemd"];
    assert((&args).model() =~= create_args(dev@));
    ceph_cli::ceph_volume(s, &args)
}

fn after_failure(s: &mut Script, disk_id: &str, before: &Option<Vec<i64>>) -> (r: Result<(), Ask>)
    ensures
        effects::went(
            r,
            failed_flow(disk_id@, before.model(), old(s).answers@, old(s).at as int),
            *old(s),
            *final(s),
        ),
{
    let after = match host::osd_ids(s)? {
        Ok(ids) => Some(ids),
        Err(_) => None,
    };
    let lost = match (before, &after) {
        (Some(b), Some(n)) => {
            assert(b.model() =~= b@);
            assert(n.model() =~= n@);
            find_new(n, b)
        },
        _ => None,
    };
    if let Some(id) = lost {
        s.done(Ask::Board(BoardAsk::SetOrphan { disk: disk_id.to_owned(), osd: Some(id) }))?;
        reclaim_orphan(s, disk_id)?;
    }
    create::set_phase(s, disk_id, Phase::Retrying, COULD_NOT_ADD)
}

fn after_success(s: &mut Script, disk_id: &str, dev_path: &str) -> (r: Result<(), Ask>)
    ensures
        effects::went(
            r,
            added_flow(disk_id@, dev_path@, old(s).answers@, old(s).at as int),
            *old(s),
            *final(s),
        ),
{
    let local = match create::local_osds(s)? {
        Ok(l) => l,
        Err(_) => return create::set_phase(s, disk_id, Phase::Creating, ADDED_CHECKING),
    };
    let want = create::canonical_device(s, dev_path)?;
    match create::find_on(s, &local, want.as_str())? {
        Some(id) => {
            unit::start_osd_unit(s, id)?;
            create::set_phase(s, disk_id, Phase::Active, ADDED)?;
            s.done(Ask::Board(BoardAsk::Settle { disk: disk_id.to_owned() }))
        },
        None => create::set_phase(s, disk_id, Phase::Creating, ADDED_WAITING),
    }
}

fn attempt(s: &mut Script, disk_id: &str, dev_path: &str, before: &Option<Vec<i64>>) -> (r: Result<
    (),
    Ask,
>)
    ensures
        effects::went(
            r,
            attempt_flow(disk_id@, dev_path@, before.model(), old(s).answers@, old(s).at as int),
            *old(s),
            *final(s),
        ),
{
    let mut result = make_osd(s, dev_path)?;
    let warrant = match &result {
        Err(e) => ZapWarrant::stale_signature(e),
        Ok(_) => None,
    };
    if let Some(w) = warrant {
        if let Ok(_) = destructive::zap(s, dev_path, w)? {
            result = make_osd(s, dev_path)?;
        }
    }
    match result {
        Ok(_) => after_success(s, disk_id, dev_path),
        Err(_) => after_failure(s, disk_id, before),
    }
}

/// Sets up a disk as storage.
pub fn create_osd(s: &mut Script, disk_id: &str, dev_path: &str) -> (r: Result<(), Ask>)
    ensures
        effects::went(
            r,
            create_osd_flow(disk_id@, dev_path@, old(s).answers@, old(s).at as int),
            *old(s),
            *final(s),
        ),
{
    reclaim_orphan(s, disk_id)?;
    let before = match host::osd_ids(s)? {
        Ok(ids) => Some(ids),
        Err(_) => None,
    };
    if let Some(id) = create::foreign_osd_on(s, dev_path)? {
        if let Err(_) = destructive::zap(s, dev_path, ZapWarrant::ForeignCluster { osd: id })? {
            return create::set_phase(s, disk_id, Phase::Retrying, COULD_NOT_ERASE);
        }
    }
    if !destructive::is_lv(dev_path) {
        let args: [&str; 2] = ["--all", dev_path];
        assert((&args).model() =~= seq!["--all"@, dev_path@]);
        let _ = host::run_cmd(s, "wipefs", &args)?;
    }
    attempt(s, disk_id, dev_path, &before)
}

// ── The machine's own volume ─────────────────────────────────────────────────

/// Whether something waited for is there.
#[derive(Debug)]
pub enum Attempt {
    Ready,
    NotYet(String),
}

/// An `Attempt` with its text as characters.
pub enum AttemptModel {
    Ready,
    NotYet(Seq<char>),
}

impl Model for Attempt {
    type M = AttemptModel;

    open spec fn model(&self) -> AttemptModel {
        match *self {
            Attempt::Ready => AttemptModel::Ready,
            Attempt::NotYet(m) => AttemptModel::NotYet(m@),
        }
    }
}

/// Setting up the machine's own volume, and looking whether that succeeded.
pub open spec fn lv_create_flow(
    dev: Seq<char>,
    fsid: Seq<char>,
    system: Seq<char>,
    a: Seq<Answer>,
    i: int,
) -> Flow<Result<AttemptModel, ErrorModel>> {
    create::lv_meta_flow(dev, fsid, a, i).and_then(
        |d: DiskModel, j: int|
            match plan::refusal(d) {
                Some(reason) => Flow::Done(Ok(AttemptModel::NotYet(dev + ": "@ + reason)), j),
                None => create_osd_flow(SYSTEM_OSD_ID@, dev, a, j).and_then(
                    |u: (), k: int|
                        create::local_osds_flow(a, k).and_then(
                            |r: Result<Seq<(Seq<char>, i64)>, ErrorModel>, m: int|
                                match r {
                                    Err(e) => Flow::Done(Err(e), m),
                                    Ok(local) => create::find_on_flow(
                                        local,
                                        system,
                                        0,
                                        a,
                                        m,
                                    ).and_then(
                                        |f: Option<i64>, n: int|
                                            Flow::Done(
                                                Ok(
                                                    match f {
                                                        Some(_) => AttemptModel::Ready,
                                                        None => AttemptModel::NotYet(
                                                            "creating the OSD on "@ + dev
                                                                + " did not succeed (the reason is logged above)"@,
                                                        ),
                                                    },
                                                ),
                                                n,
                                            ),
                                    ),
                                },
                        ),
                ),
            },
    )
}

/// The machine's own volume carries an OSD: it is started when the cluster has it,
/// and erased when the cluster no longer has it.
pub open spec fn lv_found_flow(
    dev: Seq<char>,
    fsid: Seq<char>,
    system: Seq<char>,
    id: i64,
    a: Seq<Answer>,
    i: int,
) -> Flow<Result<AttemptModel, ErrorModel>> {
    host::osd_ids_flow(a, i).and_then(
        |r: Result<Seq<i64>, CmdErrorModel>, j: int|
            match r {
                Err(e) => Flow::Done(
                    Ok(
                        AttemptModel::NotYet(
                            "cannot tell whether "@ + destructive::osd_name(id) + " on "@ + dev
                                + " still exists ("@ + e.shown() + ")"@,
                        ),
                    ),
                    j,
                ),
                Ok(ids) => if ids.contains(id) {
                    unit::start_flow(id, a, j).and_then(
                        |u: (), k: int| Flow::Done(Ok(AttemptModel::Ready), k),
                    )
                } else {
                    destructive::zap_flow(
                        dev,
                        ZapWarrantModel::ForgottenByCluster { osd: id, whole_disk: false },
                        a,
                        j,
                    ).and_then(
                        |z: Result<(), CmdErrorModel>, k: int|
                            match z {
                                Err(e) => Flow::Done(Err(ErrorModel::command(e)), k),
                                Ok(_) => lv_create_flow(dev, fsid, system, a, k),
                            },
                    )
                },
            },
    )
}

/// Seeing to it that a volume of the machine carries an OSD of this cluster.
pub open spec fn lv_attempt_flow(dev: Seq<char>, a: Seq<Answer>, i: int) -> Flow<
    Result<AttemptModel, ErrorModel>,
> {
    effects::yes_flow(AskModel::Exists { path: dev }, a, i).and_then(
        |there: bool, j: int|
            if !there {
                Flow::Done(
                    Err(
                        ErrorModel::message(
                            dev
                                + " does not exist — this machine was not installed with the YoLab disk layout, so it has nowhere to keep its image store"@,
                        ),
                    ),
                    j,
                )
            } else {
                ceph_cli::cluster_fsid_flow(a, j).and_then(
                    |r: Result<Seq<char>, CmdErrorModel>, k: int|
                        match r {
                            Err(e) => Flow::Done(
                                Ok(
                                    AttemptModel::NotYet(
                                        "cannot read this cluster's id yet ("@ + e.shown() + ")"@,
                                    ),
                                ),
                                k,
                            ),
                            Ok(fsid) => create::canonical_flow(dev, a, k).and_then(
                                |system: Seq<char>, m: int|
                                    create::local_osds_flow(a, m).and_then(
                                        |l: Result<Seq<(Seq<char>, i64)>, ErrorModel>, n: int|
                                            match l {
                                                Err(e) => Flow::Done(Err(e), n),
                                                Ok(local) => create::find_on_flow(
                                                    local,
                                                    system,
                                                    0,
                                                    a,
                                                    n,
                                                ).and_then(
                                                    |f: Option<i64>, o: int|
                                                        match f {
                                                            Some(id) => lv_found_flow(
                                                                dev,
                                                                fsid,
                                                                system,
                                                                id,
                                                                a,
                                                                o,
                                                            ),
                                                            None => lv_create_flow(
                                                                dev,
                                                                fsid,
                                                                system,
                                                                a,
                                                                o,
                                                            ),
                                                        },
                                                ),
                                            },
                                    ),
                            ),
                        },
                )
            },
    )
}

fn create_on_lv(s: &mut Script, dev: &str, our_fsid: &str, system: &str) -> (r: Result<
    Result<Attempt, Error>,
    Ask,
>)
    ensures
        effects::went(
            r,
            lv_create_flow(dev@, our_fsid@, system@, old(s).answers@, old(s).at as int),
            *old(s),
            *final(s),
        ),
{
    let meta = create::lv_osd_meta(s, dev, our_fsid)?;
    if let Some(reason) = plan::refuse_osd_creation(&meta) {
        return Ok(Ok(Attempt::NotYet(text::cat3(dev, ": ", reason))));
    }
    create_osd(s, SYSTEM_OSD_ID, dev)?;
    let local = match create::local_osds(s)? {
        Ok(l) => l,
        Err(e) => return Ok(Err(e)),
    };
    match create::find_on(s, &local, system)? {
        Some(_) => Ok(Ok(Attempt::Ready)),
        None => Ok(
            Ok(
                Attempt::NotYet(
                    text::cat3(
                        "creating the OSD on ",
                        dev,
                        " did not succeed (the reason is logged above)",
                    ),
                ),
            ),
        ),
    }
}

/// Sees to it that a volume of the machine carries an OSD of this cluster.
pub fn lv_osd_attempt(s: &mut Script, dev: &str) -> (r: Result<Result<Attempt, Error>, Ask>)
    ensures
        effects::went(r, lv_attempt_flow(dev@, old(s).answers@, old(s).at as int), *old(s), *final(s)),
{
    if !s.yes(Ask::Exists { path: dev.to_owned() })? {
        let m = text::cat(
            dev,
            " does not exist — this machine was not installed with the YoLab disk layout, so it has nowhere to keep its image store",
        );
        return Ok(Err(Error::msg(m.as_str())));
    }
    let our_fsid = match ceph_cli::cluster_fsid(s)? {
        Ok(f) => f,
        Err(e) => {
            let shown = e.shown();
            return Ok(
                Ok(
                    Attempt::NotYet(
                        text::cat3("cannot read this cluster's id yet (", shown.as_str(), ")"),
                    ),
                ),
            );
        },
    };
    let system = create::canonical_device(s, dev)?;
    let local = match create::local_osds(s)? {
        Ok(l) => l,
        Err(e) => return Ok(Err(e)),
    };
    if let Some(id) = create::find_on(s, &local, system.as_str())? {
        match host::osd_ids(s)? {
            Err(e) => {
                let shown = e.shown();
                let name = destructive::name_of(id);
                let mut m = text::cat4("cannot tell whether ", name.as_str(), " on ", dev);
                m.append(" still exists (");
                m.append(shown.as_str());
                m.append(")");
                return Ok(Ok(Attempt::NotYet(m)));
            },
            Ok(ids) => {
                assert(ids.model() =~= ids@);
                if destructive::holds(&ids, id) {
                    unit::start_osd_unit(s, id)?;
                    return Ok(Ok(Attempt::Ready));
                }
                if let Err(e) = destructive::zap(
                    s,
                    dev,
                    ZapWarrant::ForgottenByCluster { osd: id, whole_disk: false },
                )? {
                    return Ok(Err(Error::new(e)));
                }
            },
        }
    }
    create_on_lv(s, dev, our_fsid.as_str(), system.as_str())
}

/// Sees to it that the machine's own volume carries an OSD of this cluster.
pub fn system_osd_attempt(s: &mut Script) -> (r: Result<Result<Attempt, Error>, Ask>)
    ensures
        effects::went(
            r,
            lv_attempt_flow(SYSTEM_OSD_DEV@, old(s).answers@, old(s).at as int),
            *old(s),
            *final(s),
        ),
{
    lv_osd_attempt(s, SYSTEM_OSD_DEV)
}

// ── In the background ────────────────────────────────────────────────────────

/// What is told while a disk is being set up.
pub open spec fn creating_text(attempt: u32) -> Seq<char> {
    if attempt == 1 {
        "Setting this disk up for storage…"@
    } else {
        "Still setting this disk up… (attempt "@ + text::decimal(attempt as nat) + ")"@
    }
}

/// Starting to set up a disk, unless that is going on already.
pub open spec fn spawn_flow(disk: Seq<char>, dev: Seq<char>, a: Seq<Answer>, i: int) -> Flow<()> {
    effects::yes_flow(AskModel::Board(BoardAskModel::Claim { disk }), a, i).and_then(
        |mine: bool, j: int|
            if !mine {
                Flow::Done((), j)
            } else {
                effects::count_flow(AskModel::Board(BoardAskModel::Begin { disk }), a, j).and_then(
                    |n: u32, k: int|
                        create::say_flow(disk, Phase::Creating, creating_text(n), a, k).and_then(
                            |u: (), m: int|
                                effects::done_flow(
                                    AskModel::SpawnCreate { disk, dev_path: dev },
                                    a,
                                    m,
                                ),
                        ),
                )
            },
    )
}

/// Starts to set up a disk, unless that is going on already.
pub fn spawn_create(s: &mut Script, disk_id: &str, dev_path: &str) -> (r: Result<(), Ask>)
    ensures
        effects::went(
            r,
            spawn_flow(disk_id@, dev_path@, old(s).answers@, old(s).at as int),
            *old(s),
            *final(s),
        ),
{
    if !s.yes(Ask::Board(BoardAsk::Claim { disk: disk_id.to_owned() }))? {
        return Ok(());
    }
    let attempt: u32 = s.count(Ask::Board(BoardAsk::Begin { disk: disk_id.to_owned() }))?;
    let message = if attempt == 1 {
        String::from_str("Setting this disk up for storage…")
    } else {
        let n = text::decimal_of(attempt as u64);
        text::cat3("Still setting this disk up… (attempt ", n.as_str(), ")")
    };
    create::set_phase(s, disk_id, Phase::Creating, message.as_str())?;
    s.done(Ask::SpawnCreate { disk: disk_id.to_owned(), dev_path: dev_path.to_owned() })
}

/// Setting up a disk in the background, from its start to its end.
pub open spec fn background_flow(disk: Seq<char>, dev: Seq<char>, a: Seq<Answer>, i: int) -> Flow<
    (),
> {
    create_osd_flow(disk, dev, a, i).and_then(
        |u: (), j: int|
            effects::done_flow(AskModel::Board(BoardAskModel::Release { disk }), a, j),
    )
}

/// Sets up a disk in the background, from its start to its end.
pub fn run_create(s: &mut Script, disk_id: &str, dev_path: &str) -> (r: Result<(), Ask>)
    ensures
        effects::went(
            r,
            background_flow(disk_id@, dev_path@, old(s).answers@, old(s).at as int),
            *old(s),
            *final(s),
        ),
{
    create_osd(s, disk_id, dev_path)?;
    s.done(Ask::Board(BoardAsk::Release { disk: disk_id.to_owned() }))
}

// ── What holds of every set-up ───────────────────────────────────────────────

/// An OSD that a failed attempt left behind is the first that was not there before it;
/// there is none exactly when all were there.
pub proof fn what_was_not_there_is_left_behind(after: Seq<i64>, before: Seq<i64>, k: int)
    requires
        0 <= k <= after.len(),
    ensures
        first_new(after, before, k) matches Some(id) ==> !before.contains(id) && exists|x: int|
            k <= x < after.len() && #[trigger] after[x] == id && forall|y: int|
                k <= y < x ==> before.contains(#[trigger] after[y]),
        first_new(after, before, k) is None <==> forall|x: int|
            k <= x < after.len() ==> before.contains(#[trigger] after[x]),
    decreases after.len() - k,
{
    if k < after.len() && before.contains(after[k]) {
        what_was_not_there_is_left_behind(after, before, k + 1);
        if let Some(id) = first_new(after, before, k + 1) {
            let x = choose|x: int|
                k + 1 <= x < after.len() && #[trigger] after[x] == id && forall|y: int|
                    k + 1 <= y < x ==> before.contains(#[trigger] after[y]);
            assert(after[x] == id);
            assert forall|y: int| k <= y < x implies before.contains(#[trigger] after[y]) by {}
        }
    } else if k < after.len() {
        assert(after[k] == after[k]);
    }
}

/// Nothing is said to be left behind where the OSDs before or after an attempt cannot be
/// told.
pub proof fn an_unknown_list_leaves_nothing_behind(before: Option<Seq<i64>>, after: Option<Seq<i64>>)
    ensures
        before is None || after is None ==> leaked(before, after) is None,
        leaked(before, after) matches Some(id) ==> before is Some && after is Some
            && !before->0.contains(id) && after->0.contains(id),
{
    if before is Some && after is Some {
        what_was_not_there_is_left_behind(after->0, before->0, 0);
    }
}

/// An OSD that was left behind is purged only while the cluster still has it and says that
/// it can be destroyed; it is forgotten once it is gone, and only then.
pub proof fn what_was_left_behind_is_removed_safely(
    disk: Seq<char>,
    id: i64,
    ids: Seq<i64>,
    a: Seq<Answer>,
    i: int,
    j: int,
)
    requires
        host::osd_ids_flow(a, i) == Flow::Done(Ok::<Seq<i64>, CmdErrorModel>(ids), j),
    ensures
        ({
            let f = remove_orphan_flow(disk, id, a, i);
            &&& !ids.contains(id) && 0 <= j == a.len() ==> f == Flow::<()>::Wants(
                AskModel::Board(BoardAskModel::SetOrphan { disk, osd: None }),
            )
            &&& ids.contains(id) ==> match destructive::safe_flow(id, a, j) {
                Flow::Wants(q) => f == Flow::<()>::Wants(q),
                Flow::Done(Ok(Some(safe)), k) => match destructive::purge_flow(safe, a, k) {
                    Flow::Wants(q) => f == Flow::<()>::Wants(q),
                    Flow::Done(Ok(Some(_)), m) => f == create::orphan_flow(disk, None, a, m),
                    Flow::Done(_, m) => f == Flow::<()>::Done((), m),
                },
                Flow::Done(_, k) => f == Flow::<()>::Done((), k),
            }
        }),
{
}

/// A disk is erased for a stale signature only when setting it up failed for one, and then
/// it is tried once more; what came of the last try counts.
pub proof fn a_stale_signature_is_erased_once(
    disk: Seq<char>,
    dev: Seq<char>,
    before: Option<Seq<i64>>,
    r: Result<Seq<char>, CmdErrorModel>,
    a: Seq<Answer>,
    i: int,
    j: int,
)
    requires
        ceph_cli::ceph_volume_flow(create_args(dev), a, i) == Flow::Done(r, j),
    ensures
        ({
            let f = attempt_flow(disk, dev, before, a, i);
            let stale = r matches Err(e) && destructive::stale(e);
            &&& !stale ==> f == if r is Ok {
                added_flow(disk, dev, a, j)
            } else {
                failed_flow(disk, before, a, j)
            }
            &&& stale ==> match destructive::zap_flow(dev, ZapWarrantModel::StaleSignature, a, j) {
                Flow::Wants(q) => f == Flow::<()>::Wants(q),
                Flow::Done(Err(_), k) => f == failed_flow(disk, before, a, k),
                Flow::Done(Ok(_), k) => match ceph_cli::ceph_volume_flow(create_args(dev), a, k) {
                    Flow::Wants(q) => f == Flow::<()>::Wants(q),
                    Flow::Done(Ok(_), m) => f == added_flow(disk, dev, a, m),
                    Flow::Done(Err(_), m) => f == failed_flow(disk, before, a, m),
                },
            }
        }),
{
}

/// A failed attempt is told as one that is tried again, after what it left behind is noted
/// and removed.
pub proof fn a_failed_attempt_is_tried_again(
    disk: Seq<char>,
    before: Option<Seq<i64>>,
    r: Result<Seq<i64>, CmdErrorModel>,
    a: Seq<Answer>,
    i: int,
    j: int,
)
    requires
        host::osd_ids_flow(a, i) == Flow::Done(r, j),
        0 <= j <= a.len(),
    ensures
        ({
            let f = failed_flow(disk, before, a, i);
            let retry = AskModel::Board(
                BoardAskModel::SetPhase {
                    disk,
                    phase: Phase::Retrying,
                    message: COULD_NOT_ADD@,
                },
            );
            &&& leaked(before, known(r)) is None && j == a.len() ==> f == Flow::<()>::Wants(retry)
            &&& leaked(before, known(r)) matches Some(id) ==> j == a.len() ==> f == Flow::<
                (),
            >::Wants(AskModel::Board(BoardAskModel::SetOrphan { disk, osd: Some(id) }))
            &&& leaked(before, known(r)) is Some && j < a.len() ==> match reclaim_flow(
                disk,
                a,
                j + 1,
            ) {
                Flow::Wants(q) => f == Flow::<()>::Wants(q),
                Flow::Done(_, m) => f == create::say_flow(
                    disk,
                    Phase::Retrying,
                    COULD_NOT_ADD@,
                    a,
                    m,
                ),
            }
        }),
{
}

/// A disk that was added is active only once its OSD is found on it and started; before,
/// it is still being set up.
pub proof fn an_added_disk_is_active_once_it_runs(
    disk: Seq<char>,
    dev: Seq<char>,
    local: Seq<(Seq<char>, i64)>,
    want: Seq<char>,
    found: Option<i64>,
    a: Seq<Answer>,
    i: int,
    j: int,
    k: int,
    m: int,
)
    requires
        create::local_osds_flow(a, i) == Flow::Done(
            Ok::<Seq<(Seq<char>, i64)>, ErrorModel>(local),
            j,
        ),
        create::canonical_flow(dev, a, j) == Flow::Done(want, k),
        create::find_on_flow(local, want, 0, a, k) == Flow::Done(found, m),
        0 <= m <= a.len(),
    ensures
        ({
            let f = added_flow(disk, dev, a, i);
            &&& found is None ==> f == create::say_flow(disk, Phase::Creating, ADDED_WAITING@, a, m)
            &&& found matches Some(id) ==> {
                &&& a.len() == m ==> (f matches Flow::Wants(AskModel::Run { bin, args, .. }) && bin
                    == "systemctl"@ && args == seq!["start"@, unit::unit_of(id)])
                &&& a.len() == m + 1 ==> f == Flow::<()>::Wants(
                    AskModel::Board(
                        BoardAskModel::SetPhase {
                            disk,
                            phase: Phase::Active,
                            message: ADDED@,
                        },
                    ),
                )
                &&& a.len() == m + 2 ==> f == Flow::<()>::Wants(
                    AskModel::Board(BoardAskModel::Settle { disk }),
                )
                &&& a.len() > m + 2 ==> f == Flow::<()>::Done((), m + 3)
            }
        }),
{
}

/// A disk is wiped of old signatures before it is set up, unless it is a volume.
pub proof fn a_disk_is_wiped_before_it_is_set_up(
    disk: Seq<char>,
    dev: Seq<char>,
    before: Option<Seq<i64>>,
    a: Seq<Answer>,
    i: int,
)
    requires
        0 <= i <= a.len(),
    ensures
        destructive::is_volume(dev) ==> prepare_flow(disk, dev, before, a, i) == attempt_flow(
            disk,
            dev,
            before,
            a,
            i,
        ),
        !destructive::is_volume(dev) && a.len() == i ==> (prepare_flow(disk, dev, before, a, i)
            matches Flow::Wants(AskModel::Run { bin, args, .. }) && bin == "wipefs"@ && args
            == seq!["--all"@, dev]),
        !destructive::is_volume(dev) && a.len() > i ==> prepare_flow(disk, dev, before, a, i)
            == attempt_flow(disk, dev, before, a, i + 1),
{
}

/// What another cluster left on a disk is erased before it is set up; a disk that cannot
/// be erased is not set up.
pub proof fn a_foreign_disk_is_erased_first(
    disk: Seq<char>,
    dev: Seq<char>,
    ids: Result<Seq<i64>, CmdErrorModel>,
    foreign: Option<i64>,
    a: Seq<Answer>,
    i: int,
    j: int,
    k: int,
    m: int,
)
    requires
        reclaim_flow(disk, a, i) == Flow::<()>::Done((), j),
        host::osd_ids_flow(a, j) == Flow::Done(ids, k),
        create::foreign_on_flow(dev, a, k) == Flow::Done(foreign, m),
    ensures
        ({
            let f = create_osd_flow(disk, dev, a, i);
            &&& foreign is None ==> f == prepare_flow(disk, dev, known(ids), a, m)
            &&& foreign matches Some(osd) ==> match destructive::zap_flow(
                dev,
                ZapWarrantModel::ForeignCluster { osd },
                a,
                m,
            ) {
                Flow::Wants(q) => f == Flow::<()>::Wants(q),
                Flow::Done(Ok(_), n) => f == prepare_flow(disk, dev, known(ids), a, n),
                Flow::Done(Err(_), n) => f == create::say_flow(
                    disk,
                    Phase::Retrying,
                    COULD_NOT_ERASE@,
                    a,
                    n,
                ),
            }
        }),
{
}

/// A disk is set up in the background only by whoever claimed it, after the attempt is
/// counted and told; it is released when that is over.
pub proof fn a_set_up_is_claimed_and_released(
    disk: Seq<char>,
    dev: Seq<char>,
    a: Seq<Answer>,
    i: int,
)
    requires
        0 <= i <= a.len(),
    ensures
        ({
            let f = spawn_flow(disk, dev, a, i);
            let mine = i < a.len() && (a[i] == Answer::Yes(true) || a[i] == Answer::Board(
                crate::disks::board::BoardReply::Yes(true),
            ));
            &&& a.len() == i ==> f == Flow::<()>::Wants(
                AskModel::Board(BoardAskModel::Claim { disk }),
            )
            &&& a.len() > i && !mine ==> f == Flow::<()>::Done((), i + 1)
            &&& a.len() == i + 1 && mine ==> f == Flow::<()>::Wants(
                AskModel::Board(BoardAskModel::Begin { disk }),
            )
            &&& a.len() == i + 2 && mine ==> (f matches Flow::Wants(
                AskModel::Board(BoardAskModel::SetPhase { disk: d, phase, .. }),
            ) && d == disk && phase == Phase::Creating)
            &&& a.len() == i + 3 && mine ==> f == Flow::<()>::Wants(
                AskModel::SpawnCreate { disk, dev_path: dev },
            )
            &&& a.len() > i + 3 && mine ==> f == Flow::<()>::Done((), i + 4)
        }),
        create_osd_flow(disk, dev, a, i) matches Flow::Done(_, j) ==> 0 <= j == a.len()
            ==> background_flow(disk, dev, a, i) == Flow::<()>::Wants(
            AskModel::Board(BoardAskModel::Release { disk }),
        ),
{
}

} // verus!
