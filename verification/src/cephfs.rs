//! The filesystem behind the apps' volumes: it is made once a disk is there.
//!
//! The number of copies is set only on pools that were just made: those that are
//! there already keep what their owner chose.
use vstd::prelude::*;

use crate::ceph::model;
use crate::ceph::model::{FsEntry, OsdStat};
use crate::ceph_cli;
use crate::effects;
use crate::effects::{Answer, Ask, Flow, Script};
use crate::error::{Error, ErrorModel};
use crate::exec::{CmdError, CmdErrorModel};
use crate::json::Json;
use crate::model::Model;
use crate::runtime::{Activity, Requirement, Scope, Tick, TickModel};
use crate::text;
use crate::time::{Duration, NANOS_PER_SEC};

verus! {

/// The filesystem.
pub const FS_NAME: &'static str = "yolab-fs";

/// Its pool of metadata.
pub const META_POOL: &'static str = "yolab-fs-metadata";

/// Its pool of data.
pub const DATA_POOL: &'static str = "yolab-fs-data0";

/// The group in which volumes are made.
pub const SUBVOLUME_GROUP: &'static str = "csi";

/// Whether a line of a listing is the name of a pool.
pub open spec fn listed_pool(pool_ls: Seq<char>, name: Seq<char>) -> bool {
    exists|k: int|
        0 <= k < text::lines_of(pool_ls).len() && text::trimmed(
            #[trigger] text::lines_of(pool_ls)[k],
        ) == name
}

/// Whether a line of a listing is the name of a pool.
pub fn pool_listed(pool_ls: &str, name: &str) -> (r: bool)
    ensures
        r == listed_pool(pool_ls@, name@),
{
    let l = text::lines(pool_ls);
    let ghost v = text::views(l@);
    let mut k: usize = 0;
    while k < l.len()
        invariant
            k <= l@.len(),
            v == text::views(l@),
            v == text::lines_of(pool_ls@),
            forall|j: int|
                0 <= j < k ==> text::trimmed(#[trigger] text::lines_of(pool_ls@)[j]) != name@,
        decreases l@.len() - k,
    {
        assert(v[k as int] == l@[k as int]@);
        if text::same(text::trim(l[k]), name) {
            return true;
        }
        k += 1;
    }
    false
}

/// Whether an entry has a name.
pub open spec fn named(entries: Seq<Seq<char>>, name: Seq<char>) -> bool {
    text::listed(entries, name)
}

/// Whether an entry has a name.
pub fn has_named(entries: &Vec<FsEntry>, name: &str) -> (r: bool)
    ensures
        r == named(entries.model(), name@),
{
    let ghost v = entries.model();
    let mut k: usize = 0;
    while k < entries.len()
        invariant
            k <= entries@.len(),
            v == entries.model(),
            forall|j: int| 0 <= j < k ==> v[j] != name@,
        decreases entries@.len() - k,
    {
        assert(v[k as int] == entries@[k as int].model());
        if text::same(entries[k].name.as_str(), name) {
            return true;
        }
        k += 1;
    }
    false
}

// ── Asking Ceph ──────────────────────────────────────────────────────────────

/// The counts of OSDs in a document.
pub open spec fn stat_result(r: Result<Json, CmdErrorModel>) -> Result<OsdStat, ErrorModel> {
    match r {
        Err(e) => Err(ErrorModel::command(e)),
        Ok(j) => match model::stat_in(j) {
            Some(v) => Ok(v),
            None => Err(
                ErrorModel::command(
                    CmdErrorModel::Parse { cmd: "ceph osd stat"@, detail: "not counts of OSDs"@ },
                ),
            ),
        },
    }
}

/// The names in a document.
pub open spec fn names_result(cmd: Seq<char>, r: Result<Json, CmdErrorModel>) -> Result<
    Seq<Seq<char>>,
    ErrorModel,
> {
    match r {
        Err(e) => Err(ErrorModel::command(e)),
        Ok(j) => match model::named_in(j) {
            Some(v) => Ok(v),
            None => Err(
                ErrorModel::command(CmdErrorModel::Parse { cmd, detail: "not a list of names"@ }),
            ),
        },
    }
}

/// Asking for the counts of OSDs.
pub open spec fn stat_flow(a: Seq<Answer>, i: int) -> Flow<Result<OsdStat, ErrorModel>> {
    ceph_cli::ceph_json_flow(seq!["osd"@, "stat"@], a, i).and_then(
        |r: Result<Json, CmdErrorModel>, j: int| Flow::Done(stat_result(r), j),
    )
}

/// Asking for the filesystems.
pub open spec fn fs_flow(a: Seq<Answer>, i: int) -> Flow<Result<Seq<Seq<char>>, ErrorModel>> {
    ceph_cli::ceph_json_flow(seq!["fs"@, "ls"@], a, i).and_then(
        |r: Result<Json, CmdErrorModel>, j: int| Flow::Done(names_result("ceph fs ls"@, r), j),
    )
}

/// Asking for the groups of volumes.
pub open spec fn groups_flow(a: Seq<Answer>, i: int) -> Flow<Result<Seq<Seq<char>>, ErrorModel>> {
    ceph_cli::ceph_json_flow(seq!["fs"@, "subvolumegroup"@, "ls"@, FS_NAME@], a, i).and_then(
        |r: Result<Json, CmdErrorModel>, j: int|
            Flow::Done(names_result("ceph fs subvolumegroup ls"@, r), j),
    )
}

/// A command of Ceph whose output does not matter.
pub open spec fn do_flow(args: Seq<Seq<char>>, a: Seq<Answer>, i: int) -> Flow<
    Result<(), ErrorModel>,
> {
    ceph_cli::ceph_flow(args, a, i).and_then(
        |r: Result<Seq<char>, CmdErrorModel>, j: int|
            Flow::Done(
                match r {
                    Err(e) => Err(ErrorModel::command(e)),
                    Ok(_) => Ok(()),
                },
                j,
            ),
    )
}

fn ceph_do(s: &mut Script, args: &[&str]) -> (r: Result<Result<(), Error>, Ask>)
    ensures
        effects::went(
            r,
            do_flow(args.model(), old(s).answers@, old(s).at as int),
            *old(s),
            *final(s),
        ),
{
    match ceph_cli::ceph(s, args)? {
        Err(e) => Ok(Err(Error::new(e))),
        Ok(_) => Ok(Ok(())),
    }
}

fn names_of(cmd: &str, r: Result<Json, CmdError>) -> (v: Result<Vec<FsEntry>, Error>)
    ensures
        v.model() == names_result(cmd@, r.model()),
{
    match r {
        Err(e) => Err(Error::new(e)),
        Ok(j) => match model::read_named(&j) {
            Some(l) => Ok(l),
            None => Err(Error::new(CmdError::parse(cmd, "not a list of names"))),
        },
    }
}

// ── Making the filesystem ────────────────────────────────────────────────────

/// Making the group of volumes, if it is not there.
pub open spec fn group_flow(a: Seq<Answer>, i: int) -> Flow<Result<TickModel, ErrorModel>> {
    groups_flow(a, i).and_ok(
        |l: Seq<Seq<char>>, j: int|
            if named(l, SUBVOLUME_GROUP@) {
                Flow::Done(Ok(TickModel::Done), j)
            } else {
                do_flow(
                    seq!["fs"@, "subvolumegroup"@, "create"@, FS_NAME@, SUBVOLUME_GROUP@],
                    a,
                    j,
                ).and_ok(|u: (), k: int| Flow::Done(Ok(TickModel::Done), k))
            },
    )
}

/// Making a pool, if it is not listed. One that was just made is empty, and starts
/// with one copy.
pub open spec fn pool_flow(
    pool_ls: Seq<char>,
    pool: Seq<char>,
    pgs: Seq<char>,
    a: Seq<Answer>,
    i: int,
) -> Flow<Result<(), ErrorModel>> {
    if listed_pool(pool_ls, pool) {
        Flow::Done(Ok(()), i)
    } else {
        do_flow(seq!["osd"@, "pool"@, "create"@, pool, pgs, pgs], a, i).and_ok(
            |u: (), j: int|
                do_flow(
                    seq![
                        "osd"@,
                        "pool"@,
                        "set"@,
                        pool,
                        "size"@,
                        "1"@,
                        "--yes-i-really-mean-it"@,
                    ],
                    a,
                    j,
                ),
        )
    }
}

/// Making the filesystem on its pools.
pub open spec fn make_flow(a: Seq<Answer>, i: int) -> Flow<Result<TickModel, ErrorModel>> {
    ceph_cli::ceph_flow(seq!["osd"@, "pool"@, "ls"@], a, i).and_then(
        |r: Result<Seq<char>, CmdErrorModel>, j: int|
            match r {
                Err(e) => Flow::Done(Err(ErrorModel::command(e)), j),
                Ok(pool_ls) => pool_flow(pool_ls, META_POOL@, "16"@, a, j).and_ok(
                    |u: (), k: int|
                        pool_flow(pool_ls, DATA_POOL@, "32"@, a, k).and_ok(
                            |v: (), m: int|
                                do_flow(
                                    seq![
                                        "fs"@,
                                        "new"@,
                                        FS_NAME@,
                                        META_POOL@,
                                        DATA_POOL@,
                                        "--force"@,
                                    ],
                                    a,
                                    m,
                                ).and_ok(|w: (), n: int| group_flow(a, n)),
                        ),
                ),
            },
    )
}

/// Making sure that the filesystem is there.
pub open spec fn ensure_flow(a: Seq<Answer>, i: int) -> Flow<Result<TickModel, ErrorModel>> {
    stat_flow(a, i).and_ok(
        |st: OsdStat, j: int|
            if st.num_up_osds == 0 {
                Flow::Done(Ok(TickModel::Idle("no OSD is up yet"@)), j)
            } else {
                fs_flow(a, j).and_ok(
                    |l: Seq<Seq<char>>, k: int|
                        if named(l, FS_NAME@) {
                            group_flow(a, k)
                        } else {
                            make_flow(a, k)
                        },
                )
            },
    )
}

fn ensure_subvolumegroup(s: &mut Script) -> (r: Result<Result<Tick, Error>, Ask>)
    ensures
        effects::went(r, group_flow(old(s).answers@, old(s).at as int), *old(s), *final(s)),
{
    let args: [&str; 4] = ["fs", "subvolumegroup", "ls", FS_NAME];
    assert((&args).model() =~= seq!["fs"@, "subvolumegroup"@, "ls"@, FS_NAME@]);
    let got = ceph_cli::ceph_json(s, &args)?;
    let l = match names_of("ceph fs subvolumegroup ls", got) {
        Err(e) => return Ok(Err(e)),
        Ok(l) => l,
    };
    if has_named(&l, SUBVOLUME_GROUP) {
        return Ok(Ok(Tick::Done));
    }
    let args: [&str; 5] = ["fs", "subvolumegroup", "create", FS_NAME, SUBVOLUME_GROUP];
    assert((&args).model() =~= seq![
        "fs"@,
        "subvolumegroup"@,
        "create"@,
        FS_NAME@,
        SUBVOLUME_GROUP@,
    ]);
    match ceph_do(s, &args)? {
        Err(e) => Ok(Err(e)),
        Ok(_) => Ok(Ok(Tick::Done)),
    }
}

fn ensure_pool(s: &mut Script, pool_ls: &str, pool: &str, pgs: &str) -> (r: Result<
    Result<(), Error>,
    Ask,
>)
    ensures
        effects::went(
            r,
            pool_flow(pool_ls@, pool@, pgs@, old(s).answers@, old(s).at as int),
            *old(s),
            *final(s),
        ),
{
    if pool_listed(pool_ls, pool) {
        return Ok(Ok(()));
    }
    let args: [&str; 6] = ["osd", "pool", "create", pool, pgs, pgs];
    assert((&args).model() =~= seq!["osd"@, "pool"@, "create"@, pool@, pgs@, pgs@]);
    if let Err(e) = ceph_do(s, &args)? {
        return Ok(Err(e));
    }
    let args: [&str; 7] = ["osd", "pool", "set", pool, "size", "1", "--yes-i-really-mean-it"];
    assert((&args).model() =~= seq![
        "osd"@,
        "pool"@,
        "set"@,
        pool@,
        "size"@,
        "1"@,
        "--yes-i-really-mean-it"@,
    ]);
    ceph_do(s, &args)
}

fn make(s: &mut Script) -> (r: Result<Result<Tick, Error>, Ask>)
    ensures
        effects::went(r, make_flow(old(s).answers@, old(s).at as int), *old(s), *final(s)),
{
    let args: [&str; 3] = ["osd", "pool", "ls"];
    assert((&args).model() =~= seq!["osd"@, "pool"@, "ls"@]);
    let pool_ls = match ceph_cli::ceph(s, &args)? {
        Err(e) => return Ok(Err(Error::new(e))),
        Ok(t) => t,
    };
    if let Err(e) = ensure_pool(s, pool_ls.as_str(), META_POOL, "16")? {
        return Ok(Err(e));
    }
    if let Err(e) = ensure_pool(s, pool_ls.as_str(), DATA_POOL, "32")? {
        return Ok(Err(e));
    }
    let args: [&str; 6] = ["fs", "new", FS_NAME, META_POOL, DATA_POOL, "--force"];
    assert((&args).model() =~= seq![
        "fs"@,
        "new"@,
        FS_NAME@,
        META_POOL@,
        DATA_POOL@,
        "--force"@,
    ]);
    if let Err(e) = ceph_do(s, &args)? {
        return Ok(Err(e));
    }
    ensure_subvolumegroup(s)
}

/// Makes sure that the filesystem is there, once a disk is.
pub fn ensure(s: &mut Script) -> (r: Result<Result<Tick, Error>, Ask>)
    ensures
        effects::went(r, ensure_flow(old(s).answers@, old(s).at as int), *old(s), *final(s)),
{
    let args: [&str; 2] = ["osd", "stat"];
    assert((&args).model() =~= seq!["osd"@, "stat"@]);
    let st = match ceph_cli::ceph_json(s, &args)? {
        Err(e) => return Ok(Err(Error::new(e))),
        Ok(j) => match model::read_stat(&j) {
            Some(v) => v,
            None => return Ok(
                Err(Error::new(CmdError::parse("ceph osd stat", "not counts of OSDs"))),
            ),
        },
    };
    if st.num_up_osds == 0 {
        return Ok(Ok(Tick::Idle(String::from_str("no OSD is up yet"))));
    }
    let args: [&str; 2] = ["fs", "ls"];
    assert((&args).model() =~= seq!["fs"@, "ls"@]);
    let got = ceph_cli::ceph_json(s, &args)?;
    let l = match names_of("ceph fs ls", got) {
        Err(e) => return Ok(Err(e)),
        Ok(l) => l,
    };
    if has_named(&l, FS_NAME) {
        return ensure_subvolumegroup(s);
    }
    make(s)
}

/// A pool that is there already keeps its number of copies: nothing is asked.
pub proof fn a_pool_that_is_there_is_left_alone(
    pool_ls: Seq<char>,
    pool: Seq<char>,
    pgs: Seq<char>,
    a: Seq<Answer>,
    i: int,
)
    requires
        listed_pool(pool_ls, pool),
    ensures
        pool_flow(pool_ls, pool, pgs, a, i) == Flow::<Result<(), ErrorModel>>::Done(Ok(()), i),
{
}

// ── The controller ───────────────────────────────────────────────────────────

/// Makes sure that the filesystem is there.
#[derive(Clone, Copy, Debug)]
pub struct CephFsController;

impl CephFsController {
    /// Its name.
    pub fn name(&self) -> (r: &'static str)
        ensures
            r@ == "cephfs"@,
    {
        "cephfs"
    }

    /// It runs on one machine of the cluster.
    pub fn scope(&self) -> (r: Scope)
        ensures
            r == Scope::Cluster,
    {
        Scope::Cluster
    }

    /// How often it runs.
    pub fn interval(&self) -> (r: Duration)
        ensures
            r.nanos == 120 * NANOS_PER_SEC,
    {
        Duration::from_secs(120)
    }

    /// What it needs.
    pub fn requires_of(&self) -> (r: Vec<Requirement>)
        ensures
            r@ == seq![Requirement::Ceph, Requirement::KubeApi],
    {
        vec![Requirement::Ceph, Requirement::KubeApi]
    }

    /// What it keeps out of the way of.
    pub fn pauses_during(&self) -> (r: Vec<Activity>)
        ensures
            r@ == seq![Activity::Restore, Activity::Heal],
    {
        vec![Activity::Restore, Activity::Heal]
    }

    /// Makes sure that the filesystem is there.
    pub fn reconcile(&self, s: &mut Script) -> (r: Result<Result<Tick, Error>, Ask>)
        ensures
            effects::went(r, ensure_flow(old(s).answers@, old(s).at as int), *old(s), *final(s)),
    {
        ensure(s)
    }
}

} // verus!
