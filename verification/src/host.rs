//! Asking this machine and its cluster.
//!
//! A timeout is a timeout and a NotFound is a NotFound: a caller that wants one
//! of them to mean "empty" has to say so by name.
use vstd::prelude::*;

use crate::ceph::model::{OsdDump, OsdDumpModel, PgBrief, PgBriefModel};
use crate::ceph::model;
use crate::ceph_cli;
use crate::effects::{Answer, Ask, Flow, Queue, Script};
use crate::effects;
use crate::exec::{CmdError, CmdErrorModel, CommandOutput, CommandOutputModel};
use crate::json::Json;
use crate::json;
use crate::model::Model;

verus! {

/// How long a command on this machine may take, unless its work grows with the
/// data.
pub const RUN_CMD_SECS: u64 = 600;

/// The bound of a command that may take as long as it takes.
pub const NO_BOUND: u64 = 0xffff_ffff_ffff_ffff;

/// This machine.
#[derive(Clone, Copy, Debug, PartialEq, Eq, Structural)]
pub struct RealHost;

/// Running `bin args` on this machine.
pub open spec fn run_cmd_flow(
    bin: Seq<char>,
    args: Seq<Seq<char>>,
    secs: u64,
    a: Seq<Answer>,
    i: int,
) -> Flow<Result<CommandOutputModel, CmdErrorModel>> {
    effects::run_flow(bin, args, secs, None, Queue::Free, a, i)
}

/// Runs `bin args` within the default bound.
pub fn run_cmd(s: &mut Script, bin: &str, args: &[&str]) -> (r: Result<
    Result<CommandOutput, CmdError>,
    Ask,
>)
    ensures
        effects::went(
            r,
            run_cmd_flow(bin@, args.model(), RUN_CMD_SECS, old(s).answers@, old(s).at as int),
            *old(s),
            *final(s),
        ),
{
    s.run(bin, args, RUN_CMD_SECS, None, Queue::Free)
}

/// Runs `bin args` within a bound of its own.
pub fn run_cmd_bounded(s: &mut Script, bin: &str, args: &[&str], secs: u64) -> (r: Result<
    Result<CommandOutput, CmdError>,
    Ask,
>)
    ensures
        effects::went(
            r,
            run_cmd_flow(bin@, args.model(), secs, old(s).answers@, old(s).at as int),
            *old(s),
            *final(s),
        ),
{
    s.run(bin, args, secs, None, Queue::Free)
}

/// `systemctl args`.
pub open spec fn systemctl_flow(args: Seq<Seq<char>>, a: Seq<Answer>, i: int) -> Flow<
    Result<CommandOutputModel, CmdErrorModel>,
> {
    run_cmd_flow("systemctl"@, args, RUN_CMD_SECS, a, i)
}

/// `systemctl args`.
pub fn systemctl(s: &mut Script, args: &[&str]) -> (r: Result<Result<CommandOutput, CmdError>, Ask>)
    ensures
        effects::went(
            r,
            systemctl_flow(args.model(), old(s).answers@, old(s).at as int),
            *old(s),
            *final(s),
        ),
{
    run_cmd(s, "systemctl", args)
}

/// Whether Ceph answers at all.
pub open spec fn reachable_flow(a: Seq<Answer>, i: int) -> Flow<bool> {
    ceph_cli::ceph_flow(seq!["-s"@], a, i).and_then(
        |r: Result<Seq<char>, CmdErrorModel>, j: int| Flow::Done(r is Ok, j),
    )
}

/// Whether Ceph answers at all.
pub fn reachable(s: &mut Script) -> (r: Result<bool, Ask>)
    ensures
        effects::went(r, reachable_flow(old(s).answers@, old(s).at as int), *old(s), *final(s)),
{
    let args: [&str; 1] = ["-s"];
    assert((&args).model() =~= seq!["-s"@]);
    match ceph_cli::ceph(s, &args)? {
        Ok(_) => Ok(true),
        Err(_) => Ok(false),
    }
}

/// Every OSD a document lists, or the complaint that it lists none.
pub open spec fn ids_result(r: Result<Json, CmdErrorModel>) -> Result<Seq<i64>, CmdErrorModel> {
    match r {
        Err(e) => Err(e),
        Ok(j) => {
            let ids = match json::items_of(j) {
                Some(l) => model::ints_in(l),
                None => None,
            };
            match ids {
                Some(v) => Ok(v),
                None => Err(
                    CmdErrorModel::Parse { cmd: "ceph osd ls"@, detail: "not a list of numbers"@ },
                ),
            }
        },
    }
}

/// Every OSD id the cluster knows.
pub open spec fn osd_ids_flow(a: Seq<Answer>, i: int) -> Flow<Result<Seq<i64>, CmdErrorModel>> {
    ceph_cli::ceph_json_flow(seq!["osd"@, "ls"@], a, i).and_then(
        |r: Result<Json, CmdErrorModel>, j: int| Flow::Done(ids_result(r), j),
    )
}

/// Every OSD id the cluster knows. Output that is no list of numbers is an
/// error, never an empty cluster.
pub fn osd_ids(s: &mut Script) -> (r: Result<Result<Vec<i64>, CmdError>, Ask>)
    ensures
        effects::went(r, osd_ids_flow(old(s).answers@, old(s).at as int), *old(s), *final(s)),
{
    let args: [&str; 2] = ["osd", "ls"];
    assert((&args).model() =~= seq!["osd"@, "ls"@]);
    match ceph_cli::ceph_json(s, &args)? {
        Err(e) => Ok(Err(e)),
        Ok(j) => {
            let ids = match j.as_list() {
                Some(l) => model::read_ints(l),
                None => None,
            };
            match ids {
                Some(v) => {
                    assert(v.model() =~= v@);
                    Ok(Ok(v))
                },
                None => Ok(Err(CmdError::parse("ceph osd ls", "not a list of numbers"))),
            }
        },
    }
}

/// The OSD map in a document, or the complaint that it holds none.
pub open spec fn dump_result(r: Result<Json, CmdErrorModel>) -> Result<
    OsdDumpModel,
    CmdErrorModel,
> {
    match r {
        Err(e) => Err(e),
        Ok(j) => match model::dump_in(j) {
            Some(d) => Ok(d),
            None => Err(CmdErrorModel::Parse { cmd: "ceph osd dump"@, detail: "not an OSD map"@ }),
        },
    }
}

/// The OSD map.
pub open spec fn osd_dump_flow(a: Seq<Answer>, i: int) -> Flow<Result<OsdDumpModel, CmdErrorModel>> {
    ceph_cli::ceph_json_flow(seq!["osd"@, "dump"@], a, i).and_then(
        |r: Result<Json, CmdErrorModel>, j: int| Flow::Done(dump_result(r), j),
    )
}

/// The OSD map.
pub fn osd_dump(s: &mut Script) -> (r: Result<Result<OsdDump, CmdError>, Ask>)
    ensures
        effects::went(r, osd_dump_flow(old(s).answers@, old(s).at as int), *old(s), *final(s)),
{
    let args: [&str; 2] = ["osd", "dump"];
    assert((&args).model() =~= seq!["osd"@, "dump"@]);
    match ceph_cli::ceph_json(s, &args)? {
        Err(e) => Ok(Err(e)),
        Ok(j) => match model::read_dump(&j) {
            Some(d) => Ok(Ok(d)),
            None => Ok(Err(CmdError::parse("ceph osd dump", "not an OSD map"))),
        },
    }
}

/// Every placement group.
pub open spec fn pgs_brief_flow(a: Seq<Answer>, i: int) -> Flow<
    Result<Seq<PgBriefModel>, CmdErrorModel>,
> {
    ceph_cli::ceph_flow(seq!["pg"@, "dump"@, "pgs_brief"@, "-f"@, "json"@], a, i).and_then(
        |r: Result<Seq<char>, CmdErrorModel>, j: int|
            Flow::Done(
                match r {
                    Err(e) => Err(e),
                    Ok(raw) => model::pgs_result("ceph pg dump pgs_brief"@, raw),
                },
                j,
            ),
    )
}

/// Every placement group.
pub fn pgs_brief(s: &mut Script) -> (r: Result<Result<Vec<PgBrief>, CmdError>, Ask>)
    ensures
        effects::went(r, pgs_brief_flow(old(s).answers@, old(s).at as int), *old(s), *final(s)),
{
    let args: [&str; 5] = ["pg", "dump", "pgs_brief", "-f", "json"];
    assert((&args).model() =~= seq!["pg"@, "dump"@, "pgs_brief"@, "-f"@, "json"@]);
    match ceph_cli::ceph(s, &args)? {
        Err(e) => Ok(Err(e)),
        Ok(raw) => Ok(model::parse_pgs_brief("ceph pg dump pgs_brief", raw.as_str())),
    }
}

} // verus!
