//! The `ceph` and `ceph-volume` programs.
use vstd::prelude::*;

use crate::ceph::destructive;
use crate::effects::{Answer, Ask, AskModel, Flow, Queue, Script};
use crate::effects;
use crate::exec;
use crate::exec::{CmdError, CmdErrorModel, CommandOutputModel};
use crate::json::Json;
use crate::json;
use crate::model::Model;
use crate::text;

verus! {

/// How long `ceph` may take.
pub const CEPH_SECS: u64 = 30;

/// How long `ceph-volume` may take.
pub const CEPH_VOLUME_SECS: u64 = 600;

/// Whether a `ceph-volume` command only looks.
pub open spec fn only_looks(args: Seq<Seq<char>>) -> bool {
    (args.len() >= 2 && args[0] == "lvm"@ && args[1] == "list"@) || (args.len() >= 1 && args[0]
        == "inventory"@)
}

/// Whether a `ceph-volume` command only looks, so that it may be skipped while
/// another one runs. Anything unrecognised counts as changing something.
pub fn is_read_only(args: &[&str]) -> (r: bool)
    ensures
        r == only_looks(args.model()),
{
    assert(args.model().len() == args@.len());
    (args.len() >= 2 && text::same(args[0], "lvm") && text::same(args[1], "list")) || (args.len()
        >= 1 && text::same(args[0], "inventory"))
}

/// The last line of a text, or a stand-in when it has none.
pub open spec fn last_line(s: Seq<char>) -> Seq<char> {
    let ls = text::lines_of(s);
    if ls.len() > 0 {
        ls.last()
    } else {
        "unknown error"@
    }
}

/// What a run of `ceph` gives: its output, or its classified complaint in one
/// line.
pub open spec fn short_output(
    bin: Seq<char>,
    args: Seq<Seq<char>>,
    r: Result<CommandOutputModel, CmdErrorModel>,
) -> Result<Seq<char>, CmdErrorModel> {
    match r {
        Err(e) => Err(e),
        Ok(out) => if out.success {
            Ok(out.stdout)
        } else {
            let stderr = text::trimmed(out.stderr);
            Err(
                CmdErrorModel::Failed {
                    cmd: exec::rendered(bin, args),
                    kind: exec::classified(bin, stderr),
                    stderr: last_line(stderr),
                },
            )
        },
    }
}

/// `ceph args`, whatever it does.
pub open spec fn run_bin_flow(args: Seq<Seq<char>>, a: Seq<Answer>, i: int) -> Flow<
    Result<Seq<char>, CmdErrorModel>,
> {
    effects::run_flow("ceph"@, args, CEPH_SECS, None, Queue::Free, a, i).and_then(
        |r: Result<CommandOutputModel, CmdErrorModel>, j: int|
            Flow::Done(short_output("ceph"@, args, r), j),
    )
}

fn run_bin(s: &mut Script, args: &[&str]) -> (r: Result<Result<String, CmdError>, Ask>)
    ensures
        effects::went(
            r,
            run_bin_flow(args.model(), old(s).answers@, old(s).at as int),
            *old(s),
            *final(s),
        ),
{
    let out = match s.run("ceph", args, CEPH_SECS, None, Queue::Free)? {
        Err(e) => return Ok(Err(e)),
        Ok(out) => out,
    };
    if out.success {
        return Ok(Ok(out.stdout));
    }
    let stderr = text::trim(out.stderr.as_str());
    let ls = text::lines(stderr);
    assert(text::views(ls@).len() == ls@.len());
    let last = if ls.len() > 0 {
        ls[ls.len() - 1]
    } else {
        "unknown error"
    };
    Ok(
        Err(
            CmdError::Failed {
                cmd: exec::render("ceph", args),
                kind: exec::classify("ceph", stderr),
                stderr: last.to_owned(),
            },
        ),
    )
}

/// The refusal of a destructive command outside the door.
pub open spec fn forbidden(bin: Seq<char>, args: Seq<Seq<char>>) -> CmdErrorModel {
    CmdErrorModel::Forbidden { cmd: exec::rendered(bin, args) }
}

/// `ceph args`, refused before it runs when it destroys something.
pub open spec fn ceph_flow(args: Seq<Seq<char>>, a: Seq<Answer>, i: int) -> Flow<
    Result<Seq<char>, CmdErrorModel>,
> {
    if destructive::destroys("ceph"@, args) {
        Flow::Done(Err(forbidden("ceph"@, args)), i)
    } else {
        run_bin_flow(args, a, i)
    }
}

/// `ceph args`, refused before it runs when it destroys something.
pub fn ceph(s: &mut Script, args: &[&str]) -> (r: Result<Result<String, CmdError>, Ask>)
    ensures
        effects::went(
            r,
            ceph_flow(args.model(), old(s).answers@, old(s).at as int),
            *old(s),
            *final(s),
        ),
{
    if destructive::is_destructive("ceph", args) {
        return Ok(Err(CmdError::Forbidden { cmd: exec::render("ceph", args) }));
    }
    run_bin(s, args)
}

/// `ceph args` through the door.
pub fn ceph_destructive(s: &mut Script, door: &destructive::Door, args: &[&str]) -> (r: Result<
    Result<String, CmdError>,
    Ask,
>)
    ensures
        effects::went(
            r,
            run_bin_flow(args.model(), old(s).answers@, old(s).at as int),
            *old(s),
            *final(s),
        ),
{
    run_bin(s, args)
}

/// `args` asking for JSON.
pub open spec fn as_json(args: Seq<Seq<char>>) -> Seq<Seq<char>> {
    args.push("-f"@).push("json"@)
}

fn with_json_format<'a>(args: &[&'a str]) -> (r: Vec<&'a str>)
    ensures
        text::views(r@) == as_json(args.model()),
{
    let mut out: Vec<&'a str> = Vec::new();
    let mut i: usize = 0;
    while i < args.len()
        invariant
            i <= args@.len(),
            out@.len() == i,
            forall|k: int| 0 <= k < i ==> out@[k]@ == args@[k]@,
        decreases args@.len() - i,
    {
        out.push(args[i]);
        i += 1;
    }
    out.push("-f");
    out.push("json");
    assert(text::views(out@) =~= as_json(args.model()));
    out
}

/// `ceph args -f json` as a document.
pub open spec fn ceph_json_flow(args: Seq<Seq<char>>, a: Seq<Answer>, i: int) -> Flow<
    Result<Json, CmdErrorModel>,
> {
    ceph_flow(as_json(args), a, i).and_then(
        |r: Result<Seq<char>, CmdErrorModel>, j: int|
            Flow::Done(
                match r {
                    Err(e) => Err(e),
                    Ok(raw) => exec::json_result(exec::rendered("ceph"@, as_json(args)), raw),
                },
                j,
            ),
    )
}

/// `ceph args -f json` as a document.
pub fn ceph_json(s: &mut Script, args: &[&str]) -> (r: Result<Result<Json, CmdError>, Ask>)
    ensures
        effects::went(
            r,
            ceph_json_flow(args.model(), old(s).answers@, old(s).at as int),
            *old(s),
            *final(s),
        ),
{
    let all = with_json_format(args);
    let al = all.as_slice();
    assert(al.model() =~= text::views(all@));
    match ceph(s, al)? {
        Err(e) => Ok(Err(e)),
        Ok(raw) => {
            let cmd = exec::render("ceph", al);
            Ok(exec::parse_json(cmd.as_str(), raw.as_str()))
        },
    }
}

/// `ceph-volume args`, whatever it does. A command that only looks is skipped
/// while another one runs; any other waits for its turn.
pub open spec fn volume_flow(args: Seq<Seq<char>>, a: Seq<Answer>, i: int) -> Flow<
    Result<Seq<char>, CmdErrorModel>,
> {
    let queue = if only_looks(args) {
        Queue::Skip
    } else {
        Queue::Wait
    };
    effects::run_flow("ceph-volume"@, args, CEPH_VOLUME_SECS, None, queue, a, i).and_then(
        |r: Result<CommandOutputModel, CmdErrorModel>, j: int|
            Flow::Done(
                match r {
                    Err(e) => Err(e),
                    Ok(out) => exec::checked_output("ceph-volume"@, args, out),
                },
                j,
            ),
    )
}

fn ceph_volume_inner(s: &mut Script, args: &[&str]) -> (r: Result<Result<String, CmdError>, Ask>)
    ensures
        effects::went(
            r,
            volume_flow(args.model(), old(s).answers@, old(s).at as int),
            *old(s),
            *final(s),
        ),
{
    let queue = if is_read_only(args) {
        Queue::Skip
    } else {
        Queue::Wait
    };
    match s.run("ceph-volume", args, CEPH_VOLUME_SECS, None, queue)? {
        Err(e) => Ok(Err(e)),
        Ok(out) => Ok(exec::into_checked("ceph-volume", args, out)),
    }
}

/// `ceph-volume args`, refused before it runs when it destroys something.
pub open spec fn ceph_volume_flow(args: Seq<Seq<char>>, a: Seq<Answer>, i: int) -> Flow<
    Result<Seq<char>, CmdErrorModel>,
> {
    if destructive::destroys("ceph-volume"@, args) {
        Flow::Done(Err(forbidden("ceph-volume"@, args)), i)
    } else {
        volume_flow(args, a, i)
    }
}

/// `ceph-volume args`, refused before it runs when it destroys something.
pub fn ceph_volume(s: &mut Script, args: &[&str]) -> (r: Result<Result<String, CmdError>, Ask>)
    ensures
        effects::went(
            r,
            ceph_volume_flow(args.model(), old(s).answers@, old(s).at as int),
            *old(s),
            *final(s),
        ),
{
    if destructive::is_destructive("ceph-volume", args) {
        return Ok(Err(CmdError::Forbidden { cmd: exec::render("ceph-volume", args) }));
    }
    ceph_volume_inner(s, args)
}

/// `ceph-volume args` through the door.
pub fn ceph_volume_destructive(s: &mut Script, door: &destructive::Door, args: &[&str]) -> (r:
    Result<Result<String, CmdError>, Ask>)
    ensures
        effects::went(
            r,
            volume_flow(args.model(), old(s).answers@, old(s).at as int),
            *old(s),
            *final(s),
        ),
{
    ceph_volume_inner(s, args)
}

/// The cluster id in a document, if it holds one that is not empty.
pub open spec fn fsid_in(j: Json) -> Option<Seq<char>> {
    match json::text_at(j, "fsid"@) {
        Some(f) => if f.len() > 0 {
            Some(f)
        } else {
            None
        },
        None => None,
    }
}

/// Asking for the cluster id in plain text.
pub open spec fn plain_fsid_flow(a: Seq<Answer>, i: int) -> Flow<Result<Seq<char>, CmdErrorModel>> {
    ceph_flow(seq!["fsid"@], a, i).and_then(
        |r: Result<Seq<char>, CmdErrorModel>, j: int|
            Flow::Done(
                match r {
                    Err(e) => Err(e),
                    Ok(plain) => if text::trimmed(plain).len() > 0 {
                        Ok(text::trimmed(plain))
                    } else {
                        Err(
                            CmdErrorModel::Parse {
                                cmd: "ceph fsid"@,
                                detail: "empty output"@,
                            },
                        )
                    },
                },
                j,
            ),
    )
}

/// The cluster's id: from the JSON answer, from the plain one when that was
/// answered without an id, and an error when Ceph cannot say.
pub open spec fn cluster_fsid_flow(a: Seq<Answer>, i: int) -> Flow<
    Result<Seq<char>, CmdErrorModel>,
> {
    ceph_json_flow(seq!["fsid"@], a, i).and_then(
        |r: Result<Json, CmdErrorModel>, j: int|
            match r {
                Ok(v) => match fsid_in(v) {
                    Some(f) => Flow::Done(Ok(f), j),
                    None => plain_fsid_flow(a, j),
                },
                Err(e) => if e.unanswered() {
                    Flow::Done(Err(e), j)
                } else {
                    plain_fsid_flow(a, j)
                },
            },
    )
}

/// The cluster's id. An error when Ceph cannot say, never a made-up one.
pub fn cluster_fsid(s: &mut Script) -> (r: Result<Result<String, CmdError>, Ask>)
    ensures
        effects::went(
            r,
            cluster_fsid_flow(old(s).answers@, old(s).at as int),
            *old(s),
            *final(s),
        ),
{
    let args: [&str; 1] = ["fsid"];
    assert((&args).model() =~= seq!["fsid"@]);
    match ceph_json(s, &args)? {
        Ok(v) => {
            if let Some(f) = v.str_at("fsid") {
                if !f.is_empty() {
                    return Ok(Ok(f.to_owned()));
                }
            }
        },
        Err(e) => {
            if e.is_unanswered() {
                return Ok(Err(e));
            }
        },
    }
    match ceph(s, &args)? {
        Err(e) => Ok(Err(e)),
        Ok(plain) => {
            let f = text::trim(plain.as_str());
            if f.is_empty() {
                return Ok(Err(CmdError::parse("ceph fsid", "empty output")));
            }
            Ok(Ok(f.to_owned()))
        },
    }
}

/// Whether a question runs a program that destroys something.
pub open spec fn runs_destruction(q: AskModel) -> bool {
    q matches AskModel::Run { bin, args, .. } && destructive::destroys(bin, args)
}

/// Nothing is destroyed in passing: none of the plain ways to run Ceph ever asks
/// for a command that destroys something.
pub proof fn nothing_is_destroyed_in_passing(args: Seq<Seq<char>>, a: Seq<Answer>, i: int)
    ensures
        ceph_flow(args, a, i) matches Flow::Wants(q) ==> !runs_destruction(q),
        ceph_json_flow(args, a, i) matches Flow::Wants(q) ==> !runs_destruction(q),
        ceph_volume_flow(args, a, i) matches Flow::Wants(q) ==> !runs_destruction(q),
{
}

} // verus!
