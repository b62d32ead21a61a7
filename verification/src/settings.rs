//! Settings that the whole cluster shares, kept in its key store.
use vstd::prelude::*;

use crate::ceph_cli;
use crate::effects;
use crate::effects::{Answer, Ask, Flow, Script};
use crate::exec::{CmdError, CmdErrorModel};
use crate::json;
use crate::json::Json;
use crate::model::Model;
use crate::text;

verus! {

/// Where the switches of the disks are kept.
pub const DISKS: &'static str = "yolab/disks/";

/// Where each machine tells what disks it has.
pub const DISK_STATUS: &'static str = "yolab/disk-status/";

/// Where machines that were removed are remembered.
pub const REMOVED_MACHINES: &'static str = "yolab/removed-machines/";

/// Where a repair in progress is kept.
pub const HEAL: &'static str = "yolab/heal";

/// Setting a key.
pub open spec fn set_flow(key: Seq<char>, value: Seq<char>, a: Seq<Answer>, i: int) -> Flow<
    Result<(), CmdErrorModel>,
> {
    ceph_cli::ceph_flow(seq!["config-key"@, "set"@, key, value], a, i).and_then(
        |r: Result<Seq<char>, CmdErrorModel>, j: int|
            Flow::Done(
                match r {
                    Ok(_) => Ok(()),
                    Err(e) => Err(e),
                },
                j,
            ),
    )
}

/// Sets a key.
pub fn set(s: &mut Script, key: &str, value: &str) -> (r: Result<Result<(), CmdError>, Ask>)
    ensures
        effects::went(
            r,
            set_flow(key@, value@, old(s).answers@, old(s).at as int),
            *old(s),
            *final(s),
        ),
{
    let args: [&str; 4] = ["config-key", "set", key, value];
    assert((&args).model() =~= seq!["config-key"@, "set"@, key@, value@]);
    match ceph_cli::ceph(s, &args)? {
        Ok(_) => Ok(Ok(())),
        Err(e) => Ok(Err(e)),
    }
}

/// Removing a key.
pub open spec fn remove_flow(key: Seq<char>, a: Seq<Answer>, i: int) -> Flow<
    Result<(), CmdErrorModel>,
> {
    ceph_cli::ceph_flow(seq!["config-key"@, "rm"@, key], a, i).and_then(
        |r: Result<Seq<char>, CmdErrorModel>, j: int|
            Flow::Done(
                match r {
                    Ok(_) => Ok(()),
                    Err(e) => Err(e),
                },
                j,
            ),
    )
}

/// Removes a key.
pub fn remove(s: &mut Script, key: &str) -> (r: Result<Result<(), CmdError>, Ask>)
    ensures
        effects::went(
            r,
            remove_flow(key@, old(s).answers@, old(s).at as int),
            *old(s),
            *final(s),
        ),
{
    let args: [&str; 3] = ["config-key", "rm", key];
    assert((&args).model() =~= seq!["config-key"@, "rm"@, key@]);
    match ceph_cli::ceph(s, &args)? {
        Ok(_) => Ok(Ok(())),
        Err(e) => Ok(Err(e)),
    }
}

/// Reading a key: nothing when it is not set.
pub open spec fn get_flow(key: Seq<char>, a: Seq<Answer>, i: int) -> Flow<
    Result<Option<Seq<char>>, CmdErrorModel>,
> {
    ceph_cli::ceph_flow(seq!["config-key"@, "get"@, key], a, i).and_then(
        |r: Result<Seq<char>, CmdErrorModel>, j: int|
            Flow::Done(
                match r {
                    Ok(v) => Ok(Some(v)),
                    Err(e) => if e.kind_of() == Some(crate::exec::Failure::NotFound) {
                        Ok(None)
                    } else {
                        Err(e)
                    },
                },
                j,
            ),
    )
}

/// Reads a key: nothing when it is not set.
pub fn get(s: &mut Script, key: &str) -> (r: Result<Result<Option<String>, CmdError>, Ask>)
    ensures
        effects::went(r, get_flow(key@, old(s).answers@, old(s).at as int), *old(s), *final(s)),
{
    let args: [&str; 3] = ["config-key", "get", key];
    assert((&args).model() =~= seq!["config-key"@, "get"@, key@]);
    match ceph_cli::ceph(s, &args)? {
        Ok(v) => Ok(Ok(Some(v))),
        Err(e) => {
            if e.is_not_found() {
                Ok(Ok(None))
            } else {
                Ok(Err(e))
            }
        },
    }
}

/// The first `n` keys below a prefix, each without it, that hold a text.
pub open spec fn below(d: Seq<(String, Json)>, prefix: Seq<char>, n: int) -> Seq<
    (Seq<char>, Seq<char>),
>
    decreases n,
{
    if n <= 0 {
        seq![]
    } else {
        let rest = below(d, prefix, n - 1);
        let key = d[n - 1].0@;
        match json::text_of(d[n - 1].1) {
            Some(v) => if text::begins(key, prefix) {
                rest.push((key.skip(prefix.len() as int), v))
            } else {
                rest
            },
            None => rest,
        }
    }
}

/// Reading every key below a prefix.
pub open spec fn dump_flow(prefix: Seq<char>, a: Seq<Answer>, i: int) -> Flow<
    Result<Seq<(Seq<char>, Seq<char>)>, CmdErrorModel>,
> {
    ceph_cli::ceph_json_flow(seq!["config-key"@, "dump"@, prefix], a, i).and_then(
        |r: Result<Json, CmdErrorModel>, j: int|
            Flow::Done(
                match r {
                    Ok(v) => Ok(
                        match json::entries_of(v) {
                            Some(d) => below(d, prefix, d.len() as int),
                            None => seq![],
                        },
                    ),
                    Err(e) => Err(e),
                },
                j,
            ),
    )
}

/// Reads every key below a prefix.
pub fn dump(s: &mut Script, prefix: &str) -> (r: Result<
    Result<Vec<(String, String)>, CmdError>,
    Ask,
>)
    ensures
        effects::went(r, dump_flow(prefix@, old(s).answers@, old(s).at as int), *old(s), *final(s)),
{
    let args: [&str; 3] = ["config-key", "dump", prefix];
    assert((&args).model() =~= seq!["config-key"@, "dump"@, prefix@]);
    let v = match ceph_cli::ceph_json(s, &args)? {
        Ok(v) => v,
        Err(e) => return Ok(Err(e)),
    };
    let mut out: Vec<(String, String)> = Vec::new();
    assert(out.model() =~= seq![]);
    if let Json::Dict(d) = &v {
        let mut i: usize = 0;
        while i < d.len()
            invariant
                i <= d@.len(),
                out.model() == below(d@, prefix@, i as int),
            decreases d@.len() - i,
        {
            let ghost before = out.model();
            if let Some(value) = d[i].1.as_str() {
                let key = d[i].0.as_str();
                if let Some(name) = text::strip_prefix(key, prefix) {
                    assert(name@ =~= key@.skip(prefix@.len() as int));
                    out.push((name.to_owned(), value.to_owned()));
                    assert(out.model() =~= before.push((name@, value@)));
                }
            }
            i += 1;
        }
    }
    Ok(Ok(out))
}

} // verus!
