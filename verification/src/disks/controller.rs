//! The controller of this machine's disks.
use vstd::prelude::*;

use crate::disks::publish;
use crate::effects;
use crate::effects::{Answer, Ask, Flow, Script};
use crate::error::{Error, ErrorModel};
use crate::runtime::{Activity, Requirement, Scope, Tick, TickModel};
use crate::time::{Duration, NANOS_PER_SEC};

verus! {

/// How often the disks are looked at.
pub const INTERVAL_SECS: u64 = 60;

/// Looks after this machine's disks.
#[derive(Clone, Copy, Debug)]
pub struct DisksController;

/// Looking after the disks of a machine.
pub open spec fn reconcile_flow(node: Seq<char>, a: Seq<Answer>, i: int) -> Flow<
    Result<TickModel, ErrorModel>,
> {
    if node.len() == 0 {
        Flow::Done(Err(ErrorModel::message("cannot determine this node's name"@)), i)
    } else {
        publish::publish_flow(node, a, i).and_ok(
            |u: (), j: int| Flow::Done(Ok(TickModel::Done), j),
        )
    }
}

impl DisksController {
    /// Its name.
    pub fn name(&self) -> (r: &'static str)
        ensures
            r@ == "disks"@,
    {
        "disks"
    }

    /// It runs on every machine.
    pub fn scope(&self) -> (r: Scope)
        ensures
            r == Scope::Node,
    {
        Scope::Node
    }

    /// How often it runs.
    pub fn interval(&self) -> (r: Duration)
        ensures
            r.nanos == INTERVAL_SECS * NANOS_PER_SEC,
    {
        Duration::from_secs(INTERVAL_SECS)
    }

    /// What it needs.
    pub fn requires_of(&self) -> (r: Vec<Requirement>)
        ensures
            r@ == seq![Requirement::Ceph],
    {
        vec![Requirement::Ceph]
    }

    /// What it keeps out of the way of.
    pub fn pauses_during(&self) -> (r: Vec<Activity>)
        ensures
            r@ == seq![Activity::Restore],
    {
        vec![Activity::Restore]
    }

    /// Looks after the disks of the machine `node`.
    pub fn reconcile(&self, s: &mut Script, node: &str) -> (r: Result<Result<Tick, Error>, Ask>)
        ensures
            effects::went(
                r,
                reconcile_flow(node@, old(s).answers@, old(s).at as int),
                *old(s),
                *final(s),
            ),
    {
        if node.unicode_len() == 0 {
            return Ok(Err(Error::msg("cannot determine this node's name")));
        }
        match publish::publish_local(s, node)? {
            Err(e) => Ok(Err(e)),
            Ok(_) => Ok(Ok(Tick::Done)),
        }
    }
}

} // verus!
