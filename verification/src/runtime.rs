//! What every controller tells the runtime: when it runs, where, and what came of
//! a run.
use vstd::prelude::*;

use crate::model::Model;

verus! {

/// What came of a run.
#[derive(Debug)]
pub enum Tick {
    Done,
    /// There was nothing to do, for this reason.
    Idle(String),
}

/// A `Tick` with its text as characters.
pub enum TickModel {
    Done,
    Idle(Seq<char>),
}

impl Model for Tick {
    type M = TickModel;

    open spec fn model(&self) -> TickModel {
        match *self {
            Tick::Done => TickModel::Done,
            Tick::Idle(why) => TickModel::Idle(why@),
        }
    }
}

/// Where a controller runs.
#[derive(Clone, Copy, Debug, PartialEq, Eq, Structural)]
pub enum Scope {
    /// On every machine.
    Node,
    /// On one machine of the cluster.
    Cluster,
}

/// What a controller needs before it can do anything.
#[derive(Clone, Copy, Debug, PartialEq, Eq, Structural)]
pub enum Requirement {
    /// The storage answers.
    Ceph,
    /// Kubernetes answers.
    KubeApi,
}

/// Something that controllers keep out of the way of.
#[derive(Clone, Copy, Debug, PartialEq, Eq, Structural)]
pub enum Activity {
    /// A backup is being put back.
    Restore,
    /// The cluster is being healed.
    Heal,
}

} // verus!
