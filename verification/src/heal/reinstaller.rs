//! The controller that goes on with a heal that installs the machines anew.
use vstd::prelude::*;

use crate::effects;
use crate::effects::{Answer, Ask, Flow, Script};
use crate::error::{Error, ErrorModel};
use crate::heal::drive;
use crate::heal::drive::LocalRecord;
use crate::heal::peers;
use crate::heal::rebuild;
use crate::runtime::{Scope, Tick, TickModel};
use crate::time::{Duration, NANOS_PER_SEC};

verus! {

/// How often it runs.
pub const TICK_SECS: u64 = 10;

/// Goes on with a heal that installs the machines anew.
#[derive(Clone, Copy, Debug)]
pub struct HealController;

/// Going on with the heal that this machine drives.
pub open spec fn reconcile_flow(root: Seq<char>, now: u64, a: Seq<Answer>, i: int) -> Flow<
    Result<TickModel, ErrorModel>,
> {
    peers::boot_flow(a, i).and_ok(
        |boot: Seq<char>, j: int| rebuild::tick_flow(drive::record_path(root), boot, now, a, j),
    )
}

impl HealController {
    /// Its name.
    pub fn name(&self) -> (r: &'static str)
        ensures
            r@ == "heal"@,
    {
        "heal"
    }

    /// It runs on every machine: the one that was asked drives, whatever leads.
    pub fn scope(&self) -> (r: Scope)
        ensures
            r == Scope::Node,
    {
        Scope::Node
    }

    /// How often it runs.
    pub fn interval(&self) -> (r: Duration)
        ensures
            r.nanos == TICK_SECS * NANOS_PER_SEC,
    {
        Duration::from_secs(TICK_SECS)
    }

    /// Goes on with the heal that this machine drives, if it drives one.
    pub fn reconcile(&self, s: &mut Script, root: &str, now: u64) -> (r: Result<
        Result<Tick, Error>,
        Ask,
    >)
        ensures
            effects::went(
                r,
                reconcile_flow(root@, now, old(s).answers@, old(s).at as int),
                *old(s),
                *final(s),
            ),
    {
        let boot = match peers::boot_id(s)? {
            Err(e) => return Ok(Err(e)),
            Ok(b) => b,
        };
        let local = LocalRecord::under(root);
        rebuild::tick(s, &local, boot.as_str(), now)
    }
}

} // verus!
