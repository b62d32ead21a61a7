//! The controller that goes on with a heal that repairs the cluster.
use vstd::prelude::*;

use crate::effects;
use crate::effects::{Answer, Ask, AskModel, Flow, Script};
use crate::error::{Error, ErrorModel};
use crate::heal::drive;
use crate::heal::drive::LocalRecord;
use crate::heal::peers;
use crate::heal::run;
use crate::runtime::{Scope, Tick, TickModel};
use crate::text;
use crate::time::{Duration, NANOS_PER_SEC};

verus! {

/// How often it runs.
pub const TICK_SECS: u64 = 10;

/// Goes on with a heal that repairs the cluster.
#[derive(Clone, Copy, Debug)]
pub struct HealController;

/// Which boot this is, as far as the machine says.
pub open spec fn boot_text(r: Result<Option<Seq<char>>, Seq<char>>) -> Result<Seq<char>, ErrorModel> {
    match r {
        Err(e) => Err(ErrorModel::message(e).during("read this boot's id"@)),
        Ok(None) => Err(ErrorModel::message("no such file"@).during("read this boot's id"@)),
        Ok(Some(t)) => Ok(text::trimmed(t)),
    }
}

/// Going on with the heal that this machine drives.
pub open spec fn reconcile_flow(root: Seq<char>, me: Seq<char>, now: u64, a: Seq<Answer>, i: int) -> Flow<
    Result<TickModel, ErrorModel>,
> {
    effects::file_flow(AskModel::LoadFile { path: peers::BOOT_ID_PATH@ }, a, i).and_then(
        |r: Result<Option<Seq<char>>, Seq<char>>, j: int|
            match boot_text(r) {
                Err(e) => Flow::Done(Err(e), j),
                Ok(boot) => run::tick_flow(drive::record_path(root), me, boot, now, a, j),
            },
    )
}

impl HealController {
    /// Its name.
    pub fn name(&self) -> (r: &'static str)
        ensures
            r@ == "heal"@,
    {
        "heal"
    }

    /// It runs on every machine: the one that was asked drives, whatever leads.
    pub fn scope(&self) -> (r: Scope)
        ensures
            r == Scope::Node,
    {
        Scope::Node
    }

    /// How often it runs.
    pub fn interval(&self) -> (r: Duration)
        ensures
            r.nanos == TICK_SECS * NANOS_PER_SEC,
    {
        Duration::from_secs(TICK_SECS)
    }

    /// Goes on with the heal that this machine drives, if it drives one. `me` is its
    /// name.
    pub fn reconcile(&self, s: &mut Script, root: &str, me: &str, now: u64) -> (r: Result<
        Result<Tick, Error>,
        Ask,
    >)
        ensures
            effects::went(
                r,
                reconcile_flow(root@, me@, now, old(s).answers@, old(s).at as int),
                *old(s),
                *final(s),
            ),
    {
        let boot = match s.file(Ask::LoadFile { path: peers::BOOT_ID_PATH.to_owned() })? {
            Err(e) => {
                return Ok(Err(Error::msg(e.as_str()).context("read this boot's id")));
            },
            Ok(None) => {
                return Ok(Err(Error::msg("no such file").context("read this boot's id")));
            },
            Ok(Some(t)) => text::trim(t.as_str()).to_owned(),
        };
        let local = LocalRecord::under(root);
        run::tick(s, &local, me, boot.as_str(), now)
    }
}

} // verus!
