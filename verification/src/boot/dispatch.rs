//! Which of the steps at the start is meant.
use vstd::prelude::*;

use crate::model::Model;
use crate::text;

verus! {

/// A step at the start of this machine.
#[derive(Clone, Copy, Debug, PartialEq, Eq, Structural)]
pub enum Step {
    NodeIp,
    CsiRecovery,
    Banner,
}

/// The step of a name, or the complaint about it.
pub open spec fn step_of(args: Seq<Seq<char>>) -> Result<Step, Seq<char>> {
    if args.len() == 0 {
        Err("boot: missing subcommand"@)
    } else if args[0] == "node-ip"@ {
        Ok(Step::NodeIp)
    } else if args[0] == "csi-recovery"@ {
        Ok(Step::CsiRecovery)
    } else if args[0] == "banner"@ {
        Ok(Step::Banner)
    } else {
        Err("boot: unknown subcommand '"@ + args[0] + "'"@)
    }
}

impl Model for Step {
    type M = Step;

    open spec fn model(&self) -> Step {
        *self
    }
}

/// The step that is meant, or the complaint that there is none such.
pub fn step(args: &Vec<String>) -> (r: Result<Step, String>)
    ensures
        r.model() == step_of(args.model()),
{
    if args.len() == 0 {
        return Err(String::from_str("boot: missing subcommand"));
    }
    assert(args.model()[0] == args@[0]@);
    let sub = args[0].as_str();
    if text::same(sub, "node-ip") {
        Ok(Step::NodeIp)
    } else if text::same(sub, "csi-recovery") {
        Ok(Step::CsiRecovery)
    } else if text::same(sub, "banner") {
        Ok(Step::Banner)
    } else {
        Err(text::cat3("boot: unknown subcommand '", sub, "'"))
    }
}

} // verus!
