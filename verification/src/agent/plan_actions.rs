//! What the plan commands of a tool mean for a turn.

use crate::agent::turn::TurnEffect;
use crate::tool_execution::{ExecutionView, ToolExecution};
use crate::tool_status::PlanCommand;
use vstd::prelude::*;

verus! {

/// Carries out the plan commands of tools.
#[derive(Clone, Copy, Debug)]
pub struct PlanActionHandler;

/// The effect of a plan command.
pub open spec fn plan_effect(command: Option<PlanCommand>) -> Option<TurnEffect> {
    match command {
        Some(PlanCommand::Confirm) => Some(TurnEffect::PlanConfirmed),
        Some(PlanCommand::Clear) => Some(TurnEffect::PlanCleared),
        _ => None,
    }
}

impl PlanActionHandler {
    /// Takes the plan command out of `result` and notes its effect. A new draft has none, and
    /// is not handed on.
    pub fn handle(&self, result: &mut ToolExecution, effects: &mut Vec<TurnEffect>) -> (r: Option<
        PlanCommand,
    >)
        ensures
            final(result)@ == (ExecutionView { plan_command: None, ..old(result)@ }),
            final(effects)@ == match plan_effect(old(result)@.plan_command) {
                Some(e) => old(effects)@.push(e),
                None => old(effects)@,
            },
            r == match old(result)@.plan_command {
                Some(PlanCommand::SetDraft) => None,
                c => c,
            },
    {
        match result.plan_command.take() {
            Some(command) => match command {
                PlanCommand::SetDraft => None,
                PlanCommand::Confirm => {
                    effects.push(TurnEffect::PlanConfirmed);
                    Some(command)
                },
                PlanCommand::Clear => {
                    effects.push(TurnEffect::PlanCleared);
                    Some(command)
                },
            },
            None => None,
        }
    }
}

} // verus!
