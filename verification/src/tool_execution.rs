//! A tool call with its outcome.

use crate::guard::collector::{signal_views, Signal, SignalView};
use crate::text::opt_view;
use crate::tool_args::ToolArgs;
use crate::tool_status::{PlanCommand, ToolResultKind, ToolStatus};
use vstd::prelude::*;

verus! {

/// A tool call with its outcome.
#[derive(Debug)]
pub struct ToolExecution {
    pub tool_use_id: String,
    pub tool_name: String,
    pub tool_args: ToolArgs,
    pub content: String,
    pub conv_content: String,
    pub spawns_sub_agent: bool,
    pub sub_agent_prompt: Option<String>,
    pub sub_agent_description: Option<String>,
    pub sub_agent_fork: bool,
    pub exit_code: Option<i32>,
    pub status: ToolStatus,
    pub result_kind: ToolResultKind,
    pub signals: Vec<Signal>,
    pub plan_command: Option<PlanCommand>,
    pub needs_finalization: bool,
}

/// What a [`ToolExecution`] says.
pub struct ExecutionView {
    pub tool_use_id: Seq<char>,
    pub tool_name: Seq<char>,
    pub tool_args: Map<Seq<char>, Seq<char>>,
    pub content: Seq<char>,
    pub conv_content: Seq<char>,
    pub spawns_sub_agent: bool,
    pub sub_agent_prompt: Option<Seq<char>>,
    pub sub_agent_description: Option<Seq<char>>,
    pub sub_agent_fork: bool,
    pub exit_code: Option<i32>,
    pub status: ToolStatus,
    pub result_kind: ToolResultKind,
    pub signals: Seq<SignalView>,
    pub plan_command: Option<PlanCommand>,
    pub needs_finalization: bool,
}

impl View for ToolExecution {
    type V = ExecutionView;

    open spec fn view(&self) -> ExecutionView {
        ExecutionView {
            tool_use_id: self.tool_use_id@,
            tool_name: self.tool_name@,
            tool_args: self.tool_args@,
            content: self.content@,
            conv_content: self.conv_content@,
            spawns_sub_agent: self.spawns_sub_agent,
            sub_agent_prompt: opt_view(self.sub_agent_prompt),
            sub_agent_description: opt_view(self.sub_agent_description),
            sub_agent_fork: self.sub_agent_fork,
            exit_code: self.exit_code,
            status: self.status,
            result_kind: self.result_kind,
            signals: signal_views(self.signals@),
            plan_command: self.plan_command,
            needs_finalization: self.needs_finalization,
        }
    }
}

/// The views of a sequence of tool calls.
pub open spec fn execution_views(results: Seq<ToolExecution>) -> Seq<ExecutionView> {
    results.map_values(|r: ToolExecution| r@)
}

/// What a sub-agent is asked to do.
#[derive(Debug)]
pub struct SubAgentRequest {
    pub prompt: String,
    pub description: Option<String>,
    pub fork: bool,
}

impl ToolExecution {
    /// Whether the tool succeeded.
    pub fn succeeded(&self) -> (r: bool)
        ensures
            r == (self@.status is Succeeded),
    {
        match self.status {
            ToolStatus::Succeeded => true,
            _ => false,
        }
    }

    /// Takes out what a sub-agent is asked to do.
    pub fn take_sub_agent_request(&mut self) -> (r: Option<SubAgentRequest>)
        ensures
            match r {
                Some(q) => {
                    &&& old(self)@.sub_agent_prompt == Some(q.prompt@)
                    &&& opt_view(q.description) == old(self)@.sub_agent_description
                    &&& q.fork == old(self)@.sub_agent_fork
                    &&& final(self)@ == (ExecutionView {
                        sub_agent_prompt: None,
                        sub_agent_description: None,
                        ..old(self)@
                    })
                },
                None => old(self)@.sub_agent_prompt is None && final(self)@ == old(self)@,
            },
    {
        match self.sub_agent_prompt.take() {
            Some(prompt) => Some(
                SubAgentRequest {
                    prompt,
                    description: self.sub_agent_description.take(),
                    fork: self.sub_agent_fork,
                },
            ),
            None => None,
        }
    }
}

} // verus!
