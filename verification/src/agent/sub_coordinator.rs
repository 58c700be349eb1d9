//! Sub-agents: which are launched, and how their results are collected.

use crate::agent::text::{byte_truncated, truncate_str};
use crate::text::{decimal, decimal_of, opt_view, same_text};
use crate::tool_execution::{execution_views, ExecutionView, SubAgentRequest, ToolExecution};
use crate::tool_status::{ToolFailureKind, ToolStatus};
use vstd::prelude::*;

verus! {

/// What a sub-agent used.
#[derive(Clone, Copy, Debug, PartialEq, Eq, Structural)]
pub struct SubAgentUsage {
    pub agent_request_count: u64,
    pub total_input_tokens: u64,
    pub total_output_tokens: u64,
    pub total_cache_read_tokens: u64,
    pub total_cache_creation_tokens: u64,
}

/// What came of a sub-agent.
#[derive(Debug)]
pub struct SubAgentResult {
    pub status: String,
    pub thinking: String,
    pub text: String,
    pub usage: SubAgentUsage,
}

/// What a [`SubAgentResult`] says.
pub struct SubResultView {
    pub status: Seq<char>,
    pub thinking: Seq<char>,
    pub text: Seq<char>,
    pub usage: SubAgentUsage,
}

impl View for SubAgentResult {
    type V = SubResultView;

    open spec fn view(&self) -> SubResultView {
        SubResultView {
            status: self.status@,
            thinking: self.thinking@,
            text: self.text@,
            usage: self.usage,
        }
    }
}

/// Why a sub-agent did not run to its end by itself.
#[derive(Debug)]
pub enum RunFault {
    /// No more sub-agents are admitted.
    NotAdmitted,
    /// It was cancelled before it ran.
    CancelledBefore,
    /// It could not be made, for this reason.
    NotCreated(String),
    /// It panicked, with this message.
    Panicked(String),
}

/// What a [`RunFault`] says.
pub enum RunFaultView {
    NotAdmitted,
    CancelledBefore,
    NotCreated(Seq<char>),
    Panicked(Seq<char>),
}

impl View for RunFault {
    type V = RunFaultView;

    open spec fn view(&self) -> RunFaultView {
        match self {
            RunFault::NotAdmitted => RunFaultView::NotAdmitted,
            RunFault::CancelledBefore => RunFaultView::CancelledBefore,
            RunFault::NotCreated(e) => RunFaultView::NotCreated(e@),
            RunFault::Panicked(m) => RunFaultView::Panicked(m@),
        }
    }
}

/// The use of a sub-agent that did nothing.
pub open spec fn no_usage() -> SubAgentUsage {
    SubAgentUsage {
        agent_request_count: 0,
        total_input_tokens: 0,
        total_output_tokens: 0,
        total_cache_read_tokens: 0,
        total_cache_creation_tokens: 0,
    }
}

/// What comes of a sub-agent that did not run to its end by itself.
pub open spec fn faulted(fault: RunFaultView) -> SubResultView {
    SubResultView {
        status: if fault is CancelledBefore {
            "cancelled"@
        } else {
            "failed"@
        },
        thinking: seq![],
        text: match fault {
            RunFaultView::NotAdmitted => "Sub-agent semaphore closed."@,
            RunFaultView::CancelledBefore => "Sub-agent cancelled before execution."@,
            RunFaultView::NotCreated(e) => "Failed to create sub-agent: "@ + e,
            RunFaultView::Panicked(m) => "Sub-agent task panicked: "@ + m,
        },
        usage: no_usage(),
    }
}

impl SubAgentResult {
    /// What comes of a sub-agent that did not run to its end by itself.
    pub fn of_fault(fault: RunFault) -> (r: SubAgentResult)
        ensures
            r@ == faulted(fault@),
    {
        let status: &'static str = match &fault {
            RunFault::CancelledBefore => "cancelled",
            _ => "failed",
        };
        let text: String = match fault {
            RunFault::NotAdmitted => "Sub-agent semaphore closed.".to_owned(),
            RunFault::CancelledBefore => "Sub-agent cancelled before execution.".to_owned(),
            RunFault::NotCreated(e) => "Failed to create sub-agent: ".to_owned().concat(
                e.as_str(),
            ),
            RunFault::Panicked(m) => "Sub-agent task panicked: ".to_owned().concat(m.as_str()),
        };
        SubAgentResult {
            status: status.to_owned(),
            thinking: String::new(),
            text,
            usage: SubAgentUsage {
                agent_request_count: 0,
                total_input_tokens: 0,
                total_output_tokens: 0,
                total_cache_read_tokens: 0,
                total_cache_creation_tokens: 0,
            },
        }
    }
}

/// A sub-agent to launch: the place of its call, and what it is asked to do.
#[derive(Debug)]
pub struct LaunchRequest {
    pub idx: usize,
    pub request: SubAgentRequest,
}

/// A call that would launch a sub-agent from within a sub-agent.
pub open spec fn recursion_blocked(call: ExecutionView) -> ExecutionView {
    ExecutionView {
        content: "Error: sub-agent recursion blocked: sub-agent cannot spawn sub-agents."@,
        status: ToolStatus::Failed(ToolFailureKind::SafetyBlocked),
        spawns_sub_agent: false,
        ..request_taken(call)
    }
}

/// A call whose request has been taken out.
pub open spec fn request_taken(call: ExecutionView) -> ExecutionView {
    ExecutionView { sub_agent_prompt: None, sub_agent_description: None, ..call }
}

/// What becomes of a call before sub-agents run.
pub open spec fn prepared(call: ExecutionView, is_sub_agent: bool) -> ExecutionView {
    if call.sub_agent_prompt is None {
        call
    } else if is_sub_agent {
        recursion_blocked(call)
    } else {
        request_taken(call)
    }
}

/// The places among the first `n` calls that launch a sub-agent.
pub open spec fn launch_places(calls: Seq<ExecutionView>, is_sub_agent: bool, n: nat) -> Seq<int>
    decreases n,
{
    if n == 0 {
        seq![]
    } else if calls[n - 1].sub_agent_prompt is Some && !is_sub_agent {
        launch_places(calls, is_sub_agent, (n - 1) as nat).push(n - 1)
    } else {
        launch_places(calls, is_sub_agent, (n - 1) as nat)
    }
}

/// Whether `launch` is what the call at its place asks for.
pub open spec fn asks_for(calls: Seq<ExecutionView>, launch: LaunchRequest) -> bool {
    &&& launch.idx < calls.len()
    &&& calls[launch.idx as int].sub_agent_prompt == Some(launch.request.prompt@)
    &&& calls[launch.idx as int].sub_agent_description == opt_view(launch.request.description)
    &&& calls[launch.idx as int].sub_agent_fork == launch.request.fork
}

/// Takes the requests for sub-agents out of the calls. Within a sub-agent they are refused.
pub fn plan_launches(results: Vec<ToolExecution>, is_sub_agent: bool) -> (r: (
    Vec<ToolExecution>,
    Vec<LaunchRequest>,
))
    ensures
        ({
            let calls = execution_views(results@);
            &&& execution_views(r.0@) == calls.map_values(
                |c: ExecutionView| prepared(c, is_sub_agent),
            )
            &&& r.1@.map_values(|l: LaunchRequest| l.idx as int) == launch_places(
                calls,
                is_sub_agent,
                calls.len(),
            )
            &&& forall|k: int| 0 <= k < r.1@.len() ==> asks_for(calls, #[trigger] r.1@[k])
        }),
{
    let ghost calls = execution_views(results@);
    let ghost expected = calls.map_values(|c: ExecutionView| prepared(c, is_sub_agent));
    let mut rest: Vec<ToolExecution> = results;
    let total: usize = rest.len();
    let mut processed: Vec<ToolExecution> = Vec::new();
    let mut launches: Vec<LaunchRequest> = Vec::new();
    assert(execution_views(processed@) =~= expected.take(0));
    assert(launches@.map_values(|l: LaunchRequest| l.idx as int) =~= launch_places(
        calls,
        is_sub_agent,
        0,
    ));
    assert(execution_views(rest@) =~= calls.skip(0));
    while rest.len() > 0
        invariant
            calls.len() == total,
            processed@.len() + rest@.len() == total,
            expected == calls.map_values(|c: ExecutionView| prepared(c, is_sub_agent)),
            execution_views(rest@) == calls.skip(processed@.len() as int),
            execution_views(processed@) == expected.take(processed@.len() as int),
            launches@.map_values(|l: LaunchRequest| l.idx as int) == launch_places(
                calls,
                is_sub_agent,
                processed@.len(),
            ),
            forall|k: int| 0 <= k < launches@.len() ==> asks_for(calls, #[trigger] launches@[k]),
        decreases rest@.len(),
    {
        let ghost n = processed@.len() as int;
        let ghost before = rest@;
        let ghost done = processed@;
        let mut result: ToolExecution = rest.remove(0);
        proof {
            assert(execution_views(before)[0] == before[0]@);
            assert(calls.skip(n)[0] == calls[n]);
            assert(result@ == calls[n]);
            assert(execution_views(rest@) =~= calls.skip(n + 1)) by {
                assert forall|i: int| 0 <= i < rest@.len() implies execution_views(rest@)[i]
                    == calls.skip(n + 1)[i] by {
                    assert(execution_views(before)[i + 1] == calls.skip(n)[i + 1]);
                }
            }
        }
        match result.take_sub_agent_request() {
            Some(request) => {
                if is_sub_agent {
                    result.content =
                    "Error: sub-agent recursion blocked: sub-agent cannot spawn sub-agents.".to_owned();
                    result.status = ToolStatus::Failed(ToolFailureKind::SafetyBlocked);
                    result.spawns_sub_agent = false;
                } else {
                    let ghost held = launches@;
                    let launch: LaunchRequest = LaunchRequest { idx: processed.len(), request };
                    launches.push(launch);
                    assert(launches@.map_values(|l: LaunchRequest| l.idx as int)
                        =~= held.map_values(|l: LaunchRequest| l.idx as int).push(n));
                }
            },
            None => {},
        }
        processed.push(result);
        proof {
            assert(expected[n] == result@);
            assert(execution_views(processed@) =~= execution_views(done).push(result@));
            assert(expected.take(n + 1) =~= expected.take(n).push(expected[n]));
        }
    }
    assert(expected.take(processed@.len() as int) =~= expected);
    (processed, launches)
}

/// Why sub-agents did not all finish.
#[derive(Clone, Copy, Debug, PartialEq, Eq, Structural)]
pub enum IncompleteReason {
    Cancelled,
    TimedOut,
    ChannelClosed,
}

impl IncompleteReason {
    /// The reason in one word.
    pub open spec fn name_spec(self) -> Seq<char> {
        match self {
            IncompleteReason::Cancelled => "cancelled"@,
            IncompleteReason::TimedOut => "timed_out"@,
            IncompleteReason::ChannelClosed => "channel_closed"@,
        }
    }

    /// The reason in one word.
    pub fn name(self) -> (r: &'static str)
        ensures
            r@ == self.name_spec(),
    {
        match self {
            IncompleteReason::Cancelled => "cancelled",
            IncompleteReason::TimedOut => "timed_out",
            IncompleteReason::ChannelClosed => "channel_closed",
        }
    }

    /// How a call ends whose sub-agent did not finish.
    pub open spec fn status_spec(self) -> ToolStatus {
        match self {
            IncompleteReason::Cancelled => ToolStatus::Interrupted,
            IncompleteReason::TimedOut => ToolStatus::Failed(ToolFailureKind::Timeout),
            IncompleteReason::ChannelClosed => ToolStatus::Failed(ToolFailureKind::Unknown),
        }
    }

    /// What is said of a sub-agent that did not finish.
    pub open spec fn text_spec(self, timeout: nat) -> Seq<char> {
        match self {
            IncompleteReason::TimedOut => "Sub-agent timed out after "@ + decimal(timeout) + "s."@,
            IncompleteReason::Cancelled => "Sub-agent cancelled before completion."@,
            IncompleteReason::ChannelClosed => "Sub-agent did not complete."@,
        }
    }

    /// What the user is told when sub-agents are given up.
    pub open spec fn notice_spec(self, timeout: nat) -> Option<Seq<char>> {
        match self {
            IncompleteReason::Cancelled => Some("Sub-agent collection cancelled."@),
            IncompleteReason::TimedOut => Some(
                "Sub-agent batch timed out after "@ + decimal(timeout) + "s."@,
            ),
            IncompleteReason::ChannelClosed => None,
        }
    }

    /// What the user is told when sub-agents are given up.
    pub fn notice(self, timeout: u64) -> (r: Option<String>)
        ensures
            opt_view(r) == self.notice_spec(timeout as nat),
    {
        match self {
            IncompleteReason::Cancelled => Some("Sub-agent collection cancelled.".to_owned()),
            IncompleteReason::TimedOut => Some(
                "Sub-agent batch timed out after ".to_owned().concat(
                    decimal_of(timeout).as_str(),
                ).concat("s."),
            ),
            IncompleteReason::ChannelClosed => None,
        }
    }
}

/// A sub-agent that was launched.
#[derive(Debug)]
pub struct Launch {
    pub idx: usize,
    pub session_id: String,
}

/// The text of a call whose sub-agent finished.
pub open spec fn completion_text(session_id: Seq<char>, result: SubResultView) -> Seq<char> {
    "[sub-agent "@ + session_id + "] "@ + result.status + " (in="@ + decimal(
        result.usage.total_input_tokens as nat,
    ) + ", out="@ + decimal(result.usage.total_output_tokens as nat) + ")\nThinking: "@
        + result.thinking + "\nText: "@ + result.text
}

/// A call whose sub-agent finished.
pub open spec fn completed_call(
    call: ExecutionView,
    session_id: Seq<char>,
    result: SubResultView,
) -> ExecutionView {
    ExecutionView {
        status: if result.status == "ok"@ {
            ToolStatus::Succeeded
        } else {
            ToolStatus::Failed(ToolFailureKind::Unknown)
        },
        content: completion_text(session_id, result),
        ..call
    }
}

/// A call whose sub-agent did not finish. What was written of it already stays.
pub open spec fn abandoned_call(
    call: ExecutionView,
    reason: IncompleteReason,
    timeout: nat,
) -> ExecutionView {
    ExecutionView {
        status: reason.status_spec(),
        content: if call.content.len() == 0 {
            reason.text_spec(timeout)
        } else {
            call.content
        },
        ..call
    }
}

/// A call at the end: one that launched a sub-agent always says something.
pub open spec fn settled_call(call: ExecutionView) -> ExecutionView {
    if call.spawns_sub_agent && call.content.len() == 0 {
        ExecutionView {
            content: "Sub-agent did not complete."@,
            status: ToolStatus::Failed(ToolFailureKind::Unknown),
            ..call
        }
    } else {
        call
    }
}

/// What to do next while results are collected.
#[derive(Clone, Copy, Debug, PartialEq, Eq, Structural)]
pub enum CollectStep {
    Wait,
    Done,
    GiveUp(IncompleteReason),
}

/// What is told of a sub-agent that finished.
#[derive(Debug)]
pub struct CompletionNotice {
    pub failure: Option<String>,
}

/// The results of a batch of calls while their sub-agents run.
#[derive(Debug)]
pub struct SubAgentCollector {
    pub results: Vec<ToolExecution>,
    pub launches: Vec<Launch>,
    pub completed: Vec<usize>,
    pub timeout_secs: u64,
}

/// Whether the sub-agent of the call at `idx` has finished.
pub open spec fn is_completed(completed: Seq<usize>, idx: usize) -> bool {
    completed.contains(idx)
}

/// The calls after those of the first `n` launches that did not finish were given up.
pub open spec fn abandoned(
    calls: Seq<ExecutionView>,
    launches: Seq<Launch>,
    completed: Seq<usize>,
    reason: IncompleteReason,
    timeout: nat,
    n: nat,
) -> Seq<ExecutionView>
    decreases n,
{
    if n == 0 {
        calls
    } else {
        let before = abandoned(calls, launches, completed, reason, timeout, (n - 1) as nat);
        let idx = launches[n - 1].idx;
        if is_completed(completed, idx) || idx >= before.len() {
            before
        } else {
            before.update(idx as int, abandoned_call(before[idx as int], reason, timeout))
        }
    }
}

/// The places among the first `n` launches of those that did not finish.
pub open spec fn pending_launches(launches: Seq<Launch>, completed: Seq<usize>, n: nat) -> Seq<
    int,
>
    decreases n,
{
    if n == 0 {
        seq![]
    } else if is_completed(completed, launches[n - 1].idx) {
        pending_launches(launches, completed, (n - 1) as nat)
    } else {
        pending_launches(launches, completed, (n - 1) as nat).push(n - 1)
    }
}

/// What is done next where so many of the sub-agents that were launched have finished.
pub open spec fn collecting(
    finished: nat,
    launched: nat,
    cancelled: bool,
    deadline_passed: bool,
) -> CollectStep {
    if finished >= launched {
        CollectStep::Done
    } else if cancelled {
        CollectStep::GiveUp(IncompleteReason::Cancelled)
    } else if deadline_passed {
        CollectStep::GiveUp(IncompleteReason::TimedOut)
    } else {
        CollectStep::Wait
    }
}

fn holds_index(v: &Vec<usize>, idx: usize) -> (r: bool)
    ensures
        r == v@.contains(idx),
{
    let mut i: usize = 0;
    while i < v.len()
        invariant
            i <= v@.len(),
            forall|j: int| 0 <= j < i ==> #[trigger] v@[j] != idx,
        decreases v@.len() - i,
    {
        if v[i] == idx {
            return true;
        }
        i += 1;
    }
    false
}

impl SubAgentCollector {
    /// How many sub-agents have finished.
    pub open spec fn finished(&self) -> nat {
        self.completed@.len()
    }

    /// Collects the results of `launches`. A negative timeout counts as none at all.
    pub fn new(results: Vec<ToolExecution>, launches: Vec<Launch>, timeout_secs: i32) -> (r:
        SubAgentCollector)
        ensures
            r.results == results,
            r.launches == launches,
            r.finished() == 0,
            r.timeout_secs == if timeout_secs < 0 {
                0
            } else {
                timeout_secs as int
            },
    {
        let timeout: u64 = if timeout_secs < 0 {
            0
        } else {
            timeout_secs as u64
        };
        SubAgentCollector { results, launches, completed: Vec::new(), timeout_secs: timeout }
    }

    /// What to do next: nothing more once all sub-agents have finished; else give up where the
    /// session was cancelled or the time is up; else wait for a result.
    pub fn next_step(&self, cancelled: bool, deadline_passed: bool) -> (r: CollectStep)
        ensures
            r == collecting(
                self.finished(),
                self.launches@.len(),
                cancelled,
                deadline_passed,
            ),
    {
        if self.completed.len() >= self.launches.len() {
            CollectStep::Done
        } else if cancelled {
            CollectStep::GiveUp(IncompleteReason::Cancelled)
        } else if deadline_passed {
            CollectStep::GiveUp(IncompleteReason::TimedOut)
        } else {
            CollectStep::Wait
        }
    }

    /// Takes in the result of the sub-agent whose call stands at `idx`.
    pub fn on_result(&mut self, idx: usize, session_id: &str, result: &SubAgentResult) -> (r:
        CompletionNotice)
        ensures
            final(self).completed@ == old(self).completed@.push(idx),
            final(self).launches == old(self).launches,
            final(self).timeout_secs == old(self).timeout_secs,
            execution_views(final(self).results@) == if idx < old(self).results@.len() {
                execution_views(old(self).results@).update(
                    idx as int,
                    completed_call(old(self).results@[idx as int]@, session_id@, result@),
                )
            } else {
                execution_views(old(self).results@)
            },
            match r.failure {
                Some(m) => idx < old(self).results@.len() && result@.status != "ok"@ && m@
                    == "[sub-agent "@ + session_id@ + "] failed: "@ + byte_truncated(
                    result@.thinking,
                    60,
                ),
                None => idx >= old(self).results@.len() || result@.status == "ok"@,
            },
    {
        self.completed.push(idx);
        if idx >= self.results.len() {
            return CompletionNotice { failure: None };
        }
        let ok: bool = same_text(result.status.as_str(), "ok");
        let content: String = "[sub-agent ".to_owned().concat(session_id).concat("] ").concat(
            result.status.as_str(),
        ).concat(" (in=").concat(decimal_of(result.usage.total_input_tokens).as_str()).concat(
            ", out=",
        ).concat(decimal_of(result.usage.total_output_tokens).as_str()).concat(
            ")\nThinking: ",
        ).concat(result.thinking.as_str()).concat("\nText: ").concat(result.text.as_str());
        let ghost before = execution_views(self.results@);
        let mut call: ToolExecution = self.results.remove(idx);
        assert(call@ == before[idx as int]);
        call.status = if ok {
            ToolStatus::Succeeded
        } else {
            ToolStatus::Failed(ToolFailureKind::Unknown)
        };
        call.content = content;
        self.results.insert(idx, call);
        assert(execution_views(self.results@) =~= before.update(
            idx as int,
            completed_call(before[idx as int], session_id@, result@),
        ));
        if ok {
            CompletionNotice { failure: None }
        } else {
            let preview: String = truncate_str(result.thinking.as_str(), 60);
            CompletionNotice {
                failure: Some(
                    "[sub-agent ".to_owned().concat(session_id).concat("] failed: ").concat(
                        preview.as_str(),
                    ),
                ),
            }
        }
    }

    fn abandon(&mut self, idx: usize, reason: IncompleteReason)
        ensures
            final(self).completed == old(self).completed,
            final(self).launches == old(self).launches,
            final(self).timeout_secs == old(self).timeout_secs,
            execution_views(final(self).results@) == if idx < old(self).results@.len() {
                execution_views(old(self).results@).update(
                    idx as int,
                    abandoned_call(
                        old(self).results@[idx as int]@,
                        reason,
                        old(self).timeout_secs as nat,
                    ),
                )
            } else {
                execution_views(old(self).results@)
            },
    {
        if idx >= self.results.len() {
            return;
        }
        let ghost before = execution_views(self.results@);
        let timeout: u64 = self.timeout_secs;
        let mut call: ToolExecution = self.results.remove(idx);
        assert(call@ == before[idx as int]);
        call.status = match reason {
            IncompleteReason::Cancelled => ToolStatus::Interrupted,
            IncompleteReason::TimedOut => ToolStatus::Failed(ToolFailureKind::Timeout),
            IncompleteReason::ChannelClosed => ToolStatus::Failed(ToolFailureKind::Unknown),
        };
        if call.content.as_str().is_empty() {
            call.content = match reason {
                IncompleteReason::TimedOut => "Sub-agent timed out after ".to_owned().concat(
                    decimal_of(timeout).as_str(),
                ).concat("s."),
                IncompleteReason::Cancelled => "Sub-agent cancelled before completion.".to_owned(),
                IncompleteReason::ChannelClosed => "Sub-agent did not complete.".to_owned(),
            };
        }
        self.results.insert(idx, call);
        assert(execution_views(self.results@) =~= before.update(
            idx as int,
            abandoned_call(before[idx as int], reason, timeout as nat),
        ));
    }

    /// Gives up on the sub-agents that have not finished. Returns the places of their launches,
    /// which are to be cancelled.
    pub fn give_up(&mut self, reason: IncompleteReason) -> (r: Vec<usize>)
        ensures
            final(self).completed == old(self).completed,
            final(self).launches == old(self).launches,
            final(self).timeout_secs == old(self).timeout_secs,
            execution_views(final(self).results@) == abandoned(
                execution_views(old(self).results@),
                old(self).launches@,
                old(self).completed@,
                reason,
                old(self).timeout_secs as nat,
                old(self).launches@.len(),
            ),
            r@.map_values(|i: usize| i as int) == pending_launches(
                old(self).launches@,
                old(self).completed@,
                old(self).launches@.len(),
            ),
    {
        let ghost start = execution_views(self.results@);
        let ghost launches = self.launches@;
        let ghost completed = self.completed@;
        let ghost timeout = self.timeout_secs as nat;
        let mut pending: Vec<usize> = Vec::new();
        let mut i: usize = 0;
        assert(pending@.map_values(|i: usize| i as int) =~= pending_launches(
            launches,
            completed,
            0,
        ));
        while i < self.launches.len()
            invariant
                i <= self.launches@.len(),
                self.launches == old(self).launches,
                self.completed == old(self).completed,
                self.timeout_secs == old(self).timeout_secs,
                launches == self.launches@,
                completed == self.completed@,
                timeout == self.timeout_secs as nat,
                execution_views(self.results@) == abandoned(
                    start,
                    launches,
                    completed,
                    reason,
                    timeout,
                    i as nat,
                ),
                pending@.map_values(|i: usize| i as int) == pending_launches(
                    launches,
                    completed,
                    i as nat,
                ),
            decreases self.launches@.len() - i,
        {
            let idx: usize = self.launches[i].idx;
            assert(execution_views(self.results@).len() == self.results@.len());
            if !holds_index(&self.completed, idx) {
                self.abandon(idx, reason);
                let ghost before = pending@;
                pending.push(i);
                assert(pending@.map_values(|i: usize| i as int) =~= before.map_values(
                    |i: usize| i as int,
                ).push(i as int));
            }
            i += 1;
        }
        pending
    }

    /// The results at the end.
    pub fn into_results(self) -> (r: Vec<ToolExecution>)
        ensures
            execution_views(r@) == execution_views(self.results@).map_values(
                |c: ExecutionView| settled_call(c),
            ),
    {
        let ghost calls = execution_views(self.results@);
        let ghost expected = calls.map_values(|c: ExecutionView| settled_call(c));
        let mut rest: Vec<ToolExecution> = self.results;
        let mut out: Vec<ToolExecution> = Vec::new();
        let total: usize = rest.len();
        assert(execution_views(out@) =~= expected.take(0));
        assert(execution_views(rest@) =~= calls.skip(0));
        while rest.len() > 0
            invariant
                calls.len() == total,
                out@.len() + rest@.len() == total,
                expected == calls.map_values(|c: ExecutionView| settled_call(c)),
                execution_views(rest@) == calls.skip(out@.len() as int),
                execution_views(out@) == expected.take(out@.len() as int),
            decreases rest@.len(),
        {
            let ghost n = out@.len() as int;
            let ghost before = rest@;
            let ghost done = out@;
            let mut call: ToolExecution = rest.remove(0);
            proof {
                assert(execution_views(before)[0] == before[0]@);
                assert(calls.skip(n)[0] == calls[n]);
                assert(execution_views(rest@) =~= calls.skip(n + 1)) by {
                    assert forall|i: int| 0 <= i < rest@.len() implies execution_views(rest@)[i]
                        == calls.skip(n + 1)[i] by {
                        assert(execution_views(before)[i + 1] == calls.skip(n)[i + 1]);
                    }
                }
            }
            if call.spawns_sub_agent && call.content.as_str().is_empty() {
                call.content = "Sub-agent did not complete.".to_owned();
                call.status = ToolStatus::Failed(ToolFailureKind::Unknown);
            }
            out.push(call);
            proof {
                assert(expected[n] == call@);
                assert(execution_views(out@) =~= execution_views(done).push(call@));
                assert(expected.take(n + 1) =~= expected.take(n).push(expected[n]));
            }
        }
        assert(expected.take(out@.len() as int) =~= expected);
        out
    }
}

/// How many milliseconds sub-agents get to stop after they were given up: none where the
/// timeout was zero.
pub fn shutdown_grace_ms(timeout_secs: u64) -> (r: u64)
    ensures
        r == if timeout_secs == 0 {
            0
        } else {
            250int
        },
{
    if timeout_secs == 0 {
        0
    } else {
        250
    }
}

/// At the end every call that launched a sub-agent says something.
pub proof fn settled_calls_say_something(call: ExecutionView)
    ensures
        settled_call(call).spawns_sub_agent ==> settled_call(call).content.len() > 0,
{
    reveal_strlit("Sub-agent did not complete.");
}

/// Giving up leaves the calls alone whose sub-agents finished, and those that launched none.
pub proof fn giving_up_keeps_other_calls(
    calls: Seq<ExecutionView>,
    launches: Seq<Launch>,
    completed: Seq<usize>,
    reason: IncompleteReason,
    timeout: nat,
    n: nat,
    i: int,
)
    requires
        n <= launches.len(),
        0 <= i < calls.len(),
        forall|k: int|
            0 <= k < launches.len() && (#[trigger] launches[k]).idx == i ==> is_completed(
                completed,
                launches[k].idx,
            ),
    ensures
        abandoned(calls, launches, completed, reason, timeout, n).len() == calls.len(),
        abandoned(calls, launches, completed, reason, timeout, n)[i] == calls[i],
    decreases n,
{
    if n > 0 {
        giving_up_keeps_other_calls(
            calls,
            launches,
            completed,
            reason,
            timeout,
            (n - 1) as nat,
            i,
        );
        assert(launches[n - 1].idx == i ==> is_completed(completed, launches[n - 1].idx));
    }
}

/// A call whose sub-agent is given up never ends as a success.
pub proof fn abandoned_call_is_no_success(
    call: ExecutionView,
    reason: IncompleteReason,
    timeout: nat,
)
    ensures
        !(abandoned_call(call, reason, timeout).status is Succeeded),
        call.content.len() > 0 ==> abandoned_call(call, reason, timeout).content == call.content,
{
}

/// Within a sub-agent no sub-agent is launched.
pub proof fn sub_agents_do_not_recurse(calls: Seq<ExecutionView>, n: nat)
    ensures
        launch_places(calls, true, n).len() == 0,
    decreases n,
{
    if n > 0 {
        sub_agents_do_not_recurse(calls, (n - 1) as nat);
    }
}

} // verus!
