//! What holds of what is drawn from the calls of a turn and told of them.

use crate::agent::orchestrator::{effect_notice, failure_notice, NoticeView};
use crate::agent::plan_actions::plan_effect;
use crate::agent::recovery_policy::{action_tools, inspection_capabilities, ActionView};
use crate::agent::sub_coordinator::{settled_call, IncompleteReason};
use crate::agent::sub_executor::turn_output;
use crate::agent::text::{byte_truncated, fitting_is_greatest};
use crate::agent::tool_signals::{has_error, is_error_kind, signals_of, ToolSignalProcessor};
use crate::agent::turn::{blocked_execution, ActionView as StepView, DecisionView, MachineView};
use crate::errors::ErrorSeverity;
use crate::guard::collector::{error_patterns, signal_views, status_signal};
use crate::json::JsonView;
use crate::protocol::ToolCallView;
use crate::text::{decimal, views};
use crate::text_laws::{is_part_of, middle_is_part};
use crate::tool_execution::ExecutionView;
use crate::tool_status::{PlanCommand, ToolFailureKind, ToolStatus};
use crate::tools::ToolSemanticCapability;
use vstd::prelude::*;
use vstd::utf8::encode_utf8;

verus! {

/// A call that is looked at gets its signals and keeps all else; they are kept behind those of
/// the calls before it, its tool becomes the newest that was called, and the turn counts one
/// error more just where one of them tells of an error.
pub proof fn looked_at_call_keeps_its_content(
    after: ToolSignalProcessor,
    before: ToolSignalProcessor,
    given: ExecutionView,
    kept: ExecutionView,
)
    requires
        after.processed_from(&before, given, kept, true),
    ensures
        kept.content == given.content,
        kept.conv_content == given.conv_content,
        kept.status == given.status,
        kept.tool_use_id == given.tool_use_id,
        kept.tool_name == given.tool_name,
        kept.tool_args == given.tool_args,
        kept.exit_code == given.exit_code,
        signal_views(before.signals@).is_prefix_of(signal_views(after.signals@)),
        signal_views(after.signals@).skip(signal_views(before.signals@).len() as int)
            == kept.signals,
        views(after.collector.call_history@).last() == given.tool_name,
        after.tool_error_count == before.tool_error_count || after.tool_error_count
            == before.tool_error_count + 1,
        after.tool_error_count == before.tool_error_count + 1 <==> exists|i: int|
            0 <= i < kept.signals.len() && ((#[trigger] kept.signals[i]).kind is ToolError
                || kept.signals[i].kind is TestFailure || kept.signals[i].kind is CompileError),
{
    let old = signal_views(before.signals@);
    let new = signal_views(after.signals@);
    assert(new.take(old.len() as int) =~= old);
    assert(new.skip(old.len() as int) =~= kept.signals);
    if has_error(kept.signals) {
        let i = choose|i: int|
            0 <= i < kept.signals.len() && is_error_kind(
                (#[trigger] kept.signals[i]).kind,
            );
        assert(kept.signals[i].kind is ToolError || kept.signals[i].kind is TestFailure
            || kept.signals[i].kind is CompileError);
    }
}

/// A call that is not looked at has no signals, keeps all else, and leaves no trace.
pub proof fn call_that_is_not_looked_at_leaves_no_trace(
    after: ToolSignalProcessor,
    before: ToolSignalProcessor,
    given: ExecutionView,
    kept: ExecutionView,
)
    requires
        after.processed_from(&before, given, kept, false),
    ensures
        after == before,
        kept.signals.len() == 0,
        kept.content == given.content,
        kept.status == given.status,
{
}

/// The output of a command is looked through for the marks of errors, that of another tool is
/// not.
pub proof fn only_commands_are_looked_through(call: ExecutionView, history: Seq<Seq<char>>)
    ensures
        call.status is Succeeded && !(call.result_kind is Command) ==> forall|i: int|
            0 <= i < signals_of(call, history).len() ==> (#[trigger] signals_of(
                call,
                history,
            )[i]).kind is EditLoop,
        status_signal(call.tool_name, call.status, call.content, call.exit_code) matches Some(s)
            ==> signals_of(call, history).contains(s),
{
    let drawn = signals_of(call, history);
    match status_signal(call.tool_name, call.status, call.content, call.exit_code) {
        Some(s) => {
            assert(drawn[0] == s);
        },
        None => {},
    }
}

/// The marks that are looked for stand in the order of their gravity, the gravest first, and one
/// that tells of a failed test or build is graver than any that tells of a fault of a tool.
pub proof fn graver_marks_come_first(i: int, j: int)
    requires
        0 <= i < j < error_patterns().len(),
    ensures
        error_patterns()[i].severity_percent >= error_patterns()[j].severity_percent,
        error_patterns()[i].kind is ToolError ==> error_patterns()[j].kind is ToolError,
        error_patterns()[j].kind is CompileError ==> error_patterns()[i].kind is CompileError,
{
}

/// What is cut to a number of bytes is the beginning of the text, fits, and could not be longer by
/// one character; what fits is not cut.
pub proof fn cut_text_is_the_longest_that_fits(s: Seq<char>, limit: nat)
    ensures
        byte_truncated(s, limit).is_prefix_of(s),
        encode_utf8(byte_truncated(s, limit)).len() <= limit,
        byte_truncated(s, limit).len() < s.len() ==> encode_utf8(
            s.take(byte_truncated(s, limit).len() as int + 1),
        ).len() > limit,
{
    fitting_is_greatest(s, limit);
    let cut = byte_truncated(s, limit);
    assert(s.take(cut.len() as int) =~= cut);
}

/// A call that is held back is answered under its own name and number, with its own arguments and
/// what is told instead of a result, and counts neither as a success nor as a failure.
pub proof fn held_back_call_is_answered(call: ToolCallView, content: Seq<char>)
    ensures
        ({
            let answer = blocked_execution(call, content);
            &&& answer.tool_use_id == call.id
            &&& answer.tool_name == call.name
            &&& answer.tool_args == call.fields
            &&& answer.content == content
            &&& answer.status is Blocked
            &&& answer.status.failure_spec() is None
            &&& answer.sub_agent_prompt is None && !answer.spawns_sub_agent
            &&& answer.plan_command is None && answer.signals.len() == 0
        }),
{
}

/// What may be used to look around are the tools of the inspections, all of them and no others.
pub proof fn inspecting_tools_are_allowed(actions: Seq<ActionView>, tool: Seq<char>)
    ensures
        action_tools(actions).contains(tool) <==> exists|i: int|
            0 <= i < actions.len() && (#[trigger] actions[i]).tool == tool,
{
    let tools = actions.map_values(|a: ActionView| a.tool);
    if action_tools(actions).contains(tool) {
        let i = tools.index_of(tool);
        assert(actions[i].tool == tool);
    }
    if exists|i: int| 0 <= i < actions.len() && (#[trigger] actions[i]).tool == tool {
        let i = choose|i: int| 0 <= i < actions.len() && (#[trigger] actions[i]).tool == tool;
        assert(tools[i] == tool);
    }
}

/// Nothing that edits, writes, plans or runs a shell is an inspection.
pub proof fn inspections_only_look(c: ToolSemanticCapability)
    requires
        inspection_capabilities().contains(c),
    ensures
        c is PathRead || c is ContentSearch || c is PathDiscovery || c is ResourceRead || c
            is ResourceSearch || c is FocusedVerificationExec,
{
    let i = inspection_capabilities().index_of(c);
    assert(inspection_capabilities()[i] == c);
}

/// A plan that is confirmed or cleared is told as just that, and one that is drafted is not told.
pub proof fn plan_is_told(command: PlanCommand)
    ensures
        plan_effect(None) is None,
        plan_effect(Some(command)) is None <==> command is SetDraft,
        plan_effect(Some(command)) matches Some(effect) ==> effect_notice(effect)
            == NoticeView::Info(
            if command is Confirm {
                "Plan confirmed."@
            } else {
                "Plan cleared."@
            },
        ),
{
}

/// The user is told the error of a turn that failed, whatever its gravity, as an error.
pub proof fn error_of_a_turn_is_told(severity: ErrorSeverity, error: Seq<char>)
    ensures
        failure_notice(severity, error) matches NoticeView::Error(text) && error.is_suffix_of(text),
        failure_notice(severity, error) == NoticeView::Error("Fatal error: "@ + error)
            || failure_notice(severity, error) == NoticeView::Error(
            "Turn execution error: "@ + error,
        ),
{
    match failure_notice(severity, error) {
        NoticeView::Error(text) => {
            assert(text.skip(text.len() - error.len()) =~= error);
        },
        _ => {},
    }
}

/// Why sub-agents are given up is told where it was cancelled or took too long, and then how long.
pub proof fn reason_to_give_up_is_told(reason: IncompleteReason, timeout: nat)
    ensures
        reason.notice_spec(timeout) is None <==> reason is ChannelClosed,
        reason is TimedOut ==> (reason.notice_spec(timeout) matches Some(text) && is_part_of(
            decimal(timeout),
            text,
        )),
        reason is Cancelled ==> reason.notice_spec(timeout) == Some(
            "Sub-agent collection cancelled."@,
        ),
{
    if reason is TimedOut {
        middle_is_part("Sub-agent batch timed out after "@, decimal(timeout), "s."@);
    }
}

/// A call whose sub-agent is given up tells which of the reasons it was: where it took too long, how
/// long.
pub proof fn reason_stands_in_the_result(reason: IncompleteReason, timeout: nat)
    ensures
        reason.text_spec(timeout).len() > 0,
        reason is TimedOut ==> is_part_of(decimal(timeout), reason.text_spec(timeout)),
        reason is TimedOut ==> reason.status_spec() == ToolStatus::Failed(ToolFailureKind::Timeout),
        reason is Cancelled <==> reason.status_spec() is Interrupted,
        !(reason.status_spec() is Succeeded),
{
    reveal_strlit("Sub-agent cancelled before completion.");
    reveal_strlit("Sub-agent did not complete.");
    reveal_strlit("s.");
    if reason is TimedOut {
        middle_is_part("Sub-agent timed out after "@, decimal(timeout), "s."@);
    }
}

/// In the end a call for a sub-agent that has no result has failed and says so, and every other
/// call stays as it is.
pub proof fn call_without_a_result_has_failed(call: ExecutionView)
    ensures
        call.spawns_sub_agent && call.content.len() == 0 ==> {
            &&& settled_call(call).status is Failed
            &&& settled_call(call).content.len() > 0
            &&& settled_call(call).tool_use_id == call.tool_use_id
            &&& settled_call(call).tool_name == call.tool_name
        },
        !call.spawns_sub_agent || call.content.len() > 0 ==> settled_call(call) == call,
{
    reveal_strlit("Sub-agent did not complete.");
}

/// A request begins with a look at whether the conversation is to be compacted, unless it was
/// compacted in this turn; it is counted, and where no more may begin the turn is over.
pub proof fn request_begins_with_a_look(machine: MachineView)
    ensures
        machine.turn < machine.max_turns ==> {
            &&& machine.begun().0.turn == machine.turn + 1
            &&& machine.begun().0.compacted == machine.compacted
            &&& machine.begun().0.text == machine.text
            &&& machine.compacted ==> machine.begun().1 is Estimate
            &&& !machine.compacted ==> (machine.begun().1 matches StepView::Compact(why) && why
                == "auto"@)
        },
        machine.turn >= machine.max_turns ==> machine.begun().0.phase is Over && (machine.begun().1
            matches StepView::Finish(decision) && decision is MaxTurnsExceeded),
{
}

/// A sub-agent that was interrupted says so in its text, and hands back no thoughts.
pub proof fn interrupted_sub_agent_says_so(messages: Seq<JsonView>)
    ensures
        turn_output(DecisionView::Interrupted, messages) matches Ok(said) && said.0.len() == 0
            && said.1.len() > 0,
{
    reveal_strlit("Sub-agent interrupted.");
}

} // verus!
