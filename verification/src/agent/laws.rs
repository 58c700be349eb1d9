//! What holds of the decisions about a turn and of the sub-agents that it launches.

use crate::agent::belief::{failure_total, worst_severity};
use crate::agent::decision::{
    decided, BeliefStanding, Decision, RecoveryDirective, RecoverySeverity,
};
use crate::agent::orchestrator::{
    compact_notices_of, decision_notices, error_of, status_of, NoticeView, OutcomeView, TurnStatus,
};
use crate::agent::recovery_policy::{
    compiled_entry, guard_text, inspection, inspections, CatalogEntry,
};
use crate::agent::sub_coordinator::{
    abandoned, collecting, completed_call, completion_text, faulted, launch_places,
    pending_launches, prepared, CollectStep, IncompleteReason, Launch, RunFaultView, SubResultView,
};
use crate::agent::sub_executor::{first_block_text, report_of, said, turn_output};
use crate::agent::tool_signals::{
    evidence_after, failure_summary, is_hard_failure, section_path, section_paths, written_paths,
};
use crate::agent::turn::DecisionView;
use crate::guard::collector::SignalView;
use crate::guard::evidence::EvidenceView;
use crate::json::{field_is, field_of, field_text, JsonView};
use crate::text::{decimal, joined, lemma_index_of_unique, lines_of, trimmed};
use crate::text_laws::{is_part_of, joined_holds_each_part};
use crate::tool_args::json_of_args;
use crate::tool_execution::ExecutionView;
use crate::tool_status::{ToolFailureKind, ToolStatus};
use crate::tools::{ToolBinding, ToolSemanticCapability};
use vstd::prelude::*;

verus! {

/// A call is kept as evidence under its tool, with its arguments and the paths that it edits, and
/// it counts as one failure just where it did not succeed or gave a signal.
pub proof fn calls_are_kept_as_evidence(
    e: EvidenceView,
    max_records: nat,
    call: ExecutionView,
    signals: Seq<SignalView>,
)
    ensures
        ({
            let after = evidence_after(e, max_records, call, signals);
            let failed = !(call.status is Succeeded) || signals.len() > 0;
            &&& after.records.last().tool == call.tool_name
            &&& after.records.last().args == json_of_args(call.tool_args)
            &&& after.records.last().paths == written_paths(call.tool_name, call.tool_args)
            &&& failed ==> after.hard_failures + after.soft_failures == e.hard_failures
                + e.soft_failures + 1
            &&& !failed ==> after == (EvidenceView { records: after.records, ..e })
            &&& (exists|i: int|
                0 <= i < signals.len() && (#[trigger] signals[i]).kind.is_hard_spec())
                ==> after.hard_failures == e.hard_failures + 1
        }),
{
    let failed = !(call.status is Succeeded) || signals.len() > 0;
    if !failed {
        assert(!is_hard_failure(call, signals));
        assert(failure_summary(call, signals).len() == 0);
    }
}

/// What a call that failed is summed up as: the kind of its failure, or else what its first signal
/// says.
pub proof fn failures_are_summed_up(call: ExecutionView, signals: Seq<SignalView>)
    ensures
        call.status matches ToolStatus::Failed(kind) ==> failure_summary(call, signals)
            == kind.label_spec(),
        !(call.status is Failed) && signals.len() > 0 ==> failure_summary(call, signals)
            == signals[0].message,
        call.status is Succeeded && signals.len() == 0 ==> failure_summary(call, signals).len()
            == 0,
{
}

/// A call that writes or edits the file it names edits just that file, and other tools edit none.
pub proof fn named_file_is_edited(tool: Seq<char>, args: Map<Seq<char>, Seq<char>>)
    ensures
        (tool == "Write"@ || tool == "Edit"@) && args.contains_key("path"@) ==> written_paths(
            tool,
            args,
        ) == seq![args["path"@]],
        tool != "Write"@ && tool != "Edit"@ ==> written_paths(tool, args).len() == 0,
{
}

proof fn lemma_section_paths(lines: Seq<Seq<char>>)
    ensures
        section_paths(lines) == lines.filter_map(|l: Seq<char>| section_path(l)),
    decreases lines.len(),
{
    if lines.len() > 0 {
        lemma_section_paths(lines.drop_last());
        let f = |l: Seq<char>| section_path(l);
        if let Some(p) = section_path(lines.last()) {
            assert(lines.drop_last().filter_map(f) + seq![p] =~= lines.drop_last().filter_map(
                f,
            ).push(p));
        }
    }
}

/// An edit in sections edits the files in the heads of its sections, line by line.
pub proof fn heads_of_sections_are_edited(args: Map<Seq<char>, Seq<char>>)
    requires
        !args.contains_key("path"@),
        args.contains_key("input"@),
    ensures
        written_paths("Edit"@, args) == lines_of(args["input"@]).filter_map(
            |l: Seq<char>| section_path(l),
        ),
{
    lemma_section_paths(lines_of(args["input"@]));
}

/// The path in the head of a section is what stands between the bracket and the first hash.
pub proof fn head_of_a_section_names_its_path(path: Seq<char>, tag: Seq<char>)
    requires
        path.len() > 0,
        !path.contains('#'),
    ensures
        section_path("["@ + path + "#"@ + tag + "]"@) == Some(path),
{
    reveal_strlit("[");
    reveal_strlit("#");
    reveal_strlit("]");
    let line = "["@ + path + "#"@ + tag + "]"@;
    assert(line[0] == '[' && line.last() == ']');
    assert(trimmed(line) == line);
    assert forall|j: int| 0 <= j < path.len() as int + 1 implies line[j] != '#' by {
        if j > 0 {
            assert(line[j] == path[j - 1]);
        }
    }
    assert(line[path.len() as int + 1] == '#');
    lemma_index_of_unique(line, '#', path.len() as int + 1);
    assert(line.subrange(1, path.len() as int + 1) =~= path);
}

/// Where nothing is paused and the belief is not lost: a belief that is weak is met with a warning,
/// one that is getting weak with a reminder where there is a reason, and nothing else is met.
pub proof fn weak_belief_is_met(
    turns: usize,
    standing: BeliefStanding,
    hard_signals: nat,
    soft_failures: nat,
)
    requires
        !standing.below_abort,
    ensures
        ({
            let (decision, pause) = decided(turns, 0, standing, hard_signals, soft_failures);
            &&& standing.below_warn ==> decision == Decision::Inject(
                RecoveryDirective { severity: RecoverySeverity::Warning },
            )
            &&& !standing.below_warn && standing.below_remind && (hard_signals > 0 || soft_failures
                > 1) ==> decision == Decision::Inject(
                RecoveryDirective { severity: RecoverySeverity::Reminder },
            )
            &&& !standing.below_warn && !standing.below_remind ==> decision is Nothing && pause == 0
            &&& !standing.below_warn && hard_signals == 0 && soft_failures <= 1 ==> decision
                is Nothing && pause == 0
        }),
{
}

/// The severity of a call is that of its gravest signal: none is graver, and one is just as grave.
pub proof fn severity_is_that_of_a_signal(signals: Seq<SignalView>)
    ensures
        signals.len() == 0 ==> worst_severity(signals) == 0,
        signals.len() > 0 ==> exists|i: int|
            0 <= i < signals.len() && (#[trigger] signals[i]).severity_percent == worst_severity(
                signals,
            ),
        forall|i: int|
            0 <= i < signals.len() ==> (#[trigger] signals[i]).severity_percent <= worst_severity(
                signals,
            ),
    decreases signals.len(),
{
    if signals.len() > 0 {
        let front = signals.drop_last();
        severity_is_that_of_a_signal(front);
        assert forall|i: int| 0 <= i < signals.len() implies (#[trigger] signals[i]).severity_percent
            <= worst_severity(signals) by {
            if i < front.len() {
                assert(front[i] == signals[i]);
            }
        }
        if front.len() > 0 && worst_severity(signals) == worst_severity(front) {
            let i = choose|i: int|
                0 <= i < front.len() && (#[trigger] front[i]).severity_percent == worst_severity(
                    front,
                );
            assert(signals[i].severity_percent == worst_severity(signals));
        } else {
            assert(signals[signals.len() - 1].severity_percent == worst_severity(signals));
        }
    }
}

/// The failures of a window are added up, each once.
pub proof fn failures_add_up(a: Seq<u32>, b: Seq<u32>)
    ensures
        failure_total(a + b) == failure_total(a) + failure_total(b),
        failure_total(seq![]) == 0,
        forall|n: u32| #[trigger] failure_total(seq![n]) == n,
    decreases b.len(),
{
    assert forall|n: u32| #[trigger] failure_total(seq![n]) == n by {
        assert(seq![n].drop_last() =~= seq![]);
        reveal_with_fuel(failure_total, 2);
    }
    if b.len() > 0 {
        failures_add_up(a, b.drop_last());
        assert((a + b).drop_last() =~= a + b.drop_last());
    } else {
        assert(a + b =~= a);
    }
}

/// A tool may be used to inspect just where the session has it, it is built in, and it changes
/// nothing; what runs a focused check may change something.
pub proof fn inspection_needs_a_harmless_tool(
    tools: Map<ToolSemanticCapability, ToolBinding>,
    catalog: Seq<CatalogEntry>,
    c: ToolSemanticCapability,
)
    ensures
        inspection(tools, catalog, c) is Some <==> {
            &&& tools.contains_key(c)
            &&& compiled_entry(catalog, tools[c].primary.tool@) matches Some(mutating) && (!mutating
                || c is FocusedVerificationExec)
        },
        inspection(tools, catalog, c) matches Some(a) ==> a.capability == c && a.tool
            == tools[c].primary.tool@,
{
}

/// The inspections are those of the abilities that allow one, in their order.
pub proof fn inspections_follow_the_abilities(
    tools: Map<ToolSemanticCapability, ToolBinding>,
    catalog: Seq<CatalogEntry>,
    capabilities: Seq<ToolSemanticCapability>,
    n: nat,
)
    requires
        n <= capabilities.len(),
    ensures
        inspections(tools, catalog, capabilities, n) == capabilities.take(n as int).filter_map(
            |c: ToolSemanticCapability| inspection(tools, catalog, c),
        ),
    decreases n,
{
    let f = |c: ToolSemanticCapability| inspection(tools, catalog, c);
    let now = capabilities.take(n as int);
    if n > 0 {
        inspections_follow_the_abilities(tools, catalog, capabilities, (n - 1) as nat);
        let before = capabilities.take(n - 1);
        assert(now.drop_last() =~= before);
        assert(now.last() == capabilities[n - 1]);
        if let Some(a) = inspection(tools, catalog, capabilities[n - 1]) {
            assert(before.filter_map(f) + seq![a] =~= before.filter_map(f).push(a));
        }
    }
}

/// What is known of a tool is what its first entry says.
pub proof fn first_entry_tells(entries: Seq<CatalogEntry>, name: Seq<char>, i: int)
    requires
        0 <= i < entries.len(),
        entries[i].name@ == name,
        forall|j: int| 0 <= j < i ==> (#[trigger] entries[j]).name@ != name,
    ensures
        compiled_entry(entries, name) == if entries[i].compiled {
            Some(entries[i].mutating)
        } else {
            None
        },
    decreases i,
{
    if i > 0 {
        assert(entries[0].name@ != name);
        let rest = entries.drop_first();
        assert forall|j: int| 0 <= j < i - 1 implies (#[trigger] rest[j]).name@ != name by {
            assert(rest[j] == entries[j + 1]);
        }
        first_entry_tells(rest, name, i - 1);
    }
}

/// A call that is held back is told of each tool that may be used instead.
pub proof fn allowed_tools_are_told(tools: Seq<Seq<char>>, i: int)
    requires
        0 <= i < tools.len(),
    ensures
        is_part_of(tools[i], guard_text(tools)),
{
    joined_holds_each_part(tools, ", "@, i);
    let list = joined(tools, ", "@);
    let head =
        "SIGNAL_RECOVERY guard: this call was not executed because it does not satisfy an approved first-step inspection. Use one of: "@;
    assert(guard_text(tools) =~= head + list + "."@);
    crate::text_laws::part_of_part(tools[i], list, guard_text(tools));
}

/// What a sub-agent said and thought is handed on in the result of its call, with its session and
/// how it ended; the call counts as a success just where the sub-agent ended well, and nothing else
/// of it changes.
pub proof fn result_of_a_sub_agent_is_handed_on(
    call: ExecutionView,
    session_id: Seq<char>,
    result: SubResultView,
)
    ensures
        ({
            let after = completed_call(call, session_id, result);
            &&& is_part_of("\nThinking: "@ + result.thinking + "\nText: "@, after.content)
            &&& ("\nText: "@ + result.text).is_suffix_of(after.content)
            &&& ("[sub-agent "@ + session_id + "] "@ + result.status).is_prefix_of(after.content)
            &&& is_part_of(
                "in="@ + decimal(result.usage.total_input_tokens as nat) + ", out="@ + decimal(
                    result.usage.total_output_tokens as nat,
                ) + ")"@,
                after.content,
            )
            &&& after.status is Succeeded == (result.status == "ok"@)
            &&& after == (ExecutionView {
                content: after.content,
                status: after.status,
                ..call
            })
        }),
{
    let text = completion_text(session_id, result);
    reveal_strlit(")\nThinking: ");
    reveal_strlit("\nThinking: ");
    reveal_strlit(")");
    reveal_strlit(" (in=");
    reveal_strlit(" (");
    reveal_strlit("in=");
    assert(")\nThinking: "@ =~= ")"@ + "\nThinking: "@);
    assert(" (in="@ =~= " ("@ + "in="@);
    let head = "[sub-agent "@ + session_id + "] "@ + result.status;
    let spent = "in="@ + decimal(result.usage.total_input_tokens as nat) + ", out="@ + decimal(
        result.usage.total_output_tokens as nat,
    ) + ")"@;
    let thought = "\nThinking: "@ + result.thinking + "\nText: "@;
    let told = "\nText: "@ + result.text;
    assert(text =~= (head + " ("@) + spent + (thought + result.text));
    assert(text =~= (head + " ("@ + spent) + thought + result.text);
    assert(told =~= text.subrange(text.len() - told.len(), text.len() as int));
    assert(head =~= text.subrange(0, head.len() as int));
}

/// A sub-agent that could not run has not ended well, has used nothing, and tells why.
pub proof fn fault_is_told(fault: RunFaultView)
    ensures
        faulted(fault).status != "ok"@,
        faulted(fault).usage.total_input_tokens == 0,
        faulted(fault).usage.total_output_tokens == 0,
        fault matches RunFaultView::NotCreated(e) ==> e.is_suffix_of(faulted(fault).text),
        fault matches RunFaultView::Panicked(m) ==> m.is_suffix_of(faulted(fault).text),
{
    reveal_strlit("ok");
    reveal_strlit("failed");
    reveal_strlit("cancelled");
    assert("ok"@.len() == 2 && "failed"@.len() == 6 && "cancelled"@.len() == 9);
    let text = faulted(fault).text;
    match fault {
        RunFaultView::NotCreated(e) => {
            assert(e =~= text.subrange(text.len() - e.len(), text.len() as int));
        },
        RunFaultView::Panicked(m) => {
            assert(m =~= text.subrange(text.len() - m.len(), text.len() as int));
        },
        _ => {},
    }
}

/// A sub-agent is launched for each call that asks for one and for no other, in their order, unless
/// it is a sub-agent that asks.
pub proof fn asking_calls_are_launched(calls: Seq<ExecutionView>, n: nat)
    requires
        n <= calls.len(),
    ensures
        forall|i: int| #[trigger]
            launch_places(calls, false, n).contains(i) <==> 0 <= i < n && calls[i].sub_agent_prompt
                is Some,
        forall|j: int, k: int|
            0 <= j < k < launch_places(calls, false, n).len() ==> (#[trigger] launch_places(
                calls,
                false,
                n,
            )[j]) < (#[trigger] launch_places(calls, false, n)[k]),
    decreases n,
{
    let places = launch_places(calls, false, n);
    if n > 0 {
        asking_calls_are_launched(calls, (n - 1) as nat);
        let before = launch_places(calls, false, (n - 1) as nat);
        assert forall|k: int| 0 <= k < before.len() implies 0 <= #[trigger] before[k] < n - 1 by {
            assert(before.contains(before[k]));
        }
        assert forall|i: int| #[trigger] places.contains(i) <==> 0 <= i < n
            && calls[i].sub_agent_prompt is Some by {
            if before.contains(i) {
                let k = choose|k: int| 0 <= k < before.len() && before[k] == i;
                assert(places[k] == i);
            }
            if i == n - 1 && calls[i].sub_agent_prompt is Some {
                assert(places[places.len() - 1] == i);
            }
            if places.contains(i) && !before.contains(i) {
                let k = choose|k: int| 0 <= k < places.len() && places[k] == i;
                if k < before.len() {
                    assert(before[k] == i);
                }
            }
        }
    }
}

/// A call that asks for no sub-agent stays as it is; of one that asks, nothing is asked twice, and
/// within a sub-agent it is refused.
pub proof fn other_calls_stay_as_they_are(call: ExecutionView, is_sub_agent: bool)
    ensures
        ({
            let after = prepared(call, is_sub_agent);
            &&& call.sub_agent_prompt is None ==> after == call
            &&& after.sub_agent_prompt is None
            &&& call.sub_agent_prompt is Some && !is_sub_agent ==> after == (ExecutionView {
                sub_agent_prompt: None,
                sub_agent_description: None,
                ..call
            })
            &&& call.sub_agent_prompt is Some && is_sub_agent ==> after.status
                == ToolStatus::Failed(ToolFailureKind::SafetyBlocked) && !after.spawns_sub_agent
            &&& after.tool_use_id == call.tool_use_id
            &&& after.tool_name == call.tool_name
        }),
{
}

/// The results are waited for just as long as one is missing, nobody cancels, and there is time.
pub proof fn missing_results_are_waited_for(
    finished: nat,
    launched: nat,
    cancelled: bool,
    deadline_passed: bool,
)
    ensures
        collecting(finished, launched, cancelled, deadline_passed) is Done <==> finished
            >= launched,
        collecting(finished, launched, cancelled, deadline_passed) is Wait <==> finished < launched
            && !cancelled && !deadline_passed,
        finished < launched && cancelled ==> collecting(
            finished,
            launched,
            cancelled,
            deadline_passed,
        ) == CollectStep::GiveUp(IncompleteReason::Cancelled),
        finished < launched && !cancelled && deadline_passed ==> collecting(
            finished,
            launched,
            cancelled,
            deadline_passed,
        ) == CollectStep::GiveUp(IncompleteReason::TimedOut),
{
}

/// What is given up are the launches whose call has not finished, each of them and no other.
pub proof fn unfinished_launches_are_given_up(
    launches: Seq<Launch>,
    completed: Seq<usize>,
    n: nat,
)
    requires
        n <= launches.len(),
    ensures
        forall|i: int| #[trigger]
            pending_launches(launches, completed, n).contains(i) <==> 0 <= i < n
                && !completed.contains(launches[i].idx),
    decreases n,
{
    let places = pending_launches(launches, completed, n);
    if n > 0 {
        unfinished_launches_are_given_up(launches, completed, (n - 1) as nat);
        let before = pending_launches(launches, completed, (n - 1) as nat);
        assert forall|i: int| #[trigger] places.contains(i) <==> 0 <= i < n && !completed.contains(
            launches[i].idx,
        ) by {
            if before.contains(i) {
                let k = choose|k: int| 0 <= k < before.len() && before[k] == i;
                assert(places[k] == i);
            }
            if i == n - 1 && !completed.contains(launches[i].idx) {
                assert(places[places.len() - 1] == i);
            }
            if places.contains(i) && !before.contains(i) {
                let k = choose|k: int| 0 <= k < places.len() && places[k] == i;
                if k < before.len() {
                    assert(before[k] == i);
                }
            }
        }
    }
}

/// A call whose sub-agent is given up tells why, where it told nothing yet, and is no success.
pub proof fn given_up_calls_tell_why(
    calls: Seq<ExecutionView>,
    launches: Seq<Launch>,
    completed: Seq<usize>,
    reason: IncompleteReason,
    timeout: nat,
    n: nat,
    k: int,
)
    requires
        0 <= k < n <= launches.len(),
        launches[k].idx < calls.len(),
        !completed.contains(launches[k].idx),
    ensures
        ({
            let after = abandoned(calls, launches, completed, reason, timeout, n);
            let idx = launches[k].idx as int;
            &&& after.len() == calls.len()
            &&& !(after[idx].status is Succeeded)
            &&& calls[idx].content.len() > 0 ==> after[idx].content == calls[idx].content
            &&& after[idx].content.len() > 0
            &&& after[idx].tool_use_id == calls[idx].tool_use_id
        }),
    decreases n,
{
    reveal_strlit("Sub-agent timed out after ");
    reveal_strlit("Sub-agent cancelled before completion.");
    reveal_strlit("Sub-agent did not complete.");
    lemma_abandoned_keeps(calls, launches, completed, reason, timeout, n, launches[k].idx as int);
    if k < n - 1 {
        given_up_calls_tell_why(
            calls,
            launches,
            completed,
            reason,
            timeout,
            (n - 1) as nat,
            k,
        );
    } else {
        lemma_abandoned_keeps(
            calls,
            launches,
            completed,
            reason,
            timeout,
            (n - 1) as nat,
            launches[k].idx as int,
        );
    }
}

proof fn lemma_abandoned_keeps(
    calls: Seq<ExecutionView>,
    launches: Seq<Launch>,
    completed: Seq<usize>,
    reason: IncompleteReason,
    timeout: nat,
    n: nat,
    i: int,
)
    requires
        n <= launches.len(),
        0 <= i < calls.len(),
    ensures
        ({
            let after = abandoned(calls, launches, completed, reason, timeout, n);
            &&& after.len() == calls.len()
            &&& calls[i].content.len() > 0 ==> after[i].content == calls[i].content
            &&& after[i].tool_use_id == calls[i].tool_use_id
        }),
    decreases n,
{
    if n > 0 {
        lemma_abandoned_keeps(calls, launches, completed, reason, timeout, (n - 1) as nat, i);
    }
}

/// What a sub-agent hands back is what the assistant said last: the text and the thoughts of its
/// last message, whatever others follow it.
pub proof fn last_answer_is_handed_back(messages: Seq<JsonView>, i: int)
    requires
        0 <= i < messages.len(),
        field_is(messages[i], "role"@, "assistant"@),
        forall|j: int|
            i < j < messages.len() ==> !field_is(#[trigger] messages[j], "role"@, "assistant"@),
    ensures
        turn_output(DecisionView::Stop, messages) == Ok::<(Seq<char>, Seq<char>), Seq<char>>(
            said(messages[i]),
        ),
    decreases messages.len(),
{
    if i < messages.len() - 1 {
        assert(!field_is(messages[messages.len() - 1], "role"@, "assistant"@));
        let front = messages.drop_last();
        assert forall|j: int| i < j < front.len() implies !field_is(
            #[trigger] front[j],
            "role"@,
            "assistant"@,
        ) by {
            assert(front[j] == messages[j]);
        }
        last_answer_is_handed_back(front, i);
    }
}

/// What a message says is the first text among its blocks that is not empty, and apart from it the
/// first thought.
pub proof fn first_text_of_a_message_counts(
    blocks: Seq<JsonView>,
    kind: Seq<char>,
    name: Seq<char>,
    i: int,
)
    requires
        0 <= i < blocks.len(),
        field_text(blocks[i], "type"@) == kind,
        field_text(blocks[i], name).len() > 0,
        forall|j: int|
            0 <= j < i ==> field_text(#[trigger] blocks[j], "type"@) != kind || field_text(
                blocks[j],
                name,
            ).len() == 0,
    ensures
        first_block_text(blocks, kind, name) == field_text(blocks[i], name),
    decreases i,
{
    if i > 0 {
        assert(field_text(blocks[0], "type"@) != kind || field_text(blocks[0], name).len() == 0);
        let rest = blocks.drop_first();
        assert forall|j: int| 0 <= j < i - 1 implies field_text(#[trigger] rest[j], "type"@) != kind
            || field_text(rest[j], name).len() == 0 by {
            assert(rest[j] == blocks[j + 1]);
        }
        first_text_of_a_message_counts(rest, kind, name, i - 1);
    }
}

/// The thoughts of a message are not taken for its text.
pub proof fn text_and_thoughts_are_kept_apart(message: JsonView, blocks: Seq<JsonView>)
    requires
        field_of(message, "content"@) == Some(JsonView::Array(blocks)),
    ensures
        said(message).0 == first_block_text(blocks, "thinking"@, "thinking"@),
        said(message).1 == first_block_text(blocks, "text"@, "text"@),
{
}

/// A report passes on what the sub-agent said, and only where it said nothing what it showed; one
/// that failed passes on what it showed, or else the error.
pub proof fn report_passes_on_what_was_said(
    thinking: Seq<char>,
    text: Seq<char>,
    error: Seq<char>,
    shown_thinking: Seq<char>,
    shown_text: Seq<char>,
)
    ensures
        ({
            let report = report_of(Ok((thinking, text)), shown_thinking, shown_text);
            &&& report.status == "ok"@
            &&& report.text == if text.len() > 0 {
                text
            } else {
                shown_text
            }
            &&& report.thinking == if thinking.len() > 0 {
                thinking
            } else {
                shown_thinking
            }
        }),
        ({
            let report = report_of(Err(error), shown_thinking, shown_text);
            &&& report.thinking == shown_thinking
            &&& shown_text.len() > 0 ==> report.text == shown_text
            &&& shown_text.len() == 0 ==> error.is_suffix_of(report.text)
        }),
{
    let report = report_of(Err(error), shown_thinking, shown_text);
    if shown_text.len() == 0 {
        assert(error =~= report.text.subrange(
            report.text.len() - error.len(),
            report.text.len() as int,
        ));
    }
}

/// A sub-agent that did not come to an end, or failed, hands back an error and no text.
pub proof fn failed_turns_hand_back_an_error(decision: DecisionView, messages: Seq<JsonView>)
    ensures
        turn_output(decision, messages) is Err == (decision is MaxTurnsExceeded || decision
            is Failed),
        decision matches DecisionView::Failed(m) ==> turn_output(decision, messages) == Err::<
            (Seq<char>, Seq<char>),
            Seq<char>,
        >(m),
{
}

/// A turn is reported as well ended just where the model stopped by itself, and there is an error
/// in all other cases: that of the turn, where it failed.
pub proof fn status_tells_how_a_turn_ended(decision: DecisionView)
    ensures
        status_of(decision) == TurnStatus::Completed <==> decision is Stop,
        status_of(decision) == TurnStatus::Failed <==> decision is Failed,
        status_of(decision) == TurnStatus::Interrupted <==> decision is Interrupted,
        error_of(decision) is None <==> decision is Stop,
        decision matches DecisionView::Failed(m) ==> error_of(decision) == Some(m),
        decision matches DecisionView::Failed(m) ==> (m != "interrupted"@ ==> decision_notices(
            decision,
        ) == seq![NoticeView::Error(m)]),
        decision is Stop || decision is Interrupted ==> decision_notices(decision).len() == 0,
{
}

/// The user is told the summary of a conversation that was compacted, and why it was not.
pub proof fn outcome_of_compaction_is_told(summary: Seq<char>, reason: Seq<char>)
    ensures
        trimmed(summary).len() > 0 ==> compact_notices_of(OutcomeView::Done(Some(summary)))[0]
            == NoticeView::Text(trimmed(summary)),
        compact_notices_of(OutcomeView::Skipped(reason)) == seq![
            NoticeView::Info("Compact skipped: "@ + reason),
        ],
        compact_notices_of(OutcomeView::Failed(reason)) == seq![
            NoticeView::Error("Compact failed: "@ + reason),
        ],
{
}

} // verus!
