//! What holds of the signals that are drawn from tool calls.

use crate::guard::collector::{
    alternates, alternations, call_signals, count_of, edit_loop, failure_signal, first_marked,
    has_look, history_after, pattern_signal, status_signal, PatternView, SignalKind, SignalView,
    SEQ_WINDOW,
};
use crate::guard::storm::suppression;
use crate::text::{decimal, lines_of};
use crate::text_laws::{is_part_of, middle_is_part};
use crate::tool_status::{ToolBlocker, ToolFailureKind, ToolStatus};
use vstd::prelude::*;

verus! {

/// A call that did not succeed gives a signal, and one that did gives none of its own: the signal
/// names the tool, has the exit code, and says what the first line of the output says.
pub proof fn failed_calls_give_a_signal(
    tool_name: Seq<char>,
    status: ToolStatus,
    output: Seq<char>,
    exit_code: Option<i32>,
)
    ensures
        status_signal(tool_name, status, output, exit_code) is Some == !(status is Succeeded),
        status_signal(tool_name, status, output, exit_code) matches Some(s) ==> {
            &&& s.source_tool == tool_name
            &&& s.source == tool_name
            &&& s.exit_code == exit_code
            &&& s.matched_pattern is None
            &&& s.detail == s.message
            &&& lines_of(output).len() > 0 ==> s.message == lines_of(output)[0]
            &&& 90 <= s.severity_percent <= 100
            &&& s.severity_percent == 90 <==> status == ToolStatus::Blocked(
                ToolBlocker::RecoveryGuard,
            )
        },
        status_signal(tool_name, status, output, exit_code) matches Some(s) ==> match status {
            ToolStatus::Failed(kind) => s.kind == failure_signal(kind),
            _ => s.kind == SignalKind::ToolFailed,
        },
{
}

/// A failure is certain, unless it lies in what the tool was called with.
pub proof fn wrong_arguments_are_no_certain_failure(kind: ToolFailureKind)
    ensures
        failure_signal(kind).is_hard_spec() == !(kind is ArgumentInvalid || kind is StaleTag || kind
            is AmbiguousMatch || kind is PathOutOfScope),
        failure_signal(kind) is SafetyBlocked == kind is SafetyBlocked,
{
}

proof fn lemma_first_marked(flags: Seq<bool>, from: int, i: int)
    requires
        0 <= from <= i <= flags.len(),
        forall|j: int| from <= j < i ==> !(#[trigger] flags[j]),
        i < flags.len() ==> flags[i],
    ensures
        first_marked(flags, from) == i,
    decreases i - from,
{
    if from < i {
        assert(!flags[from]);
        lemma_first_marked(flags, from + 1, i);
    }
}

/// The first pattern that matches gives the signal, with its kind and its weight, and without a
/// match there is none.
pub proof fn first_match_gives_the_signal(
    tool_name: Seq<char>,
    patterns: Seq<PatternView>,
    flags: Seq<bool>,
    i: int,
)
    requires
        patterns.len() == flags.len(),
        0 <= i <= flags.len(),
        forall|j: int| 0 <= j < i ==> !(#[trigger] flags[j]),
        i < flags.len() ==> flags[i],
    ensures
        i == flags.len() ==> pattern_signal(tool_name, patterns, flags) is None,
        i < flags.len() ==> {
            &&& pattern_signal(tool_name, patterns, flags) matches Some(s)
            &&& s.source_tool == tool_name
            &&& s.kind == patterns[i].kind
            &&& s.severity_percent == patterns[i].severity_percent
            &&& s.message == patterns[i].detail
            &&& s.matched_pattern == Some(patterns[i].pattern)
            &&& s.exit_code is None
        },
{
    lemma_first_marked(flags, 0, i);
}

/// The signals of a call are those that its status, its output and the calls before it give, in
/// this order, and no others.
pub proof fn signals_of_a_call_are_all_kept(
    status: Option<SignalView>,
    matched: Option<SignalView>,
    history: Seq<Seq<char>>,
)
    ensures
        call_signals(status, matched, history) == seq![
            status,
            matched,
            edit_loop(history),
        ].filter_map(|s: Option<SignalView>| s),
{
    let f = |s: Option<SignalView>| s;
    let a = seq![status];
    let b = seq![status, matched];
    let c = seq![status, matched, edit_loop(history)];
    assert(c.drop_last() =~= b);
    assert(b.drop_last() =~= a);
    assert(a.drop_last() =~= seq![]);
    reveal_with_fuel(Seq::filter_map, 4);
    assert(call_signals(status, matched, history) =~= c.filter_map(f));
}

/// The names of the last calls are kept in order, the newest last: the oldest leaves where there
/// would be too many.
pub proof fn newest_names_are_kept(history: Seq<Seq<char>>, name: Seq<char>)
    requires
        history.len() <= SEQ_WINDOW,
    ensures
        history_after(history, name).is_suffix_of(history.push(name)),
        history_after(history, name).len() == if history.len() < SEQ_WINDOW {
            history.len() + 1
        } else {
            history.len()
        },
        history_after(history, name).last() == name,
{
}

proof fn lemma_edits(names: Seq<Seq<char>>)
    ensures
        count_of(names, "Edit"@) == names.filter(|n: Seq<char>| n == "Edit"@).len(),
    decreases names.len(),
{
    reveal(Seq::filter);
    if names.len() > 0 {
        lemma_edits(names.drop_last());
    }
}

proof fn lemma_diffs(names: Seq<Seq<char>>)
    ensures
        count_of(names, "Diff"@) > 0 <==> names.contains("Diff"@),
    decreases names.len(),
{
    if names.len() > 0 {
        let front = names.drop_last();
        lemma_diffs(front);
        if front.contains("Diff"@) {
            let k = choose|k: int| 0 <= k < front.len() && front[k] == "Diff"@;
            assert(names[k] == "Diff"@);
        }
        if names.last() == "Diff"@ {
            assert(names[names.len() - 1] == "Diff"@);
        }
        if names.contains("Diff"@) {
            let k = choose|k: int| 0 <= k < names.len() && names[k] == "Diff"@;
            if k < front.len() {
                assert(front[k] == "Diff"@);
            }
        }
    }
}

/// More than four edits among the last calls are told of as a loop, and the more there are, the
/// graver it is.
pub proof fn many_edits_are_a_loop(history: Seq<Seq<char>>)
    requires
        history.len() >= SEQ_WINDOW,
        history.filter(|n: Seq<char>| n == "Edit"@).len() > 4,
    ensures
        edit_loop(history) matches Some(s) && s.kind == SignalKind::EditLoop
            && 60 <= s.severity_percent <= 90 && (s.severity_percent == 60 <==> history.filter(
            |n: Seq<char>| n == "Edit"@,
        ).len() == 5) && (s.severity_percent == 90 <==> history.filter(
            |n: Seq<char>| n == "Edit"@,
        ).len() > 6),
{
    lemma_edits(history);
}

/// Few calls, or few edits between which the model looks at something, are no loop.
pub proof fn looking_is_no_loop(history: Seq<Seq<char>>)
    requires
        history.len() < SEQ_WINDOW || (history.filter(|n: Seq<char>| n == "Edit"@).len() <= 4 && (
        has_look(history) || !history.contains("Diff"@))),
    ensures
        edit_loop(history) is None,
{
    lemma_edits(history);
    lemma_diffs(history);
}

proof fn lemma_alternations(names: Seq<Seq<char>>)
    ensures
        names.len() > 0 ==> alternations(names) == Seq::new(
            (names.len() - 1) as nat,
            |i: int| alternates(names[i], names[i + 1]),
        ).filter(|b: bool| b).len(),
    decreases names.len(),
{
    reveal(Seq::filter);
    let f = |i: int| alternates(names[i], names[i + 1]);
    if names.len() > 1 {
        let front = names.drop_last();
        lemma_alternations(front);
        let all = Seq::new((names.len() - 1) as nat, f);
        assert(all.drop_last() =~= Seq::new(
            (front.len() - 1) as nat,
            |i: int| alternates(front[i], front[i + 1]),
        ));
        assert(all.last() == alternates(names[names.len() - 2], names.last()));
    } else if names.len() == 1 {
        assert(Seq::new(0, f).filter(|b: bool| b).len() == 0);
    }
}

/// Going back and forth between editing and comparing, without looking at anything, is a loop from
/// the second time on, where the calls are many enough.
pub proof fn back_and_forth_is_a_loop(history: Seq<Seq<char>>)
    requires
        history.len() >= SEQ_WINDOW,
        history.len() > 0,
        history.filter(|n: Seq<char>| n == "Edit"@).len() <= 4,
        history.contains("Diff"@),
        !has_look(history),
    ensures
        ({
            let turns = Seq::new(
                (history.len() - 1) as nat,
                |i: int|
                    (history[i] == "Edit"@ && history[i + 1] == "Diff"@) || (history[i] == "Diff"@
                        && history[i + 1] == "Edit"@),
            ).filter(|b: bool| b).len();
            &&& edit_loop(history) is Some == (turns >= 2)
            &&& edit_loop(history) matches Some(s) ==> s.kind == SignalKind::EditLoop
                && s.severity_percent == if turns >= 3 {
                90u32
            } else {
                70
            }
        }),
{
    lemma_edits(history);
    lemma_diffs(history);
    lemma_alternations(history);
    assert(Seq::new(
        (history.len() - 1) as nat,
        |i: int|
            (history[i] == "Edit"@ && history[i + 1] == "Diff"@) || (history[i] == "Diff"@
                && history[i + 1] == "Edit"@),
    ) =~= Seq::new(
        (history.len() - 1) as nat,
        |i: int| alternates(history[i], history[i + 1]),
    ));
}

/// A call that is stopped is told its tool and how often it was repeated.
pub proof fn stopped_call_is_told(name: Seq<char>, count: nat, max_window: nat)
    ensures
        is_part_of(
            name + " repeated "@ + decimal(count) + " times in window of "@ + decimal(max_window),
            suppression(name, count, max_window),
        ),
{
    let part = name + " repeated "@ + decimal(count) + " times in window of "@ + decimal(
        max_window,
    );
    let end = ". Rephrase or try different approach."@;
    middle_is_part("Tool call suppressed: "@, part, end);
    assert(suppression(name, count, max_window) =~= "Tool call suppressed: "@ + part + end);
}

} // verus!
