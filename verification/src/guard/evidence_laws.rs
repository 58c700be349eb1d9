//! What holds of the evidence that is kept of the calls of a turn.

use crate::guard::evidence::{
    bounded_push, by_count, call_less, detector_line, evidence_text, fact_lines, failure_line,
    failure_lines, fitting, paths_of, recorded, run_line, run_lines, runs_of, shortened,
    with_by_count, with_failure, with_paths, EvidenceView, FailureView, RecordView, RunView,
};
use crate::text::{
    decimal, joined, text_less, text_less_irreflexive, text_less_total, text_less_transitive,
};
use crate::text_laws::{is_part_of, joined_holds_each_part};
use vstd::prelude::*;

verus! {

/// A call as it is recorded: what was called, how it is summed up, and whether it counts as a
/// failure.
pub struct RecordedCall {
    pub record: RecordView,
    pub summary: Seq<char>,
    pub hard: bool,
    pub failed: bool,
}

/// What is known when nothing was called yet.
pub open spec fn nothing_known() -> EvidenceView {
    EvidenceView { records: seq![], failures: seq![], hard_failures: 0, soft_failures: 0 }
}

/// What is known after `calls`, one after the other.
pub open spec fn known_after(calls: Seq<RecordedCall>, max_records: nat) -> EvidenceView {
    calls.fold_left(
        nothing_known(),
        |e: EvidenceView, c: RecordedCall|
            recorded(e, max_records, c.record, c.summary, c.hard, c.failed),
    )
}

/// Whether the failures stand in the order of their calls, each call once.
pub open spec fn calls_ascend(failures: Seq<FailureView>) -> bool {
    forall|i: int, j: int|
        0 <= i < j < failures.len() ==> call_less(
            (#[trigger] failures[i]).tool,
            failures[i].args,
            (#[trigger] failures[j]).tool,
            failures[j].args,
        )
}

proof fn lemma_call_less_transitive(a: FailureView, b: FailureView, c: FailureView)
    requires
        call_less(a.tool, a.args, b.tool, b.args),
        call_less(b.tool, b.args, c.tool, c.args),
    ensures
        call_less(a.tool, a.args, c.tool, c.args),
{
    if text_less(a.tool, b.tool) && text_less(b.tool, c.tool) {
        text_less_transitive(a.tool, b.tool, c.tool);
    }
    if text_less(a.args, b.args) && text_less(b.args, c.args) {
        text_less_transitive(a.args, b.args, c.args);
    }
}

proof fn lemma_call_less_irreflexive(tool: Seq<char>, args: Seq<char>)
    ensures
        !call_less(tool, args, tool, args),
{
    text_less_irreflexive(tool);
    text_less_irreflexive(args);
}

proof fn lemma_with_failure_keys(
    failures: Seq<FailureView>,
    tool: Seq<char>,
    args: Seq<char>,
    summary: Seq<char>,
    i: int,
)
    requires
        0 <= i < with_failure(failures, tool, args, summary).len(),
    ensures
        ({
            let f = with_failure(failures, tool, args, summary)[i];
            (f.tool == tool && f.args == args) || failures.contains(f)
        }),
    decreases failures.len(),
{
    let after = with_failure(failures, tool, args, summary);
    if failures.len() > 0 {
        let last = failures.last();
        let front = failures.drop_last();
        if last.tool == tool && last.args == args {
            if i < front.len() {
                assert(after[i] == failures[i]);
            }
        } else if call_less(tool, args, last.tool, last.args) {
            let shorter = with_failure(front, tool, args, summary);
            if i < shorter.len() {
                lemma_with_failure_keys(front, tool, args, summary, i);
                if front.contains(after[i]) {
                    let k = choose|k: int| 0 <= k < front.len() && front[k] == after[i];
                    assert(failures[k] == after[i]);
                }
            } else {
                assert(failures[failures.len() - 1] == last);
            }
        } else if i < failures.len() {
            assert(after[i] == failures[i]);
        }
    }
}

proof fn lemma_with_failure_ascends(
    failures: Seq<FailureView>,
    tool: Seq<char>,
    args: Seq<char>,
    summary: Seq<char>,
)
    requires
        calls_ascend(failures),
    ensures
        calls_ascend(with_failure(failures, tool, args, summary)),
    decreases failures.len(),
{
    let after = with_failure(failures, tool, args, summary);
    if failures.len() > 0 {
        let last = failures.last();
        let front = failures.drop_last();
        assert(calls_ascend(front));
        let fresh = FailureView { tool, args, count: 1, summary };
        if last.tool == tool && last.args == args {
        } else if call_less(tool, args, last.tool, last.args) {
            let shorter = with_failure(front, tool, args, summary);
            lemma_with_failure_ascends(front, tool, args, summary);
            assert forall|i: int, j: int| 0 <= i < j < after.len() implies call_less(
                (#[trigger] after[i]).tool,
                after[i].args,
                (#[trigger] after[j]).tool,
                after[j].args,
            ) by {
                if j < shorter.len() {
                    assert(after[i] == shorter[i] && after[j] == shorter[j]);
                } else {
                    lemma_with_failure_keys(front, tool, args, summary, i);
                    if front.contains(shorter[i]) {
                        let k = choose|k: int| 0 <= k < front.len() && front[k] == shorter[i];
                        assert(failures[k] == shorter[i]);
                    }
                }
            }
        } else {
            text_less_total(tool, last.tool);
            text_less_total(args, last.args);
            assert(call_less(last.tool, last.args, tool, args));
            assert forall|i: int, j: int| 0 <= i < j < after.len() implies call_less(
                (#[trigger] after[i]).tool,
                after[i].args,
                (#[trigger] after[j]).tool,
                after[j].args,
            ) by {
                if j == failures.len() && i < failures.len() - 1 {
                    lemma_call_less_transitive(failures[i], last, fresh);
                }
            }
        }
    }
}

proof fn lemma_lower_calls_differ(
    failures: Seq<FailureView>,
    tool: Seq<char>,
    args: Seq<char>,
)
    requires
        forall|i: int|
            0 <= i < failures.len() ==> call_less(
                (#[trigger] failures[i]).tool,
                failures[i].args,
                tool,
                args,
            ),
    ensures
        failures.filter(|f: FailureView| f.tool == tool && f.args == args) == Seq::<
            FailureView,
        >::empty(),
    decreases failures.len(),
{
    reveal(Seq::filter);
    if failures.len() > 0 {
        lemma_call_less_irreflexive(tool, args);
        assert(call_less(
            failures[failures.len() - 1].tool,
            failures[failures.len() - 1].args,
            tool,
            args,
        ));
        lemma_lower_calls_differ(failures.drop_last(), tool, args);
    }
}

/// One more failure of a call makes its count one more, or one where it had none, and its summary
/// that of this failure; what is known of every other call stays as it was. There is one entry for
/// each call.
pub proof fn one_failure_counts_once(
    failures: Seq<FailureView>,
    tool: Seq<char>,
    args: Seq<char>,
    summary: Seq<char>,
    other_tool: Seq<char>,
    other_args: Seq<char>,
)
    requires
        calls_ascend(failures),
    ensures
        ({
            let after = with_failure(failures, tool, args, summary);
            let of_other = |f: FailureView| f.tool == other_tool && f.args == other_args;
            &&& calls_ascend(after)
            &&& failures.filter(of_other).len() <= 1
            &&& after.filter(of_other) == if other_tool == tool && other_args == args {
                seq![
                    FailureView {
                        tool,
                        args,
                        count: if failures.filter(of_other).len() == 0 {
                            1
                        } else {
                            failures.filter(of_other)[0].count + 1
                        },
                        summary,
                    },
                ]
            } else {
                failures.filter(of_other)
            }
        }),
    decreases failures.len(),
{
    reveal(Seq::filter);
    lemma_with_failure_ascends(failures, tool, args, summary);
    let of_other = |f: FailureView| f.tool == other_tool && f.args == other_args;
    let none = Seq::<FailureView>::empty();
    if failures.len() == 0 {
        let one = seq![FailureView { tool, args, count: 1, summary }];
        assert(one.drop_last() =~= none);
        assert(none.filter(of_other) =~= none);
        assert(one.filter(of_other) =~= if other_tool == tool && other_args == args {
            one
        } else {
            none
        });
    } else {
        let last = failures.last();
        let front = failures.drop_last();
        assert(calls_ascend(front));
        assert forall|i: int| 0 <= i < front.len() implies call_less(
            (#[trigger] front[i]).tool,
            front[i].args,
            last.tool,
            last.args,
        ) by {
            assert(front[i] == failures[i] && last == failures[failures.len() - 1]);
        }
        one_failure_counts_once(front, tool, args, summary, other_tool, other_args);
        let after = with_failure(failures, tool, args, summary);
        if of_other(last) {
            lemma_lower_calls_differ(front, other_tool, other_args);
            assert(failures.filter(of_other) =~= seq![last]);
        }
        if last.tool == tool && last.args == args {
            let new = FailureView { tool, args, count: last.count + 1, summary };
            assert(after.drop_last() =~= front);
            if of_other(new) {
                assert(after.filter(of_other) =~= seq![new]);
            }
        } else if call_less(tool, args, last.tool, last.args) {
            let shorter = with_failure(front, tool, args, summary);
            assert(after.drop_last() =~= shorter);
            if of_other(last) {
                lemma_call_less_irreflexive(tool, args);
            }
        } else {
            let new = FailureView { tool, args, count: 1, summary };
            assert(after.drop_last() =~= failures);
            text_less_total(tool, last.tool);
            text_less_total(args, last.args);
            if of_other(new) {
                assert forall|i: int| 0 <= i < failures.len() implies call_less(
                    (#[trigger] failures[i]).tool,
                    failures[i].args,
                    tool,
                    args,
                ) by {
                    if i < front.len() {
                        assert(front[i] == failures[i]);
                        lemma_call_less_transitive(front[i], last, new);
                    }
                }
                lemma_lower_calls_differ(failures, tool, args);
                assert(after.filter(of_other) =~= seq![new]);
            }
        }
    }
}

/// After any calls there is one entry for each call that was recorded with a summary, and none for
/// another: it says how often that was, and the summary that was given last.
pub proof fn failures_are_counted(
    calls: Seq<RecordedCall>,
    max_records: nat,
    tool: Seq<char>,
    args: Seq<char>,
)
    ensures
        ({
            let failures = known_after(calls, max_records).failures;
            let these = calls.filter(
                |c: RecordedCall|
                    c.summary.len() > 0 && c.record.tool == tool && c.record.args == args,
            );
            &&& calls_ascend(failures)
            &&& failures.filter(|f: FailureView| f.tool == tool && f.args == args)
                == if these.len() == 0 {
                seq![]
            } else {
                seq![
                    FailureView {
                        tool,
                        args,
                        count: these.len(),
                        summary: these.last().summary,
                    },
                ]
            }
        }),
    decreases calls.len(),
{
    reveal(Seq::filter);
    if calls.len() > 0 {
        let c = calls.last();
        failures_are_counted(calls.drop_last(), max_records, tool, args);
        let before = known_after(calls.drop_last(), max_records).failures;
        if c.summary.len() > 0 {
            one_failure_counts_once(before, c.record.tool, c.record.args, c.summary, tool, args);
        }
    } else {
        assert(nothing_known().failures.filter(
            |f: FailureView| f.tool == tool && f.args == args,
        ) =~= seq![]);
    }
}

/// After any calls, the certain failures are those calls that were said to be, and the other
/// failures those that failed otherwise.
pub proof fn failures_of_both_kinds_are_counted(calls: Seq<RecordedCall>, max_records: nat)
    ensures
        known_after(calls, max_records).hard_failures == calls.filter(
            |c: RecordedCall| c.hard,
        ).len(),
        known_after(calls, max_records).soft_failures == calls.filter(
            |c: RecordedCall| !c.hard && c.failed,
        ).len(),
    decreases calls.len(),
{
    reveal(Seq::filter);
    if calls.len() > 0 {
        failures_of_both_kinds_are_counted(calls.drop_last(), max_records);
    }
}

/// After any calls, the last of them are kept, in order, as many as may be.
pub proof fn last_calls_are_kept(calls: Seq<RecordedCall>, max_records: nat)
    requires
        max_records > 0,
    ensures
        ({
            let kept = known_after(calls, max_records).records;
            &&& kept.is_suffix_of(calls.map_values(|c: RecordedCall| c.record))
            &&& kept.len() == if calls.len() <= max_records {
                calls.len()
            } else {
                max_records
            }
        }),
    decreases calls.len(),
{
    let of_call = |c: RecordedCall| c.record;
    let all = calls.map_values(of_call);
    let kept = known_after(calls, max_records).records;
    if calls.len() > 0 {
        last_calls_are_kept(calls.drop_last(), max_records);
        let before = known_after(calls.drop_last(), max_records).records;
        let earlier = calls.drop_last().map_values(of_call);
        assert(kept == bounded_push(before, calls.last().record, max_records));
        assert(all =~= earlier.push(calls.last().record));
        assert forall|i: int| 0 <= i < kept.len() implies kept[i] == all[all.len() - kept.len()
            + i] by {
            if i < kept.len() - 1 {
                let from = before.len() - (kept.len() - 1);
                assert(kept[i] == before[from + i]);
                assert(before[from + i] == earlier.subrange(
                    earlier.len() - before.len(),
                    earlier.len() as int,
                )[from + i]);
            }
        }
    }
    assert(kept =~= all.subrange(all.len() - kept.len(), all.len() as int));
}

/// The paths that were edited are all that a call names: those that were known stay in their
/// places, and of the others each comes in behind them once.
pub proof fn edited_paths_are_all_kept(paths: Seq<Seq<char>>, more: Seq<Seq<char>>)
    requires
        paths.no_duplicates(),
    ensures
        paths.is_prefix_of(with_paths(paths, more)),
        with_paths(paths, more).no_duplicates(),
        forall|p: Seq<char>| #[trigger]
            with_paths(paths, more).contains(p) <==> paths.contains(p) || more.contains(p),
    decreases more.len(),
{
    let after = with_paths(paths, more);
    if more.len() > 0 {
        let front = more.drop_last();
        let before = with_paths(paths, front);
        edited_paths_are_all_kept(paths, front);
        assert(paths =~= after.subrange(0, paths.len() as int)) by {
            assert(paths =~= before.subrange(0, paths.len() as int));
        }
        assert forall|p: Seq<char>| #[trigger] after.contains(p) <==> paths.contains(p)
            || more.contains(p) by {
            if more.contains(p) {
                let k = choose|k: int| 0 <= k < more.len() && more[k] == p;
                if k < front.len() {
                    assert(front[k] == p);
                }
            }
            if front.contains(p) {
                let k = choose|k: int| 0 <= k < front.len() && front[k] == p;
                assert(more[k] == p);
            }
            assert(more[more.len() - 1] == more.last());
            if before.contains(p) {
                let k = choose|k: int| 0 <= k < before.len() && before[k] == p;
                assert(after[k] == p);
            }
            if !before.contains(more.last()) {
                assert(after[before.len() as int] == more.last());
                if after.contains(p) && p != more.last() {
                    let k = choose|k: int| 0 <= k < after.len() && after[k] == p;
                    assert(before[k] == p);
                }
            }
        }
    } else {
        assert(paths =~= after.subrange(0, paths.len() as int));
    }
}

/// The paths of some calls are those that one of them names, each once.
pub proof fn paths_are_those_of_the_calls(records: Seq<RecordView>)
    ensures
        paths_of(records).no_duplicates(),
        forall|p: Seq<char>| #[trigger]
            paths_of(records).contains(p) <==> exists|i: int|
                0 <= i < records.len() && (#[trigger] records[i]).paths.contains(p),
    decreases records.len(),
{
    if records.len() > 0 {
        let front = records.drop_last();
        paths_are_those_of_the_calls(front);
        edited_paths_are_all_kept(paths_of(front), records.last().paths);
        assert forall|p: Seq<char>| #[trigger] paths_of(records).contains(p) <==> exists|i: int|
            0 <= i < records.len() && (#[trigger] records[i]).paths.contains(p) by {
            if paths_of(front).contains(p) {
                let i = choose|i: int|
                    0 <= i < front.len() && (#[trigger] front[i]).paths.contains(p);
                assert(records[i].paths.contains(p));
            }
            if records.last().paths.contains(p) {
                assert(records[records.len() - 1].paths.contains(p));
            }
            if exists|i: int| 0 <= i < records.len() && (#[trigger] records[i]).paths.contains(
                p,
            ) {
                let i = choose|i: int|
                    0 <= i < records.len() && (#[trigger] records[i]).paths.contains(p);
                if i < front.len() {
                    assert(front[i].paths.contains(p));
                }
            }
        }
    }
}

/// The runs are the calls again, each written down with how often it was made in a row: where each
/// run is written out as often as it says, the calls come out in order. No run is empty, and two
/// runs that follow each other are of different calls.
pub proof fn runs_spell_out_the_calls(records: Seq<RecordView>)
    ensures
        runs_of(records).map_values(
            |r: RunView| Seq::new(r.count, |i: int| (r.tool, r.args)),
        ).flatten() == records.map_values(|r: RecordView| (r.tool, r.args)),
        forall|i: int| 0 <= i < runs_of(records).len() ==> (#[trigger] runs_of(records)[i]).count
            > 0,
        forall|i: int|
            0 < i < runs_of(records).len() ==> (#[trigger] runs_of(records)[i]).tool != runs_of(
                records,
            )[i - 1].tool || runs_of(records)[i].args != runs_of(records)[i - 1].args,
    decreases records.len(),
{
    let spelled = |r: RunView| Seq::new(r.count, |i: int| (r.tool, r.args));
    let named = |r: RecordView| (r.tool, r.args);
    let runs = runs_of(records);
    if records.len() > 0 {
        let front = records.drop_last();
        let r = records.last();
        let before = runs_of(front);
        runs_spell_out_the_calls(front);
        assert(records.map_values(named) =~= front.map_values(named).push((r.tool, r.args)));
        if before.len() > 0 && before.last().tool == r.tool && before.last().args == r.args {
            let rest = before.drop_last();
            let longer = RunView { tool: r.tool, args: r.args, count: before.last().count + 1 };
            assert(runs == rest.push(longer));
            assert(before.map_values(spelled) =~= rest.map_values(spelled).push(
                spelled(before.last()),
            ));
            assert(runs.map_values(spelled) =~= rest.map_values(spelled).push(spelled(longer)));
            rest.map_values(spelled).lemma_flatten_push(spelled(before.last()));
            rest.map_values(spelled).lemma_flatten_push(spelled(longer));
            assert(spelled(longer) =~= spelled(before.last()).push((r.tool, r.args)));
            assert(runs.map_values(spelled).flatten() =~= before.map_values(
                spelled,
            ).flatten().push((r.tool, r.args)));
        } else {
            let one = RunView { tool: r.tool, args: r.args, count: 1 };
            assert(runs.map_values(spelled) =~= before.map_values(spelled).push(spelled(one)));
            before.map_values(spelled).lemma_flatten_push(spelled(one));
            assert(spelled(one) =~= seq![(r.tool, r.args)]);
            assert(runs.map_values(spelled).flatten() =~= before.map_values(
                spelled,
            ).flatten().push((r.tool, r.args)));
        }
    } else {
        assert(runs.map_values(spelled) =~= seq![]);
        assert(records.map_values(named) =~= seq![]);
    }
}

/// A call that was made more than once in a row is told of, with how often it was.
pub proof fn repeated_runs_are_told(runs: Seq<RunView>, n: nat, i: int)
    requires
        0 <= i < n <= runs.len(),
        runs[i].count >= 2,
    ensures
        run_lines(runs, n).contains(run_line(runs[i])),
        is_part_of(runs[i].tool, run_line(runs[i])),
        is_part_of(
            " repeated "@ + decimal(runs[i].count) + " consecutive times"@,
            run_line(runs[i]),
        ),
    decreases n,
{
    let lines = run_lines(runs, n);
    let line = run_line(runs[i]);
    let shown = crate::guard::evidence::shortened(runs[i].args, 80);
    assert(line =~= "- "@ + runs[i].tool + ("("@ + shown + ") repeated "@ + decimal(runs[i].count)
        + " consecutive times"@));
    reveal_strlit(") repeated ");
    reveal_strlit(" repeated ");
    let count = " repeated "@ + decimal(runs[i].count) + " consecutive times"@;
    assert(") repeated "@ =~= seq![')'] + " repeated "@);
    assert(line =~= ("- "@ + runs[i].tool + "("@ + shown + seq![')']) + count + Seq::<
        char,
    >::empty());
    if i == n - 1 {
        assert(lines.last() == line);
    } else {
        repeated_runs_are_told(runs, (n - 1) as nat, i);
        let before = run_lines(runs, (n - 1) as nat);
        let k = choose|k: int| 0 <= k < before.len() && before[k] == line;
        assert(lines[k] == line);
    }
}

/// Sorting the failures by how frequent they are loses none and adds none, puts the most frequent
/// first, and leaves those that are as frequent in their order.
pub proof fn most_frequent_come_first(failures: Seq<FailureView>, n: nat)
    ensures
        by_count(failures).filter(|f: FailureView| f.count == n) == failures.filter(
            |f: FailureView| f.count == n,
        ),
        by_count(failures).len() == failures.len(),
        forall|i: int, j: int|
            0 <= i < j < by_count(failures).len() ==> (#[trigger] by_count(failures)[i]).count
                >= (#[trigger] by_count(failures)[j]).count,
    decreases failures.len(),
{
    reveal(Seq::filter);
    if failures.len() > 0 {
        let same = |f: FailureView| f.count == n;
        let front = by_count(failures.drop_last());
        most_frequent_come_first(failures.drop_last(), n);
        lemma_with_by_count(front, failures.last(), n);
        assert(front.push(failures.last()).drop_last() =~= front);
        assert(front.push(failures.last()).filter(same) == if same(failures.last()) {
            front.filter(same).push(failures.last())
        } else {
            front.filter(same)
        });
    }
}

proof fn lemma_with_by_count(sorted: Seq<FailureView>, failure: FailureView, n: nat)
    requires
        forall|i: int, j: int|
            0 <= i < j < sorted.len() ==> (#[trigger] sorted[i]).count >= (
            #[trigger] sorted[j]).count,
    ensures
        with_by_count(sorted, failure).filter(|f: FailureView| f.count == n) == sorted.push(
            failure,
        ).filter(|f: FailureView| f.count == n),
        with_by_count(sorted, failure).len() == sorted.len() + 1,
        forall|i: int, j: int|
            0 <= i < j < sorted.len() + 1 ==> (#[trigger] with_by_count(sorted, failure)[i]).count
                >= (#[trigger] with_by_count(sorted, failure)[j]).count,
        forall|i: int|
            0 <= i < sorted.len() + 1 ==> (#[trigger] with_by_count(sorted, failure)[i]) == failure
                || sorted.contains(with_by_count(sorted, failure)[i]),
    decreases sorted.len(),
{
    reveal(Seq::filter);
    let after = with_by_count(sorted, failure);
    let same = |f: FailureView| f.count == n;
    assert(sorted.push(failure).drop_last() =~= sorted);
    if sorted.len() > 0 && sorted.last().count < failure.count {
        let front = sorted.drop_last();
        let last = sorted.last();
        lemma_with_by_count(front, failure, n);
        let shorter = with_by_count(front, failure);
        assert(after.drop_last() =~= shorter);
        assert(front.push(failure).drop_last() =~= front);
        assert(front.push(failure).filter(same) == if same(failure) {
            front.filter(same).push(failure)
        } else {
            front.filter(same)
        });
        assert(sorted.filter(same) == if same(last) {
            front.filter(same).push(last)
        } else {
            front.filter(same)
        });
        assert(sorted.push(failure).filter(same) == if same(failure) {
            sorted.filter(same).push(failure)
        } else {
            sorted.filter(same)
        });
        assert(after.filter(same) == if same(last) {
            shorter.filter(same).push(last)
        } else {
            shorter.filter(same)
        });
        assert(after.filter(same) =~= sorted.push(failure).filter(same));
        assert forall|i: int| 0 <= i < after.len() implies (#[trigger] after[i]) == failure
            || sorted.contains(after[i]) by {
            if i < shorter.len() {
                assert(after[i] == shorter[i]);
                if front.contains(shorter[i]) {
                    let k = choose|k: int| 0 <= k < front.len() && front[k] == shorter[i];
                    assert(sorted[k] == shorter[i]);
                }
            } else {
                assert(sorted[sorted.len() - 1] == last);
            }
        }
        assert forall|i: int, j: int| 0 <= i < j < after.len() implies (#[trigger] after[i]).count
            >= (#[trigger] after[j]).count by {
            if j < shorter.len() {
                assert(after[i] == shorter[i] && after[j] == shorter[j]);
            } else {
                assert(after[i] == shorter[i]);
                if front.contains(shorter[i]) {
                    let k = choose|k: int| 0 <= k < front.len() && front[k] == shorter[i];
                    assert(sorted[k].count >= sorted[sorted.len() - 1].count);
                }
            }
        }
    } else {
        assert forall|i: int| 0 <= i < after.len() implies (#[trigger] after[i]) == failure
            || sorted.contains(after[i]) by {
            if i < sorted.len() {
                assert(after[i] == sorted[i]);
            }
        }
        assert forall|i: int, j: int| 0 <= i < j < after.len() implies (#[trigger] after[i]).count
            >= (#[trigger] after[j]).count by {
            if j == sorted.len() {
                assert(sorted[i].count >= sorted[sorted.len() - 1].count);
            }
        }
    }
}

/// The four failures that are most frequent are told of, in that order, each with the tool, how
/// often it failed, and how it failed last.
pub proof fn frequent_failures_are_told(failures: Seq<FailureView>, i: int)
    requires
        0 <= i < 4,
        i < failures.len(),
    ensures
        i < failure_lines(failures).len(),
        failure_lines(failures)[i] == failure_line(by_count(failures)[i]),
        ({
            let f = by_count(failures)[i];
            let line = failure_lines(failures)[i];
            &&& is_part_of(f.tool, line)
            &&& is_part_of(
                " failed "@ + decimal(f.count) + " time(s): "@
                    + crate::guard::evidence::shortened(f.summary, 120),
                line,
            )
        }),
{
    most_frequent_come_first(failures, 0);
    let f = by_count(failures)[i];
    let line = failure_line(f);
    let shown = crate::guard::evidence::shortened(f.args, 60);
    let tail = " failed "@ + decimal(f.count) + " time(s): "@ + crate::guard::evidence::shortened(
        f.summary,
        120,
    );
    reveal_strlit(") failed ");
    reveal_strlit(" failed ");
    assert(") failed "@ =~= seq![')'] + " failed "@);
    assert(line =~= "- "@ + f.tool + ("("@ + shown + ") failed "@ + decimal(f.count)
        + " time(s): "@ + crate::guard::evidence::shortened(f.summary, 120)));
    assert(line =~= ("- "@ + f.tool + "("@ + shown + seq![')']) + tail + Seq::<char>::empty());
}

/// Every line of fact stands in the evidence where all of it fits, and the line of the detector,
/// with the two numbers of failures, stands at its end in any case.
pub proof fn facts_are_told(e: EvidenceView, budget: nat, belief: Seq<char>, i: int)
    requires
        0 <= i < fact_lines(e).len(),
        joined(fact_lines(e).push(detector_line(e, belief)), "\n"@).len() <= budget,
    ensures
        is_part_of(fact_lines(e)[i], evidence_text(e, budget, belief)),
{
    let all = fact_lines(e).push(detector_line(e, belief));
    joined_holds_each_part(all, "\n"@, i);
    assert(all[i] == fact_lines(e)[i]);
}

/// The lines on repeated calls and on failures are all among the lines of fact.
pub proof fn fact_lines_hold_runs_and_failures(e: EvidenceView)
    ensures
        ({
            let runs = run_lines(runs_of(e.records), runs_of(e.records).len());
            let failures = failure_lines(e.failures);
            &&& fact_lines(e).len() >= 1 + runs.len() + failures.len()
            &&& fact_lines(e).subrange(1, 1 + runs.len() as int) == runs
            &&& fact_lines(e).subrange(
                1 + runs.len() as int,
                1 + runs.len() as int + failures.len() as int,
            ) == failures
        }),
{
    let runs = run_lines(runs_of(e.records), runs_of(e.records).len());
    let failures = failure_lines(e.failures);
    assert(fact_lines(e).subrange(1, 1 + runs.len() as int) =~= runs);
    assert(fact_lines(e).subrange(
        1 + runs.len() as int,
        1 + runs.len() as int + failures.len() as int,
    ) =~= failures);
}

/// The evidence ends with the line of the detector, which tells how many failures there were of
/// either kind, and the belief.
pub proof fn evidence_ends_with_the_detector(e: EvidenceView, budget: nat, belief: Seq<char>)
    ensures
        detector_line(e, belief).is_suffix_of(evidence_text(e, budget, belief)),
        is_part_of(
            "hard failures "@ + decimal(e.hard_failures) + ", soft "@ + decimal(e.soft_failures)
                + "; belief "@ + belief,
            detector_line(e, belief),
        ),
{
    let last = detector_line(e, belief);
    let text = evidence_text(e, budget, belief);
    let all = fact_lines(e).push(last);
    assert(all.last() == last);
    assert(all.len() >= 2);
    assert(last =~= text.subrange(text.len() - last.len(), text.len() as int));
    let told = "hard failures "@ + decimal(e.hard_failures) + ", soft "@ + decimal(e.soft_failures)
        + "; belief "@ + belief;
    reveal_strlit("[detector] hard failures ");
    reveal_strlit("[detector] ");
    reveal_strlit("hard failures ");
    assert("[detector] hard failures "@ =~= "[detector] "@ + "hard failures "@);
    assert(last =~= "[detector] "@ + told + " (reference only)"@);
}

proof fn lemma_fitting(lines: Seq<Seq<char>>, used: nat, budget: nat)
    ensures
        fitting(lines, used, budget) <= lines.len(),
        fitting(lines, used, budget) > 0 ==> joined(
            lines.take(fitting(lines, used, budget) as int),
            "\n"@,
        ).len() + 1 + used <= budget,
    decreases lines.len(),
{
    reveal_strlit("\n");
    if lines.len() > 0 && used + lines[0].len() + 1 <= budget {
        let rest = lines.drop_first();
        let more = used + lines[0].len() + 1;
        lemma_fitting(rest, more, budget);
        let n = fitting(rest, more, budget);
        assert(lines.take(n as int + 1) =~= seq![lines[0]] + rest.take(n as int));
        if n == 0 {
            assert(lines.take(1) =~= seq![lines[0]]);
        } else {
            lemma_joined_len(lines[0], rest.take(n as int));
        }
    }
}

proof fn lemma_joined_len(first: Seq<char>, rest: Seq<Seq<char>>)
    requires
        rest.len() > 0,
    ensures
        joined(seq![first] + rest, "\n"@).len() == first.len() + 1 + joined(rest, "\n"@).len(),
    decreases rest.len(),
{
    reveal_strlit("\n");
    let all = seq![first] + rest;
    assert(all.drop_last() =~= seq![first] + rest.drop_last());
    assert(all.last() == rest.last());
    if rest.len() > 1 {
        lemma_joined_len(first, rest.drop_last());
    } else {
        assert(all.drop_last() =~= seq![first]);
        assert(joined(all.drop_last(), "\n"@) == first);
    }
}

/// The evidence keeps to its budget wherever any line of fact does.
pub proof fn evidence_keeps_to_its_budget(e: EvidenceView, budget: nat, belief: Seq<char>)
    requires
        detector_line(e, belief).len() + fact_lines(e)[0].len() + 1 <= budget,
    ensures
        evidence_text(e, budget, belief).len() <= budget,
{
    reveal_strlit("\n");
    lemma_fitting(fact_lines(e), detector_line(e, belief).len(), budget);
}

/// A text that is shortened is its beginning, with a mark behind it, and one that is short enough
/// stays as it is.
pub proof fn shortened_text_is_the_beginning(s: Seq<char>, max: nat)
    ensures
        s.len() <= max ==> shortened(s, max) == s,
        s.len() > max ==> {
            &&& shortened(s, max).take(max as int) == s.take(max as int)
            &&& shortened(s, max).skip(max as int) == "..."@
        },
{
    if s.len() > max {
        assert(shortened(s, max).take(max as int) =~= s.take(max as int));
        assert(shortened(s, max).skip(max as int) =~= "..."@);
    }
}

/// Of the failures four are told, or all where there are no more.
pub proof fn four_failures_are_told(failures: Seq<FailureView>)
    ensures
        failures.len() <= 4 ==> failure_lines(failures).len() == failures.len(),
        failures.len() > 4 ==> failure_lines(failures).len() == 4,
{
    most_frequent_come_first(failures, 1);
}

} // verus!
