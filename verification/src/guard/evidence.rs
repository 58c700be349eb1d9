//! Facts about the tool calls of a turn that the model cannot see by itself.

use crate::text::{
    chars_of, clone_strings, decimal, decimal_of, holds, join, joined, less, same_text, string_of,
    text_less, views,
};
use crate::tool_args::{json_of_args, ToolArgs};
use std::hash::{BuildHasher, BuildHasherDefault, DefaultHasher};
use vstd::prelude::*;

verus! {

/// A tool call that was made.
#[derive(Debug)]
pub struct CallRecord {
    pub tool: String,
    pub canonical_args: String,
    pub paths: Vec<String>,
}

/// What a [`CallRecord`] says.
pub struct RecordView {
    pub tool: Seq<char>,
    pub args: Seq<char>,
    pub paths: Seq<Seq<char>>,
}

impl View for CallRecord {
    type V = RecordView;

    open spec fn view(&self) -> RecordView {
        RecordView { tool: self.tool@, args: self.canonical_args@, paths: views(self.paths@) }
    }
}

/// The views of a sequence of records.
pub open spec fn record_views(records: Seq<CallRecord>) -> Seq<RecordView> {
    records.map_values(|r: CallRecord| r@)
}

/// Evidence in words, with a hash by which the same evidence is known again.
#[derive(Debug)]
pub struct EvidenceBatch {
    pub text: String,
    pub hash: u64,
}

/// How often a call failed, and how it failed last.
#[derive(Debug)]
pub struct FailureEntry {
    pub tool: String,
    pub args: String,
    pub count: u32,
    pub summary: String,
}

/// What a [`FailureEntry`] says.
pub struct FailureView {
    pub tool: Seq<char>,
    pub args: Seq<char>,
    pub count: nat,
    pub summary: Seq<char>,
}

impl View for FailureEntry {
    type V = FailureView;

    open spec fn view(&self) -> FailureView {
        FailureView {
            tool: self.tool@,
            args: self.args@,
            count: self.count as nat,
            summary: self.summary@,
        }
    }
}

/// The views of a sequence of failures.
pub open spec fn failure_views(failures: Seq<FailureEntry>) -> Seq<FailureView> {
    failures.map_values(|f: FailureEntry| f@)
}

/// Whether a call comes before another: by the tool, then by the arguments.
pub open spec fn call_less(
    tool: Seq<char>,
    args: Seq<char>,
    other_tool: Seq<char>,
    other_args: Seq<char>,
) -> bool {
    text_less(tool, other_tool) || (tool == other_tool && text_less(args, other_args))
}

/// `failures`, ordered by call, with one more failure of a call.
pub open spec fn with_failure(
    failures: Seq<FailureView>,
    tool: Seq<char>,
    args: Seq<char>,
    summary: Seq<char>,
) -> Seq<FailureView>
    decreases failures.len(),
{
    if failures.len() == 0 {
        seq![FailureView { tool, args, count: 1, summary }]
    } else {
        let f = failures.last();
        if f.tool == tool && f.args == args {
            failures.drop_last().push(FailureView { tool, args, count: f.count + 1, summary })
        } else if call_less(tool, args, f.tool, f.args) {
            with_failure(failures.drop_last(), tool, args, summary).push(f)
        } else {
            failures.push(FailureView { tool, args, count: 1, summary })
        }
    }
}

/// `paths` and those of `more` that are not among them, in order, without repetition.
pub open spec fn with_paths(paths: Seq<Seq<char>>, more: Seq<Seq<char>>) -> Seq<Seq<char>>
    decreases more.len(),
{
    if more.len() == 0 {
        paths
    } else {
        let before = with_paths(paths, more.drop_last());
        if before.contains(more.last()) {
            before
        } else {
            before.push(more.last())
        }
    }
}

/// The paths of `records` in order, without repetition.
pub open spec fn paths_of(records: Seq<RecordView>) -> Seq<Seq<char>>
    decreases records.len(),
{
    if records.len() == 0 {
        seq![]
    } else {
        with_paths(paths_of(records.drop_last()), records.last().paths)
    }
}

/// A call that was made a number of times in a row.
pub struct RunView {
    pub tool: Seq<char>,
    pub args: Seq<char>,
    pub count: nat,
}

/// The calls in order, each with how often it was made in a row.
pub open spec fn runs_of(records: Seq<RecordView>) -> Seq<RunView>
    decreases records.len(),
{
    if records.len() == 0 {
        seq![]
    } else {
        let before = runs_of(records.drop_last());
        let r = records.last();
        if before.len() > 0 && before.last().tool == r.tool && before.last().args == r.args {
            before.drop_last().push(
                RunView { tool: r.tool, args: r.args, count: before.last().count + 1 },
            )
        } else {
            before.push(RunView { tool: r.tool, args: r.args, count: 1 })
        }
    }
}

/// The first `max` characters of `s`, with dots behind them where there are more.
pub open spec fn shortened(s: Seq<char>, max: nat) -> Seq<char> {
    if s.len() > max {
        s.take(max as int) + "..."@
    } else {
        s
    }
}

/// A line on a call that was made in a row.
pub open spec fn run_line(run: RunView) -> Seq<char> {
    "- "@ + run.tool + "("@ + shortened(run.args, 80) + ") repeated "@ + decimal(run.count)
        + " consecutive times"@
}

/// The lines on the first `n` runs that are more than one call.
pub open spec fn run_lines(runs: Seq<RunView>, n: nat) -> Seq<Seq<char>>
    decreases n,
{
    if n == 0 {
        seq![]
    } else if runs[n - 1].count >= 2 {
        run_lines(runs, (n - 1) as nat).push(run_line(runs[n - 1]))
    } else {
        run_lines(runs, (n - 1) as nat)
    }
}

/// `failure` put behind those of `sorted` that are not rarer.
pub open spec fn with_by_count(sorted: Seq<FailureView>, failure: FailureView) -> Seq<FailureView>
    decreases sorted.len(),
{
    if sorted.len() > 0 && sorted.last().count < failure.count {
        with_by_count(sorted.drop_last(), failure).push(sorted.last())
    } else {
        sorted.push(failure)
    }
}

/// The failures, the most frequent first; those as frequent keep their order.
pub open spec fn by_count(failures: Seq<FailureView>) -> Seq<FailureView>
    decreases failures.len(),
{
    if failures.len() == 0 {
        seq![]
    } else {
        with_by_count(by_count(failures.drop_last()), failures.last())
    }
}

/// A line on a call that failed.
pub open spec fn failure_line(f: FailureView) -> Seq<char> {
    "- "@ + f.tool + "("@ + shortened(f.args, 60) + ") failed "@ + decimal(f.count)
        + " time(s): "@ + shortened(f.summary, 120)
}

/// The lines on the most frequent failures, four at most.
pub open spec fn failure_lines(failures: Seq<FailureView>) -> Seq<Seq<char>> {
    let sorted = by_count(failures);
    let n = if sorted.len() < 4 {
        sorted.len() as int
    } else {
        4
    };
    sorted.take(n).map_values(|f: FailureView| failure_line(f))
}

/// What a tracker knows.
pub struct EvidenceView {
    pub records: Seq<RecordView>,
    pub failures: Seq<FailureView>,
    pub hard_failures: nat,
    pub soft_failures: nat,
}

/// The lines of fact, without the last.
pub open spec fn fact_lines(e: EvidenceView) -> Seq<Seq<char>> {
    let runs = runs_of(e.records);
    let lines = seq!["[trajectory]"@] + run_lines(runs, runs.len()) + failure_lines(e.failures);
    if e.hard_failures == 0 && e.soft_failures == 0 && lines.len() == 1 {
        lines.push("- no failures recorded"@)
    } else {
        lines
    }
}

/// The last line.
pub open spec fn detector_line(e: EvidenceView, belief: Seq<char>) -> Seq<char> {
    "[detector] hard failures "@ + decimal(e.hard_failures) + ", soft "@ + decimal(e.soft_failures)
        + "; belief "@ + belief + " (reference only)"@
}

/// How many of `lines` fit, one after the other, each with a line feed, where `used` characters
/// of `budget` are taken.
pub open spec fn fitting(lines: Seq<Seq<char>>, used: nat, budget: nat) -> nat
    decreases lines.len(),
{
    if lines.len() == 0 || used + lines[0].len() + 1 > budget {
        0
    } else {
        1 + fitting(lines.drop_first(), used + lines[0].len() + 1, budget)
    }
}

/// The evidence in words. Where it is longer than `budget`, lines of fact are left out from
/// the end, and the last line stays.
pub open spec fn evidence_text(e: EvidenceView, budget: nat, belief: Seq<char>) -> Seq<char> {
    let facts = fact_lines(e);
    let last = detector_line(e, belief);
    let full = joined(facts.push(last), "\n"@);
    if full.len() > budget {
        joined(facts.take(fitting(facts, last.len(), budget) as int), "\n"@) + "\n"@ + last
    } else {
        full
    }
}

/// The hash of a text by the `DefaultHasher` of `std`.
pub uninterp spec fn text_hash_of(text: Seq<char>) -> u64;

/// Calls `BuildHasher::hash_one` of `std` with a `DefaultHasher` that is made by `default`. All
/// such hashers are the same, so that a text has one hash. Which number it is is left open, and
/// so is whether two texts have the same.
#[verifier::external_body]
fn hash_text(text: &str) -> (r: u64)
    ensures
        r == text_hash_of(text@),
{
    BuildHasherDefault::<DefaultHasher>::default().hash_one(text)
}

fn truncate_chars(s: &str, max: usize) -> (r: String)
    ensures
        r@ == shortened(s@, max as nat),
{
    let chars: Vec<char> = chars_of(s);
    if chars.len() > max {
        let head: String = string_of(&chars, 0, max);
        assert(head@ =~= s@.take(max as int));
        head.concat("...")
    } else {
        s.to_owned()
    }
}

/// A call that was made a number of times in a row.
struct Run {
    tool: String,
    args: String,
    count: usize,
}

impl View for Run {
    type V = RunView;

    closed spec fn view(&self) -> RunView {
        RunView { tool: self.tool@, args: self.args@, count: self.count as nat }
    }
}

spec fn run_views(runs: Seq<Run>) -> Seq<RunView> {
    runs.map_values(|r: Run| r@)
}

/// Keeps the last tool calls of a turn and what is known of them.
#[derive(Debug)]
pub struct EvidenceTracker {
    pub records: Vec<CallRecord>,
    pub max_records: usize,
    pub failures: Vec<FailureEntry>,
    pub hard_failures: u32,
    pub soft_failures: u32,
    pub edited_paths: Vec<String>,
    pub recent_injections: Vec<u64>,
    pub dedup_window: usize,
}

impl View for EvidenceTracker {
    type V = EvidenceView;

    open spec fn view(&self) -> EvidenceView {
        EvidenceView {
            records: record_views(self.records@),
            failures: failure_views(self.failures@),
            hard_failures: self.hard_failures as nat,
            soft_failures: self.soft_failures as nat,
        }
    }
}

/// `items` and one more; the oldest leaves where there are already `max`.
pub open spec fn bounded_push<T>(items: Seq<T>, item: T, max: nat) -> Seq<T> {
    if items.len() >= max && items.len() > 0 {
        items.drop_first().push(item)
    } else {
        items.push(item)
    }
}

/// What is known after one more call. An empty `summary` is no failure to remember; `hard` and
/// `failed` say whether the call counts as a failure of either kind.
pub open spec fn recorded(
    e: EvidenceView,
    max_records: nat,
    record: RecordView,
    summary: Seq<char>,
    hard: bool,
    failed: bool,
) -> EvidenceView {
    EvidenceView {
        records: bounded_push(e.records, record, max_records),
        failures: if summary.len() == 0 {
            e.failures
        } else {
            with_failure(e.failures, record.tool, record.args, summary)
        },
        hard_failures: if hard {
            e.hard_failures + 1
        } else {
            e.hard_failures
        },
        soft_failures: if !hard && failed {
            e.soft_failures + 1
        } else {
            e.soft_failures
        },
    }
}

fn insert_failure(failures: &mut Vec<FailureEntry>, tool: &str, args: &str, summary: &str)
    requires
        forall|i: int| 0 <= i < old(failures)@.len() ==> (#[trigger] old(failures)@[i]).count < u32::MAX,
    ensures
        failure_views(final(failures)@) == with_failure(
            failure_views(old(failures)@),
            tool@,
            args@,
            summary@,
        ),
{
    let ghost all = failure_views(failures@);
    let mut at: usize = failures.len();
    assert(all.take(at as int) =~= all);
    assert(with_failure(all.take(at as int), tool@, args@, summary@) + all.skip(at as int)
        =~= with_failure(all, tool@, args@, summary@));
    while at > 0
        invariant
            at <= failures@.len(),
            failures@ == old(failures)@,
            all == failure_views(failures@),
            forall|i: int| 0 <= i < failures@.len() ==> (#[trigger] failures@[i]).count < u32::MAX,
            with_failure(all.take(at as int), tool@, args@, summary@) + all.skip(at as int)
                == with_failure(all, tool@, args@, summary@),
        decreases at,
    {
        let f: &FailureEntry = &failures[at - 1];
        let ghost front = all.take(at as int);
        proof {
            assert(front.last() == f@);
            assert(front.drop_last() =~= all.take(at - 1));
        }
        if same_text(f.tool.as_str(), tool) && same_text(f.args.as_str(), args) {
            let entry: FailureEntry = FailureEntry {
                tool: tool.to_owned(),
                args: args.to_owned(),
                count: f.count + 1,
                summary: summary.to_owned(),
            };
            failures.set(at - 1, entry);
            proof {
                assert(failure_views(failures@) =~= all.update(at - 1, entry@));
                assert(all.update(at - 1, entry@) =~= front.drop_last().push(entry@) + all.skip(
                    at as int,
                ));
            }
            return;
        }
        let before: bool = less(tool, f.tool.as_str()) || (same_text(tool, f.tool.as_str())
            && less(args, f.args.as_str()));
        if !before {
            let entry: FailureEntry = FailureEntry {
                tool: tool.to_owned(),
                args: args.to_owned(),
                count: 1,
                summary: summary.to_owned(),
            };
            failures.insert(at, entry);
            proof {
                assert(failure_views(failures@) =~= all.insert(at as int, entry@));
                assert(all.insert(at as int, entry@) =~= front.push(entry@) + all.skip(at as int));
            }
            return;
        }
        proof {
            let shorter = with_failure(all.take(at - 1), tool@, args@, summary@);
            assert(with_failure(front, tool@, args@, summary@) == shorter.push(f@));
            assert(shorter + all.skip(at - 1) =~= shorter.push(f@) + all.skip(at as int));
        }
        at -= 1;
    }
    let entry: FailureEntry = FailureEntry {
        tool: tool.to_owned(),
        args: args.to_owned(),
        count: 1,
        summary: summary.to_owned(),
    };
    failures.insert(0, entry);
    proof {
        assert(all.take(0) =~= seq![]);
        assert(failure_views(failures@) =~= all.insert(0, entry@));
        assert(all.insert(0, entry@) =~= seq![entry@] + all.skip(0));
    }
}

fn add_paths(paths: &mut Vec<String>, more: &Vec<String>)
    ensures
        views(final(paths)@) == with_paths(views(old(paths)@), views(more@)),
{
    let ghost start = views(paths@);
    let ghost all = views(more@);
    let mut i: usize = 0;
    assert(all.take(0) =~= seq![]);
    while i < more.len()
        invariant
            i <= more@.len(),
            all == views(more@),
            views(paths@) == with_paths(start, all.take(i as int)),
        decreases more@.len() - i,
    {
        proof {
            assert(all.take(i + 1).drop_last() =~= all.take(i as int));
            assert(all.take(i + 1).last() == more@[i as int]@);
        }
        if !holds(paths, more[i].as_str()) {
            let ghost before = paths@;
            let path: String = more[i].clone();
            paths.push(path);
            assert(views(paths@) =~= views(before).push(path@));
        }
        i += 1;
    }
    assert(all.take(i as int) =~= all);
}

proof fn lemma_with_by_count(sorted: Seq<FailureView>, failure: FailureView, at: int)
    requires
        0 <= at <= sorted.len(),
        forall|k: int| at <= k < sorted.len() ==> (#[trigger] sorted[k]).count < failure.count,
        at > 0 ==> sorted[at - 1].count >= failure.count,
    ensures
        with_by_count(sorted, failure) == sorted.insert(at, failure),
    decreases sorted.len(),
{
    if at < sorted.len() {
        assert(sorted[sorted.len() - 1].count < failure.count);
        let front = sorted.drop_last();
        assert forall|k: int| at <= k < front.len() implies (#[trigger] front[k]).count
            < failure.count by {
            assert(front[k] == sorted[k]);
        }
        lemma_with_by_count(front, failure, at);
        assert(front.insert(at, failure).push(sorted.last()) =~= sorted.insert(at, failure));
    } else {
        assert(sorted.push(failure) =~= sorted.insert(at, failure));
    }
}

fn sort_by_count(failures: &Vec<FailureEntry>) -> (r: Vec<&FailureEntry>)
    ensures
        r@.map_values(|f: &FailureEntry| f@) == by_count(failure_views(failures@)),
{
    let ghost input = failure_views(failures@);
    let mut out: Vec<&FailureEntry> = Vec::new();
    let mut n: usize = 0;
    assert(out@.map_values(|f: &FailureEntry| f@) =~= by_count(input.take(0)));
    while n < failures.len()
        invariant
            n <= failures@.len(),
            input == failure_views(failures@),
            out@.map_values(|f: &FailureEntry| f@) == by_count(input.take(n as int)),
        decreases failures@.len() - n,
    {
        let failure: &FailureEntry = &failures[n];
        let ghost sorted = out@.map_values(|f: &FailureEntry| f@);
        let mut at: usize = out.len();
        while at > 0 && out[at - 1].count < failure.count
            invariant
                at <= out@.len(),
                sorted == out@.map_values(|f: &FailureEntry| f@),
                forall|k: int|
                    at <= k < sorted.len() ==> (#[trigger] sorted[k]).count < failure@.count,
            decreases at,
        {
            assert(sorted[at - 1] == out@[at - 1]@);
            at -= 1;
        }
        proof {
            if at > 0 {
                assert(sorted[at - 1] == out@[at - 1]@);
            }
            lemma_with_by_count(sorted, failure@, at as int);
            assert(input.take(n + 1).drop_last() =~= input.take(n as int));
            assert(input.take(n + 1).last() == failure@);
        }
        out.insert(at, failure);
        assert(out@.map_values(|f: &FailureEntry| f@) =~= sorted.insert(at as int, failure@));
        n += 1;
    }
    assert(input.take(n as int) =~= input);
    out
}

impl Default for EvidenceTracker {
    fn default() -> (r: Self)
        ensures
            r@ == (EvidenceView {
                records: seq![],
                failures: seq![],
                hard_failures: 0,
                soft_failures: 0,
            }),
            views(r.edited_paths@) == Seq::<Seq<char>>::empty(),
            r.injected_spec() == Seq::<u64>::empty(),
            r.max_records_spec() == 24,
            r.dedup_window_spec() == 6,
            r.can_record_spec(),
    {
        EvidenceTracker::new(24, 6)
    }
}

impl EvidenceTracker {
    /// How many calls are kept.
    pub open spec fn max_records_spec(&self) -> nat {
        self.max_records as nat
    }

    /// How many hashes are kept.
    pub open spec fn dedup_window_spec(&self) -> nat {
        self.dedup_window as nat
    }

    /// The hashes of the last evidence that the model was shown, the oldest first.
    pub open spec fn injected_spec(&self) -> Seq<u64> {
        self.recent_injections@
    }

    /// Whether every counter can go up by one.
    pub open spec fn can_record_spec(&self) -> bool {
        &&& self.hard_failures < u32::MAX
        &&& self.soft_failures < u32::MAX
        &&& forall|i: int| 0 <= i < self.failures@.len() ==> (#[trigger] self.failures@[i]).count < u32::MAX
    }

    /// A tracker that knows nothing. At least one call and one hash are kept.
    pub fn new(max_records: usize, dedup_window: usize) -> (r: EvidenceTracker)
        ensures
            r@ == (EvidenceView {
                records: seq![],
                failures: seq![],
                hard_failures: 0,
                soft_failures: 0,
            }),
            views(r.edited_paths@) == Seq::<Seq<char>>::empty(),
            r.injected_spec() == Seq::<u64>::empty(),
            r.max_records_spec() == if max_records == 0 {
                1
            } else {
                max_records as nat
            },
            r.dedup_window_spec() == if dedup_window == 0 {
                1
            } else {
                dedup_window as nat
            },
            r.can_record_spec(),
    {
        let r = EvidenceTracker {
            records: Vec::new(),
            max_records: if max_records == 0 {
                1
            } else {
                max_records
            },
            failures: Vec::new(),
            hard_failures: 0,
            soft_failures: 0,
            edited_paths: Vec::new(),
            recent_injections: Vec::new(),
            dedup_window: if dedup_window == 0 {
                1
            } else {
                dedup_window
            },
        };
        assert(r@.records =~= seq![]);
        assert(r@.failures =~= seq![]);
        assert(views(r.edited_paths@) =~= Seq::<Seq<char>>::empty());
        r
    }

    /// Whether every counter can go up by one.
    pub fn can_record(&self) -> (r: bool)
        ensures
            r == self.can_record_spec(),
    {
        if self.hard_failures == u32::MAX || self.soft_failures == u32::MAX {
            return false;
        }
        let mut i: usize = 0;
        while i < self.failures.len()
            invariant
                i <= self.failures@.len(),
                forall|j: int| 0 <= j < i ==> (#[trigger] self.failures@[j]).count < u32::MAX,
            decreases self.failures@.len() - i,
        {
            if self.failures[i].count == u32::MAX {
                return false;
            }
            i += 1;
        }
        true
    }

    /// Notes a tool call whose arguments are written as `canonical_args`. `summary` says how it
    /// failed; `hard` and `failed` say whether it counts as a failure of either kind.
    pub fn record_call(
        &mut self,
        tool: &str,
        canonical_args: &str,
        summary: &str,
        hard: bool,
        failed: bool,
        paths: Vec<String>,
    )
        requires
            old(self).can_record_spec(),
        ensures
            final(self)@ == recorded(
                old(self)@,
                old(self).max_records_spec(),
                RecordView { tool: tool@, args: canonical_args@, paths: views(paths@) },
                summary@,
                hard,
                failed,
            ),
            final(self).hard_failures == final(self)@.hard_failures,
            final(self).soft_failures == final(self)@.soft_failures,
            views(final(self).edited_paths@) == with_paths(
                views(old(self).edited_paths@),
                views(paths@),
            ),
            final(self).injected_spec() == old(self).injected_spec(),
            final(self).max_records_spec() == old(self).max_records_spec(),
            final(self).dedup_window_spec() == old(self).dedup_window_spec(),
    {
        let ghost before = self.records@;
        if self.records.len() >= self.max_records && self.records.len() > 0 {
            let _ = self.records.remove(0);
            assert(record_views(self.records@) =~= record_views(before).drop_first());
        }
        let ghost kept = self.records@;
        add_paths(&mut self.edited_paths, &paths);
        let record: CallRecord = CallRecord {
            tool: tool.to_owned(),
            canonical_args: canonical_args.to_owned(),
            paths,
        };
        self.records.push(record);
        assert(record_views(self.records@) =~= record_views(kept).push(record@));
        if !summary.is_empty() {
            insert_failure(&mut self.failures, tool, canonical_args, summary);
        }
        if hard {
            self.hard_failures = self.hard_failures + 1;
        } else if failed {
            self.soft_failures = self.soft_failures + 1;
        }
    }

    /// Notes a tool call.
    pub fn record(
        &mut self,
        tool: &str,
        args: &ToolArgs,
        summary: &str,
        hard: bool,
        failed: bool,
        paths: Vec<String>,
    )
        requires
            old(self).can_record_spec(),
        ensures
            final(self)@ == recorded(
                old(self)@,
                old(self).max_records_spec(),
                RecordView { tool: tool@, args: json_of_args(args@), paths: views(paths@) },
                summary@,
                hard,
                failed,
            ),
            final(self).hard_failures == final(self)@.hard_failures,
            final(self).soft_failures == final(self)@.soft_failures,
            views(final(self).edited_paths@) == with_paths(
                views(old(self).edited_paths@),
                views(paths@),
            ),
            final(self).injected_spec() == old(self).injected_spec(),
            final(self).max_records_spec() == old(self).max_records_spec(),
            final(self).dedup_window_spec() == old(self).dedup_window_spec(),
    {
        let canonical_args: String = args.canonical_json();
        self.record_call(tool, canonical_args.as_str(), summary, hard, failed, paths);
    }

    fn runs(&self) -> (r: Vec<Run>)
        ensures
            run_views(r@) == runs_of(self@.records),
    {
        let ghost all = record_views(self.records@);
        let mut out: Vec<Run> = Vec::new();
        let mut i: usize = 0;
        assert(run_views(out@) =~= runs_of(all.take(0)));
        while i < self.records.len()
            invariant
                i <= self.records@.len(),
                all == record_views(self.records@),
                run_views(out@) == runs_of(all.take(i as int)),
                forall|k: int| 0 <= k < out@.len() ==> (#[trigger] out@[k]).count <= i,
            decreases self.records@.len() - i,
        {
            let record: &CallRecord = &self.records[i];
            let ghost before = out@;
            proof {
                assert(all.take(i + 1).drop_last() =~= all.take(i as int));
                assert(all.take(i + 1).last() == record@);
                if before.len() > 0 {
                    assert(run_views(before).last() == before[before.len() - 1]@);
                }
            }
            let mut again: bool = false;
            if out.len() > 0 {
                let last: &Run = &out[out.len() - 1];
                again = same_text(last.tool.as_str(), record.tool.as_str()) && same_text(
                    last.args.as_str(),
                    record.canonical_args.as_str(),
                );
            }
            if again {
                let at: usize = out.len() - 1;
                let run: Run = Run {
                    tool: record.tool.clone(),
                    args: record.canonical_args.clone(),
                    count: out[at].count + 1,
                };
                out.set(at, run);
                assert(run_views(out@) =~= run_views(before).drop_last().push(run@));
            } else {
                let run: Run = Run {
                    tool: record.tool.clone(),
                    args: record.canonical_args.clone(),
                    count: 1,
                };
                out.push(run);
                assert(run_views(out@) =~= run_views(before).push(run@));
            }
            i += 1;
        }
        assert(all.take(i as int) =~= all);
        out
    }

    fn push_run_lines(&self, lines: &mut Vec<String>)
        ensures
            views(final(lines)@) == views(old(lines)@) + run_lines(
                runs_of(self@.records),
                runs_of(self@.records).len(),
            ),
    {
        let runs: Vec<Run> = self.runs();
        let ghost all = run_views(runs@);
        let ghost start = views(lines@);
        let mut i: usize = 0;
        assert(start + run_lines(all, 0) =~= start);
        while i < runs.len()
            invariant
                i <= runs@.len(),
                all == run_views(runs@),
                views(lines@) == start + run_lines(all, i as nat),
            decreases runs@.len() - i,
        {
            let run: &Run = &runs[i];
            assert(all[i as int] == run@);
            if run.count >= 2 {
                let ghost before = lines@;
                let line: String = "- ".to_owned().concat(run.tool.as_str()).concat("(").concat(
                    truncate_chars(run.args.as_str(), 80).as_str(),
                ).concat(") repeated ").concat(decimal_of(run.count as u64).as_str()).concat(
                    " consecutive times",
                );
                lines.push(line);
                assert(views(lines@) =~= views(before).push(line@));
                assert(views(lines@) =~= start + run_lines(all, (i + 1) as nat));
            }
            i += 1;
        }
    }

    fn push_failure_lines(&self, lines: &mut Vec<String>)
        ensures
            views(final(lines)@) == views(old(lines)@) + failure_lines(self@.failures),
    {
        let sorted: Vec<&FailureEntry> = sort_by_count(&self.failures);
        let ghost all = sorted@.map_values(|f: &FailureEntry| f@);
        let ghost expected = failure_lines(self@.failures);
        let ghost start = views(lines@);
        let n: usize = if sorted.len() < 4 {
            sorted.len()
        } else {
            4
        };
        let mut i: usize = 0;
        assert(start + expected.take(0) =~= start);
        while i < n
            invariant
                i <= n <= sorted@.len(),
                n == expected.len(),
                all == sorted@.map_values(|f: &FailureEntry| f@),
                all == by_count(self@.failures),
                expected == failure_lines(self@.failures),
                n == if sorted@.len() < 4 {
                    sorted@.len()
                } else {
                    4
                },
                views(lines@) == start + expected.take(i as int),
            decreases n - i,
        {
            let f: &FailureEntry = sorted[i];
            assert(all[i as int] == f@);
            let ghost before = lines@;
            let line: String = "- ".to_owned().concat(f.tool.as_str()).concat("(").concat(
                truncate_chars(f.args.as_str(), 60).as_str(),
            ).concat(") failed ").concat(decimal_of(f.count as u64).as_str()).concat(
                " time(s): ",
            ).concat(truncate_chars(f.summary.as_str(), 120).as_str());
            lines.push(line);
            proof {
                assert(expected[i as int] == line@);
                assert(views(lines@) =~= views(before).push(line@));
                assert(start + expected.take(i + 1) =~= (start + expected.take(i as int)).push(
                    expected[i as int],
                ));
            }
            i += 1;
        }
        assert(expected.take(i as int) =~= expected);
    }

    fn facts(&self) -> (r: Vec<String>)
        ensures
            views(r@) == fact_lines(self@),
    {
        let mut lines: Vec<String> = vec!["[trajectory]".to_owned()];
        assert(views(lines@) =~= seq!["[trajectory]"@]);
        self.push_run_lines(&mut lines);
        self.push_failure_lines(&mut lines);
        assert(views(lines@).len() == lines@.len());
        if self.hard_failures == 0 && self.soft_failures == 0 && lines.len() == 1 {
            let ghost before = lines@;
            let line: String = "- no failures recorded".to_owned();
            lines.push(line);
            assert(views(lines@) =~= views(before).push(line@));
        }
        lines
    }

    /// The evidence in words, in `budget_chars` characters where that can be. `belief` is the
    /// belief in two decimals.
    pub fn render(&self, budget_chars: usize, belief: &str) -> (r: EvidenceBatch)
        ensures
            r.text@ == evidence_text(self@, budget_chars as nat, belief@),
            r.hash == text_hash_of(r.text@),
    {
        let facts: Vec<String> = self.facts();
        let detector: String = "[detector] hard failures ".to_owned().concat(
            decimal_of(self.hard_failures as u64).as_str(),
        ).concat(", soft ").concat(decimal_of(self.soft_failures as u64).as_str()).concat(
            "; belief ",
        ).concat(belief).concat(" (reference only)");
        let ghost lines = views(facts@);
        let mut all: Vec<String> = clone_strings(&facts);
        all.push(detector.clone());
        assert(views(all@) =~= lines.push(detector@));
        let full: String = join(&all, "\n");
        let text: String = if full.as_str().unicode_len() > budget_chars {
            let n: usize = fitting_lines(&facts, detector.as_str().unicode_len(), budget_chars);
            let mut kept: Vec<String> = clone_strings(&facts);
            kept.truncate(n);
            assert(views(kept@) =~= lines.take(n as int));
            join(&kept, "\n").concat("\n").concat(detector.as_str())
        } else {
            full
        };
        let hash: u64 = hash_text(text.as_str());
        EvidenceBatch { text, hash }
    }

    /// Whether the model was not shown evidence with `hash` lately.
    pub fn is_fresh(&self, hash: u64) -> (r: bool)
        ensures
            r == !self.injected_spec().contains(hash),
    {
        let mut i: usize = 0;
        while i < self.recent_injections.len()
            invariant
                i <= self.recent_injections@.len(),
                forall|j: int| 0 <= j < i ==> #[trigger] self.recent_injections@[j] != hash,
            decreases self.recent_injections@.len() - i,
        {
            if self.recent_injections[i] == hash {
                return false;
            }
            i += 1;
        }
        true
    }

    /// Notes that the model was shown evidence with `hash`.
    pub fn mark_injected(&mut self, hash: u64)
        ensures
            final(self)@ == old(self)@,
            final(self).injected_spec() == bounded_push(
                old(self).injected_spec(),
                hash,
                old(self).dedup_window_spec(),
            ),
            final(self).edited_paths == old(self).edited_paths,
            final(self).max_records_spec() == old(self).max_records_spec(),
            final(self).dedup_window_spec() == old(self).dedup_window_spec(),
    {
        let ghost before = self.recent_injections@;
        if self.recent_injections.len() >= self.dedup_window && self.recent_injections.len() > 0 {
            let _ = self.recent_injections.remove(0);
            assert(self.recent_injections@ =~= before.drop_first());
        }
        self.recent_injections.push(hash);
    }

    /// Forgets everything.
    pub fn reset(&mut self)
        ensures
            final(self)@ == (EvidenceView {
                records: seq![],
                failures: seq![],
                hard_failures: 0,
                soft_failures: 0,
            }),
            views(final(self).edited_paths@) == Seq::<Seq<char>>::empty(),
            final(self).injected_spec() == Seq::<u64>::empty(),
            final(self).max_records_spec() == old(self).max_records_spec(),
            final(self).dedup_window_spec() == old(self).dedup_window_spec(),
            final(self).can_record_spec(),
    {
        self.records.clear();
        self.failures.clear();
        self.hard_failures = 0;
        self.soft_failures = 0;
        self.edited_paths.clear();
        self.recent_injections.clear();
        assert(self@.records =~= seq![]);
        assert(self@.failures =~= seq![]);
        assert(views(self.edited_paths@) =~= Seq::<Seq<char>>::empty());
    }

    /// The paths that the last `steps` calls edited, in order, without repetition.
    pub fn edited_paths_since(&self, steps: usize) -> (r: Vec<String>)
        ensures
            ({
                let n = self@.records.len();
                let skip = if n > steps {
                    n - steps
                } else {
                    0
                };
                views(r@) == paths_of(self@.records.skip(skip))
            }),
    {
        let ghost all = record_views(self.records@);
        let skip: usize = if self.records.len() > steps {
            self.records.len() - steps
        } else {
            0
        };
        let ghost tail = all.skip(skip as int);
        let mut paths: Vec<String> = Vec::new();
        let mut i: usize = skip;
        assert(views(paths@) =~= paths_of(tail.take(0)));
        while i < self.records.len()
            invariant
                skip <= i <= self.records@.len(),
                all == record_views(self.records@),
                tail == all.skip(skip as int),
                views(paths@) == paths_of(tail.take(i - skip)),
            decreases self.records@.len() - i,
        {
            proof {
                assert(tail.take(i - skip + 1).drop_last() =~= tail.take(i - skip));
                assert(tail.take(i - skip + 1).last() == self.records@[i as int]@);
            }
            add_paths(&mut paths, &self.records[i].paths);
            i += 1;
        }
        assert(tail.take(i - skip) =~= tail);
        paths
    }
}

fn fitting_lines(lines: &Vec<String>, used: usize, budget: usize) -> (r: usize)
    ensures
        r == fitting(views(lines@), used as nat, budget as nat),
        r <= lines@.len(),
{
    let ghost all = views(lines@);
    let mut taken: usize = used;
    let mut i: usize = 0;
    assert(all.skip(0) =~= all);
    while i < lines.len()
        invariant
            i <= lines@.len(),
            all == views(lines@),
            fitting(all, used as nat, budget as nat) == i + fitting(
                all.skip(i as int),
                taken as nat,
                budget as nat,
            ),
        decreases lines@.len() - i,
    {
        proof {
            assert(all.skip(i as int)[0] == lines@[i as int]@);
            assert(all.skip(i as int).drop_first() =~= all.skip(i + 1));
        }
        let size: usize = lines[i].as_str().unicode_len();
        if taken > budget || size >= budget - taken {
            return i;
        }
        taken = taken + size + 1;
        i += 1;
    }
    i
}

/// The tracker keeps no more calls than it may.
pub proof fn records_are_bounded<T>(items: Seq<T>, item: T, max: nat)
    requires
        items.len() <= max,
        max > 0,
    ensures
        bounded_push(items, item, max).len() <= max,
        bounded_push(items, item, max).last() == item,
{
}

/// Evidence that the model was just shown is not fresh.
pub proof fn injected_is_not_fresh(injected: Seq<u64>, hash: u64, window: nat)
    ensures
        bounded_push(injected, hash, window).contains(hash),
{
    let after = bounded_push(injected, hash, window);
    assert(after[after.len() - 1] == hash);
}

/// The hashes that are kept after the evidence with the hashes `later` is shown too.
pub open spec fn injected_after(injected: Seq<u64>, later: Seq<u64>, window: nat) -> Seq<u64>
    decreases later.len(),
{
    if later.len() == 0 {
        injected
    } else {
        bounded_push(injected_after(injected, later.drop_last(), window), later.last(), window)
    }
}

/// Evidence that the model was shown is not fresh as long as less than a window of other evidence
/// is shown after it: its text has the same hash whenever it is rendered again.
pub proof fn injected_stays_for_the_window(
    injected: Seq<u64>,
    text: Seq<char>,
    later: Seq<u64>,
    window: nat,
)
    requires
        later.len() < window,
    ensures
        injected_after(bounded_push(injected, text_hash_of(text), window), later, window).contains(
            text_hash_of(text),
        ),
{
    let first = bounded_push(injected, text_hash_of(text), window);
    lemma_injected_place(first, later, window);
    let after = injected_after(first, later, window);
    assert(after[after.len() - 1 - later.len()] == text_hash_of(text));
}

proof fn lemma_injected_place(first: Seq<u64>, later: Seq<u64>, window: nat)
    requires
        first.len() > 0,
        later.len() < window,
    ensures
        ({
            let after = injected_after(first, later, window);
            after.len() > later.len() && after[after.len() - 1 - later.len()] == first.last()
        }),
    decreases later.len(),
{
    if later.len() > 0 {
        lemma_injected_place(first, later.drop_last(), window);
    }
}

/// No edited path is listed twice.
pub proof fn paths_are_distinct(paths: Seq<Seq<char>>, more: Seq<Seq<char>>)
    requires
        paths.no_duplicates(),
    ensures
        with_paths(paths, more).no_duplicates(),
    decreases more.len(),
{
    if more.len() > 0 {
        paths_are_distinct(paths, more.drop_last());
    }
}

} // verus!
