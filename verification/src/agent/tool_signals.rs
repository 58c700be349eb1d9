//! What the tool calls of a turn show.

use crate::config::policy::SignalPolicy;
use crate::guard::collector::{
    call_signals, error_patterns, headline, headline_of, history_after, match_flags,
    pattern_signal, signal_views, status_signal, Signal, SignalCollector, SignalKind, SignalView,
};
use crate::guard::evidence::{recorded, with_paths, EvidenceTracker, EvidenceView, RecordView};
use crate::text::{
    chars_of, index_of, lemma_index_of_unique, lines, lines_of, same_text, string_of, trim,
    trimmed, views,
};
use crate::tool_args::{json_of_args, ToolArgs};
use crate::tool_execution::{ExecutionView, ToolExecution};
use crate::tool_status::ToolResultKind;
use vstd::prelude::*;

verus! {

/// The path in the head of a section of an edit, `[PATH#TAG]`.
pub open spec fn section_path(line: Seq<char>) -> Option<Seq<char>> {
    let t = trimmed(line);
    let hash = index_of(t, '#');
    if t.len() > 0 && t[0] == '[' && hash < t.len() && hash > 1 {
        Some(t.subrange(1, hash))
    } else {
        None
    }
}

/// The paths in the heads of the sections among `lines`.
pub open spec fn section_paths(lines: Seq<Seq<char>>) -> Seq<Seq<char>>
    decreases lines.len(),
{
    if lines.len() == 0 {
        seq![]
    } else {
        match section_path(lines.last()) {
            Some(p) => section_paths(lines.drop_last()).push(p),
            None => section_paths(lines.drop_last()),
        }
    }
}

/// The paths that a call writes to.
pub open spec fn written_paths(tool: Seq<char>, args: Map<Seq<char>, Seq<char>>) -> Seq<Seq<char>> {
    if tool == "Write"@ || tool == "Edit"@ {
        if args.contains_key("path"@) {
            seq![args["path"@]]
        } else if tool == "Edit"@ && args.contains_key("input"@) {
            section_paths(lines_of(args["input"@]))
        } else {
            seq![]
        }
    } else {
        seq![]
    }
}

fn path_of_section(line: &str) -> (r: Option<String>)
    ensures
        match r {
            Some(p) => section_path(line@) == Some(p@),
            None => section_path(line@) is None,
        },
{
    let bare: String = trim(line);
    let chars: Vec<char> = chars_of(bare.as_str());
    if chars.len() == 0 || chars[0] != '[' {
        return None;
    }
    let mut i: usize = 0;
    while i < chars.len() && chars[i] != '#'
        invariant
            i <= chars@.len(),
            forall|j: int| 0 <= j < i ==> chars@[j] != '#',
        decreases chars@.len() - i,
    {
        i += 1;
    }
    proof {
        lemma_index_of_unique(chars@, '#', i as int);
    }
    if i < chars.len() && i > 1 {
        Some(string_of(&chars, 1, i))
    } else {
        None
    }
}

/// The paths that a call writes to.
pub fn edited_paths(tool_name: &str, args: &ToolArgs) -> (r: Vec<String>)
    ensures
        views(r@) == written_paths(tool_name@, args@),
{
    let mut paths: Vec<String> = Vec::new();
    assert(views(paths@) =~= seq![]);
    let edits: bool = same_text(tool_name, "Edit");
    if !edits && !same_text(tool_name, "Write") {
        return paths;
    }
    match args.get("path") {
        Some(path) => {
            paths.push(path.clone());
            assert(views(paths@) =~= seq![path@]);
            return paths;
        },
        None => {},
    }
    if !edits {
        return paths;
    }
    match args.get("input") {
        Some(input) => {
            let all: Vec<String> = lines(input.as_str());
            let ghost texts = views(all@);
            let mut i: usize = 0;
            assert(texts.take(0) =~= seq![]);
            while i < all.len()
                invariant
                    i <= all@.len(),
                    texts == views(all@),
                    views(paths@) == section_paths(texts.take(i as int)),
                decreases all@.len() - i,
            {
                proof {
                    assert(texts.take(i + 1).drop_last() =~= texts.take(i as int));
                    assert(texts.take(i + 1).last() == all@[i as int]@);
                }
                match path_of_section(all[i].as_str()) {
                    Some(path) => {
                        let ghost before = paths@;
                        paths.push(path);
                        assert(views(paths@) =~= views(before).push(path@));
                    },
                    None => {},
                }
                i += 1;
            }
            assert(texts.take(i as int) =~= texts);
        },
        None => {},
    }
    paths
}

/// Whether a signal of a kind makes a call count as an error.
pub open spec fn is_error_kind(kind: SignalKind) -> bool {
    kind is ToolError || kind is TestFailure || kind is CompileError
}

/// Whether a certain failure is among `signals`.
pub open spec fn has_hard(signals: Seq<SignalView>) -> bool {
    exists|i: int| 0 <= i < signals.len() && (#[trigger] signals[i]).kind.is_hard_spec()
}

/// Whether an error is among `signals`.
pub open spec fn has_error(signals: Seq<SignalView>) -> bool {
    exists|i: int| 0 <= i < signals.len() && is_error_kind((#[trigger] signals[i]).kind)
}

/// The signals of a call after the calls in `history`.
pub open spec fn signals_of(call: ExecutionView, history: Seq<Seq<char>>) -> Seq<SignalView> {
    call_signals(
        status_signal(call.tool_name, call.status, call.content, call.exit_code),
        if call.result_kind is Command {
            pattern_signal(
                call.tool_name,
                error_patterns(),
                match_flags(error_patterns(), call.content),
            )
        } else {
            None
        },
        history_after(history, call.tool_name),
    )
}

/// How a call failed, in a few words: the kind of its failure, else the message of its first
/// signal, else the first line of its output. Nothing where it did not fail.
pub open spec fn failure_summary(call: ExecutionView, signals: Seq<SignalView>) -> Seq<char> {
    match call.status.failure_spec() {
        Some(kind) => kind.label_spec(),
        None => if signals.len() > 0 {
            signals[0].message
        } else if !(call.status is Succeeded) {
            headline(call.content, seq![])
        } else {
            seq![]
        },
    }
}

/// Whether a call counts as a certain failure.
pub open spec fn is_hard_failure(call: ExecutionView, signals: Seq<SignalView>) -> bool {
    has_hard(signals) || (call.status.failure_spec() matches Some(kind) && kind.is_hard_spec())
}

/// What is known after a call with `signals`.
pub open spec fn evidence_after(
    e: EvidenceView,
    max_records: nat,
    call: ExecutionView,
    signals: Seq<SignalView>,
) -> EvidenceView {
    recorded(
        e,
        max_records,
        RecordView {
            tool: call.tool_name,
            args: json_of_args(call.tool_args),
            paths: written_paths(call.tool_name, call.tool_args),
        },
        failure_summary(call, signals),
        is_hard_failure(call, signals),
        !(call.status is Succeeded) || signals.len() > 0,
    )
}

fn any_hard(signals: &Vec<Signal>) -> (r: bool)
    ensures
        r == has_hard(signal_views(signals@)),
{
    let ghost all = signal_views(signals@);
    let mut i: usize = 0;
    while i < signals.len()
        invariant
            i <= signals@.len(),
            all == signal_views(signals@),
            forall|j: int| 0 <= j < i ==> !(#[trigger] all[j]).kind.is_hard_spec(),
        decreases signals@.len() - i,
    {
        assert(all[i as int] == signals@[i as int]@);
        if signals[i].kind.is_hard() {
            return true;
        }
        i += 1;
    }
    false
}

fn any_error(signals: &Vec<Signal>) -> (r: bool)
    ensures
        r == has_error(signal_views(signals@)),
{
    let ghost all = signal_views(signals@);
    let mut i: usize = 0;
    while i < signals.len()
        invariant
            i <= signals@.len(),
            all == signal_views(signals@),
            forall|j: int| 0 <= j < i ==> !is_error_kind((#[trigger] all[j]).kind),
        decreases signals@.len() - i,
    {
        assert(all[i as int] == signals@[i as int]@);
        let counts: bool = match signals[i].kind {
            SignalKind::ToolError => true,
            SignalKind::TestFailure => true,
            SignalKind::CompileError => true,
            _ => false,
        };
        if counts {
            return true;
        }
        i += 1;
    }
    false
}

fn extend_signals(to: &mut Vec<Signal>, from: &Vec<Signal>)
    ensures
        signal_views(final(to)@) == signal_views(old(to)@) + signal_views(from@),
{
    let ghost start = signal_views(to@);
    let ghost all = signal_views(from@);
    let mut i: usize = 0;
    assert(start + all.take(0) =~= start);
    while i < from.len()
        invariant
            i <= from@.len(),
            all == signal_views(from@),
            signal_views(to@) == start + all.take(i as int),
        decreases from@.len() - i,
    {
        let ghost before = to@;
        to.push(from[i].clone());
        assert(signal_views(to@) =~= signal_views(before).push(all[i as int]));
        assert(start + all.take(i + 1) =~= (start + all.take(i as int)).push(all[i as int]));
        i += 1;
    }
    assert(all.take(i as int) =~= all);
}

/// Draws signals from the tool calls of a turn and keeps what they show.
#[derive(Debug)]
pub struct ToolSignalProcessor {
    pub collector: SignalCollector,
    pub tool_error_count: u32,
    pub signals: Vec<Signal>,
    pub evidence: EvidenceTracker,
}

impl Default for ToolSignalProcessor {
    fn default() -> (r: Self)
        ensures
            r.tool_error_count == 0,
            signal_views(r.signals@) == Seq::<SignalView>::empty(),
            views(r.collector.call_history@) == Seq::<Seq<char>>::empty(),
            r.evidence@ == (EvidenceView {
                records: seq![],
                failures: seq![],
                hard_failures: 0,
                soft_failures: 0,
            }),
            views(r.evidence.edited_paths@) == Seq::<Seq<char>>::empty(),
            r.evidence.injected_spec() == Seq::<u64>::empty(),
            r.evidence.max_records_spec() == 24,
            r.evidence.dedup_window_spec() == 6,
            r.can_process_spec(),
    {
        ToolSignalProcessor::new()
    }
}

impl ToolSignalProcessor {
    /// Whether every counter can go up by one.
    pub open spec fn can_process_spec(&self) -> bool {
        self.tool_error_count < u32::MAX && self.evidence.can_record_spec()
    }

    /// A processor that has seen no call. Its evidence is of the last twenty-four calls, and the
    /// last six pieces of evidence are not shown again.
    pub fn new() -> (r: ToolSignalProcessor)
        ensures
            r.tool_error_count == 0,
            signal_views(r.signals@) == Seq::<SignalView>::empty(),
            views(r.collector.call_history@) == Seq::<Seq<char>>::empty(),
            r.evidence@ == (EvidenceView {
                records: seq![],
                failures: seq![],
                hard_failures: 0,
                soft_failures: 0,
            }),
            views(r.evidence.edited_paths@) == Seq::<Seq<char>>::empty(),
            r.evidence.injected_spec() == Seq::<u64>::empty(),
            r.evidence.max_records_spec() == 24,
            r.evidence.dedup_window_spec() == 6,
            r.can_process_spec(),
    {
        let r = ToolSignalProcessor {
            collector: SignalCollector::new(),
            tool_error_count: 0,
            signals: Vec::new(),
            evidence: EvidenceTracker::new(24, 6),
        };
        assert(signal_views(r.signals@) =~= Seq::<SignalView>::empty());
        assert(views(r.collector.call_history@) =~= Seq::<Seq<char>>::empty());
        r
    }

    /// Forgets the turn. The names of the last calls stay.
    pub fn reset(&mut self)
        ensures
            final(self).tool_error_count == 0,
            signal_views(final(self).signals@) == Seq::<SignalView>::empty(),
            final(self).collector == old(self).collector,
            final(self).evidence@ == (EvidenceView {
                records: seq![],
                failures: seq![],
                hard_failures: 0,
                soft_failures: 0,
            }),
            views(final(self).evidence.edited_paths@) == Seq::<Seq<char>>::empty(),
            final(self).evidence.injected_spec() == Seq::<u64>::empty(),
            final(self).evidence.max_records_spec() == old(self).evidence.max_records_spec(),
            final(self).evidence.dedup_window_spec() == old(self).evidence.dedup_window_spec(),
            final(self).can_process_spec(),
    {
        self.tool_error_count = 0;
        self.signals.clear();
        self.evidence.reset();
        assert(signal_views(self.signals@) =~= Seq::<SignalView>::empty());
    }

    /// How many calls of the turn count as errors.
    pub fn tool_error_count(&self) -> (r: u32)
        ensures
            r == self.tool_error_count,
    {
        self.tool_error_count
    }

    /// How many certain failures the turn had.
    pub fn hard_failures(&self) -> (r: u32)
        ensures
            r == self.evidence@.hard_failures,
    {
        self.evidence.hard_failures
    }

    /// How many other failures the turn had.
    pub fn soft_failures(&self) -> (r: u32)
        ensures
            r == self.evidence@.soft_failures,
    {
        self.evidence.soft_failures
    }

    /// Whether every counter can go up by one.
    pub fn can_process(&self) -> (r: bool)
        ensures
            r == self.can_process_spec(),
    {
        self.tool_error_count < u32::MAX && self.evidence.can_record()
    }

    /// What `self` and a call become when the call is processed: `before` and `given` are the two
    /// before that.
    pub open spec fn processed_from(
        &self,
        before: &ToolSignalProcessor,
        given: ExecutionView,
        after: ExecutionView,
        signal_enabled: bool,
    ) -> bool {
        if !signal_enabled {
            &&& after == (ExecutionView { signals: seq![], ..given })
            &&& *self == *before
        } else {
            let history = views(before.collector.call_history@);
            let drawn = signals_of(given, history);
            &&& after == (ExecutionView { signals: drawn, ..given })
            &&& views(self.collector.call_history@) == history_after(history, given.tool_name)
            &&& signal_views(self.signals@) == signal_views(before.signals@) + drawn
            &&& self.evidence@ == evidence_after(
                before.evidence@,
                before.evidence.max_records_spec(),
                given,
                drawn,
            )
            &&& views(self.evidence.edited_paths@) == with_paths(
                views(before.evidence.edited_paths@),
                written_paths(given.tool_name, given.tool_args),
            )
            &&& self.evidence.injected_spec() == before.evidence.injected_spec()
            &&& self.evidence.max_records_spec() == before.evidence.max_records_spec()
            &&& self.evidence.dedup_window_spec() == before.evidence.dedup_window_spec()
            &&& self.tool_error_count == before.tool_error_count + if has_error(drawn) {
                1int
            } else {
                0
            }
        }
    }

    /// Processes a call as the settings ask: where the policy is `Off`, nothing is drawn from it
    /// and nothing is noted.
    pub fn process(&mut self, result: &mut ToolExecution, policy: SignalPolicy)
        requires
            policy != SignalPolicy::Off ==> old(self).can_process_spec(),
        ensures
            final(self).processed_from(
                old(self),
                old(result)@,
                final(result)@,
                policy != SignalPolicy::Off,
            ),
    {
        let signal_enabled: bool = policy.enabled();
        self.process_with_mode(result, signal_enabled);
    }

    /// Draws the signals of a call, puts them into it and notes what they show. Where signals
    /// are off, those of the call are taken out and nothing is noted.
    pub fn process_with_mode(&mut self, result: &mut ToolExecution, signal_enabled: bool)
        requires
            signal_enabled ==> old(self).can_process_spec(),
        ensures
            final(self).processed_from(
                old(self),
                old(result)@,
                final(result)@,
                signal_enabled,
            ),
    {
        if !signal_enabled {
            result.signals.clear();
            assert(signal_views(result.signals@) =~= seq![]);
            return;
        }
        let scan: bool = match result.result_kind {
            ToolResultKind::Command => true,
            _ => false,
        };
        let drawn: Vec<Signal> = self.collector.collect(
            result.tool_name.as_str(),
            result.status,
            result.content.as_str(),
            result.exit_code,
            scan,
        );
        let ghost all = signal_views(drawn@);
        assert(all.len() == drawn@.len());
        extend_signals(&mut self.signals, &drawn);
        let hard_status: bool = match result.status.failure_kind() {
            Some(kind) => kind.is_hard(),
            None => false,
        };
        let hard: bool = any_hard(&drawn) || hard_status;
        let summary: String = match result.status.failure_kind() {
            Some(kind) => kind.label().to_owned(),
            None => {
                if drawn.len() > 0 {
                    assert(all[0] == drawn@[0]@);
                    drawn[0].message.clone()
                } else if !result.succeeded() {
                    let r: String = headline_of(result.content.as_str(), "");
                    proof {
                        reveal_strlit("");
                        assert(""@ =~= seq![]);
                    }
                    r
                } else {
                    String::new()
                }
            },
        };
        let failed: bool = !result.succeeded() || drawn.len() > 0;
        let paths: Vec<String> = edited_paths(result.tool_name.as_str(), &result.tool_args);
        self.evidence.record(
            result.tool_name.as_str(),
            &result.tool_args,
            summary.as_str(),
            hard,
            failed,
            paths,
        );
        if any_error(&drawn) {
            self.tool_error_count = self.tool_error_count + 1;
        }
        result.signals = drawn;
    }
}

} // verus!
