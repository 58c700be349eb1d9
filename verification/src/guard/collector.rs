//! Signals that something went wrong, drawn from tool calls.

use crate::text::{
    clone_opt, decimal, decimal_of, lines, lines_of, opt_view, same_text, views,
};
use crate::tool_status::{ToolBlocker, ToolFailureKind, ToolStatus};
use vstd::prelude::*;

verus! {

/// What kind of thing went wrong.
#[derive(Clone, Copy, Debug, PartialEq, Eq, Structural)]
pub enum SignalKind {
    ToolError,
    ToolFailed,
    EditLoop,
    SafetyBlocked,
    ArgumentError,
    TestFailure,
    CompileError,
}

impl SignalKind {
    /// Whether a signal of this kind counts by itself.
    pub open spec fn is_hard_spec(self) -> bool {
        self is ToolFailed || self is SafetyBlocked || self is CompileError || self is TestFailure
    }

    /// Whether a signal of this kind counts by itself: a certain failure, not a guess.
    pub fn is_hard(&self) -> (r: bool)
        ensures
            r == self.is_hard_spec(),
    {
        match self {
            SignalKind::ToolFailed => true,
            SignalKind::SafetyBlocked => true,
            SignalKind::CompileError => true,
            SignalKind::TestFailure => true,
            _ => false,
        }
    }
}

/// A sign that something went wrong. The severity is in hundredths.
#[derive(Debug)]
pub struct Signal {
    pub kind: SignalKind,
    pub severity_percent: u32,
    pub source: String,
    pub detail: String,
    pub source_tool: String,
    pub exit_code: Option<i32>,
    pub matched_pattern: Option<String>,
    pub message: String,
}

/// What a [`Signal`] says.
pub struct SignalView {
    pub kind: SignalKind,
    pub severity_percent: u32,
    pub source: Seq<char>,
    pub detail: Seq<char>,
    pub source_tool: Seq<char>,
    pub exit_code: Option<i32>,
    pub matched_pattern: Option<Seq<char>>,
    pub message: Seq<char>,
}

impl View for Signal {
    type V = SignalView;

    open spec fn view(&self) -> SignalView {
        SignalView {
            kind: self.kind,
            severity_percent: self.severity_percent,
            source: self.source@,
            detail: self.detail@,
            source_tool: self.source_tool@,
            exit_code: self.exit_code,
            matched_pattern: opt_view(self.matched_pattern),
            message: self.message@,
        }
    }
}

impl Clone for Signal {
    fn clone(&self) -> (r: Self)
        ensures
            r == *self,
    {
        Signal {
            kind: self.kind,
            severity_percent: self.severity_percent,
            source: self.source.clone(),
            detail: self.detail.clone(),
            source_tool: self.source_tool.clone(),
            exit_code: self.exit_code,
            matched_pattern: clone_opt(&self.matched_pattern),
            message: self.message.clone(),
        }
    }
}

/// The views of a sequence of signals.
pub open spec fn signal_views(signals: Seq<Signal>) -> Seq<SignalView> {
    signals.map_values(|s: Signal| s@)
}

/// The signal with these values: the tool is its source, the message its detail.
pub open spec fn signal(
    kind: SignalKind,
    severity_percent: u32,
    source_tool: Seq<char>,
    exit_code: Option<i32>,
    matched_pattern: Option<Seq<char>>,
    message: Seq<char>,
) -> SignalView {
    SignalView {
        kind,
        severity_percent,
        source: source_tool,
        detail: message,
        source_tool,
        exit_code,
        matched_pattern,
        message,
    }
}

impl Signal {
    /// A signal for something that the runtime noticed outside a tool call.
    pub fn synthetic(
        kind: SignalKind,
        severity_percent: u32,
        source_tool: &str,
        message: &str,
    ) -> (r: Signal)
        ensures
            r@ == signal(kind, severity_percent, source_tool@, None, None, message@),
    {
        Signal::new(kind, severity_percent, source_tool, None, None, message)
    }

    fn new(
        kind: SignalKind,
        severity_percent: u32,
        source_tool: &str,
        exit_code: Option<i32>,
        matched_pattern: Option<String>,
        message: &str,
    ) -> (r: Signal)
        ensures
            r@ == signal(
                kind,
                severity_percent,
                source_tool@,
                exit_code,
                opt_view(matched_pattern),
                message@,
            ),
    {
        Signal {
            kind,
            severity_percent,
            source: source_tool.to_owned(),
            detail: message.to_owned(),
            source_tool: source_tool.to_owned(),
            exit_code,
            matched_pattern,
            message: message.to_owned(),
        }
    }
}

/// A pattern in the output of a command, and what it is a sign of.
pub struct ErrorPattern {
    pub pattern: &'static str,
    pub severity_percent: u32,
    pub detail: &'static str,
    pub kind: SignalKind,
}

/// What an [`ErrorPattern`] says.
pub struct PatternView {
    pub pattern: Seq<char>,
    pub severity_percent: u32,
    pub detail: Seq<char>,
    pub kind: SignalKind,
}

impl View for ErrorPattern {
    type V = PatternView;

    open spec fn view(&self) -> PatternView {
        PatternView {
            pattern: self.pattern@,
            severity_percent: self.severity_percent,
            detail: self.detail@,
            kind: self.kind,
        }
    }
}

/// A pattern with what it is a sign of.
pub open spec fn pattern(
    pattern: Seq<char>,
    severity_percent: u32,
    detail: Seq<char>,
    kind: SignalKind,
) -> PatternView {
    PatternView { pattern, severity_percent, detail, kind }
}

/// The patterns that are looked for, in the order of their precedence.
pub open spec fn error_patterns() -> Seq<PatternView> {
    seq![
        pattern("error\\[E\\d+\\]:"@, 90, "Rust compilation error"@, SignalKind::CompileError),
        pattern(
            "error: aborting due to \\d+ previous error"@,
            90,
            "Rust compilation error"@,
            SignalKind::CompileError,
        ),
        pattern(
            "FAILED [a-zA-Z0-9_/\\\\\\.-]+::[a-zA-Z0-9_]+"@,
            80,
            "Test failure"@,
            SignalKind::TestFailure,
        ),
        pattern("FAILURES==="@, 80, "Pytest failure"@, SignalKind::TestFailure),
        pattern(
            "Traceback \\(most recent call last\\):"@,
            80,
            "Python exception"@,
            SignalKind::ToolError,
        ),
        pattern("Permission denied|EACCES"@, 50, "Permission denied"@, SignalKind::ToolError),
        pattern(
            "command not found|No such file|does not exist"@,
            50,
            "Not found"@,
            SignalKind::ToolError,
        ),
        pattern("Timed? ?out|timeout|killed"@, 30, "Timeout"@, SignalKind::ToolError),
    ]
}

/// The views of a sequence of patterns.
pub open spec fn pattern_views(patterns: Seq<ErrorPattern>) -> Seq<PatternView> {
    patterns.map_values(|p: ErrorPattern| p@)
}

/// Whether a regular expression matches somewhere in a text.
pub uninterp spec fn regex_matches(pattern: Seq<char>, text: Seq<char>) -> bool;

/// Whether `pattern` is one of those that are looked for.
pub open spec fn is_error_pattern(pattern: Seq<char>) -> bool {
    exists|i: int| 0 <= i < error_patterns().len() && (#[trigger] error_patterns()[i]).pattern == pattern
}

/// Compiles `pattern` with `regex::Regex::new` and calls `Regex::is_match` on `text`. Whether
/// the expression matches somewhere in the text depends on the two alone. Only the patterns
/// that are looked for, which are valid expressions, are passed.
#[verifier::external_body]
fn regex_is_match(pattern: &str, text: &str) -> (r: bool)
    requires
        is_error_pattern(pattern@),
    ensures
        r == regex_matches(pattern@, text@),
{
    regex::Regex::new(pattern).expect("invalid error pattern").is_match(text)
}

/// The first place from `i` on that is marked in `flags`, or the length of `flags` where there
/// is none.
pub open spec fn first_marked(flags: Seq<bool>, i: int) -> int
    decreases flags.len() - i,
{
    if i < 0 || i >= flags.len() {
        flags.len() as int
    } else if flags[i] {
        i
    } else {
        first_marked(flags, i + 1)
    }
}

/// The signal that the first of `patterns` gives that is marked in `flags`.
pub open spec fn pattern_signal(
    tool_name: Seq<char>,
    patterns: Seq<PatternView>,
    flags: Seq<bool>,
) -> Option<SignalView> {
    let i = first_marked(flags, 0);
    if i < patterns.len() {
        let p = patterns[i];
        Some(signal(p.kind, p.severity_percent, tool_name, None, Some(p.pattern), p.detail))
    } else {
        None
    }
}

/// Which of `patterns` match in `output`.
pub open spec fn match_flags(patterns: Seq<PatternView>, output: Seq<char>) -> Seq<bool> {
    Seq::new(patterns.len(), |i: int| regex_matches(patterns[i].pattern, output))
}

/// The patterns that are looked for, in the order of their precedence.
pub fn compiled_patterns() -> (r: Vec<ErrorPattern>)
    ensures
        pattern_views(r@) == error_patterns(),
{
    let r: Vec<ErrorPattern> = vec![
        ErrorPattern {
            pattern: "error\\[E\\d+\\]:",
            severity_percent: 90,
            detail: "Rust compilation error",
            kind: SignalKind::CompileError,
        },
        ErrorPattern {
            pattern: "error: aborting due to \\d+ previous error",
            severity_percent: 90,
            detail: "Rust compilation error",
            kind: SignalKind::CompileError,
        },
        ErrorPattern {
            pattern: "FAILED [a-zA-Z0-9_/\\\\\\.-]+::[a-zA-Z0-9_]+",
            severity_percent: 80,
            detail: "Test failure",
            kind: SignalKind::TestFailure,
        },
        ErrorPattern {
            pattern: "FAILURES===",
            severity_percent: 80,
            detail: "Pytest failure",
            kind: SignalKind::TestFailure,
        },
        ErrorPattern {
            pattern: "Traceback \\(most recent call last\\):",
            severity_percent: 80,
            detail: "Python exception",
            kind: SignalKind::ToolError,
        },
        ErrorPattern {
            pattern: "Permission denied|EACCES",
            severity_percent: 50,
            detail: "Permission denied",
            kind: SignalKind::ToolError,
        },
        ErrorPattern {
            pattern: "command not found|No such file|does not exist",
            severity_percent: 50,
            detail: "Not found",
            kind: SignalKind::ToolError,
        },
        ErrorPattern {
            pattern: "Timed? ?out|timeout|killed",
            severity_percent: 30,
            detail: "Timeout",
            kind: SignalKind::ToolError,
        },
    ];
    assert(pattern_views(r@) =~= error_patterns());
    r
}

/// The signal that the first of `patterns` gives that is marked in `flags`.
pub fn signal_of_flags(
    tool_name: &str,
    patterns: &Vec<ErrorPattern>,
    flags: &Vec<bool>,
) -> (r: Option<Signal>)
    requires
        patterns@.len() == flags@.len(),
    ensures
        match r {
            Some(s) => pattern_signal(tool_name@, pattern_views(patterns@), flags@) == Some(s@),
            None => pattern_signal(tool_name@, pattern_views(patterns@), flags@) is None,
        },
{
    let mut i: usize = 0;
    while i < flags.len()
        invariant
            i <= flags@.len(),
            patterns@.len() == flags@.len(),
            first_marked(flags@, 0) == first_marked(flags@, i as int),
        decreases flags@.len() - i,
    {
        if flags[i] {
            let p: &ErrorPattern = &patterns[i];
            assert(pattern_views(patterns@)[i as int] == p@);
            return Some(
                Signal::new(
                    p.kind,
                    p.severity_percent,
                    tool_name,
                    None,
                    Some(p.pattern.to_owned()),
                    p.detail,
                ),
            );
        }
        i += 1;
    }
    None
}

/// How many of `names` are `name`.
pub open spec fn count_of(names: Seq<Seq<char>>, name: Seq<char>) -> nat
    decreases names.len(),
{
    if names.len() == 0 {
        0
    } else {
        count_of(names.drop_last(), name) + if names.last() == name {
            1nat
        } else {
            0
        }
    }
}

/// Whether one of two calls edits and the other compares.
pub open spec fn alternates(a: Seq<char>, b: Seq<char>) -> bool {
    (a == "Edit"@ && b == "Diff"@) || (a == "Diff"@ && b == "Edit"@)
}

/// How often editing and comparing follow each other directly.
pub open spec fn alternations(names: Seq<Seq<char>>) -> nat
    decreases names.len(),
{
    if names.len() < 2 {
        0
    } else {
        alternations(names.drop_last()) + if alternates(names[names.len() - 2], names.last()) {
            1nat
        } else {
            0
        }
    }
}

/// Whether a call looks at something.
pub open spec fn is_look(name: Seq<char>) -> bool {
    name == "Bash"@ || name == "Grep"@ || name == "Read"@ || name == "Glob"@
}

/// Whether one of the calls looks at something.
pub open spec fn has_look(names: Seq<Seq<char>>) -> bool {
    exists|i: int| 0 <= i < names.len() && is_look(#[trigger] names[i])
}

/// How many calls the search for edit loops takes in.
pub const SEQ_WINDOW: usize = 6;

/// The signal of an edit loop.
pub open spec fn loop_signal(severity_percent: u32, message: Seq<char>) -> SignalView {
    signal(SignalKind::EditLoop, severity_percent, "EditLoop"@, None, None, message)
}

/// The signal that the last calls give: too many of them edit, or editing and comparing
/// alternate with no look at anything.
pub open spec fn edit_loop(history: Seq<Seq<char>>) -> Option<SignalView> {
    let edits = count_of(history, "Edit"@);
    let turns = alternations(history);
    if history.len() < SEQ_WINDOW {
        None
    } else if edits > 4 {
        let severity = if edits == 5 {
            60u32
        } else if edits == 6 {
            80
        } else {
            90
        };
        Some(
            loop_signal(
                severity,
                "excessive edits: "@ + decimal(edits) + " of "@ + decimal(SEQ_WINDOW as nat)
                    + " calls are Edit"@,
            ),
        )
    } else if count_of(history, "Diff"@) > 0 && !has_look(history) && turns >= 2 {
        let severity = if turns >= 3 {
            90u32
        } else {
            70
        };
        Some(
            loop_signal(
                severity,
                "edit-diff loop ("@ + decimal(turns) + " alternations) without read operations"@,
            ),
        )
    } else {
        None
    }
}

/// The calls that the search for edit loops takes in after one more.
pub open spec fn history_after(history: Seq<Seq<char>>, name: Seq<char>) -> Seq<Seq<char>> {
    let longer = history.push(name);
    if longer.len() > SEQ_WINDOW {
        longer.drop_first()
    } else {
        longer
    }
}

/// The kind of signal that a failure gives.
pub open spec fn failure_signal(kind: ToolFailureKind) -> SignalKind {
    match kind {
        ToolFailureKind::SafetyBlocked => SignalKind::SafetyBlocked,
        ToolFailureKind::ArgumentInvalid => SignalKind::ArgumentError,
        ToolFailureKind::StaleTag => SignalKind::ArgumentError,
        ToolFailureKind::AmbiguousMatch => SignalKind::ArgumentError,
        ToolFailureKind::PathOutOfScope => SignalKind::ArgumentError,
        ToolFailureKind::Timeout => SignalKind::ToolFailed,
        ToolFailureKind::ProcessFailed => SignalKind::ToolFailed,
        ToolFailureKind::Aborted => SignalKind::ToolFailed,
        ToolFailureKind::Unknown => SignalKind::ToolFailed,
    }
}

/// The first line of `output`, or `default` where it has none.
pub open spec fn headline(output: Seq<char>, default: Seq<char>) -> Seq<char> {
    if lines_of(output).len() > 0 {
        lines_of(output)[0]
    } else {
        default
    }
}

/// The signal that the end of a call gives.
pub open spec fn status_signal(
    tool_name: Seq<char>,
    status: ToolStatus,
    output: Seq<char>,
    exit_code: Option<i32>,
) -> Option<SignalView> {
    match status {
        ToolStatus::Succeeded => None,
        ToolStatus::Failed(kind) => Some(
            signal(
                failure_signal(kind),
                100,
                tool_name,
                exit_code,
                None,
                headline(output, kind.label_spec()),
            ),
        ),
        ToolStatus::Blocked(blocker) => Some(
            signal(
                SignalKind::ToolFailed,
                if blocker is RecoveryGuard {
                    90
                } else {
                    100
                },
                tool_name,
                exit_code,
                None,
                headline(output, "blocked by "@ + blocker.name_spec()),
            ),
        ),
        ToolStatus::Interrupted => Some(
            signal(
                SignalKind::ToolFailed,
                100,
                tool_name,
                exit_code,
                None,
                headline(output, "interrupted"@),
            ),
        ),
    }
}

/// `signals` and one more, where there is one.
pub open spec fn with_signal(signals: Seq<SignalView>, more: Option<SignalView>) -> Seq<
    SignalView,
> {
    match more {
        Some(s) => signals.push(s),
        None => signals,
    }
}

/// The signals of a call: that of its end, that of the first pattern in its output, where
/// patterns are looked for, and that of the calls up to it.
pub open spec fn call_signals(
    status: Option<SignalView>,
    matched: Option<SignalView>,
    history: Seq<Seq<char>>,
) -> Seq<SignalView> {
    with_signal(with_signal(with_signal(seq![], status), matched), edit_loop(history))
}

/// Draws signals from tool calls, and keeps the names of the last ones.
#[derive(Debug)]
pub struct SignalCollector {
    pub call_history: Vec<String>,
}

impl Default for SignalCollector {
    fn default() -> (r: Self)
        ensures
            r.call_history@.len() == 0,
    {
        SignalCollector::new()
    }
}

fn count_name(names: &Vec<String>, name: &str) -> (r: usize)
    ensures
        r == count_of(views(names@), name@),
        r <= names@.len(),
{
    let ghost all = views(names@);
    let mut n: usize = 0;
    let mut i: usize = 0;
    assert(all.take(0) =~= seq![]);
    while i < names.len()
        invariant
            i <= names@.len(),
            all == views(names@),
            n <= i,
            n == count_of(all.take(i as int), name@),
        decreases names@.len() - i,
    {
        proof {
            assert(all.take(i + 1).drop_last() =~= all.take(i as int));
            assert(all.take(i + 1).last() == names@[i as int]@);
        }
        if same_text(names[i].as_str(), name) {
            n += 1;
        }
        i += 1;
    }
    assert(all.take(i as int) =~= all);
    n
}

fn looks(name: &str) -> (r: bool)
    ensures
        r == is_look(name@),
{
    same_text(name, "Bash") || same_text(name, "Grep") || same_text(name, "Read") || same_text(
        name,
        "Glob",
    )
}

fn any_looks(names: &Vec<String>) -> (r: bool)
    ensures
        r == has_look(views(names@)),
{
    let ghost all = views(names@);
    let mut i: usize = 0;
    while i < names.len()
        invariant
            i <= names@.len(),
            all == views(names@),
            forall|j: int| 0 <= j < i ==> !is_look(#[trigger] all[j]),
        decreases names@.len() - i,
    {
        assert(all[i as int] == names@[i as int]@);
        if looks(names[i].as_str()) {
            return true;
        }
        i += 1;
    }
    false
}

/// How often editing and comparing follow each other directly.
pub fn count_edit_diff_alternations(history: &Vec<String>) -> (r: usize)
    ensures
        r == alternations(views(history@)),
        r <= history@.len(),
{
    let ghost all = views(history@);
    let mut count: usize = 0;
    let mut i: usize = 1;
    if history.len() < 2 {
        return 0;
    }
    assert(alternations(all.take(1)) == 0);
    while i < history.len()
        invariant
            1 <= i <= history@.len(),
            all == views(history@),
            count <= i,
            count == alternations(all.take(i as int)),
        decreases history@.len() - i,
    {
        proof {
            let next = all.take(i + 1);
            assert(next.drop_last() =~= all.take(i as int));
            assert(next.last() == history@[i as int]@);
            assert(next[next.len() - 2] == history@[i - 1]@);
        }
        let a: &str = history[i - 1].as_str();
        let b: &str = history[i].as_str();
        if (same_text(a, "Edit") && same_text(b, "Diff")) || (same_text(a, "Diff") && same_text(
            b,
            "Edit",
        )) {
            count += 1;
        }
        i += 1;
    }
    assert(all.take(i as int) =~= all);
    count
}

/// The first line of `output`, or `default` where it has none.
pub fn headline_of(output: &str, default: &str) -> (r: String)
    ensures
        r@ == headline(output@, default@),
{
    let all: Vec<String> = lines(output);
    assert(views(all@).len() == all@.len());
    if all.len() > 0 {
        assert(views(all@)[0] == all@[0]@);
        all[0].clone()
    } else {
        default.to_owned()
    }
}

impl SignalCollector {
    /// A collector that has seen no call.
    pub fn new() -> (r: SignalCollector)
        ensures
            r.call_history@.len() == 0,
    {
        SignalCollector { call_history: Vec::new() }
    }

    fn of_status(
        tool_name: &str,
        status: ToolStatus,
        output: &str,
        exit_code: Option<i32>,
    ) -> (r: Option<Signal>)
        ensures
            match r {
                Some(s) => status_signal(tool_name@, status, output@, exit_code) == Some(s@),
                None => status_signal(tool_name@, status, output@, exit_code) is None,
            },
    {
        match status {
            ToolStatus::Succeeded => None,
            ToolStatus::Failed(kind) => {
                let signal_kind: SignalKind = match kind {
                    ToolFailureKind::SafetyBlocked => SignalKind::SafetyBlocked,
                    ToolFailureKind::ArgumentInvalid => SignalKind::ArgumentError,
                    ToolFailureKind::StaleTag => SignalKind::ArgumentError,
                    ToolFailureKind::AmbiguousMatch => SignalKind::ArgumentError,
                    ToolFailureKind::PathOutOfScope => SignalKind::ArgumentError,
                    ToolFailureKind::Timeout => SignalKind::ToolFailed,
                    ToolFailureKind::ProcessFailed => SignalKind::ToolFailed,
                    ToolFailureKind::Aborted => SignalKind::ToolFailed,
                    ToolFailureKind::Unknown => SignalKind::ToolFailed,
                };
                let message: String = headline_of(output, kind.label());
                Some(
                    Signal::new(signal_kind, 100, tool_name, exit_code, None, message.as_str()),
                )
            },
            ToolStatus::Blocked(blocker) => {
                let severity: u32 = match blocker {
                    ToolBlocker::RecoveryGuard => 90,
                    ToolBlocker::ToolSurface => 100,
                    ToolBlocker::StormBreaker => 100,
                };
                let default: String = "blocked by ".to_owned().concat(blocker.name());
                let message: String = headline_of(output, default.as_str());
                Some(
                    Signal::new(
                        SignalKind::ToolFailed,
                        severity,
                        tool_name,
                        exit_code,
                        None,
                        message.as_str(),
                    ),
                )
            },
            ToolStatus::Interrupted => {
                let message: String = headline_of(output, "interrupted");
                Some(
                    Signal::new(
                        SignalKind::ToolFailed,
                        100,
                        tool_name,
                        exit_code,
                        None,
                        message.as_str(),
                    ),
                )
            },
        }
    }

    /// The signal of the first pattern that matches in `output`.
    pub fn detect_error(tool_name: &str, output: &str) -> (r: Option<Signal>)
        ensures
            ({
                let expected = pattern_signal(
                    tool_name@,
                    error_patterns(),
                    match_flags(error_patterns(), output@),
                );
                match r {
                    Some(s) => expected == Some(s@),
                    None => expected is None,
                }
            }),
    {
        let patterns: Vec<ErrorPattern> = compiled_patterns();
        let ghost all = pattern_views(patterns@);
        let ghost expected = match_flags(all, output@);
        let mut flags: Vec<bool> = Vec::new();
        let mut i: usize = 0;
        while i < patterns.len()
            invariant
                i <= patterns@.len(),
                all == pattern_views(patterns@),
                all == error_patterns(),
                expected == match_flags(all, output@),
                flags@ == expected.take(i as int),
            decreases patterns@.len() - i,
        {
            assert(all[i as int] == patterns@[i as int]@);
            let matched: bool = regex_is_match(patterns[i].pattern, output);
            flags.push(matched);
            assert(expected.take(i + 1) =~= expected.take(i as int).push(expected[i as int]));
            i += 1;
        }
        assert(expected.take(i as int) =~= expected);
        signal_of_flags(tool_name, &patterns, &flags)
    }

    /// The signal that the calls up to now give.
    pub fn detect_edit_loop(&self) -> (r: Option<Signal>)
        ensures
            match r {
                Some(s) => edit_loop(views(self.call_history@)) == Some(s@),
                None => edit_loop(views(self.call_history@)) is None,
            },
    {
        let ghost history = views(self.call_history@);
        assert(history.len() == self.call_history@.len());
        if self.call_history.len() < SEQ_WINDOW {
            return None;
        }
        let edits: usize = count_name(&self.call_history, "Edit");
        if edits > 4 {
            let severity: u32 = if edits == 5 {
                60
            } else if edits == 6 {
                80
            } else {
                90
            };
            let message: String = "excessive edits: ".to_owned().concat(
                decimal_of(edits as u64).as_str(),
            ).concat(" of ").concat(decimal_of(SEQ_WINDOW as u64).as_str()).concat(
                " calls are Edit",
            );
            return Some(
                Signal::new(
                    SignalKind::EditLoop,
                    severity,
                    "EditLoop",
                    None,
                    None,
                    message.as_str(),
                ),
            );
        }
        let compares: bool = count_name(&self.call_history, "Diff") > 0;
        let turns: usize = count_edit_diff_alternations(&self.call_history);
        if compares && !any_looks(&self.call_history) && turns >= 2 {
            let severity: u32 = if turns >= 3 {
                90
            } else {
                70
            };
            let message: String = "edit-diff loop (".to_owned().concat(
                decimal_of(turns as u64).as_str(),
            ).concat(" alternations) without read operations");
            return Some(
                Signal::new(
                    SignalKind::EditLoop,
                    severity,
                    "EditLoop",
                    None,
                    None,
                    message.as_str(),
                ),
            );
        }
        None
    }

    /// Notes a call and puts its signals together. `matched` is the signal of its output.
    pub fn collect_with(
        &mut self,
        tool_name: &str,
        status: ToolStatus,
        output: &str,
        exit_code: Option<i32>,
        matched: Option<Signal>,
    ) -> (r: Vec<Signal>)
        ensures
            views(final(self).call_history@) == history_after(
                views(old(self).call_history@),
                tool_name@,
            ),
            signal_views(r@) == call_signals(
                status_signal(tool_name@, status, output@, exit_code),
                match matched {
                    Some(s) => Some(s@),
                    None => None,
                },
                views(final(self).call_history@),
            ),
    {
        let mut signals: Vec<Signal> = Vec::new();
        assert(signal_views(signals@) =~= seq![]);
        match SignalCollector::of_status(tool_name, status, output, exit_code) {
            Some(s) => {
                let ghost before = signals@;
                signals.push(s);
                assert(signal_views(signals@) =~= signal_views(before).push(s@));
            },
            None => {},
        }
        match matched {
            Some(s) => {
                let ghost before = signals@;
                signals.push(s);
                assert(signal_views(signals@) =~= signal_views(before).push(s@));
            },
            None => {},
        }
        let ghost history = self.call_history@;
        let name: String = tool_name.to_owned();
        self.call_history.push(name);
        assert(views(self.call_history@) =~= views(history).push(name@));
        if self.call_history.len() > SEQ_WINDOW {
            let ghost longer = self.call_history@;
            let _ = self.call_history.remove(0);
            assert(views(self.call_history@) =~= views(longer).drop_first());
        }
        match self.detect_edit_loop() {
            Some(s) => {
                let ghost before = signals@;
                signals.push(s);
                assert(signal_views(signals@) =~= signal_views(before).push(s@));
            },
            None => {},
        }
        signals
    }

    /// Notes a call and draws its signals. Patterns are looked for in its output only where
    /// `scan_error_patterns` says so: the output of a command, not the content of a file.
    pub fn collect(
        &mut self,
        tool_name: &str,
        status: ToolStatus,
        output: &str,
        exit_code: Option<i32>,
        scan_error_patterns: bool,
    ) -> (r: Vec<Signal>)
        ensures
            views(final(self).call_history@) == history_after(
                views(old(self).call_history@),
                tool_name@,
            ),
            signal_views(r@) == call_signals(
                status_signal(tool_name@, status, output@, exit_code),
                if scan_error_patterns {
                    pattern_signal(
                        tool_name@,
                        error_patterns(),
                        match_flags(error_patterns(), output@),
                    )
                } else {
                    None
                },
                views(final(self).call_history@),
            ),
    {
        let matched: Option<Signal> = if scan_error_patterns {
            SignalCollector::detect_error(tool_name, output)
        } else {
            None
        };
        self.collect_with(tool_name, status, output, exit_code, matched)
    }
}

/// The search for edit loops never takes in more calls than its window holds.
pub proof fn history_is_bounded(history: Seq<Seq<char>>, name: Seq<char>)
    requires
        history.len() <= SEQ_WINDOW,
    ensures
        history_after(history, name).len() <= SEQ_WINDOW,
        history_after(history, name).last() == name,
{
}

/// A call that succeeded and whose output is not searched gives no signal but that of a loop.
pub proof fn success_gives_only_loop_signals(
    tool_name: Seq<char>,
    output: Seq<char>,
    exit_code: Option<i32>,
    history: Seq<Seq<char>>,
)
    ensures
        call_signals(
            status_signal(tool_name, ToolStatus::Succeeded, output, exit_code),
            None,
            history,
        ) == with_signal(seq![], edit_loop(history)),
{
}

} // verus!
