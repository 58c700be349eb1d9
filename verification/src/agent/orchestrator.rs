//! What the user is told of a turn, and which model answers.

use crate::agent::turn::{DecisionView, TurnDecision, TurnEffect};
use crate::config::models::{resolved_model, ModelResolver, ResolvedModel};
use crate::errors::{ErrorInfo, ErrorSeverity};
use crate::text::{opt_view, same_text, trim, trimmed};
use vstd::prelude::*;

verus! {

/// How a turn ended.
#[derive(Clone, Copy, Debug, PartialEq, Eq, Structural)]
pub enum TurnStatus {
    Completed,
    Failed,
    Interrupted,
    MaxTurnsExceeded,
}

impl TurnStatus {
    /// The name that the log has for the status.
    pub open spec fn name(self) -> Seq<char> {
        match self {
            TurnStatus::Completed => "ok"@,
            TurnStatus::Failed => "failed"@,
            TurnStatus::Interrupted => "interrupted"@,
            TurnStatus::MaxTurnsExceeded => "max_turns_exceeded"@,
        }
    }

    /// The name that the log has for the status.
    pub fn as_str(self) -> (r: &'static str)
        ensures
            r@ == self.name(),
    {
        match self {
            TurnStatus::Completed => "ok",
            TurnStatus::Failed => "failed",
            TurnStatus::Interrupted => "interrupted",
            TurnStatus::MaxTurnsExceeded => "max_turns_exceeded",
        }
    }
}

/// What came of a turn.
#[derive(Debug)]
pub struct TurnRunResult {
    pub billing_turn_id: String,
    pub status: TurnStatus,
    pub tool_call_count: u32,
    pub tool_error_count: u32,
    pub error: Option<String>,
}

/// What a [`TurnRunResult`] says.
pub struct RunView {
    pub billing_turn_id: Seq<char>,
    pub status: TurnStatus,
    pub tool_call_count: u32,
    pub tool_error_count: u32,
    pub error: Option<Seq<char>>,
}

impl View for TurnRunResult {
    type V = RunView;

    open spec fn view(&self) -> RunView {
        RunView {
            billing_turn_id: self.billing_turn_id@,
            status: self.status,
            tool_call_count: self.tool_call_count,
            tool_error_count: self.tool_error_count,
            error: opt_view(self.error),
        }
    }
}

/// The status of a turn that ended so.
pub open spec fn status_of(decision: DecisionView) -> TurnStatus {
    match decision {
        DecisionView::Stop => TurnStatus::Completed,
        DecisionView::Interrupted => TurnStatus::Interrupted,
        DecisionView::MaxTurnsExceeded => TurnStatus::MaxTurnsExceeded,
        DecisionView::Failed(_) => TurnStatus::Failed,
    }
}

/// What went wrong in a turn that ended so.
pub open spec fn error_of(decision: DecisionView) -> Option<Seq<char>> {
    match decision {
        DecisionView::Stop => None,
        DecisionView::Interrupted => Some("interrupted"@),
        DecisionView::MaxTurnsExceeded => Some("max_turns exhausted before end_turn"@),
        DecisionView::Failed(message) => Some(message),
    }
}

impl TurnRunResult {
    /// A turn in which all went well.
    pub fn ok(tool_call_count: u32, tool_error_count: u32) -> (r: TurnRunResult)
        ensures
            r@ == (RunView {
                billing_turn_id: seq![],
                status: TurnStatus::Completed,
                tool_call_count,
                tool_error_count,
                error: None,
            }),
    {
        TurnRunResult {
            billing_turn_id: String::new(),
            status: TurnStatus::Completed,
            tool_call_count,
            tool_error_count,
            error: None,
        }
    }

    /// A turn that failed before any tool was called.
    pub fn failed(error: String) -> (r: TurnRunResult)
        ensures
            r@ == (RunView {
                billing_turn_id: seq![],
                status: TurnStatus::Failed,
                tool_call_count: 0,
                tool_error_count: 0,
                error: Some(error@),
            }),
    {
        TurnRunResult {
            billing_turn_id: String::new(),
            status: TurnStatus::Failed,
            tool_call_count: 0,
            tool_error_count: 0,
            error: Some(error),
        }
    }

    /// A turn that ended so.
    pub fn from_decision(
        decision: &TurnDecision,
        tool_call_count: u32,
        tool_error_count: u32,
    ) -> (r: TurnRunResult)
        ensures
            r@ == (RunView {
                billing_turn_id: seq![],
                status: status_of(decision@),
                tool_call_count,
                tool_error_count,
                error: error_of(decision@),
            }),
    {
        let status: TurnStatus = match decision {
            TurnDecision::Stop => TurnStatus::Completed,
            TurnDecision::Interrupted => TurnStatus::Interrupted,
            TurnDecision::MaxTurnsExceeded => TurnStatus::MaxTurnsExceeded,
            TurnDecision::Failed(_) => TurnStatus::Failed,
        };
        let error: Option<String> = match decision {
            TurnDecision::Stop => None,
            TurnDecision::Interrupted => Some("interrupted".to_owned()),
            TurnDecision::MaxTurnsExceeded => Some(
                "max_turns exhausted before end_turn".to_owned(),
            ),
            TurnDecision::Failed(message) => Some(message.clone()),
        };
        TurnRunResult {
            billing_turn_id: String::new(),
            status,
            tool_call_count,
            tool_error_count,
            error,
        }
    }

    /// A turn that failed with this error.
    pub fn from_error(error: String, tool_call_count: u32, tool_error_count: u32) -> (r:
        TurnRunResult)
        ensures
            r@ == (RunView {
                billing_turn_id: seq![],
                status: TurnStatus::Failed,
                tool_call_count,
                tool_error_count,
                error: Some(error@),
            }),
    {
        TurnRunResult {
            billing_turn_id: String::new(),
            status: TurnStatus::Failed,
            tool_call_count,
            tool_error_count,
            error: Some(error),
        }
    }

    /// A turn that could not begin.
    pub fn unprepared(error: &str) -> (r: TurnRunResult)
        ensures
            r@ == (RunView {
                billing_turn_id: seq![],
                status: TurnStatus::Failed,
                tool_call_count: 0,
                tool_error_count: 0,
                error: Some("failed to prepare turn: "@ + error@),
            }),
    {
        TurnRunResult::failed("failed to prepare turn: ".to_owned().concat(error))
    }

    /// The same turn, under the id by which it is billed.
    pub fn billed(self, billing_turn_id: &str) -> (r: TurnRunResult)
        ensures
            r@ == (RunView { billing_turn_id: billing_turn_id@, ..self@ }),
    {
        TurnRunResult {
            billing_turn_id: billing_turn_id.to_owned(),
            status: self.status,
            tool_call_count: self.tool_call_count,
            tool_error_count: self.tool_error_count,
            error: self.error,
        }
    }
}

/// A message to the user.
#[derive(Debug)]
pub enum Notice {
    Info(String),
    Error(String),
    Text(String),
}

/// What a [`Notice`] says.
pub enum NoticeView {
    Info(Seq<char>),
    Error(Seq<char>),
    Text(Seq<char>),
}

impl View for Notice {
    type V = NoticeView;

    open spec fn view(&self) -> NoticeView {
        match self {
            Notice::Info(m) => NoticeView::Info(m@),
            Notice::Error(m) => NoticeView::Error(m@),
            Notice::Text(m) => NoticeView::Text(m@),
        }
    }
}

/// The views of a sequence of messages.
pub open spec fn notice_views(notices: Seq<Notice>) -> Seq<NoticeView> {
    notices.map_values(|n: Notice| n@)
}

/// What the user is told of something that a turn brought about.
pub open spec fn effect_notice(effect: TurnEffect) -> NoticeView {
    match effect {
        TurnEffect::PlanCleared => NoticeView::Info("Plan cleared."@),
        TurnEffect::PlanConfirmed => NoticeView::Info("Plan confirmed."@),
    }
}

/// What the user is told of the way a turn ended.
pub open spec fn decision_notices(decision: DecisionView) -> Seq<NoticeView> {
    match decision {
        DecisionView::Failed(message) if message != "interrupted"@ => seq![
            NoticeView::Error(message),
        ],
        DecisionView::MaxTurnsExceeded => seq![
            NoticeView::Error("max_turns exhausted before end_turn"@),
        ],
        _ => seq![],
    }
}

/// What the user is told of a turn.
pub fn turn_notices(effects: &Vec<TurnEffect>, decision: &TurnDecision) -> (r: Vec<Notice>)
    ensures
        notice_views(r@) == effects@.map_values(|e: TurnEffect| effect_notice(e))
            + decision_notices(decision@),
{
    let ghost told = effects@.map_values(|e: TurnEffect| effect_notice(e));
    let mut out: Vec<Notice> = Vec::new();
    let mut i: usize = 0;
    assert(notice_views(out@) =~= told.take(0));
    while i < effects.len()
        invariant
            i <= effects@.len(),
            told == effects@.map_values(|e: TurnEffect| effect_notice(e)),
            notice_views(out@) == told.take(i as int),
        decreases effects@.len() - i,
    {
        let ghost before = out@;
        let notice: Notice = match effects[i] {
            TurnEffect::PlanCleared => Notice::Info("Plan cleared.".to_owned()),
            TurnEffect::PlanConfirmed => Notice::Info("Plan confirmed.".to_owned()),
        };
        out.push(notice);
        proof {
            assert(told[i as int] == notice@);
            assert(notice_views(out@) =~= notice_views(before).push(notice@));
            assert(told.take(i + 1) =~= told.take(i as int).push(told[i as int]));
        }
        i += 1;
    }
    assert(told.take(i as int) =~= told);
    let ghost before = out@;
    match decision {
        TurnDecision::Failed(message) => {
            if !same_text(message.as_str(), "interrupted") {
                out.push(Notice::Error(message.clone()));
            }
        },
        TurnDecision::MaxTurnsExceeded => {
            out.push(Notice::Error("max_turns exhausted before end_turn".to_owned()));
        },
        _ => {},
    }
    assert(notice_views(out@) =~= notice_views(before) + decision_notices(decision@));
    out
}

/// What the user is told of a turn that failed.
pub open spec fn failure_notice(severity: ErrorSeverity, error: Seq<char>) -> NoticeView {
    if severity == ErrorSeverity::Fatal {
        NoticeView::Error("Fatal error: "@ + error)
    } else {
        NoticeView::Error("Turn execution error: "@ + error)
    }
}

/// What the user is told of a turn that failed.
pub fn turn_failure_notice(info: &ErrorInfo, error: &str) -> (r: Notice)
    ensures
        r@ == failure_notice(info.severity, error@),
{
    match info.severity {
        ErrorSeverity::Fatal => Notice::Error("Fatal error: ".to_owned().concat(error)),
        _ => Notice::Error("Turn execution error: ".to_owned().concat(error)),
    }
}

/// What came of compacting the conversation when the user asked for it.
#[derive(Debug)]
pub enum CompactOutcome {
    /// It was compacted, to this summary where there is one.
    Done(Option<String>),
    /// It was not, for this reason.
    Skipped(String),
    /// It failed, for this reason.
    Failed(String),
}

/// What a [`CompactOutcome`] says.
pub enum OutcomeView {
    Done(Option<Seq<char>>),
    Skipped(Seq<char>),
    Failed(Seq<char>),
}

impl View for CompactOutcome {
    type V = OutcomeView;

    open spec fn view(&self) -> OutcomeView {
        match self {
            CompactOutcome::Done(s) => OutcomeView::Done(opt_view(*s)),
            CompactOutcome::Skipped(m) => OutcomeView::Skipped(m@),
            CompactOutcome::Failed(m) => OutcomeView::Failed(m@),
        }
    }
}

/// What the user is told of it: the summary without the space around it, on a line of its own.
pub open spec fn compact_notices_of(outcome: OutcomeView) -> Seq<NoticeView> {
    match outcome {
        OutcomeView::Done(Some(summary)) if trimmed(summary).len() > 0 => seq![
            NoticeView::Text(trimmed(summary)),
            NoticeView::Text("\n"@),
        ],
        OutcomeView::Done(_) => seq![],
        OutcomeView::Skipped(reason) => seq![NoticeView::Info("Compact skipped: "@ + reason)],
        OutcomeView::Failed(error) => seq![NoticeView::Error("Compact failed: "@ + error)],
    }
}

/// What the user is told of it.
pub fn compact_notices(outcome: &CompactOutcome) -> (r: Vec<Notice>)
    ensures
        notice_views(r@) == compact_notices_of(outcome@),
{
    let mut out: Vec<Notice> = Vec::new();
    match outcome {
        CompactOutcome::Done(Some(summary)) => {
            let bare: String = trim(summary.as_str());
            if !bare.as_str().is_empty() {
                out.push(Notice::Text(bare));
                out.push(Notice::Text("\n".to_owned()));
            }
        },
        CompactOutcome::Done(None) => {},
        CompactOutcome::Skipped(reason) => {
            out.push(Notice::Info("Compact skipped: ".to_owned().concat(reason.as_str())));
        },
        CompactOutcome::Failed(error) => {
            out.push(Notice::Error("Compact failed: ".to_owned().concat(error.as_str())));
        },
    }
    assert(notice_views(out@) =~= compact_notices_of(outcome@));
    out
}

/// Which model answers: the one that the user switched to, or else the one in the settings.
#[derive(Debug)]
pub struct ModelChoice {
    pub forced: Option<String>,
}

/// What comes of the user switching to a model: which one is chosen, and what the user is told.
/// `flash` is the model that no switch is needed for.
pub open spec fn switched(model: Seq<char>) -> (Option<Seq<char>>, Seq<NoticeView>) {
    let done = NoticeView::Info("Switched to "@ + model + " model."@);
    if model == "flash"@ {
        (None, seq![NoticeView::Info("切回 flash。"@), done])
    } else {
        (Some(model), seq![done])
    }
}

impl ModelChoice {
    /// The user has not switched.
    pub fn new() -> (r: ModelChoice)
        ensures
            r.forced is None,
    {
        ModelChoice { forced: None }
    }

    /// The user switches to a model. Gives what the user is told.
    pub fn switch(&mut self, model: &str) -> (r: Vec<Notice>)
        ensures
            (opt_view(final(self).forced), notice_views(r@)) == switched(model@),
    {
        let mut out: Vec<Notice> = Vec::new();
        if same_text(model, "flash") {
            self.forced = None;
            out.push(Notice::Info("切回 flash。".to_owned()));
        } else {
            self.forced = Some(model.to_owned());
        }
        out.push(
            Notice::Info("Switched to ".to_owned().concat(model).concat(" model.")),
        );
        assert(notice_views(out@) =~= switched(model@).1);
        out
    }

    /// The model that answers.
    pub fn resolve_active(&self, resolver: &ModelResolver, configured: &str) -> (r: ResolvedModel)
        ensures
            r@ == resolved_model(
                resolver@,
                match opt_view(self.forced) {
                    Some(model) => model,
                    None => configured@,
                },
            ),
    {
        match &self.forced {
            Some(model) => resolver.resolve(model.as_str()),
            None => resolver.resolve(configured),
        }
    }
}

/// After the user switches to a model other than `flash`, that one answers, whatever the settings
/// say; after a switch to `flash`, the one in the settings does.
pub proof fn switch_decides(
    table: Map<Seq<char>, Seq<char>>,
    model: Seq<char>,
    configured: Seq<char>,
)
    ensures
        ({
            let active = match switched(model).0 {
                Some(m) => m,
                None => configured,
            };
            resolved_model(table, active) == resolved_model(
                table,
                if model == "flash"@ {
                    configured
                } else {
                    model
                },
            )
        }),
{
}

} // verus!
