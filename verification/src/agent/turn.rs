//! One turn of the agent: what is to be done next, given what has come of the last step.

use crate::protocol::{ToolCallEvent, ToolCallView};
use crate::text::{
    ascii_lower, contains, decimal, decimal_of, has_text, opt_view, same_text, to_ascii_lower,
};
use crate::tool_execution::{ExecutionView, ToolExecution};
use crate::tool_status::{ToolBlocker, ToolResultKind, ToolStatus};
use vstd::prelude::*;

verus! {

/// Something that a turn brought about.
#[derive(Clone, Copy, Debug, PartialEq, Eq, Structural)]
pub enum TurnEffect {
    PlanCleared,
    PlanConfirmed,
}

/// How a turn ended.
#[derive(Debug)]
pub enum TurnDecision {
    Stop,
    Interrupted,
    MaxTurnsExceeded,
    Failed(String),
}

/// What a [`TurnDecision`] says.
pub enum DecisionView {
    Stop,
    Interrupted,
    MaxTurnsExceeded,
    Failed(Seq<char>),
}

impl View for TurnDecision {
    type V = DecisionView;

    open spec fn view(&self) -> DecisionView {
        match self {
            TurnDecision::Stop => DecisionView::Stop,
            TurnDecision::Interrupted => DecisionView::Interrupted,
            TurnDecision::MaxTurnsExceeded => DecisionView::MaxTurnsExceeded,
            TurnDecision::Failed(m) => DecisionView::Failed(m@),
        }
    }
}

impl DecisionView {
    /// The name that the log has for the way a turn ended.
    pub open spec fn name(self) -> Seq<char> {
        match self {
            DecisionView::Stop => "Stop"@,
            DecisionView::Interrupted => "Interrupted"@,
            DecisionView::MaxTurnsExceeded => "MaxTurnsExceeded"@,
            DecisionView::Failed(_) => "Failed"@,
        }
    }
}

impl TurnDecision {
    /// The name that the log has for the way a turn ended.
    pub fn name(&self) -> (r: &'static str)
        ensures
            r@ == self@.name(),
    {
        match self {
            TurnDecision::Stop => "Stop",
            TurnDecision::Interrupted => "Interrupted",
            TurnDecision::MaxTurnsExceeded => "MaxTurnsExceeded",
            TurnDecision::Failed(_) => "Failed",
        }
    }
}

/// How a turn ends where the model stopped for `reason`, or `None` where it goes on.
pub open spec fn decision_of_stop(reason: Seq<char>) -> Option<DecisionView> {
    if reason == "tool_use"@ || reason == "tool_calls"@ {
        None
    } else if reason == "max_tokens"@ {
        Some(DecisionView::Failed("stop: "@ + reason))
    } else {
        Some(DecisionView::Stop)
    }
}

/// How a turn ends where the model stopped for `reason`, or `None` where it goes on.
pub fn decide_stop(reason: &str) -> (r: Option<TurnDecision>)
    ensures
        match r {
            Some(d) => decision_of_stop(reason@) == Some(d@),
            None => decision_of_stop(reason@) is None,
        },
{
    if same_text(reason, "tool_use") || same_text(reason, "tool_calls") {
        None
    } else if same_text(reason, "max_tokens") {
        Some(TurnDecision::Failed("stop: ".to_owned().concat(reason)))
    } else {
        Some(TurnDecision::Stop)
    }
}

/// The reason for which the model is held to have stopped: where calls were found in its text
/// and it gave none itself, it stopped for them.
pub open spec fn settled_stop(reason: Seq<char>, recovered: bool, has_calls: bool) -> Seq<char> {
    if recovered && has_calls && (reason == "end_turn"@ || reason == "stop"@ || reason == "done"@) {
        "tool_use"@
    } else {
        reason
    }
}

fn settle_stop(reason: String, recovered: bool, has_calls: bool) -> (r: String)
    ensures
        r@ == settled_stop(reason@, recovered, has_calls),
{
    if recovered && has_calls && (same_text(reason.as_str(), "end_turn") || same_text(
        reason.as_str(),
        "stop",
    ) || same_text(reason.as_str(), "done")) {
        "tool_use".to_owned()
    } else {
        reason
    }
}

/// Whether a message in lower case says that a request was too long.
pub open spec fn tells_overflow(lower: Seq<char>) -> bool {
    has_text(lower, "context_length_exceeded"@) || has_text(lower, "maximum context length"@)
        || has_text(lower, "maximum context size"@) || has_text(lower, "context window exceeded"@)
        || has_text(lower, "exceeds the context window"@) || has_text(
        lower,
        "context length exceeded"@,
    ) || has_text(lower, "too many tokens"@) || has_text(lower, "prompt is too long"@) || has_text(
        lower,
        "input is too long"@,
    ) || has_text(lower, "max sequence length"@)
}

/// Whether a message says that a request was too long.
pub fn is_context_overflow_message(message: &str) -> (r: bool)
    ensures
        r == tells_overflow(ascii_lower(message@)),
{
    let lower: String = to_ascii_lower(message);
    let text: &str = lower.as_str();
    contains(text, "context_length_exceeded") || contains(text, "maximum context length")
        || contains(text, "maximum context size") || contains(text, "context window exceeded")
        || contains(text, "exceeds the context window") || contains(text, "context length exceeded")
        || contains(text, "too many tokens") || contains(text, "prompt is too long") || contains(
        text,
        "input is too long",
    ) || contains(text, "max sequence length")
}

/// A number of seconds in the settings, where it limits anything.
pub fn positive_duration(seconds: i32) -> (r: Option<u64>)
    ensures
        r == if seconds > 0 {
            Some(seconds as u64)
        } else {
            None
        },
{
    if seconds > 0 {
        Some(seconds as u64)
    } else {
        None
    }
}

/// A call that was not made because the agent is to look before it changes anything.
pub open spec fn blocked_execution(call: ToolCallView, content: Seq<char>) -> ExecutionView {
    ExecutionView {
        tool_use_id: call.id,
        tool_name: call.name,
        tool_args: call.fields,
        content,
        conv_content: seq![],
        spawns_sub_agent: false,
        sub_agent_prompt: None,
        sub_agent_description: None,
        sub_agent_fork: false,
        exit_code: None,
        status: ToolStatus::Blocked(ToolBlocker::RecoveryGuard),
        result_kind: ToolResultKind::Control,
        signals: seq![],
        plan_command: None,
        needs_finalization: false,
    }
}

/// A call that was not made because the agent is to look before it changes anything.
pub fn blocked_by_signal_recovery(call: ToolCallEvent, content: String) -> (r: ToolExecution)
    ensures
        r@ == blocked_execution(call@, content@),
{
    let r: ToolExecution = ToolExecution {
        tool_use_id: call.id,
        tool_name: call.name,
        tool_args: call.fields,
        content,
        conv_content: String::new(),
        spawns_sub_agent: false,
        sub_agent_prompt: None,
        sub_agent_description: None,
        sub_agent_fork: false,
        exit_code: None,
        status: ToolStatus::Blocked(ToolBlocker::RecoveryGuard),
        result_kind: ToolResultKind::Control,
        signals: Vec::new(),
        plan_command: None,
        needs_finalization: false,
    };
    assert(r@.signals =~= seq![]);
    r
}

/// What is to be done next.
#[derive(Debug)]
pub enum TurnAction {
    /// Compact the conversation, for this reason.
    Compact(String),
    /// Estimate how many tokens the next request takes.
    Estimate,
    /// Send the request, of that many tokens. `retried` where it was too long before.
    Stream { context_tokens: usize, retried: bool },
    /// Write down what the model said, and run the tools it called, where `run_tools`.
    Settle { stop: String, run_tools: bool },
    /// Decide, given why the model stopped, whether the turn goes on.
    Decide(String),
    /// The turn has ended.
    Finish(TurnDecision),
    /// The turn has failed, with this message.
    Fail(String),
}

/// What a [`TurnAction`] says.
pub enum ActionView {
    Compact(Seq<char>),
    Estimate,
    Stream { context_tokens: nat, retried: bool },
    Settle { stop: Seq<char>, run_tools: bool },
    Decide(Seq<char>),
    Finish(DecisionView),
    Fail(Seq<char>),
}

impl View for TurnAction {
    type V = ActionView;

    open spec fn view(&self) -> ActionView {
        match self {
            TurnAction::Compact(trigger) => ActionView::Compact(trigger@),
            TurnAction::Estimate => ActionView::Estimate,
            TurnAction::Stream { context_tokens, retried } => ActionView::Stream {
                context_tokens: *context_tokens as nat,
                retried: *retried,
            },
            TurnAction::Settle { stop, run_tools } => ActionView::Settle {
                stop: stop@,
                run_tools: *run_tools,
            },
            TurnAction::Decide(stop) => ActionView::Decide(stop@),
            TurnAction::Finish(d) => ActionView::Finish(d@),
            TurnAction::Fail(m) => ActionView::Fail(m@),
        }
    }
}

/// What the model said, as far as it decides what is done next.
#[derive(Debug)]
pub struct Answer {
    /// Why the model stopped.
    pub stop: String,
    /// What it said.
    pub text: String,
    /// What it thought.
    pub thinking: String,
    /// Whether calls were found in its text.
    pub recovered: bool,
    /// How many calls there are, given by the model or found in its text.
    pub calls: u32,
    /// Whether the turn was interrupted meanwhile.
    pub interrupted: bool,
}

/// What an [`Answer`] says.
pub struct AnswerView {
    pub stop: Seq<char>,
    pub text: Seq<char>,
    pub thinking: Seq<char>,
    pub recovered: bool,
    pub calls: nat,
    pub interrupted: bool,
}

impl View for Answer {
    type V = AnswerView;

    open spec fn view(&self) -> AnswerView {
        AnswerView {
            stop: self.stop@,
            text: self.text@,
            thinking: self.thinking@,
            recovered: self.recovered,
            calls: self.calls as nat,
            interrupted: self.interrupted,
        }
    }
}

/// What has come of the last step.
#[derive(Debug)]
pub enum TurnInput {
    /// Whether the conversation was compacted.
    Compacted(bool),
    /// How many tokens the next request takes.
    Estimated(usize),
    /// What the model said.
    Answered(Answer),
    /// The request failed, with this message; `overflow` where it was too long.
    Refused { overflow: bool, message: String },
    /// The tools have run. A reason to compact the conversation may have come up.
    Settled(Option<String>),
    /// How the turn ends, or `None` where it goes on.
    Decided(Option<TurnDecision>),
    /// A step went wrong, with this message.
    Broken(String),
}

/// What a [`TurnInput`] says.
pub enum InputView {
    Compacted(bool),
    Estimated(nat),
    Answered(AnswerView),
    Refused { overflow: bool, message: Seq<char> },
    Settled(Option<Seq<char>>),
    Decided(Option<DecisionView>),
    Broken(Seq<char>),
}

impl View for TurnInput {
    type V = InputView;

    open spec fn view(&self) -> InputView {
        match self {
            TurnInput::Compacted(did) => InputView::Compacted(*did),
            TurnInput::Estimated(tokens) => InputView::Estimated(*tokens as nat),
            TurnInput::Answered(a) => InputView::Answered(a@),
            TurnInput::Refused { overflow, message } => InputView::Refused {
                overflow: *overflow,
                message: message@,
            },
            TurnInput::Settled(trigger) => InputView::Settled(opt_view(*trigger)),
            TurnInput::Decided(d) => InputView::Decided(
                match d {
                    Some(d) => Some(d@),
                    None => None,
                },
            ),
            TurnInput::Broken(m) => InputView::Broken(m@),
        }
    }
}

/// What a turn is waiting for.
#[derive(Debug)]
pub enum Phase {
    /// Whether the conversation was compacted before the request.
    AutoCompact,
    /// The estimate, after which the conversation may still be compacted.
    FirstEstimate,
    /// Whether the conversation was compacted because the request is too long.
    Preflight,
    /// The estimate that decides.
    LastEstimate,
    /// The answer to a request of that many tokens.
    Streaming(usize),
    /// Whether the conversation was compacted because the service refused a request of that many
    /// tokens, with that message.
    Overflow { context_tokens: usize, message: String },
    /// The tools, the model having stopped for that reason.
    Settling(String),
    /// Whether the conversation was compacted because of a plan.
    PlanCompact(String),
    /// The decision.
    Deciding,
    /// Nothing: the turn is over.
    Over,
}

/// What a [`Phase`] says.
pub enum PhaseView {
    AutoCompact,
    FirstEstimate,
    Preflight,
    LastEstimate,
    Streaming(nat),
    Overflow { context_tokens: nat, message: Seq<char> },
    Settling(Seq<char>),
    PlanCompact(Seq<char>),
    Deciding,
    Over,
}

impl View for Phase {
    type V = PhaseView;

    open spec fn view(&self) -> PhaseView {
        match self {
            Phase::AutoCompact => PhaseView::AutoCompact,
            Phase::FirstEstimate => PhaseView::FirstEstimate,
            Phase::Preflight => PhaseView::Preflight,
            Phase::LastEstimate => PhaseView::LastEstimate,
            Phase::Streaming(tokens) => PhaseView::Streaming(*tokens as nat),
            Phase::Overflow { context_tokens, message } => PhaseView::Overflow {
                context_tokens: *context_tokens as nat,
                message: message@,
            },
            Phase::Settling(stop) => PhaseView::Settling(stop@),
            Phase::PlanCompact(stop) => PhaseView::PlanCompact(stop@),
            Phase::Deciding => PhaseView::Deciding,
            Phase::Over => PhaseView::Over,
        }
    }
}

/// A turn: what it is waiting for, and what it must remember until then.
#[derive(Debug)]
pub struct TurnMachine {
    pub phase: Phase,
    /// How many requests the turn has begun.
    pub turn: usize,
    /// How many requests it may begin.
    pub max_turns: usize,
    /// How many tokens a request may take.
    pub input_limit: usize,
    /// Whether the conversation was compacted in this turn.
    pub compacted: bool,
    /// Whether a request that was refused as too long was already tried again.
    pub overflow_tried: bool,
    /// How many calls of tools the model has made in this turn.
    pub tool_call_count: u32,
    /// What the model has said in this turn.
    pub text: String,
    /// What the model has thought in this turn.
    pub thinking: String,
}

/// What a [`TurnMachine`] says.
pub struct MachineView {
    pub phase: PhaseView,
    pub turn: nat,
    pub max_turns: nat,
    pub input_limit: nat,
    pub compacted: bool,
    pub overflow_tried: bool,
    pub tool_calls: nat,
    pub text: Seq<char>,
    pub thinking: Seq<char>,
}

impl View for TurnMachine {
    type V = MachineView;

    open spec fn view(&self) -> MachineView {
        MachineView {
            phase: self.phase@,
            turn: self.turn as nat,
            max_turns: self.max_turns as nat,
            input_limit: self.input_limit as nat,
            compacted: self.compacted,
            overflow_tried: self.overflow_tried,
            tool_calls: self.tool_call_count as nat,
            text: self.text@,
            thinking: self.thinking@,
        }
    }
}

/// How many calls of an answer are made: none where the turn was interrupted meanwhile.
pub open spec fn counted_calls(answer: AnswerView) -> nat {
    if answer.interrupted {
        0
    } else {
        answer.calls
    }
}

impl PhaseView {
    /// Whether the turn is waiting to hear whether the conversation was compacted.
    pub open spec fn compacting(self) -> bool {
        self is AutoCompact || self is Preflight || self is Overflow || self is PlanCompact
    }
}

impl MachineView {
    /// What holds of every turn: it begins no more requests than it may, the conversation is not
    /// compacted again where it was compacted already, and a request was sent only where it fits.
    pub open spec fn valid(self) -> bool {
        &&& self.turn <= self.max_turns
        &&& self.phase.compacting() ==> !self.compacted
        &&& self.phase is Overflow ==> self.overflow_tried
        &&& self.phase is FirstEstimate ==> !self.compacted
        &&& self.phase is Streaming ==> self.phase->Streaming_0 <= self.input_limit
        &&& self.phase is Overflow ==> self.phase->context_tokens <= self.input_limit
    }

    /// Whether the turn is waiting for `input`.
    pub open spec fn awaits(self, input: InputView) -> bool {
        match input {
            InputView::Compacted(_) => self.phase.compacting(),
            InputView::Estimated(_) => self.phase is FirstEstimate || self.phase is LastEstimate,
            InputView::Answered(_) => self.phase is Streaming,
            InputView::Refused { .. } => self.phase is Streaming,
            InputView::Settled(_) => self.phase is Settling,
            InputView::Decided(_) => self.phase is Deciding,
            InputView::Broken(_) => !(self.phase is Over),
        }
    }

    /// The turn in another phase.
    pub open spec fn at(self, phase: PhaseView) -> MachineView {
        MachineView { phase, ..self }
    }

    /// The turn, over.
    pub open spec fn over(self, action: ActionView) -> (MachineView, ActionView) {
        (self.at(PhaseView::Over), action)
    }

    /// The next request is begun, where there may be one.
    pub open spec fn begun(self) -> (MachineView, ActionView) {
        if self.turn >= self.max_turns {
            self.over(ActionView::Finish(DecisionView::MaxTurnsExceeded))
        } else {
            let next = MachineView { turn: self.turn + 1, ..self };
            if self.compacted {
                (next.at(PhaseView::LastEstimate), ActionView::Estimate)
            } else {
                (next.at(PhaseView::AutoCompact), ActionView::Compact("auto"@))
            }
        }
    }

    /// The request is sent, or the turn fails, since it takes too many tokens.
    pub open spec fn budgeted(self, tokens: nat) -> (MachineView, ActionView) {
        if tokens > self.input_limit {
            self.over(ActionView::Fail(over_budget(tokens, self.input_limit)))
        } else {
            (
                self.at(PhaseView::Streaming(tokens)),
                ActionView::Stream { context_tokens: tokens, retried: false },
            )
        }
    }

    /// What comes of hearing whether the conversation was compacted.
    pub open spec fn after_compaction(self, did: bool) -> (MachineView, ActionView) {
        let next = MachineView { compacted: self.compacted || did, ..self };
        match self.phase {
            PhaseView::AutoCompact => if did {
                (next.at(PhaseView::LastEstimate), ActionView::Estimate)
            } else {
                (next.at(PhaseView::FirstEstimate), ActionView::Estimate)
            },
            PhaseView::Preflight => (next.at(PhaseView::LastEstimate), ActionView::Estimate),
            PhaseView::Overflow { context_tokens, message } => if did {
                (
                    next.at(PhaseView::Streaming(context_tokens)),
                    ActionView::Stream { context_tokens, retried: true },
                )
            } else {
                next.over(ActionView::Fail(message))
            },
            PhaseView::PlanCompact(stop) => (
                next.at(PhaseView::Deciding),
                ActionView::Decide(stop),
            ),
            _ => next.over(ActionView::Estimate),
        }
    }

    /// What comes of the answer of the model.
    pub open spec fn after_answer(self, answer: AnswerView) -> (MachineView, ActionView) {
        let heard = MachineView {
            text: self.text + answer.text,
            thinking: self.thinking + answer.thinking,
            tool_calls: self.tool_calls + counted_calls(answer),
            ..self
        };
        if answer.interrupted {
            heard.over(ActionView::Finish(DecisionView::Interrupted))
        } else {
            let stop = settled_stop(answer.stop, answer.recovered, answer.calls > 0);
            (
                heard.at(PhaseView::Settling(stop)),
                ActionView::Settle { stop, run_tools: answer.calls > 0 },
            )
        }
    }

    /// Whether the calls of `input` can be counted.
    pub open spec fn can_count(self, input: InputView) -> bool {
        input matches InputView::Answered(answer) ==> self.tool_calls + counted_calls(answer)
            <= u32::MAX
    }

    /// What comes of a request that failed.
    pub open spec fn after_refusal(self, overflow: bool, message: Seq<char>) -> (
        MachineView,
        ActionView,
    ) {
        if overflow && !self.overflow_tried && !self.compacted {
            let next = MachineView { overflow_tried: true, ..self };
            (
                next.at(
                    PhaseView::Overflow { context_tokens: self.phase->Streaming_0, message },
                ),
                ActionView::Compact("overflow"@),
            )
        } else {
            self.over(ActionView::Fail(message))
        }
    }

    /// The turn after `input`, and what is to be done next.
    pub open spec fn next(self, input: InputView) -> (MachineView, ActionView) {
        match input {
            InputView::Compacted(did) => self.after_compaction(did),
            InputView::Estimated(tokens) => if tokens > self.input_limit && self.phase
                is FirstEstimate {
                (self.at(PhaseView::Preflight), ActionView::Compact("preflight"@))
            } else {
                self.budgeted(tokens)
            },
            InputView::Answered(answer) => self.after_answer(answer),
            InputView::Refused { overflow, message } => self.after_refusal(overflow, message),
            InputView::Settled(trigger) => match trigger {
                Some(trigger) if !self.compacted => (
                    self.at(PhaseView::PlanCompact(self.phase->Settling_0)),
                    ActionView::Compact(trigger),
                ),
                _ => (
                    self.at(PhaseView::Deciding),
                    ActionView::Decide(self.phase->Settling_0),
                ),
            },
            InputView::Decided(decision) => match decision {
                Some(d) => self.over(ActionView::Finish(d)),
                None => self.begun(),
            },
            InputView::Broken(message) => self.over(ActionView::Fail(message)),
        }
    }
}

/// What is said of a request that takes too many tokens.
pub open spec fn over_budget(tokens: nat, limit: nat) -> Seq<char> {
    "context remains over the request input budget after compaction: estimated "@ + decimal(tokens)
        + " tokens, limit "@ + decimal(limit)
}

/// A turn before its first request.
pub open spec fn fresh(max_turns: nat, input_limit: nat) -> MachineView {
    MachineView {
        phase: PhaseView::Deciding,
        turn: 0,
        max_turns,
        input_limit,
        compacted: false,
        overflow_tried: false,
        tool_calls: 0,
        text: seq![],
        thinking: seq![],
    }
}

impl TurnMachine {
    fn at(self, phase: Phase) -> (r: TurnMachine)
        ensures
            r@ == self@.at(phase@),
    {
        TurnMachine { phase, ..self }
    }

    /// How many calls of tools the model has made in this turn.
    pub fn tool_call_count(&self) -> (r: u32)
        ensures
            r == self@.tool_calls,
    {
        self.tool_call_count
    }

    /// What the model has said in this turn.
    pub fn text(&self) -> (r: &str)
        ensures
            r@ == self@.text,
    {
        self.text.as_str()
    }

    /// What the model has thought in this turn.
    pub fn thinking(&self) -> (r: &str)
        ensures
            r@ == self@.thinking,
    {
        self.thinking.as_str()
    }

    /// Whether the calls of an answer can be counted.
    pub fn can_count(&self, answer: &Answer) -> (r: bool)
        ensures
            r == self@.can_count(InputView::Answered(answer@)),
    {
        answer.interrupted || answer.calls <= u32::MAX - self.tool_call_count
    }

    fn begin(self) -> (r: (TurnMachine, TurnAction))
        ensures
            (r.0@, r.1@) == self@.begun(),
    {
        if self.turn >= self.max_turns {
            return (
                self.at(Phase::Over),
                TurnAction::Finish(TurnDecision::MaxTurnsExceeded),
            );
        }
        let compacted: bool = self.compacted;
        let next: TurnMachine = TurnMachine { turn: self.turn + 1, ..self };
        if compacted {
            (next.at(Phase::LastEstimate), TurnAction::Estimate)
        } else {
            (next.at(Phase::AutoCompact), TurnAction::Compact("auto".to_owned()))
        }
    }

    /// Begins a turn that may begin `max_turns` requests of `input_limit` tokens each.
    pub fn start(max_turns: usize, input_limit: usize) -> (r: (TurnMachine, TurnAction))
        ensures
            (r.0@, r.1@) == fresh(max_turns as nat, input_limit as nat).begun(),
            r.0@.valid(),
            r.0@.tool_calls == 0,
            r.0@.text == Seq::<char>::empty(),
            r.0@.thinking == Seq::<char>::empty(),
    {
        let machine: TurnMachine = TurnMachine {
            phase: Phase::Deciding,
            turn: 0,
            max_turns,
            input_limit,
            compacted: false,
            overflow_tried: false,
            tool_call_count: 0,
            text: String::new(),
            thinking: String::new(),
        };
        assert(machine@.text =~= seq![] && machine@.thinking =~= seq![]);
        machine.begin()
    }

    fn after_compaction(self, did: bool) -> (r: (TurnMachine, TurnAction))
        requires
            self@.phase.compacting(),
        ensures
            (r.0@, r.1@) == self@.after_compaction(did),
    {
        let machine: TurnMachine = TurnMachine {
            phase: Phase::Over,
            turn: self.turn,
            max_turns: self.max_turns,
            input_limit: self.input_limit,
            compacted: self.compacted || did,
            overflow_tried: self.overflow_tried,
            tool_call_count: self.tool_call_count,
            text: self.text,
            thinking: self.thinking,
        };
        match self.phase {
            Phase::AutoCompact => {
                if did {
                    (machine.at(Phase::LastEstimate), TurnAction::Estimate)
                } else {
                    (machine.at(Phase::FirstEstimate), TurnAction::Estimate)
                }
            },
            Phase::Overflow { context_tokens, message } => {
                if did {
                    (
                        machine.at(Phase::Streaming(context_tokens)),
                        TurnAction::Stream { context_tokens, retried: true },
                    )
                } else {
                    (machine, TurnAction::Fail(message))
                }
            },
            Phase::PlanCompact(stop) => {
                (machine.at(Phase::Deciding), TurnAction::Decide(stop))
            },
            _ => (machine.at(Phase::LastEstimate), TurnAction::Estimate),
        }
    }

    fn after_estimate(self, tokens: usize) -> (r: (TurnMachine, TurnAction))
        ensures
            (r.0@, r.1@) == self@.next(InputView::Estimated(tokens as nat)),
    {
        if tokens <= self.input_limit {
            return (
                self.at(Phase::Streaming(tokens)),
                TurnAction::Stream { context_tokens: tokens, retried: false },
            );
        }
        let first: bool = matches!(self.phase, Phase::FirstEstimate);
        if first {
            (self.at(Phase::Preflight), TurnAction::Compact("preflight".to_owned()))
        } else {
            let message: String =
                "context remains over the request input budget after compaction: estimated ".to_owned().concat(
            decimal_of(tokens as u64).as_str()).concat(" tokens, limit ").concat(
                decimal_of(self.input_limit as u64).as_str(),
            );
            (self.at(Phase::Over), TurnAction::Fail(message))
        }
    }

    fn after_answer(self, answer: Answer) -> (r: (TurnMachine, TurnAction))
        requires
            self@.can_count(InputView::Answered(answer@)),
        ensures
            (r.0@, r.1@) == self@.after_answer(answer@),
    {
        let tool_call_count: u32 = if answer.interrupted {
            self.tool_call_count
        } else {
            self.tool_call_count + answer.calls
        };
        let text: String = self.text.clone().concat(answer.text.as_str());
        let thinking: String = self.thinking.clone().concat(answer.thinking.as_str());
        let heard: TurnMachine = TurnMachine { tool_call_count, text, thinking, ..self };
        if answer.interrupted {
            return (heard.at(Phase::Over), TurnAction::Finish(TurnDecision::Interrupted));
        }
        let run_tools: bool = answer.calls > 0;
        let stop: String = settle_stop(answer.stop, answer.recovered, run_tools);
        (
            heard.at(Phase::Settling(stop.clone())),
            TurnAction::Settle { stop, run_tools },
        )
    }

    fn after_refusal(self, overflow: bool, message: String) -> (r: (TurnMachine, TurnAction))
        requires
            self@.phase is Streaming,
        ensures
            (r.0@, r.1@) == self@.after_refusal(overflow, message@),
    {
        let tokens: usize = match self.phase {
            Phase::Streaming(tokens) => tokens,
            _ => 0,
        };
        if overflow && !self.overflow_tried && !self.compacted {
            let next: TurnMachine = TurnMachine {
                phase: Phase::Overflow { context_tokens: tokens, message },
                turn: self.turn,
                max_turns: self.max_turns,
                input_limit: self.input_limit,
                compacted: self.compacted,
                overflow_tried: true,
                tool_call_count: self.tool_call_count,
                text: self.text,
                thinking: self.thinking,
            };
            (next, TurnAction::Compact("overflow".to_owned()))
        } else {
            (self.at(Phase::Over), TurnAction::Fail(message))
        }
    }

    fn after_tools(self, trigger: Option<String>) -> (r: (TurnMachine, TurnAction))
        requires
            self@.phase is Settling,
        ensures
            (r.0@, r.1@) == self@.next(InputView::Settled(opt_view(trigger))),
    {
        let stop: String = match &self.phase {
            Phase::Settling(stop) => stop.clone(),
            _ => String::new(),
        };
        match trigger {
            Some(trigger) => {
                if !self.compacted {
                    return (
                        self.at(Phase::PlanCompact(stop)),
                        TurnAction::Compact(trigger),
                    );
                }
            },
            None => {},
        }
        (self.at(Phase::Deciding), TurnAction::Decide(stop))
    }

    /// The turn after `input`, and what is to be done next.
    pub fn step(self, input: TurnInput) -> (r: (TurnMachine, TurnAction))
        requires
            self@.valid(),
            self@.awaits(input@),
            self@.can_count(input@),
        ensures
            (r.0@, r.1@) == self@.next(input@),
            r.0@.valid(),
            r.0@.tool_calls == self@.tool_calls + match input@ {
                InputView::Answered(answer) => counted_calls(answer),
                _ => 0,
            },
    {
        match input {
            TurnInput::Compacted(did) => self.after_compaction(did),
            TurnInput::Estimated(tokens) => self.after_estimate(tokens),
            TurnInput::Answered(answer) => self.after_answer(answer),
            TurnInput::Refused { overflow, message } => self.after_refusal(overflow, message),
            TurnInput::Settled(trigger) => self.after_tools(trigger),
            TurnInput::Decided(decision) => match decision {
                Some(d) => (self.at(Phase::Over), TurnAction::Finish(d)),
                None => self.begin(),
            },
            TurnInput::Broken(message) => (self.at(Phase::Over), TurnAction::Fail(message)),
        }
    }
}

/// Whether a turn that stands at `machine` can go through `inputs`, one after the other.
pub open spec fn can_take(machine: MachineView, inputs: Seq<InputView>) -> bool
    decreases inputs.len(),
{
    inputs.len() == 0 || (machine.awaits(inputs[0]) && can_take(
        machine.next(inputs[0]).0,
        inputs.drop_first(),
    ))
}

/// How often the conversation was compacted.
pub open spec fn compactions(inputs: Seq<InputView>) -> nat
    decreases inputs.len(),
{
    if inputs.len() == 0 {
        0
    } else {
        compactions(inputs.drop_first()) + if inputs[0] == InputView::Compacted(true) {
            1nat
        } else {
            0nat
        }
    }
}

/// How many answers of the model came.
pub open spec fn answers(inputs: Seq<InputView>) -> nat
    decreases inputs.len(),
{
    if inputs.len() == 0 {
        0
    } else {
        answers(inputs.drop_first()) + if inputs[0] is Answered {
            1nat
        } else {
            0nat
        }
    }
}

/// How many requests that were refused are sent again.
pub open spec fn retries(machine: MachineView, inputs: Seq<InputView>) -> nat
    decreases inputs.len(),
{
    if inputs.len() == 0 {
        0
    } else {
        let (after, action) = machine.next(inputs[0]);
        retries(after, inputs.drop_first()) + match action {
            ActionView::Stream { context_tokens: _, retried } if retried => 1nat,
            _ => 0nat,
        }
    }
}

/// Each step keeps what holds of every turn.
pub proof fn steps_keep_valid(machine: MachineView, input: InputView)
    requires
        machine.valid(),
        machine.awaits(input),
    ensures
        machine.next(input).0.valid(),
{
}

/// The conversation is compacted at most once in a turn.
pub proof fn compacts_at_most_once(machine: MachineView, inputs: Seq<InputView>)
    requires
        machine.valid(),
        can_take(machine, inputs),
    ensures
        compactions(inputs) <= if machine.compacted {
            0nat
        } else {
            1nat
        },
    decreases inputs.len(),
{
    if inputs.len() > 0 {
        compacts_at_most_once(machine.next(inputs[0]).0, inputs.drop_first());
    }
}

/// A request that the service refused as too long is sent again at most once in a turn.
pub proof fn retries_at_most_once(machine: MachineView, inputs: Seq<InputView>)
    requires
        machine.valid(),
        can_take(machine, inputs),
    ensures
        retries(machine, inputs) <= if machine.compacted {
            0nat
        } else {
            1nat
        },
    decreases inputs.len(),
{
    if inputs.len() > 0 {
        retries_at_most_once(machine.next(inputs[0]).0, inputs.drop_first());
    }
}

/// How many answers may still come.
spec fn answers_left(machine: MachineView) -> nat {
    let later = (machine.max_turns - machine.turn) as nat;
    match machine.phase {
        PhaseView::AutoCompact
        | PhaseView::FirstEstimate
        | PhaseView::Preflight
        | PhaseView::LastEstimate
        | PhaseView::Streaming(_)
        | PhaseView::Overflow { .. } => later + 1,
        PhaseView::Over => 0,
        _ => later,
    }
}

proof fn lemma_answers_left(machine: MachineView, inputs: Seq<InputView>)
    requires
        machine.valid(),
        can_take(machine, inputs),
    ensures
        answers(inputs) <= answers_left(machine),
    decreases inputs.len(),
{
    if inputs.len() > 0 {
        lemma_answers_left(machine.next(inputs[0]).0, inputs.drop_first());
    }
}

/// A turn takes no more answers of the model than it may begin requests.
pub proof fn answers_are_bounded(max_turns: nat, input_limit: nat, inputs: Seq<InputView>)
    requires
        can_take(fresh(max_turns, input_limit).begun().0, inputs),
    ensures
        answers(inputs) <= max_turns,
{
    lemma_answers_left(fresh(max_turns, input_limit).begun().0, inputs);
}

/// Where a turn that stands at `machine`, with `action` to be done, is after `inputs`.
pub open spec fn after_inputs(
    machine: MachineView,
    action: ActionView,
    inputs: Seq<InputView>,
) -> (MachineView, ActionView)
    decreases inputs.len(),
{
    if inputs.len() == 0 {
        (machine, action)
    } else {
        let (next, then_do) = machine.next(inputs[0]);
        after_inputs(next, then_do, inputs.drop_first())
    }
}

/// Whether nothing in `input` ends a turn with this limit on its requests: the request fits, the
/// model asks for tools, and nothing breaks.
pub open spec fn goes_on(input: InputView, input_limit: nat) -> bool {
    match input {
        InputView::Estimated(tokens) => tokens <= input_limit,
        InputView::Answered(answer) => !answer.interrupted && decision_of_stop(
            answer.stop,
        ) is None,
        InputView::Decided(decision) => decision is None,
        InputView::Compacted(_) | InputView::Settled(_) => true,
        InputView::Refused { .. } | InputView::Broken(_) => false,
    }
}

/// A turn in which the model asked for tools goes on: the reason that is decided by is one too for
/// which a turn does not end.
pub proof fn asking_for_tools_goes_on(reason: Seq<char>, recovered: bool, has_calls: bool)
    requires
        decision_of_stop(reason) is None,
    ensures
        decision_of_stop(settled_stop(reason, recovered, has_calls)) is None,
{
}

proof fn lemma_runs_out(machine: MachineView, action: ActionView, inputs: Seq<InputView>)
    requires
        machine.valid(),
        !(machine.phase is Overflow),
        machine.phase is Over ==> action == ActionView::Finish(DecisionView::MaxTurnsExceeded),
        can_take(machine, inputs),
        forall|i: int| 0 <= i < inputs.len() ==> goes_on(#[trigger] inputs[i], machine.input_limit),
        after_inputs(machine, action, inputs).0.phase is Over,
    ensures
        answers(inputs) == answers_left(machine),
        after_inputs(machine, action, inputs).1 == ActionView::Finish(
            DecisionView::MaxTurnsExceeded,
        ),
    decreases inputs.len(),
{
    if inputs.len() > 0 {
        assert(goes_on(inputs[0], machine.input_limit));
        let (next, then_do) = machine.next(inputs[0]);
        let rest = inputs.drop_first();
        assert forall|i: int| 0 <= i < rest.len() implies goes_on(
            #[trigger] rest[i],
            next.input_limit,
        ) by {
            assert(rest[i] == inputs[i + 1]);
        }
        lemma_runs_out(next, then_do, rest);
    }
}

/// A turn in which every answer asks for tools, and nothing else ends it, is over only when it has
/// had as many answers as it may begin requests, and then its turns are exceeded: it never stops.
pub proof fn asking_for_tools_runs_out(max_turns: nat, input_limit: nat, inputs: Seq<InputView>)
    requires
        ({
            let (machine, action) = fresh(max_turns, input_limit).begun();
            &&& can_take(machine, inputs)
            &&& after_inputs(machine, action, inputs).0.phase is Over
        }),
        forall|i: int| 0 <= i < inputs.len() ==> goes_on(#[trigger] inputs[i], input_limit),
    ensures
        ({
            let (machine, action) = fresh(max_turns, input_limit).begun();
            &&& answers(inputs) == max_turns
            &&& after_inputs(machine, action, inputs).1 == ActionView::Finish(
                DecisionView::MaxTurnsExceeded,
            )
        }),
{
    let (machine, action) = fresh(max_turns, input_limit).begun();
    lemma_runs_out(machine, action, inputs);
}

/// How many calls the model made in its answers.
pub open spec fn calls_in(inputs: Seq<InputView>) -> nat
    decreases inputs.len(),
{
    if inputs.len() == 0 {
        0
    } else {
        calls_in(inputs.drop_first()) + match inputs[0] {
            InputView::Answered(answer) => counted_calls(answer),
            _ => 0,
        }
    }
}

proof fn lemma_calls_are_counted(machine: MachineView, action: ActionView, inputs: Seq<InputView>)
    ensures
        after_inputs(machine, action, inputs).0.tool_calls == machine.tool_calls + calls_in(inputs),
    decreases inputs.len(),
{
    if inputs.len() > 0 {
        let (next, then_do) = machine.next(inputs[0]);
        lemma_calls_are_counted(next, then_do, inputs.drop_first());
    }
}

/// The calls of a turn are counted from its start, without those of any turn before it.
pub proof fn calls_are_counted_from_the_start(
    max_turns: nat,
    input_limit: nat,
    inputs: Seq<InputView>,
)
    ensures
        ({
            let (machine, action) = fresh(max_turns, input_limit).begun();
            after_inputs(machine, action, inputs).0.tool_calls == calls_in(inputs)
        }),
{
    let (machine, action) = fresh(max_turns, input_limit).begun();
    lemma_calls_are_counted(machine, action, inputs);
}

/// What the model said is kept: after any step, the text before it still stands at the front, and
/// behind it stands just what the model said in this step. The same holds of what it thought.
pub proof fn later_text_stands_behind(machine: MachineView, input: InputView)
    ensures
        machine.text.is_prefix_of(machine.next(input).0.text),
        machine.thinking.is_prefix_of(machine.next(input).0.thinking),
        input matches InputView::Answered(answer) ==> {
            &&& machine.next(input).0.text.skip(machine.text.len() as int) == answer.text
            &&& machine.next(input).0.thinking.skip(machine.thinking.len() as int)
                == answer.thinking
        },
        !(input is Answered) ==> {
            &&& machine.next(input).0.text.len() == machine.text.len()
            &&& machine.next(input).0.thinking.len() == machine.thinking.len()
        },
{
    let next = machine.next(input).0;
    assert(machine.text =~= next.text.subrange(0, machine.text.len() as int));
    assert(machine.thinking =~= next.thinking.subrange(0, machine.thinking.len() as int));
    match input {
        InputView::Answered(answer) => {
            assert(next.text.skip(machine.text.len() as int) =~= answer.text);
            assert(next.thinking.skip(machine.thinking.len() as int) =~= answer.thinking);
        },
        _ => {},
    }
}

proof fn lemma_text_so_far(machine: MachineView, action: ActionView, inputs: Seq<InputView>)
    ensures
        ({
            let after = after_inputs(machine, action, inputs).0;
            &&& after.text == machine.text + inputs.map_values(
                |i: InputView| if i is Answered { i->Answered_0.text } else { Seq::<char>::empty() },
            ).flatten()
            &&& after.thinking == machine.thinking + inputs.map_values(
                |i: InputView|
                    if i is Answered { i->Answered_0.thinking } else { Seq::<char>::empty() },
            ).flatten()
        }),
    decreases inputs.len(),
{
    let said = |i: InputView|
        if i is Answered { i->Answered_0.text } else { Seq::<char>::empty() };
    let thought = |i: InputView|
        if i is Answered { i->Answered_0.thinking } else { Seq::<char>::empty() };
    if inputs.len() > 0 {
        let (next, then_do) = machine.next(inputs[0]);
        let rest = inputs.drop_first();
        lemma_text_so_far(next, then_do, rest);
        assert(inputs.map_values(said).drop_first() =~= rest.map_values(said));
        assert(inputs.map_values(thought).drop_first() =~= rest.map_values(thought));
        assert(inputs.map_values(said).first() == said(inputs[0]));
        assert(inputs.map_values(thought).first() == thought(inputs[0]));
        assert(next.text =~= machine.text + said(inputs[0]));
        assert(next.thinking =~= machine.thinking + thought(inputs[0]));
        assert(machine.text + said(inputs[0]) + rest.map_values(said).flatten() =~= machine.text + (
        said(inputs[0]) + rest.map_values(said).flatten()));
        assert(machine.thinking + thought(inputs[0]) + rest.map_values(thought).flatten()
            =~= machine.thinking + (thought(inputs[0]) + rest.map_values(thought).flatten()));
    } else {
        assert(machine.text + inputs.map_values(said).flatten() =~= machine.text);
        assert(machine.thinking + inputs.map_values(thought).flatten() =~= machine.thinking);
    }
}

/// The text of a turn is what the model said in its answers, one after the other in the order in
/// which they came, and so is what it thought.
pub proof fn text_is_what_was_said_in_order(
    max_turns: nat,
    input_limit: nat,
    inputs: Seq<InputView>,
)
    ensures
        ({
            let (machine, action) = fresh(max_turns, input_limit).begun();
            let after = after_inputs(machine, action, inputs).0;
            &&& after.text == inputs.map_values(
                |i: InputView| if i is Answered { i->Answered_0.text } else { Seq::<char>::empty() },
            ).flatten()
            &&& after.thinking == inputs.map_values(
                |i: InputView|
                    if i is Answered { i->Answered_0.thinking } else { Seq::<char>::empty() },
            ).flatten()
        }),
{
    let (machine, action) = fresh(max_turns, input_limit).begun();
    lemma_text_so_far(machine, action, inputs);
    let after = after_inputs(machine, action, inputs).0;
    assert(machine.text.len() == 0 && machine.thinking.len() == 0);
    assert(after.text =~= inputs.map_values(
        |i: InputView| if i is Answered { i->Answered_0.text } else { Seq::<char>::empty() },
    ).flatten());
    assert(after.thinking =~= inputs.map_values(
        |i: InputView| if i is Answered { i->Answered_0.thinking } else { Seq::<char>::empty() },
    ).flatten());
}

/// An answer that was not interrupted is written down, and tools run just where it calls some.
pub proof fn called_tools_run(machine: MachineView, answer: AnswerView)
    requires
        !answer.interrupted,
    ensures
        machine.next(InputView::Answered(answer)).1 matches ActionView::Settle { stop, run_tools }
            && run_tools == (answer.calls > 0) && (!answer.recovered || answer.calls == 0 ==> stop
            == answer.stop),
{
}

/// An answer that was interrupted ends the turn as interrupted, and its calls are not made.
pub proof fn interruption_ends_the_turn(machine: MachineView, answer: AnswerView)
    requires
        answer.interrupted,
    ensures
        machine.next(InputView::Answered(answer)).0.phase is Over,
        machine.next(InputView::Answered(answer)).1 == ActionView::Finish(
            DecisionView::Interrupted,
        ),
        machine.next(InputView::Answered(answer)).0.tool_calls == machine.tool_calls,
{
}

/// What is decided on is why the model stopped: no step between the answer and the decision
/// changes it.
pub proof fn stop_reason_is_decided_on(
    machine: MachineView,
    answer: AnswerView,
    trigger: Option<Seq<char>>,
    did: bool,
)
    requires
        machine.phase is Streaming,
        !answer.interrupted,
    ensures
        ({
            let (settling, action) = machine.next(InputView::Answered(answer));
            let (next, then_do) = settling.next(InputView::Settled(trigger));
            &&& action is Settle
            &&& then_do == ActionView::Decide(action->stop) || {
                &&& trigger matches Some(t) && then_do == ActionView::Compact(t)
                &&& !machine.compacted
                &&& next.next(InputView::Compacted(did)).1 == ActionView::Decide(action->stop)
            }
        }),
{
}

/// A decision to end the turn ends it so, and without one the next request is begun as long as
/// there may be one.
pub proof fn decisions_are_kept(machine: MachineView, decision: Option<DecisionView>)
    requires
        machine.phase is Deciding,
    ensures
        ({
            let (next, action) = machine.next(InputView::Decided(decision));
            match decision {
                Some(d) => next.phase is Over && action == ActionView::Finish(d),
                None => if machine.turn < machine.max_turns {
                    next.turn == machine.turn + 1 && (action is Estimate || action is Compact)
                } else {
                    action == ActionView::Finish(DecisionView::MaxTurnsExceeded)
                },
            }
        }),
{
}

/// A request that takes no more tokens than it may is sent, with the tokens that were estimated.
pub proof fn fitting_request_is_sent(machine: MachineView, tokens: nat)
    requires
        machine.phase is FirstEstimate || machine.phase is LastEstimate,
        tokens <= machine.input_limit,
    ensures
        machine.next(InputView::Estimated(tokens)).1 == (ActionView::Stream {
            context_tokens: tokens,
            retried: false,
        }),
        machine.next(InputView::Estimated(tokens)).0.phase == PhaseView::Streaming(tokens),
{
}

/// A request that takes too many tokens is not sent: the conversation is compacted where that may
/// still be done before this request, and else the turn fails.
pub proof fn long_request_is_held_back(machine: MachineView, tokens: nat)
    requires
        machine.phase is FirstEstimate || machine.phase is LastEstimate,
        tokens > machine.input_limit,
    ensures
        machine.phase is FirstEstimate ==> machine.next(InputView::Estimated(tokens)).1
            is Compact,
        machine.phase is LastEstimate ==> machine.next(InputView::Estimated(tokens)).1 is Fail
            && machine.next(InputView::Estimated(tokens)).0.phase is Over,
        machine.phase is LastEstimate ==> (machine.next(InputView::Estimated(tokens)).1
            matches ActionView::Fail(text) && (decimal(tokens) + " tokens, limit "@ + decimal(
            machine.input_limit,
        )).is_suffix_of(text)),
{
    let end = decimal(tokens) + " tokens, limit "@ + decimal(machine.input_limit);
    let text = over_budget(tokens, machine.input_limit);
    assert(text.skip(text.len() - end.len()) =~= end);
}

/// A request that failed is tried again only where it was too long, nothing was compacted yet, and
/// the conversation then is; the turn fails with the message of the service in all other cases.
pub proof fn failure_is_passed_on(
    machine: MachineView,
    overflow: bool,
    message: Seq<char>,
    did: bool,
)
    requires
        machine.phase is Streaming,
    ensures
        ({
            let (next, action) = machine.next(InputView::Refused { overflow, message });
            if overflow && !machine.overflow_tried && !machine.compacted {
                &&& action is Compact
                &&& next.next(InputView::Compacted(did)).1 == if did {
                    ActionView::Stream {
                        context_tokens: machine.phase->Streaming_0,
                        retried: true,
                    }
                } else {
                    ActionView::Fail(message)
                }
            } else {
                action == ActionView::Fail(message) && next.phase is Over
            }
        }),
{
}

/// A step that went wrong ends the turn with its message.
pub proof fn broken_step_ends_the_turn(machine: MachineView, message: Seq<char>)
    ensures
        machine.next(InputView::Broken(message)).0.phase is Over,
        machine.next(InputView::Broken(message)).1 == ActionView::Fail(message),
{
}

/// No request is sent whose estimate is more than it may take.
pub proof fn requests_fit_the_budget(machine: MachineView, input: InputView)
    requires
        machine.valid(),
        machine.awaits(input),
    ensures
        machine.next(input).1 matches ActionView::Stream { context_tokens, retried: _ }
            ==> context_tokens <= machine.input_limit,
{
}

} // verus!
