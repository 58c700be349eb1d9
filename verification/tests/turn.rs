use mink::agent::turn::{
    blocked_by_signal_recovery, decide_stop, is_context_overflow_message, positive_duration,
    Answer, TurnAction, TurnDecision, TurnInput, TurnMachine,
};
use mink::json::Json;
use mink::protocol::ToolCallEvent;
use mink::tool_args::ToolArgs;
use mink::tool_status::{ToolBlocker, ToolStatus};

fn answer(stop: &str) -> TurnInput {
    TurnInput::Answered(Answer {
        stop: stop.into(),
        text: "said".into(),
        thinking: "thought".into(),
        recovered: false,
        calls: 0,
        interrupted: false,
    })
}

fn begin(max_turns: usize) -> (TurnMachine, TurnAction) {
    TurnMachine::start(max_turns, 100)
}

// Goes on to the first request, without compacting anything.
fn streaming(max_turns: usize) -> TurnMachine {
    let (turn, action) = begin(max_turns);
    assert!(matches!(action, TurnAction::Compact(trigger) if trigger == "auto"));
    let (turn, action) = turn.step(TurnInput::Compacted(false));
    assert!(matches!(action, TurnAction::Estimate));
    let (turn, action) = turn.step(TurnInput::Estimated(50));
    assert!(matches!(action, TurnAction::Stream { context_tokens: 50, retried: false }));
    turn
}

#[test]
fn turn_stops_when_the_model_does() {
    let (turn, action) = streaming(3).step(answer("end_turn"));
    match action {
        TurnAction::Settle { stop, run_tools } => {
            assert_eq!(stop, "end_turn");
            assert!(!run_tools);
        }
        other => panic!("{other:?}"),
    }
    let (turn, action) = turn.step(TurnInput::Settled(None));
    let decision = match action {
        TurnAction::Decide(stop) => decide_stop(&stop),
        other => panic!("{other:?}"),
    };
    let (_, action) = turn.step(TurnInput::Decided(decision));
    assert!(matches!(action, TurnAction::Finish(TurnDecision::Stop)));
}

#[test]
fn stop_reasons_decide() {
    assert!(decide_stop("tool_use").is_none());
    assert!(decide_stop("tool_calls").is_none());
    match decide_stop("max_tokens") {
        Some(TurnDecision::Failed(message)) => assert_eq!(message, "stop: max_tokens"),
        other => panic!("{other:?}"),
    }
    assert!(matches!(decide_stop("weird_reason"), Some(TurnDecision::Stop)));
    assert_eq!(TurnDecision::Failed("x".into()).name(), "Failed");
    assert_eq!(TurnDecision::MaxTurnsExceeded.name(), "MaxTurnsExceeded");
}

#[test]
fn recovered_calls_go_on() {
    for (stop, settled) in [("end_turn", "tool_use"), ("done", "tool_use"), ("max_tokens", "max_tokens")] {
        let (_, action) = streaming(3).step(TurnInput::Answered(Answer {
            stop: stop.into(),
            text: "said".into(),
            thinking: "thought".into(),
            recovered: true,
            calls: 1,
            interrupted: false,
        }));
        match action {
            TurnAction::Settle { stop, run_tools } => {
                assert_eq!(stop, settled);
                assert!(run_tools);
            }
            other => panic!("{other:?}"),
        }
    }
}

#[test]
fn interrupted_turn_ends() {
    let (_, action) = streaming(3).step(TurnInput::Answered(Answer {
        stop: "end_turn".into(),
        text: "said".into(),
        thinking: "thought".into(),
        recovered: false,
        calls: 0,
        interrupted: true,
    }));
    assert!(matches!(action, TurnAction::Finish(TurnDecision::Interrupted)));
}

#[test]
fn calls_are_counted_from_zero() {
    assert_eq!(streaming(3).tool_call_count(), 0);
    let asked = |interrupted| Answer {
        stop: "tool_calls".into(),
        text: String::new(),
        thinking: String::new(),
        recovered: false,
        calls: 4,
        interrupted,
    };
    let (turn, _) = streaming(3).step(TurnInput::Answered(asked(false)));
    assert_eq!(turn.tool_call_count(), 4);
    assert!(turn.can_count(&asked(false)));
    let (turn, _) = streaming(3).step(TurnInput::Answered(asked(true)));
    assert_eq!(turn.tool_call_count(), 0);
    let mut full = streaming(3);
    full.tool_call_count = u32::MAX - 3;
    assert!(!full.can_count(&asked(false)));
    assert!(full.can_count(&asked(true)));
}

#[test]
fn turn_with_a_call_in_each_answer_runs_out() {
    let mut turn = streaming(2);
    for left in [true, false] {
        let (next, action) = turn.step(TurnInput::Answered(Answer {
            stop: "tool_calls".into(),
            text: "said".into(),
            thinking: "thought".into(),
            recovered: false,
            calls: 1,
            interrupted: false,
        }));
        assert!(matches!(action, TurnAction::Settle { run_tools: true, .. }));
        let (next, action) = next.step(TurnInput::Settled(None));
        let decision = match action {
            TurnAction::Decide(stop) => decide_stop(&stop),
            other => panic!("{other:?}"),
        };
        let (next, action) = next.step(TurnInput::Decided(decision));
        if !left {
            assert!(matches!(action, TurnAction::Finish(TurnDecision::MaxTurnsExceeded)));
            assert_eq!(next.tool_call_count(), 2);
            assert_eq!(next.text(), "saidsaid");
            assert_eq!(next.thinking(), "thoughtthought");
            return;
        }
        assert!(matches!(action, TurnAction::Compact(_)));
        let (next, _) = next.step(TurnInput::Compacted(false));
        let (next, action) = next.step(TurnInput::Estimated(50));
        assert!(matches!(action, TurnAction::Stream { .. }));
        turn = next;
    }
}

#[test]
fn turns_run_out() {
    let (turn, _) = streaming(1).step(answer("tool_use"));
    let (turn, _) = turn.step(TurnInput::Settled(None));
    let (_, action) = turn.step(TurnInput::Decided(None));
    assert!(matches!(action, TurnAction::Finish(TurnDecision::MaxTurnsExceeded)));
    let (_, action) = begin(0);
    assert!(matches!(action, TurnAction::Finish(TurnDecision::MaxTurnsExceeded)));
}

#[test]
fn long_request_is_compacted_before_it_is_sent() {
    let (turn, _) = begin(3);
    let (turn, _) = turn.step(TurnInput::Compacted(false));
    let (turn, action) = turn.step(TurnInput::Estimated(101));
    assert!(matches!(action, TurnAction::Compact(trigger) if trigger == "preflight"));
    let (turn, action) = turn.step(TurnInput::Compacted(true));
    assert!(matches!(action, TurnAction::Estimate));
    let (_, action) = turn.step(TurnInput::Estimated(100));
    assert!(matches!(action, TurnAction::Stream { context_tokens: 100, retried: false }));
}

#[test]
fn request_that_stays_too_long_is_not_sent() {
    let (turn, _) = begin(3);
    let (turn, action) = turn.step(TurnInput::Compacted(true));
    assert!(matches!(action, TurnAction::Estimate));
    let (_, action) = turn.step(TurnInput::Estimated(101));
    match action {
        TurnAction::Fail(message) => assert_eq!(
            message,
            "context remains over the request input budget after compaction: \
             estimated 101 tokens, limit 100"
        ),
        other => panic!("{other:?}"),
    }
}

#[test]
fn overflow_is_tried_again_once() {
    let refused = || TurnInput::Refused { overflow: true, message: "too many tokens".into() };
    let (turn, action) = streaming(3).step(refused());
    assert!(matches!(action, TurnAction::Compact(trigger) if trigger == "overflow"));
    let (turn, action) = turn.step(TurnInput::Compacted(true));
    assert!(matches!(action, TurnAction::Stream { context_tokens: 50, retried: true }));
    let (_, action) = turn.step(refused());
    assert!(matches!(action, TurnAction::Fail(message) if message == "too many tokens"));
}

#[test]
fn overflow_that_cannot_be_compacted_fails() {
    let (turn, _) = streaming(3)
        .step(TurnInput::Refused { overflow: true, message: "prompt is too long".into() });
    let (_, action) = turn.step(TurnInput::Compacted(false));
    assert!(matches!(action, TurnAction::Fail(message) if message == "prompt is too long"));
    let (_, action) = streaming(3)
        .step(TurnInput::Refused { overflow: false, message: "boom".into() });
    assert!(matches!(action, TurnAction::Fail(message) if message == "boom"));
}

#[test]
fn conversation_is_compacted_once_in_a_turn() {
    let (turn, _) = streaming(3).step(answer("tool_use"));
    let (turn, action) = turn.step(TurnInput::Settled(Some("plan_confirm".into())));
    assert!(matches!(action, TurnAction::Compact(trigger) if trigger == "plan_confirm"));
    let (turn, action) = turn.step(TurnInput::Compacted(true));
    assert!(matches!(action, TurnAction::Decide(stop) if stop == "tool_use"));
    let (turn, action) = turn.step(TurnInput::Decided(None));
    assert!(matches!(action, TurnAction::Estimate));
    let (turn, _) = turn.step(TurnInput::Estimated(1));
    let (turn, _) = turn.step(answer("tool_use"));
    let (_, action) = turn.step(TurnInput::Settled(Some("plan_clear".into())));
    assert!(matches!(action, TurnAction::Decide(_)));
}

#[test]
fn broken_step_fails_the_turn() {
    let (turn, _) = begin(3);
    let (_, action) = turn.step(TurnInput::Broken("disk full".into()));
    assert!(matches!(action, TurnAction::Fail(message) if message == "disk full"));
}

#[test]
fn overflow_is_recognised() {
    assert!(is_context_overflow_message("This model's Maximum Context Length is 8192"));
    assert!(is_context_overflow_message("error: context_length_exceeded"));
    assert!(!is_context_overflow_message("rate limit exceeded"));
}

#[test]
fn durations_must_be_positive() {
    assert_eq!(positive_duration(5), Some(5));
    assert_eq!(positive_duration(0), None);
    assert_eq!(positive_duration(-1), None);
}

#[test]
fn blocked_call_was_not_made() {
    let blocked = blocked_by_signal_recovery(
        ToolCallEvent {
            name: "Write".into(),
            id: "c".into(),
            input_json: Json::Null,
            fields: ToolArgs::new().with("path", "x"),
        },
        "look first".into(),
    );
    assert_eq!(blocked.tool_use_id, "c");
    assert_eq!(blocked.status, ToolStatus::Blocked(ToolBlocker::RecoveryGuard));
    assert_eq!(blocked.content, "look first");
    assert!(!blocked.succeeded());
    assert_eq!(blocked.tool_args.get("path").unwrap(), "x");
}
