use mink::agent::belief::BeliefWindow;
use mink::agent::decision::{
    BeliefStanding, Decision, DecisionEngine, RecoverySeverity, DEFAULT_COOLDOWN_TURNS,
};
use mink::config::resolved::SignalLimits;
use mink::guard::collector::{Signal, SignalKind};

struct Thresholds {
    remind: f64,
    warn: f64,
    abort: f64,
}

const DEFAULTS: Thresholds = Thresholds { remind: 0.70, warn: 0.50, abort: 0.30 };

fn standing(belief: f64, thresholds: &Thresholds) -> BeliefStanding {
    BeliefStanding {
        below_abort: belief < thresholds.abort,
        below_warn: belief < thresholds.warn,
        below_remind: belief < thresholds.remind,
    }
}

fn at(belief: f64) -> BeliefStanding {
    standing(belief, &DEFAULTS)
}

fn engine() -> DecisionEngine {
    DecisionEngine::new(SignalLimits::default().cooldown_turns)
}

#[test]
fn good_belief_does_nothing() {
    let mut de = engine();
    assert!(matches!(de.decide(at(0.9)), Decision::Nothing));
}

#[test]
fn warn_belief_injects() {
    let mut de = engine();
    let d = de.decide(at(0.4));
    assert!(matches!(d, Decision::Inject(_)));
}

#[test]
fn injected_message_triggers_signal_recovery_mode() {
    let mut de = engine();
    let d = de.decide(at(0.4));
    assert!(matches!(d, Decision::Inject(_)));
    if let Decision::Inject(directive) = d {
        assert_eq!(directive.severity, RecoverySeverity::Warning);
    }
}

#[test]
fn bad_belief_aborts() {
    let mut de = engine();
    let d = de.decide(at(0.2));
    assert!(matches!(d, Decision::Abort));
}

#[test]
fn cooldown_suppresses_inject() {
    let mut de = engine();
    assert!(matches!(de.decide(at(0.4)), Decision::Inject(_)));
    assert!(matches!(de.decide(at(0.4)), Decision::Nothing));
    assert_eq!(de.cooldown_remaining(), 2);
}

#[test]
fn cooldown_does_not_suppress_abort() {
    let mut de = engine();
    de.cooldown_remaining = 5;
    let d = de.decide(at(0.2));
    assert!(matches!(d, Decision::Abort));
    assert_eq!(de.cooldown_remaining(), 0);
}

#[test]
fn cooldown_expires_after_enough_calls() {
    let mut de = engine();
    assert!(matches!(de.decide(at(0.4)), Decision::Inject(_)));
    assert!(matches!(de.decide(at(0.4)), Decision::Nothing));
    assert!(matches!(de.decide(at(0.4)), Decision::Nothing));
    assert!(matches!(de.decide(at(0.4)), Decision::Nothing));
    assert!(matches!(de.decide(at(0.4)), Decision::Inject(_)));
    assert!(de.cooldown_remaining() == DEFAULT_COOLDOWN_TURNS);
}

#[test]
fn reset_clears_cooldown() {
    let mut de = engine();
    assert!(matches!(de.decide(at(0.4)), Decision::Inject(_)));
    assert!(de.cooldown_remaining() > 0);
    de.reset();
    assert_eq!(de.cooldown_remaining(), 0);
}

#[test]
fn default_cooldown_turns_is_three() {
    assert_eq!(DEFAULT_COOLDOWN_TURNS, 3);
}

#[test]
fn warning_carries_only_belief_and_severity() {
    let mut de = engine();
    let d = de.decide(at(0.4));
    assert!(matches!(d, Decision::Inject(_)));
    if let Decision::Inject(directive) = d {
        assert_eq!(directive.severity, RecoverySeverity::Warning);
    }
}

#[test]
fn default_engine_starts_without_cooldown() {
    let de = engine();
    assert_eq!(de.cooldown_remaining(), 0);
}

#[test]
fn soft_only_signals_do_not_inject_above_warn_zone() {
    let mut de = engine();
    assert!(matches!(de.decide_with_signals(at(0.65), 0, 1), Decision::Nothing));
    let mut de = engine();
    assert!(matches!(de.decide_with_signals(at(0.65), 0, 2), Decision::Inject(_)));
    let mut de = engine();
    assert!(matches!(de.decide_with_signals(at(0.65), 1, 0), Decision::Inject(_)));
    let mut de = engine();
    assert!(matches!(de.decide_with_signals(at(0.4), 0, 0), Decision::Inject(_)));
}

#[test]
fn config_thresholds_are_honored() {
    let cfg = Thresholds { remind: 0.9, warn: 0.8, abort: 0.2 };
    let mut above = engine();
    assert!(matches!(above.decide(standing(0.95, &cfg)), Decision::Nothing));
    let mut remind = engine();
    assert!(matches!(remind.decide(standing(0.85, &cfg)), Decision::Inject(_)));
    let mut warn = engine();
    assert!(matches!(warn.decide(standing(0.5, &cfg)), Decision::Inject(_)));
    let mut abort = engine();
    assert!(matches!(abort.decide(standing(0.1, &cfg)), Decision::Abort));
}

#[test]
fn config_cooldown_is_honored() {
    let mut de = DecisionEngine::new(1);
    assert!(matches!(de.decide(at(0.4)), Decision::Inject(_)));
    assert!(matches!(de.decide(at(0.4)), Decision::Nothing));
    assert!(matches!(de.decide(at(0.4)), Decision::Inject(_)));
}

#[test]
fn belief_between_warning_and_reminder_reminds() {
    let mut de = engine();
    match de.decide(at(0.6)) {
        Decision::Inject(directive) => assert_eq!(directive.severity, RecoverySeverity::Reminder),
        other => panic!("{other:?}"),
    }
}

fn signal(kind: SignalKind, severity_percent: u32) -> Signal {
    Signal {
        kind,
        severity_percent,
        source: "test".into(),
        detail: "test".into(),
        source_tool: "test".into(),
        exit_code: None,
        matched_pattern: None,
        message: "test".into(),
    }
}

// The belief of the prior 3 to 1 and the window, as the application draws it.
fn belief(window: &BeliefWindow) -> f64 {
    let failures = window.failure_sum as f64 / 100.0;
    let successes = window.failures.len() as f64 - failures;
    (3.0 + successes) / (4.0 + window.failures.len() as f64)
}

#[test]
fn worst_signal_of_a_call_counts_once() {
    let mut window = BeliefWindow::new(16);
    window.observe(&vec![
        signal(SignalKind::ToolError, 80),
        signal(SignalKind::CompileError, 80),
    ]);
    assert_eq!(window.failures, vec![80]);
    assert!((belief(&window) - 3.2 / 5.0).abs() < 1e-9);
}

#[test]
fn window_lets_old_failures_go() {
    let mut window = BeliefWindow::new(3);
    window.observe(&vec![signal(SignalKind::ToolFailed, 100)]);
    for _ in 0..3 {
        window.observe(&vec![]);
    }
    assert_eq!(window.failures, vec![0, 0, 0]);
    assert_eq!(window.failure_sum, 0);
    window.clear();
    assert!((belief(&window) - 0.75).abs() < 1e-9);
}
