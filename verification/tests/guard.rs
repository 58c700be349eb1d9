use mink::guard::collector::{
    compiled_patterns, signal_of_flags, Signal, SignalCollector, SignalKind, SEQ_WINDOW,
};
use mink::guard::evidence::EvidenceTracker;
use mink::guard::storm::{StormBreaker, StormDecision};
use mink::tool_args::ToolArgs;
use mink::tool_status::{ToolBlocker, ToolFailureKind, ToolStatus};

#[test]
fn collector_detects_rust_error() {
    let mut c = SignalCollector::new();
    let sigs = c.collect(
        "Bash",
        ToolStatus::Succeeded,
        "error[E0425]: cannot find value",
        None,
        true,
    );
    assert!(
        sigs.iter()
            .any(|s| matches!(s.kind, SignalKind::CompileError))
    );
    assert!(sigs.iter().any(|s| s.matched_pattern.is_some()));
}

#[test]
fn collector_command_test_failure_is_a_diagnostic_signal() {
    let mut collector = SignalCollector::new();
    let signals = collector.collect(
        "Bash",
        ToolStatus::Failed(ToolFailureKind::ProcessFailed),
        "FAILED tests/runtime.rs::recovers_after_failure",
        Some(1),
        true,
    );
    assert!(
        signals
            .iter()
            .any(|signal| matches!(signal.kind, SignalKind::TestFailure))
    );
}

#[test]
fn collector_clean_output_no_signals() {
    let mut c = SignalCollector::new();
    let sigs = c.collect(
        "Read",
        ToolStatus::Succeeded,
        "everything is fine",
        None,
        false,
    );
    assert!(sigs.is_empty());
}

#[test]
fn collector_content_tool_output_with_timeout_keyword_does_not_emit_pattern_signal() {
    let mut c = SignalCollector::new();
    let sigs = c.collect(
        "Read",
        ToolStatus::Succeeded,
        "209:        let _ = tokio::time::timeout(std::time::Duration::from_secs(5), self)",
        None,
        false,
    );
    assert!(
        !sigs.iter().any(|s| matches!(s.kind, SignalKind::ToolError)),
        "Read output is file content; 'timeout' must not produce a ToolError signal"
    );
}

#[test]
fn collector_command_tool_output_with_timeout_keyword_emits_pattern_signal() {
    let mut c = SignalCollector::new();
    let sigs = c.collect(
        "Bash",
        ToolStatus::Succeeded,
        "Timed out after 60s",
        None,
        true,
    );
    assert!(
        sigs.iter().any(|s| matches!(s.kind, SignalKind::ToolError)),
        "Bash diagnostics containing 'Timed out' must produce a ToolError signal"
    );
}

#[test]
fn collector_content_tool_output_with_compile_error_keyword_does_not_emit_pattern_signal() {
    let mut c = SignalCollector::new();
    let sigs = c.collect(
        "Read",
        ToolStatus::Succeeded,
        "\"error[E0425]: cannot find value\" // test fixture string",
        None,
        false,
    );
    assert!(
        !sigs
            .iter()
            .any(|s| matches!(s.kind, SignalKind::CompileError)),
        "Read output is file content; 'error[E0425]' must not produce a CompileError signal"
    );
}

#[test]
fn collector_detects_edit_loop_excessive_edits() {
    let mut c = SignalCollector::new();
    for _ in 0..5 {
        c.call_history.push("Edit".into());
    }
    c.call_history.push("Read".into());
    let sigs = c.collect("Edit", ToolStatus::Succeeded, "ok", None, false);
    assert!(sigs.iter().any(|s| matches!(s.kind, SignalKind::EditLoop)));
}

#[test]
fn collector_detects_tool_failed_via_exit_code() {
    let mut c = SignalCollector::new();
    let sigs = c.collect(
        "Bash",
        ToolStatus::Failed(ToolFailureKind::ProcessFailed),
        "output",
        Some(1),
        false,
    );
    assert!(
        sigs.iter()
            .any(|s| matches!(s.kind, SignalKind::ToolFailed))
    );
}

#[test]
fn collector_display_error_prefix_does_not_define_status() {
    let mut c = SignalCollector::new();
    let sigs = c.collect(
        "Read",
        ToolStatus::Succeeded,
        "Error: file not found",
        None,
        false,
    );
    assert!(sigs.is_empty());
}

#[test]
fn collector_detects_safety_blocked() {
    let mut c = SignalCollector::new();
    let sigs = c.collect(
        "Bash",
        ToolStatus::Failed(ToolFailureKind::SafetyBlocked),
        "command blocked by bash safety policy (sudo)",
        None,
        false,
    );
    assert!(
        sigs.iter()
            .any(|s| matches!(s.kind, SignalKind::SafetyBlocked))
    );
}

#[test]
fn collector_recovery_guard_preserves_non_extreme_failure_weight() {
    let mut collector = SignalCollector::new();
    let signals = collector.collect(
        "Edit",
        ToolStatus::Blocked(ToolBlocker::RecoveryGuard),
        "recovery guard blocked Edit",
        None,
        false,
    );

    assert_eq!(signals.len(), 1);
    assert_eq!(f64::from(signals[0].severity_percent) / 100.0, 0.9);
    assert!(matches!(signals[0].kind, SignalKind::ToolFailed));
}

#[test]
fn collector_exit_code_zero_does_not_fail() {
    let mut c = SignalCollector::new();
    let sigs = c.collect("Bash", ToolStatus::Succeeded, "ok", Some(0), false);
    assert!(
        !sigs
            .iter()
            .any(|s| matches!(s.kind, SignalKind::ToolFailed))
    );
}

#[test]
fn collector_tests_detects_rust_error() {
    let mut c = SignalCollector::new();
    let sigs = c.collect(
        "Bash",
        ToolStatus::Succeeded,
        "error[E0425]: cannot find value",
        None,
        true,
    );
    assert!(
        sigs.iter()
            .any(|s| matches!(s.kind, SignalKind::CompileError))
    );
    assert!(sigs.iter().any(|s| s.matched_pattern.is_some()));
}

#[test]
fn collector_tests_command_test_failure_is_a_diagnostic_signal() {
    let mut collector = SignalCollector::new();
    let signals = collector.collect(
        "Bash",
        ToolStatus::Failed(ToolFailureKind::ProcessFailed),
        "FAILED tests/runtime.rs::recovers_after_failure",
        Some(1),
        true,
    );
    assert!(
        signals
            .iter()
            .any(|signal| matches!(signal.kind, SignalKind::TestFailure))
    );
}

#[test]
fn collector_tests_clean_output_no_signals() {
    let mut c = SignalCollector::new();
    let sigs = c.collect(
        "Read",
        ToolStatus::Succeeded,
        "everything is fine",
        None,
        false,
    );
    assert!(sigs.is_empty());
}

#[test]
fn collector_tests_content_tool_output_with_timeout_keyword_does_not_emit_pattern_signal() {
    let mut c = SignalCollector::new();
    let sigs = c.collect(
        "Read",
        ToolStatus::Succeeded,
        "209:        let _ = tokio::time::timeout(std::time::Duration::from_secs(5), self)",
        None,
        false,
    );
    assert!(
        !sigs.iter().any(|s| matches!(s.kind, SignalKind::ToolError)),
        "Read output is file content; 'timeout' must not produce a ToolError signal"
    );
}

#[test]
fn collector_tests_command_tool_output_with_timeout_keyword_emits_pattern_signal() {
    let mut c = SignalCollector::new();
    let sigs = c.collect(
        "Bash",
        ToolStatus::Succeeded,
        "Timed out after 60s",
        None,
        true,
    );
    assert!(
        sigs.iter().any(|s| matches!(s.kind, SignalKind::ToolError)),
        "Bash diagnostics containing 'Timed out' must produce a ToolError signal"
    );
}

#[test]
fn collector_tests_content_tool_output_with_compile_error_keyword_does_not_emit_pattern_signal() {
    let mut c = SignalCollector::new();
    let sigs = c.collect(
        "Read",
        ToolStatus::Succeeded,
        "\"error[E0425]: cannot find value\" // test fixture string",
        None,
        false,
    );
    assert!(
        !sigs
            .iter()
            .any(|s| matches!(s.kind, SignalKind::CompileError)),
        "Read output is file content; 'error[E0425]' must not produce a CompileError signal"
    );
}

#[test]
fn collector_tests_detects_edit_loop_excessive_edits() {
    let mut c = SignalCollector::new();
    for _ in 0..5 {
        c.call_history.push("Edit".into());
    }
    c.call_history.push("Read".into());
    let sigs = c.collect("Edit", ToolStatus::Succeeded, "ok", None, false);
    assert!(sigs.iter().any(|s| matches!(s.kind, SignalKind::EditLoop)));
}

#[test]
fn collector_tests_detects_tool_failed_via_exit_code() {
    let mut c = SignalCollector::new();
    let sigs = c.collect(
        "Bash",
        ToolStatus::Failed(ToolFailureKind::ProcessFailed),
        "output",
        Some(1),
        false,
    );
    assert!(
        sigs.iter()
            .any(|s| matches!(s.kind, SignalKind::ToolFailed))
    );
}

#[test]
fn collector_tests_display_error_prefix_does_not_define_status() {
    let mut c = SignalCollector::new();
    let sigs = c.collect(
        "Read",
        ToolStatus::Succeeded,
        "Error: file not found",
        None,
        false,
    );
    assert!(sigs.is_empty());
}

#[test]
fn collector_tests_detects_safety_blocked() {
    let mut c = SignalCollector::new();
    let sigs = c.collect(
        "Bash",
        ToolStatus::Failed(ToolFailureKind::SafetyBlocked),
        "command blocked by bash safety policy (sudo)",
        None,
        false,
    );
    assert!(
        sigs.iter()
            .any(|s| matches!(s.kind, SignalKind::SafetyBlocked))
    );
}

#[test]
fn collector_tests_recovery_guard_preserves_non_extreme_failure_weight() {
    let mut collector = SignalCollector::new();
    let signals = collector.collect(
        "Edit",
        ToolStatus::Blocked(ToolBlocker::RecoveryGuard),
        "recovery guard blocked Edit",
        None,
        false,
    );

    assert_eq!(signals.len(), 1);
    assert_eq!(f64::from(signals[0].severity_percent) / 100.0, 0.9);
    assert!(matches!(signals[0].kind, SignalKind::ToolFailed));
}

#[test]
fn collector_tests_exit_code_zero_does_not_fail() {
    let mut c = SignalCollector::new();
    let sigs = c.collect("Bash", ToolStatus::Succeeded, "ok", Some(0), false);
    assert!(
        !sigs
            .iter()
            .any(|s| matches!(s.kind, SignalKind::ToolFailed))
    );
}

fn args(pairs: &[(&str, &str)]) -> ToolArgs {
    let mut args = ToolArgs::new();
    for (name, value) in pairs {
        args = args.with(name, value);
    }
    args
}

#[test]
fn detects_consecutive_repeats() {
    let mut t = EvidenceTracker::new(8, 4);
    for _ in 0..3 {
        t.record(
            "Grep",
            &args(&[("pattern", "fn load")]),
            "",
            false,
            false,
            vec![],
        );
    }
    t.record("Read", &args(&[("path", "a.rs")]), "", false, false, vec![]);
    let batch = t.render(4_000, "0.75");
    assert!(batch.text.contains("repeated 3 consecutive times"));
}

#[test]
fn failure_cluster_survives_budget() {
    let mut t = EvidenceTracker::new(8, 4);
    t.record(
        "Bash",
        &args(&[("command", "cargo test")]),
        "ProcessFailed",
        true,
        true,
        vec![],
    );
    t.record(
        "Bash",
        &args(&[("command", "cargo test")]),
        "ProcessFailed",
        true,
        true,
        vec![],
    );
    let batch = t.render(200, "0.40");
    assert!(batch.text.contains("[detector]"));
    assert!(batch.text.chars().count() <= 220);
}

#[test]
fn freshness_dedup() {
    let mut t = EvidenceTracker::new(8, 2);
    let batch = t.render(4_000, "0.50");
    let hash = batch.hash;
    assert!(t.is_fresh(hash));
    t.mark_injected(hash);
    assert!(!t.is_fresh(hash));
}

#[test]
fn edited_paths_deduped_in_order() {
    let mut t = EvidenceTracker::new(8, 2);
    t.record(
        "Edit",
        &args(&[("path", "a.rs")]),
        "",
        false,
        false,
        vec!["a.rs".into()],
    );
    t.record(
        "Edit",
        &args(&[("path", "a.rs")]),
        "StaleTag",
        true,
        true,
        vec!["a.rs".into()],
    );
    t.record(
        "Edit",
        &args(&[("path", "b.rs")]),
        "",
        false,
        false,
        vec!["b.rs".into()],
    );
    assert_eq!(t.edited_paths, vec!["a.rs", "b.rs"]);
}

#[test]
fn clean_records_do_not_count_as_soft_failures() {
    // Calls that succeed are not counted as failures.
    let mut t = EvidenceTracker::new(8, 2);
    t.record("Read", &args(&[("path", "a.rs")]), "", false, false, vec![]);
    t.record(
        "Bash",
        &args(&[("command", "echo ok")]),
        "",
        false,
        false,
        vec![],
    );
    assert_eq!(t.soft_failures, 0);
    assert_eq!(t.hard_failures, 0);
    t.record(
        "Bash",
        &args(&[("command", "x")]),
        "ToolError",
        false,
        true,
        vec![],
    );
    assert_eq!(t.soft_failures, 1);
    t.record(
        "Bash",
        &args(&[("command", "false")]),
        "ProcessFailed",
        true,
        true,
        vec![],
    );
    assert_eq!(t.hard_failures, 1);
    assert_eq!(t.soft_failures, 1);
}

#[test]
fn allows_if_below_threshold() {
    let mut sb = StormBreaker::new(6, 3);
    assert!(matches!(
        sb.check("Read", r#"{"path":"/tmp/x"}"#, false),
        StormDecision::Allow
    ));
    assert!(matches!(
        sb.check("Read", r#"{"path":"/tmp/x"}"#, false),
        StormDecision::Allow
    ));
}

#[test]
fn suppresses_after_threshold() {
    // The first `threshold` identical calls are allowed so graded tool
    // feedback (Edit soft no-op escalation) can complete; suppression
    // starts from the threshold+1-th identical call.
    let mut sb = StormBreaker::new(6, 3);
    for i in 0..3 {
        assert!(
            matches!(
                sb.check("Bash", r#"{"command":"ls"}"#, false),
                StormDecision::Allow
            ),
            "call {} should be allowed",
            i + 1
        );
    }
    assert!(matches!(
        sb.check("Bash", r#"{"command":"ls"}"#, false),
        StormDecision::Suppress(_)
    ));
}

#[test]
fn mutating_calls_share_window_and_suppress() {
    // Repeated identical mutating calls are exactly the edit-loop storm the
    // breaker exists to stop; they must count toward the threshold instead
    // of being permanently immunized by a window clear.
    let mut sb = StormBreaker::new(6, 3);
    for _ in 0..3 {
        assert!(matches!(
            sb.check("Write", r#"{"path":"/x","content":"hi"}"#, true),
            StormDecision::Allow
        ));
    }
    assert!(matches!(
        sb.check("Write", r#"{"path":"/x","content":"hi"}"#, true),
        StormDecision::Suppress(_)
    ));
}

#[test]
fn mutating_call_resets_non_mutating_history_only() {
    let mut sb = StormBreaker::new(6, 3);
    sb.check("Read", r#"{"path":"/x"}"#, false);
    sb.check("Read", r#"{"path":"/x"}"#, false);
    sb.check("Write", r#"{"path":"/x","content":"hi"}"#, true);

    // The Read count restarts after the mutation.
    assert!(matches!(
        sb.check("Read", r#"{"path":"/x"}"#, false),
        StormDecision::Allow
    ));
    assert!(matches!(
        sb.check("Read", r#"{"path":"/x"}"#, false),
        StormDecision::Allow
    ));

    // A legitimate read-edit-read loop never suppresses the same Read.
    for _ in 0..8 {
        sb.check("Read", r#"{"path":"/x"}"#, false);
        sb.check("Write", r#"{"path":"/x","content":"new"}"#, true);
    }
    assert!(matches!(
        sb.check("Read", r#"{"path":"/x"}"#, false),
        StormDecision::Allow
    ));
}

#[test]
fn different_mutating_arguments_do_not_cross_count() {
    let mut sb = StormBreaker::new(6, 3);
    for _ in 0..3 {
        assert!(matches!(
            sb.check("Write", r#"{"path":"/x","content":"a"}"#, true),
            StormDecision::Allow
        ));
        assert!(matches!(
            sb.check("Write", r#"{"path":"/x","content":"b"}"#, true),
            StormDecision::Allow
        ));
    }
}

#[test]
fn window_slides_old_entries_out() {
    let mut sb = StormBreaker::new(3, 3);
    sb.check("Bash", "a", false);
    sb.check("Bash", "b", false);
    sb.check("Bash", "c", false);
    // "a" should be evicted, so only 2 of "Bash/a"
    let d = sb.check("Bash", "a", false);
    assert!(matches!(d, StormDecision::Allow));
}

#[test]
fn reset_clears_window() {
    let mut sb = StormBreaker::new(3, 3);
    sb.check("Read", "a", false);
    sb.check("Read", "a", false);
    sb.reset();
    let d = sb.check("Read", "a", false);
    assert!(matches!(d, StormDecision::Allow));
}

#[test]
fn history_holds_no_more_than_the_window() {
    let mut collector = SignalCollector::new();
    for _ in 0..20 {
        collector.collect("Read", ToolStatus::Succeeded, "ok", None, false);
    }
    assert_eq!(collector.call_history.len(), SEQ_WINDOW);
}

#[test]
fn patterns_decide_by_what_they_match() {
    let patterns = compiled_patterns();
    let mut flags = vec![false; patterns.len()];
    assert!(signal_of_flags("Bash", &patterns, &flags).is_none());
    flags[0] = true;
    let signal = signal_of_flags("Bash", &patterns, &flags).unwrap();
    assert_eq!(signal.severity_percent, patterns[0].severity_percent);
    assert_eq!(signal.matched_pattern.as_deref(), Some(patterns[0].pattern));
}

#[test]
fn suppressed_call_says_why() {
    let mut breaker = StormBreaker::new(6, 1);
    assert!(matches!(breaker.check("Bash", "a", false), StormDecision::Allow));
    match breaker.check("Bash", "a", false) {
        StormDecision::Allow => panic!("the second call repeats the first"),
        StormDecision::Suppress(message) => assert!(message.contains("Bash"), "{message}"),
    }
}

#[test]
fn records_show_canonical_arguments() {
    let mut tracker = EvidenceTracker::new(8, 4);
    tracker.record(
        "Bash",
        &args(&[("zeta", "1"), ("alpha", "say \"hi\"")]),
        "",
        false,
        false,
        vec![],
    );
    assert_eq!(
        tracker.records[0].canonical_args,
        "{\"alpha\":\"say \\\"hi\\\"\",\"zeta\":\"1\"}"
    );
}

#[test]
fn records_are_forgotten_when_there_are_too_many() {
    let mut tracker = EvidenceTracker::new(2, 4);
    for path in ["a", "b", "c"] {
        tracker.record("Read", &args(&[("path", path)]), "", false, false, vec![]);
    }
    assert_eq!(tracker.records.len(), 2);
    assert_eq!(tracker.records[0].canonical_args, "{\"path\":\"b\"}");
}

#[test]
fn equal_evidence_has_an_equal_hash() {
    let tracker = EvidenceTracker::new(2, 4);
    assert_eq!(tracker.render(4_000, "0.50").hash, tracker.render(4_000, "0.50").hash);
    assert_ne!(tracker.render(4_000, "0.50").hash, tracker.render(4_000, "0.40").hash);
}

#[test]
fn paths_of_the_last_calls_are_told() {
    let mut tracker = EvidenceTracker::new(8, 4);
    for path in ["a", "b", "b"] {
        tracker.record("Edit", &args(&[("path", path)]), "", false, false, vec![path.into()]);
    }
    assert_eq!(tracker.edited_paths_since(2), vec!["b"]);
    assert_eq!(tracker.edited_paths_since(9), vec!["a", "b"]);
    tracker.reset();
    assert!(tracker.edited_paths_since(9).is_empty());
}

#[test]
fn signal_can_be_made_up() {
    let signal = Signal::synthetic(SignalKind::ToolFailed, 90, "Bash", "gone");
    assert_eq!(signal.severity_percent, 90);
    assert_eq!(signal.source_tool, "Bash");
    assert_eq!(signal.message, "gone");
    assert!(signal.kind.is_hard());
}

#[test]
fn evidence_stays_known_for_the_window() {
    let mut t = EvidenceTracker::new(8, 3);
    t.mark_injected(t.render(4_000, "0.50").hash);
    for other in [1, 2] {
        t.mark_injected(other);
        assert!(!t.is_fresh(t.render(4_000, "0.50").hash));
        assert!(t.is_fresh(t.render(4_000, "0.40").hash));
    }
    t.mark_injected(3);
    assert!(t.is_fresh(t.render(4_000, "0.50").hash));
}
