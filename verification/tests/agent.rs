use mink::agent::orchestrator::{
    compact_notices, turn_failure_notice, turn_notices, CompactOutcome, ModelChoice, Notice,
    TurnRunResult, TurnStatus,
};
use mink::agent::plan_actions::PlanActionHandler;
use mink::agent::recovery_policy::{
    CatalogEntry, RecoveryFirstCallDecision, RecoveryPolicy, ToolCatalog,
};
use mink::agent::sub_coordinator::{
    plan_launches, shutdown_grace_ms, CollectStep, IncompleteReason, Launch, RunFault,
    SubAgentCollector, SubAgentResult, SubAgentUsage,
};
use mink::agent::sub_executor::{
    last_assistant_output, sub_agent_output, sub_agent_report, sub_agent_timeout, timeout_message,
};
use mink::agent::text::truncate_str;
use mink::agent::tool_signals::{edited_paths, ToolSignalProcessor};
use mink::agent::turn::{TurnDecision, TurnEffect};
use mink::config::models::ModelResolver;
use mink::config::policy::SignalPolicy;
use mink::errors::{ErrorCategory, ErrorInfo, ErrorSeverity};
use mink::guard::collector::{Signal, SignalKind};
use mink::json::{Json, JsonField};
use mink::tool_args::ToolArgs;
use mink::tool_execution::ToolExecution;
use mink::tool_status::{PlanCommand, ToolFailureKind, ToolResultKind, ToolStatus};
use mink::tools::{
    ProviderTier, ResolvedToolCapabilities, ToolBinding, ToolProvider, ToolSemanticCapability,
};

fn tool_result(content: &str) -> ToolExecution {
    ToolExecution {
        tool_use_id: "call".into(),
        tool_name: "Bash".into(),
        tool_args: ToolArgs::new(),
        content: content.into(),
        conv_content: String::new(),
        spawns_sub_agent: false,
        sub_agent_prompt: None,
        sub_agent_description: None,
        sub_agent_fork: false,
        exit_code: None,
        status: ToolStatus::Failed(ToolFailureKind::ProcessFailed),
        result_kind: ToolResultKind::Command,
        signals: vec![Signal {
            kind: SignalKind::ToolFailed,
            severity_percent: 100,
            source: "Bash".into(),
            detail: "old".into(),
            source_tool: "Bash".into(),
            exit_code: None,
            matched_pattern: None,
            message: "old".into(),
        }],
        plan_command: None,
        needs_finalization: false,
    }
}

#[test]
fn disabled_mode_clears_existing_signals() {
    let mut processor = ToolSignalProcessor::new();
    let mut result = tool_result("error[E0425]: cannot find value");
    processor.process_with_mode(&mut result, false);
    assert!(result.signals.is_empty());
}

#[test]
fn content_tool_failure_with_summary_header_still_produces_hard_signal() {
    let mut processor = ToolSignalProcessor::new();
    let mut result = ToolExecution {
        tool_name: "Read".into(),
        content: "Read(missing.txt)\nError: tool execution failed: Error: file not found or unreadable: missing.txt".into(),
        exit_code: None,
        status: ToolStatus::Failed(ToolFailureKind::Unknown),
        result_kind: ToolResultKind::FileRead,
        signals: Vec::new(),
        ..tool_result("unused")
    };
    let mut belief = mink::agent::belief::BeliefWindow::new(16);
    processor.process_with_mode(&mut result, true);
    belief.observe(&result.signals);
    assert!(
        result.signals.iter().any(|s| s.kind.is_hard()),
        "content-tool failure must produce a hard signal even behind the summary header"
    );
    assert!(belief.failure_sum > 25, "hard failure must drop belief below its prior");
}

#[test]
fn compile_error_increments_tool_error_count() {
    let mut processor = ToolSignalProcessor::default();
    let mut result = tool_result("error[E0425]: cannot find value");
    processor.process_with_mode(&mut result, true);
    assert_eq!(processor.tool_error_count(), 1);
    assert!(!processor.signals.is_empty());
}

#[test]
fn written_files_are_known() {
    let args = ToolArgs::new().with("path", "a.rs");
    assert_eq!(edited_paths("Write", &args), vec!["a.rs"]);
    assert!(edited_paths("Read", &args).is_empty());
}

fn policy(
    tool: &str,
    capability: ToolSemanticCapability,
    mutating: bool,
) -> RecoveryPolicy {
    let resolved = ResolvedToolCapabilities::new().with(
        capability,
        ToolBinding {
            primary: ToolProvider { tool: tool.into(), tier: ProviderTier::Specialized },
            alternatives: vec![],
        },
    );
    let catalog = ToolCatalog {
        entries: vec![CatalogEntry { name: tool.into(), compiled: true, mutating }],
    };
    RecoveryPolicy::from_resolved(&resolved, &catalog)
}

#[test]
fn no_inspection_surface_blocks_every_tool_call_without_references() {
    let policy = policy("Write", ToolSemanticCapability::FileOverwrite, true);
    assert!(policy.inspection_actions.is_empty());
    match policy.classify_first_call(&vec![]) {
        RecoveryFirstCallDecision::Allowed => panic!("write cannot inspect state"),
        RecoveryFirstCallDecision::Blocked(guidance) => {
            assert!(guidance.referenced_tools.is_empty());
            assert!(guidance.content.contains("no active inspection provider"));
        }
    }
}

#[test]
fn inspection_that_is_made_first_is_allowed() {
    let policy = policy("Read", ToolSemanticCapability::PathRead, false);
    assert_eq!(policy.inspection_actions.len(), 1);
    assert!(matches!(
        policy.classify_first_call(&vec![true]),
        RecoveryFirstCallDecision::Allowed
    ));
    match policy.classify_first_call(&vec![false]) {
        RecoveryFirstCallDecision::Allowed => panic!("nothing was inspected"),
        RecoveryFirstCallDecision::Blocked(guidance) => {
            assert!(guidance.referenced_tools.contains("Read"));
            assert!(guidance.content.ends_with("Use one of: Read."), "{}", guidance.content);
        }
    }
}

#[test]
fn plan_command_has_its_effect_once() {
    let mut effects = Vec::new();
    let mut result = tool_result("");
    result.plan_command = Some(PlanCommand::Confirm);
    assert_eq!(
        PlanActionHandler.handle(&mut result, &mut effects),
        Some(PlanCommand::Confirm)
    );
    assert_eq!(effects, vec![TurnEffect::PlanConfirmed]);
    assert_eq!(PlanActionHandler.handle(&mut result, &mut effects), None);
    assert_eq!(effects.len(), 1);
}

fn asking(prompt: &str) -> ToolExecution {
    ToolExecution {
        spawns_sub_agent: true,
        sub_agent_prompt: Some(prompt.into()),
        status: ToolStatus::Succeeded,
        ..tool_result("")
    }
}

#[test]
fn sub_agents_are_launched_by_agents_alone() {
    let (results, launches) = plan_launches(vec![tool_result("x"), asking("go")], false);
    assert_eq!(launches.len(), 1);
    assert_eq!(launches[0].idx, 1);
    assert_eq!(launches[0].request.prompt, "go");
    assert!(results[1].sub_agent_prompt.is_none());

    let (results, launches) = plan_launches(vec![asking("go")], true);
    assert!(launches.is_empty());
    assert_eq!(results[0].status, ToolStatus::Failed(ToolFailureKind::SafetyBlocked));
    assert!(results[0].content.contains("recursion blocked"));
}

fn finished(status: &str) -> SubAgentResult {
    SubAgentResult {
        status: status.into(),
        thinking: "hmm".into(),
        text: "done".into(),
        usage: SubAgentUsage {
            agent_request_count: 1,
            total_input_tokens: 10,
            total_output_tokens: 20,
            total_cache_read_tokens: 0,
            total_cache_creation_tokens: 0,
        },
    }
}

fn collector(timeout: i32) -> SubAgentCollector {
    let (results, _) = plan_launches(vec![asking("a"), asking("b")], false);
    let launches = vec![
        Launch { idx: 0, session_id: "s0".into() },
        Launch { idx: 1, session_id: "s1".into() },
    ];
    SubAgentCollector::new(results, launches, timeout)
}

#[test]
fn results_of_sub_agents_are_collected() {
    let mut collector = collector(300);
    assert_eq!(collector.next_step(false, false), CollectStep::Wait);
    assert!(collector.on_result(0, "s0", &finished("ok")).failure.is_none());
    let notice = collector.on_result(1, "s1", &finished("failed"));
    assert_eq!(notice.failure.as_deref(), Some("[sub-agent s1] failed: hmm"));
    assert_eq!(collector.next_step(true, true), CollectStep::Done);
    let results = collector.into_results();
    assert_eq!(
        results[0].content,
        "[sub-agent s0] ok (in=10, out=20)\nThinking: hmm\nText: done"
    );
    assert_eq!(results[0].status, ToolStatus::Succeeded);
    assert_eq!(results[1].status, ToolStatus::Failed(ToolFailureKind::Unknown));
}

#[test]
fn sub_agents_that_take_too_long_are_given_up() {
    let mut collector = collector(7);
    collector.on_result(0, "s0", &finished("ok"));
    assert_eq!(
        collector.next_step(false, true),
        CollectStep::GiveUp(IncompleteReason::TimedOut)
    );
    assert_eq!(collector.give_up(IncompleteReason::TimedOut), vec![1]);
    let results = collector.into_results();
    assert_eq!(results[0].status, ToolStatus::Succeeded);
    assert_eq!(results[1].content, "Sub-agent timed out after 7s.");
    assert_eq!(results[1].status, ToolStatus::Failed(ToolFailureKind::Timeout));
}

#[test]
fn cancelled_sub_agents_are_interrupted() {
    let mut collector = collector(-1);
    assert_eq!(collector.timeout_secs, 0);
    assert_eq!(
        collector.next_step(true, true),
        CollectStep::GiveUp(IncompleteReason::Cancelled)
    );
    assert_eq!(collector.give_up(IncompleteReason::Cancelled), vec![0, 1]);
    let results = collector.into_results();
    assert_eq!(results[0].status, ToolStatus::Interrupted);
    assert_eq!(shutdown_grace_ms(0), 0);
    assert_eq!(shutdown_grace_ms(10), 250);
}

#[test]
fn text_is_cut_between_characters() {
    assert_eq!(truncate_str("hello", 10), "hello");
    assert!(truncate_str("hello", 3).starts_with("hel"));
    assert!(truncate_str("ééé", 3).starts_with('é'));
    assert!(!truncate_str("ééé", 3).starts_with("éé"));
    assert_eq!(truncate_str("hello", 3), "hel");
    assert_eq!(truncate_str("hello", 0), "");
    assert_eq!(truncate_str("aé", 2), "a");
    assert!(truncate_str("ééé", 3).len() <= 3);
}

fn field(name: &str, value: Json) -> JsonField {
    JsonField { name: name.into(), value }
}

fn text(value: &str) -> Json {
    Json::Text(value.into())
}

fn message(role: &str, blocks: Vec<(&str, &str)>) -> Json {
    let content = blocks
        .into_iter()
        .map(|(kind, said)| {
            Json::Object(vec![field("type", text(kind)), field(kind, text(said))])
        })
        .collect();
    Json::Object(vec![field("role", text(role)), field("content", Json::Array(content))])
}

#[test]
fn sub_agent_hands_back_its_last_words() {
    let messages = vec![
        message("assistant", vec![("text", "first")]),
        message("user", vec![("text", "more")]),
        message("assistant", vec![("thinking", ""), ("thinking", "why"), ("text", "last"), ("text", "x")]),
        message("user", vec![("text", "after")]),
    ];
    assert_eq!(
        last_assistant_output(&messages),
        ("why".to_string(), "last".to_string())
    );
    assert_eq!(
        sub_agent_output(&TurnDecision::Stop, &messages),
        Ok(("why".to_string(), "last".to_string()))
    );
    assert_eq!(
        sub_agent_output(&TurnDecision::Interrupted, &messages),
        Ok((String::new(), "Sub-agent interrupted.".to_string()))
    );
    assert_eq!(
        sub_agent_output(&TurnDecision::MaxTurnsExceeded, &messages),
        Err("sub-agent max_turns exhausted before end_turn".to_string())
    );
    assert_eq!(
        sub_agent_output(&TurnDecision::Failed("no".into()), &messages),
        Err("no".to_string())
    );
}

#[test]
fn what_was_shown_stands_in() {
    let report = sub_agent_report(Ok((String::new(), "t".into())), "shown".into(), "s".into());
    assert_eq!((report.status.as_str(), report.thinking.as_str(), report.text.as_str()), ("ok", "shown", "t"));
    let report = sub_agent_report(Err("e".into()), "shown".into(), String::new());
    assert_eq!(report.status, "failed");
    assert_eq!(report.text, "Sub-agent failed: e");
    let report = sub_agent_report(Err("e".into()), String::new(), "partial".into());
    assert_eq!(report.text, "partial");
    assert_eq!(sub_agent_timeout(-4), 1);
    assert_eq!(sub_agent_timeout(9), 9);
    assert_eq!(timeout_message(9), "Sub-agent timed out after 9s");
}

fn words(notices: &[Notice]) -> Vec<String> {
    notices
        .iter()
        .map(|notice| match notice {
            Notice::Info(m) => format!("info:{m}"),
            Notice::Error(m) => format!("error:{m}"),
            Notice::Text(m) => format!("text:{m}"),
        })
        .collect()
}

#[test]
fn user_is_told_how_a_turn_ended() {
    let told = turn_notices(
        &vec![TurnEffect::PlanCleared, TurnEffect::PlanConfirmed],
        &TurnDecision::Failed("stop: max_tokens".into()),
    );
    assert_eq!(
        words(&told),
        vec!["info:Plan cleared.", "info:Plan confirmed.", "error:stop: max_tokens"]
    );
    assert!(turn_notices(&vec![], &TurnDecision::Failed("interrupted".into())).is_empty());
    assert!(turn_notices(&vec![], &TurnDecision::Stop).is_empty());
    assert_eq!(
        words(&turn_notices(&vec![], &TurnDecision::MaxTurnsExceeded)),
        vec!["error:max_turns exhausted before end_turn"]
    );
    let info = ErrorInfo::new(ErrorCategory::Network, ErrorSeverity::Warning, true);
    assert_eq!(
        words(&[turn_failure_notice(&info, "stream connection timeout")]),
        vec!["error:Turn execution error: stream connection timeout"]
    );
    let info = ErrorInfo::new(ErrorCategory::Internal, ErrorSeverity::Fatal, false);
    assert_eq!(words(&[turn_failure_notice(&info, "x")]), vec!["error:Fatal error: x"]);
}

#[test]
fn outcome_of_a_turn_is_recorded() {
    let result = TurnRunResult::from_decision(&TurnDecision::Interrupted, 2, 1).billed("turn-1");
    assert_eq!(result.status.as_str(), "interrupted");
    assert_eq!(result.error.as_deref(), Some("interrupted"));
    assert_eq!((result.tool_call_count, result.tool_error_count), (2, 1));
    assert_eq!(result.billing_turn_id, "turn-1");
    assert_eq!(TurnRunResult::ok(3, 0).status, TurnStatus::Completed);
    assert_eq!(TurnStatus::Completed.as_str(), "ok");
    assert_eq!(TurnStatus::MaxTurnsExceeded.as_str(), "max_turns_exceeded");
    assert_eq!(TurnRunResult::failed("x".into()).error.as_deref(), Some("x"));
    assert_eq!(
        TurnRunResult::unprepared("no key").error.as_deref(),
        Some("failed to prepare turn: no key")
    );
    assert_eq!(TurnRunResult::from_error("e".into(), 4, 2).tool_call_count, 4);
}

#[test]
fn user_is_told_what_compacting_did() {
    assert_eq!(
        words(&compact_notices(&CompactOutcome::Done(Some("  summary \n".into())))),
        vec!["text:summary", "text:\n"]
    );
    assert!(compact_notices(&CompactOutcome::Done(Some("  ".into()))).is_empty());
    assert!(compact_notices(&CompactOutcome::Done(None)).is_empty());
    assert_eq!(
        words(&compact_notices(&CompactOutcome::Skipped("empty".into()))),
        vec!["info:Compact skipped: empty"]
    );
    assert_eq!(
        words(&compact_notices(&CompactOutcome::Failed("e".into()))),
        vec!["error:Compact failed: e"]
    );
}

#[test]
fn user_switches_models() {
    let resolver = ModelResolver::new(&vec![]);
    let mut choice = ModelChoice::new();
    assert_eq!(choice.resolve_active(&resolver, "flash").actual, "deepseek-v4-flash");
    assert_eq!(words(&choice.switch("pro")), vec!["info:Switched to pro model."]);
    assert_eq!(choice.resolve_active(&resolver, "flash").actual, "deepseek-v4-pro");
    assert_eq!(words(&choice.switch("unknown")), vec!["info:Switched to unknown model."]);
    assert_eq!(choice.resolve_active(&resolver, "flash").actual, "unknown");
    let told = choice.switch("flash");
    assert_eq!(words(&told).last().unwrap(), "info:Switched to flash model.");
    assert_eq!(choice.resolve_active(&resolver, "pro").actual, "deepseek-v4-pro");
}

#[test]
fn sub_agent_that_did_not_run_says_why() {
    for (fault, status, text) in [
        (RunFault::NotAdmitted, "failed", "Sub-agent semaphore closed."),
        (RunFault::CancelledBefore, "cancelled", "Sub-agent cancelled before execution."),
        (RunFault::NotCreated("x".into()), "failed", "Failed to create sub-agent: x"),
        (RunFault::Panicked("y".into()), "failed", "Sub-agent task panicked: y"),
    ] {
        let result = SubAgentResult::of_fault(fault);
        assert_eq!(result.status, status);
        assert_eq!(result.text, text);
        assert_eq!(result.usage.agent_request_count, 0);
    }
    assert_eq!(
        IncompleteReason::TimedOut.notice(7).as_deref(),
        Some("Sub-agent batch timed out after 7s.")
    );
    assert_eq!(IncompleteReason::ChannelClosed.notice(7), None);
}

#[test]
fn call_that_says_nothing_is_settled() {
    let collector = SubAgentCollector::new(vec![asking("a")], vec![], 5);
    let results = collector.into_results();
    assert_eq!(results[0].content, "Sub-agent did not complete.");
    assert_eq!(results[0].status, ToolStatus::Failed(ToolFailureKind::Unknown));
}

#[test]
fn signals_are_counted_until_the_counters_are_full() {
    let mut processor = ToolSignalProcessor::new();
    assert!(processor.can_process());
    processor.process_with_mode(&mut tool_result("error[E0425]: x"), true);
    assert!(processor.hard_failures() > 0);
    processor.tool_error_count = u32::MAX;
    assert!(!processor.can_process());
    processor.reset();
    assert_eq!(processor.tool_error_count(), 0);
    assert_eq!(processor.hard_failures() + processor.soft_failures(), 0);
}

#[test]
fn signals_are_drawn_unless_the_policy_is_off() {
    let mut processor = ToolSignalProcessor::new();
    let mut off = tool_result("error[E0425]: x");
    processor.process(&mut off, SignalPolicy::Off);
    assert!(off.signals.is_empty());
    assert_eq!(processor.tool_error_count(), 0);
    assert_eq!(processor.hard_failures() + processor.soft_failures(), 0);
    let mut on = tool_result("error[E0425]: x");
    processor.process(&mut on, SignalPolicy::Evidence);
    assert!(on.signals.iter().all(|s| s.message != "old"));
    assert!(!on.signals.is_empty());
    assert_eq!(processor.tool_error_count(), 1);
}

#[test]
fn evidence_of_a_turn_is_kept_until_the_next() {
    let mut processor = ToolSignalProcessor::new();
    processor.evidence.mark_injected(7);
    for path in ["a.rs", "b.rs", "a.rs"] {
        let mut call = tool_result("written");
        call.tool_name = "Write".into();
        call.tool_args = ToolArgs::new().with("path", path);
        processor.process_with_mode(&mut call, true);
    }
    assert_eq!(processor.evidence.edited_paths, vec!["a.rs", "b.rs"]);
    assert_eq!(processor.evidence.records.len(), 3);
    assert_eq!(processor.evidence.max_records, 24);
    assert_eq!(processor.evidence.dedup_window, 6);
    assert!(!processor.evidence.is_fresh(7));
    processor.reset();
    assert!(processor.evidence.edited_paths.is_empty());
    assert!(processor.evidence.records.is_empty());
    assert!(processor.evidence.is_fresh(7));
    assert_eq!(processor.evidence.max_records, 24);
    assert_eq!(processor.evidence.dedup_window, 6);
}
