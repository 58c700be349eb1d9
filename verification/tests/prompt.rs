use mink::agent::prefix::{
    prefab_prefix_from_session, prefab_prefix_from_text, ImmutablePrefix, PrefixManager,
    PrefixSource,
};
use mink::capabilities::context_files::build_default_context_file_snapshot;
use mink::capabilities::providers::{build_default_skill_snapshot, SkillListings};
use mink::capabilities::rules::build_default_rule_snapshot;
use mink::capabilities::skills::LoadContext;
use mink::events::entry::EventLog;
use mink::hash::digest_text;
use mink::json::{Json, JsonField};
use mink::json_parse::parse_json;
use mink::prompt::builder::{BuildFault, Builder};
use mink::prompt::document::{
    escape_attr, PromptDocument, PromptSection, PromptSectionOrigin, SectionFault,
};
use mink::prompt::facts::{FactSet, PromptFact};
use mink::prompt::mission::{apply, level_one_sections};
use mink::prompt::modules::reserved_section_ids;
use mink::prompt::render::PromptTemplates;
use mink::prompt::requirement::WorkflowRequirement;
use mink::prompt::sections::{append_core_sections, PromptEnvironment};
use mink::prompt::workflows::{
    PromptWorkflowResolver, PromptWorkflowSpec, WorkflowFault, WorkflowRender,
};
use mink::sets::NameSet;
use mink::tools::{
    ModelToolSurface, ProviderTier, ResolvedToolCapabilities, ToolBinding, ToolProvider,
    ToolSemanticCapability,
};

fn provided_by(tool: &str) -> ToolBinding {
    ToolBinding {
        primary: ToolProvider { tool: tool.into(), tier: ProviderTier::Specialized },
        alternatives: vec![],
    }
}

fn plan_tools() -> ResolvedToolCapabilities {
    ResolvedToolCapabilities::new()
        .with(ToolSemanticCapability::PlanDraft, provided_by("PlanDraft"))
        .with(ToolSemanticCapability::PlanConfirm, provided_by("PlanConfirm"))
        .with(ToolSemanticCapability::PlanClear, provided_by("PlanClear"))
}

fn ids(tools: &ResolvedToolCapabilities) -> Vec<String> {
    let resolver = PromptWorkflowResolver::builtin();
    let resolved = resolver.resolve(tools).unwrap();
    resolved.ordered().iter().map(|spec| spec.id.clone()).collect()
}

#[test]
fn workflows_follow_the_tools() {
    assert!(ids(&ResolvedToolCapabilities::new()).is_empty());
    assert_eq!(ids(&plan_tools()), vec!["plan-lifecycle"]);
    let without_clear = ResolvedToolCapabilities::new()
        .with(ToolSemanticCapability::PlanDraft, provided_by("PlanDraft"))
        .with(ToolSemanticCapability::PlanConfirm, provided_by("PlanConfirm"));
    assert!(ids(&without_clear).is_empty());
}

#[test]
fn fingerprint_is_that_of_workflows_and_facts() {
    let resolver = PromptWorkflowResolver::builtin();
    let none = ResolvedToolCapabilities::new();
    let resolved = resolver.resolve(&none).unwrap();
    assert_eq!(resolved.fingerprint(), digest_text("mink-prompt-workflows-v1\u{0}"));
}

#[test]
fn digest_is_sha256() {
    assert_eq!(
        digest_text("abc"),
        "ba7816bf8f01cfea414140de5dae2223b00361a396177a9cb410ff61f20015ad"
    );
}

fn workflow(id: &str, needs: PromptFact) -> PromptWorkflowSpec {
    PromptWorkflowSpec {
        id: id.into(),
        tag: id.into(),
        requirement: WorkflowRequirement::Fact(needs),
        exclusive_group: None,
        priority: 0,
        render: WorkflowRender::PlanLifecycle,
    }
}

fn resolve(specs: Vec<PromptWorkflowSpec>) -> Result<Vec<String>, WorkflowFault> {
    let resolver = PromptWorkflowResolver { specs };
    match resolver.resolve(&plan_tools()) {
        Ok(resolved) => Ok(resolved.ordered().iter().map(|spec| spec.id.clone()).collect()),
        Err(fault) => Err(fault),
    }
}

fn draft() -> PromptFact {
    PromptFact::ToolCapability(ToolSemanticCapability::PlanDraft)
}

#[test]
fn workflow_may_need_another() {
    let chosen = resolve(vec![
        workflow("b", PromptFact::Workflow("a".into())),
        workflow("a", draft()),
        workflow("c", PromptFact::ToolCapability(ToolSemanticCapability::ShellExec)),
    ])
    .unwrap();
    assert_eq!(chosen, vec!["b", "a"]);
}

#[test]
fn one_workflow_of_a_group_applies() {
    let grouped = |id: &str, priority: u16| PromptWorkflowSpec {
        exclusive_group: Some("g".into()),
        priority,
        ..workflow(id, draft())
    };
    assert_eq!(resolve(vec![grouped("low", 1), grouped("high", 2)]).unwrap().len(), 1);
}

#[test]
fn workflows_that_make_no_sense_are_refused() {
    assert!(matches!(
        resolve(vec![workflow("a", draft()), workflow("a", draft())]),
        Err(WorkflowFault::DuplicateId(id)) if id == "a"
    ));
    let mut same_tag = workflow("b", draft());
    same_tag.tag = "a".into();
    assert!(matches!(
        resolve(vec![workflow("a", draft()), same_tag]),
        Err(WorkflowFault::DuplicateTag(_))
    ));
    let mut empty = workflow("a", draft());
    empty.requirement = WorkflowRequirement::All(vec![]);
    assert!(matches!(resolve(vec![empty]), Err(WorkflowFault::EmptyRequirement)));
    let mut incomplete = workflow("a", draft());
    incomplete.requirement =
        WorkflowRequirement::AllWithAny { all: vec![draft()], any: vec![] };
    assert!(matches!(resolve(vec![incomplete]), Err(WorkflowFault::IncompleteRequirement)));
    assert!(matches!(
        resolve(vec![workflow("a", PromptFact::Workflow("x".into()))]),
        Err(WorkflowFault::UnknownUpstream(_))
    ));
    assert!(matches!(
        resolve(vec![workflow("a", PromptFact::Workflow("a".into()))]),
        Err(WorkflowFault::SelfDependency(_))
    ));
    assert!(matches!(
        resolve(vec![
            workflow("a", PromptFact::Workflow("b".into())),
            workflow("b", PromptFact::Workflow("a".into())),
        ]),
        Err(WorkflowFault::Cycle(_))
    ));
}

#[test]
fn facts_are_written_down() {
    assert_eq!(PromptFact::Workflow("a\"b".into()).written(), "Workflow(\"a\\\"b\")");
}

fn section(id: &str, origin: PromptSectionOrigin) -> PromptSection {
    PromptSection {
        id: id.into(),
        tag: id.into(),
        origin,
        content: "text".into(),
        name: None,
        referenced_tools: NameSet::new(),
        consumed_facts: FactSet::new(),
    }
}

#[test]
fn sections_have_ids_of_their_own() {
    let mut document = PromptDocument::new();
    assert!(document.push(section("a", PromptSectionOrigin::Core)).is_ok());
    assert!(document.push(section("b", PromptSectionOrigin::External)).is_ok());
    match document.push(section("a", PromptSectionOrigin::External)) {
        Err(SectionFault::DuplicateId(id)) => assert_eq!(id, "a"),
        other => panic!("{}", other.is_ok()),
    }
    assert!(document.move_to_end("a").is_ok());
    assert_eq!(document.sections()[1].id, "a");
    assert!(matches!(
        document.move_to_end("x"),
        Err(SectionFault::MissingSection(_))
    ));
    assert!(document.has_section("b"));
}

#[test]
fn sections_before_a_refused_one_stay() {
    let mut document = PromptDocument::new();
    assert!(document.push(section("environment", PromptSectionOrigin::Core)).is_ok());
    let env = PromptEnvironment {
        lc_all: None,
        lc_messages: None,
        lang: None,
        cwd: "/w".into(),
        home: "/h".into(),
        platform: "linux".into(),
        shell: None,
    };
    let surface = ModelToolSurface { names: vec![] };
    match append_core_sections(&mut document, &env, false, &surface) {
        Err(SectionFault::DuplicateId(id)) => assert_eq!(id, "environment"),
        other => panic!("{}", other.is_ok()),
    }
    let ids: Vec<&str> = document.sections().iter().map(|s| s.id.as_str()).collect();
    assert_eq!(ids, vec!["environment", "system-conventions", "agent-identity"]);
}

#[test]
fn attributes_are_escaped() {
    assert_eq!(escape_attr("a&b<c>\"d"), "a&amp;b&lt;c&gt;&quot;d");
}

#[test]
fn mission_overrides_the_core() {
    assert_eq!(
        level_one_sections("# role\nbe kind\n# extra\nmore"),
        vec![
            ("role".to_string(), "be kind".to_string()),
            ("extra".to_string(), "more".to_string())
        ]
    );
    let mut document = PromptDocument::new();
    document.push(section("agent-identity", PromptSectionOrigin::Core)).unwrap_or_else(|_| panic!());
    let mission = "# agent-identity\nbe kind\n# extra\nmore";
    apply(&mut document, mission, &reserved_section_ids()).unwrap_or_else(|_| panic!());
    assert_eq!(document.sections().len(), 2);
    assert_eq!(document.sections()[1].id, "mission:extra");
    assert_eq!(document.sections()[0].content, "be kind");
    assert_eq!(document.sections()[0].origin, PromptSectionOrigin::ExternalOverride);
}

fn templates() -> PromptTemplates {
    PromptTemplates {
        search_then_inspect: "search".into(),
        anchored_edit: "edit".into(),
        specialized_provider_routing: "route".into(),
        specialized_mutation_routing: "mutate".into(),
        python_execution_routing: "python".into(),
        plan_lifecycle: "plan".into(),
        sub_agent: "sub".into(),
        todo_write: "todo".into(),
    }
}

fn builder() -> Builder {
    let context = LoadContext { cwd: "/w", home: "/h", assistant: "helper" };
    let listings = SkillListings {
        project_shared: vec![],
        project_local: vec![],
        user_shared: vec![],
        embedded: vec![],
    };
    Builder {
        env: PromptEnvironment {
            lc_all: None,
            lc_messages: None,
            lang: Some("de_DE.UTF-8".into()),
            cwd: "/w".into(),
            home: "/h".into(),
            platform: "linux".into(),
            shell: Some("/bin/sh".into()),
        },
        skill_snapshot: build_default_skill_snapshot(&context, listings, &vec![]).unwrap(),
        context_file_snapshot: build_default_context_file_snapshot("/w", "/h", None, None)
            .unwrap(),
        rule_snapshot: build_default_rule_snapshot("/w", "/h", "s", "s").unwrap(),
        mission_content: None,
        tool_surface: ModelToolSurface {
            names: vec!["PlanDraft".into(), "PlanConfirm".into(), "PlanClear".into()],
        },
        tool_capabilities: plan_tools(),
        templates: templates(),
        signals: true,
    }
}

#[test]
fn prompt_of_a_session_ends_with_the_language() {
    let document = builder().build_document().unwrap_or_else(|_| panic!());
    let sections = document.sections();
    assert_eq!(sections.last().unwrap().id, "output-language");
    assert!(document.has_section("plan-lifecycle"));
    let text = builder().build_system_prompt().unwrap_or_else(|_| panic!());
    assert!(text.contains("de_DE"), "{text}");
    assert_eq!(builder().env.locale(), "de_DE");
}

#[test]
fn mission_with_a_reserved_section_is_refused() {
    let mut builder = builder();
    builder.mission_content = Some("# plan-lifecycle\nmine".into());
    match builder.build_system_prompt() {
        Err(BuildFault::Section(SectionFault::Reserved(id))) => assert_eq!(id, "plan-lifecycle"),
        Err(other) => panic!("{}", other.message()),
        Ok(_) => panic!("the section is reserved"),
    }
}

#[test]
fn workflow_must_name_active_tools() {
    let mut builder = builder();
    builder.tool_surface = ModelToolSurface { names: vec!["PlanDraft".into()] };
    assert!(matches!(builder.build_system_prompt(), Err(BuildFault::Pack(_))));
}

fn source() -> PrefixSource {
    PrefixSource {
        builder: builder(),
        tools_json: vec![Json::Object(vec![JsonField {
            name: "name".into(),
            value: Json::Text("PlanDraft".into()),
        }])],
        capability_fingerprint: "c".into(),
        surface_fingerprint: "s".into(),
        tool_fingerprint: "t".into(),
    }
}

fn texts(items: &[Json]) -> Vec<String> {
    items.iter().map(|item| item.to_text()).collect()
}

#[test]
fn ensure_reuses_valid_cached_prefix() {
    let mut manager = PrefixManager::new();
    let first = manager.ensure(&source()).unwrap_or_else(|_| panic!());
    let names: Vec<String> =
        first.tools_json.iter().map(|schema| schema.field_text("name")).collect();
    assert_eq!(names, vec!["PlanDraft"]);
    let cached_fingerprint = manager.cached.as_ref().unwrap().fingerprint.clone();

    let second = manager.ensure(&source()).unwrap_or_else(|_| panic!());

    assert_eq!(first.system_prompt, second.system_prompt);
    assert_eq!(texts(&first.tools_json), texts(&second.tools_json));
    assert_eq!(manager.cached.as_ref().unwrap().fingerprint, cached_fingerprint);
}

fn snapshots(events: &[EventLog]) -> Vec<Json> {
    events
        .iter()
        .map(|event| event.to_json())
        .filter(|event| event.field_is("type", "prefix_snapshot"))
        .collect()
}

#[test]
fn ensure_logs_prefix_snapshot_once_and_rebuild_replaces_it() {
    let mut manager = PrefixManager::new();
    let built = manager.ensure(&source()).unwrap_or_else(|_| panic!());
    let logged = snapshots(&built.events);
    assert_eq!(logged.len(), 1, "first build writes exactly one snapshot");
    let event = &logged[0];
    assert_eq!(event.get("version").unwrap().to_text(), "1");
    assert_eq!(
        event.field_text("fingerprint"),
        manager.cached.as_ref().unwrap().fingerprint
    );
    assert_eq!(event.field_text("system_prompt"), built.system_prompt);
    match event.get("tools_json") {
        Some(Json::Array(tools)) => assert_eq!(texts(tools), texts(&built.tools_json)),
        other => panic!("{other:?}"),
    }

    let again = manager.ensure(&source()).unwrap_or_else(|_| panic!());
    assert!(again.events.is_empty());

    manager.invalidate();
    let rebuilt = manager.ensure(&source()).unwrap_or_else(|_| panic!());
    let logged = snapshots(&rebuilt.events);
    assert_eq!(logged.len(), 1, "rebuild appends one more snapshot");
    assert_eq!(
        logged[0].field_text("fingerprint"),
        manager.cached.as_ref().unwrap().fingerprint
    );
}

#[test]
fn ensure_drops_corrupt_cached_prefix_and_rebuilds() {
    let mut manager = PrefixManager {
        cached: Some(ImmutablePrefix::new_with_fingerprint(
            "stale".into(),
            vec![Json::Object(vec![JsonField {
                name: "name".into(),
                value: Json::Text("Bash".into()),
            }])],
            String::new(),
            "bad-fingerprint".into(),
        )),
    };

    let built = manager.ensure(&source()).unwrap_or_else(|_| panic!());

    assert_ne!(built.system_prompt, "stale");
    assert!(!built.tools_json.is_empty());
    assert!(manager.cached.as_ref().unwrap().verify_fingerprint());
}

#[test]
fn recorded_session_gives_its_own_prefix() {
    let snapshot = |prompt: &str| {
        EventLog::PrefixSnapshot {
            version: Some(1),
            fingerprint: "f".into(),
            dependency_fingerprint: "d".into(),
            system_prompt: prompt.into(),
            tools_json: vec![Json::Null],
        }
        .to_json()
    };
    let events = vec![
        EventLog::Retry.to_json(),
        snapshot("a <system-conventions> b"),
        snapshot("mine"),
        snapshot("later"),
    ];
    let (prompt, tools) = prefab_prefix_from_session(&events).unwrap();
    assert_eq!(prompt, "mine");
    assert_eq!(tools.len(), 1);
    assert!(prefab_prefix_from_session(&vec![EventLog::Retry.to_json()]).is_none());
    let log: Vec<String> = events.iter().map(|event| event.to_text()).collect();
    let text = format!("no JSON\n{}\r\n\n{{\"type\":\n{}", log[0], log[1..].join("\n"));
    let (prompt, tools) = prefab_prefix_from_text(&text).unwrap();
    assert_eq!(prompt, "mine");
    assert_eq!(texts(&tools), vec!["null"]);
    assert!(prefab_prefix_from_text(&log[..2].join("\n")).is_none());
    assert!(prefab_prefix_from_text("").is_none());
}

#[test]
fn json_texts_are_parsed() {
    let parsed = parse_json(r#" {"b": [1, -2.5, null, true, "x\n"], "a": {"c": 1}, "b2": 1e2} "#);
    assert_eq!(
        parsed.unwrap().to_text(),
        r#"{"a":{"c":1},"b":[1,-2.5,null,true,"x\n"],"b2":100.0}"#
    );
    assert!(parse_json("{").is_none());
    assert!(parse_json("").is_none());
    assert!(parse_json("1 2").is_none());
}

#[test]
fn generated_sections_are_those_of_the_runtime() {
    let document = builder().build_document().unwrap_or_else(|_| panic!());
    assert!(document.generated_sections().iter().any(|section| section.id == "plan-lifecycle"));
    assert!(
        document
            .generated_sections()
            .iter()
            .all(|section| section.origin != PromptSectionOrigin::External)
    );
    let resolver = PromptWorkflowResolver::builtin();
    let tools = plan_tools();
    let resolved = resolver.resolve(&tools).unwrap();
    assert!(resolved.has_fact(&draft()));
    assert!(resolved.has("plan-lifecycle"));
    assert!(!resolved.has_fact(&PromptFact::ToolCapability(ToolSemanticCapability::ShellExec)));
}
