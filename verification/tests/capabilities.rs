use mink::capabilities::context_files::{
    build_default_context_file_snapshot, find_instruction_file_in_dir, instruction_candidates,
    InstructionRead,
};
use mink::capabilities::frontmatter::extract_skill_summary;
use mink::capabilities::providers::{
    build_default_skill_snapshot, default_skill_providers, EmbeddedSkill, RuntimeSkill,
    RuntimeSkillProvider, SkillFile, SkillListings,
};
use mink::capabilities::rules::build_default_rule_snapshot;
use mink::capabilities::skills::{LoadContext, SkillFault, SkillProvider, SkillSnapshot};
use mink::capabilities::snapshot::{CapabilityFault, CapabilitySnapshot};
use mink::capabilities::source::{CapabilityExposure, SourceLevel};

const CWD: &str = "/tmp/root/workspace";
const HOME: &str = "/tmp/root/home";

fn context() -> LoadContext<'static> {
    LoadContext { cwd: CWD, home: HOME, assistant: "helper" }
}

fn skill(dir_name: &str, content: &str) -> SkillFile {
    SkillFile { dir_name: dir_name.into(), raw_content: content.into(), real_path: None }
}

fn embedded() -> Vec<EmbeddedSkill> {
    vec![EmbeddedSkill {
        name: "debugging".into(),
        description: "Find the cause first".into(),
        content: "built-in body".into(),
    }]
}

fn listings() -> SkillListings {
    SkillListings {
        project_shared: vec![],
        project_local: vec![],
        user_shared: vec![],
        embedded: embedded(),
    }
}

fn prefers_project_over_builtin() {
    let snapshot = build_default_skill_snapshot(
        &context(),
        SkillListings {
            project_shared: vec![skill(
                "debugging",
                "---\ndescription: \"Local debugging\"\n---\n\nlocal body",
            )],
            ..listings()
        },
        &vec![],
    )
    .unwrap();

    let loaded = snapshot.by_name.get("debugging").unwrap();
    assert_eq!(loaded.skill.description, "Local debugging");
    assert!(loaded.skill.content.contains("local body"));
    assert_eq!(loaded.source.level, SourceLevel::Project);
}

#[test]
fn skills_skill_snapshot_prefers_project_over_builtin() {
    prefers_project_over_builtin();
}

#[test]
fn skills_tests_skill_snapshot_prefers_project_over_builtin() {
    prefers_project_over_builtin();
}

#[test]
fn skill_shadow_warning_is_reported() {
    let snapshot = build_default_skill_snapshot(
        &context(),
        SkillListings {
            project_shared: vec![skill(
                "debugging",
                "---\ndescription: \"Local debugging\"\n---\n\nlocal body",
            )],
            ..listings()
        },
        &vec![],
    )
    .unwrap();

    let warning = snapshot
        .warnings
        .iter()
        .find(|warning| warning.message.contains("skill 'debugging'"))
        .expect("debugging shadow warning");
    assert_eq!(warning.provider_id, "built-in-skills");
    assert!(
        warning.message.contains("shadowed by .helper/skills"),
        "{}",
        warning.message
    );
}

fn addressable_hidden_from_index() {
    let snapshot = build_default_skill_snapshot(
        &context(),
        SkillListings {
            project_local: vec![skill(
                "hidden-review",
                "---\ndescription: \"Hidden review\"\nhide: true\n---\n\nbody",
            )],
            ..listings()
        },
        &vec![],
    )
    .unwrap();

    assert!(snapshot.by_name.contains_key("hidden-review"));
    assert!(
        !snapshot
            .discoverable
            .iter()
            .any(|skill| skill.skill.name == "hidden-review")
    );
}

#[test]
fn skills_skill_snapshot_model_addressable_hidden_from_index() {
    addressable_hidden_from_index();
}

#[test]
fn skills_tests_skill_snapshot_model_addressable_hidden_from_index() {
    addressable_hidden_from_index();
}

fn selected_addressable_enters_prompt() {
    let snapshot = build_default_skill_snapshot(
        &context(),
        SkillListings {
            project_local: vec![skill(
                "hidden-review",
                "---\ndescription: \"Hidden review\"\ndisable-model-invocation: true\n---\n\nbody",
            )],
            ..listings()
        },
        &vec!["hidden-review".to_string()],
    )
    .unwrap();

    assert_eq!(snapshot.selected.len(), 1);
    assert_eq!(snapshot.selected[0].info.name, "hidden-review");
}

#[test]
fn skills_selected_model_addressable_skill_enters_prompt() {
    selected_addressable_enters_prompt();
}

#[test]
fn skills_tests_selected_model_addressable_skill_enters_prompt() {
    selected_addressable_enters_prompt();
}

#[test]
fn selected_skill_rejects_whitespace_padding() {
    let err = build_default_skill_snapshot(
        &context(),
        SkillListings {
            project_local: vec![skill(
                "hidden-review",
                "---\ndescription: \"Hidden review\"\n---\n\nbody",
            )],
            ..listings()
        },
        &vec![" hidden-review".to_string()],
    )
    .unwrap_err()
    .message();

    assert!(err.contains("invalid selected skill name"), "{err}");
}

#[test]
fn runtime_skill_rejects_whitespace_padding() {
    let provider = RuntimeSkillProvider::from_runtime_skills(vec![RuntimeSkill::new(
        " runtime-guide",
        "Runtime guide",
        "body",
    )]);

    let err = provider.load_skills(&context()).unwrap_err();

    assert!(err.contains("invalid runtime skill name"), "{err}");
}

fn fingerprint_changes_with_content() {
    let first = build_default_skill_snapshot(
        &context(),
        SkillListings {
            project_local: vec![skill(
                "local-review",
                "---\ndescription: \"Local review\"\n---\n\nbody 1",
            )],
            ..listings()
        },
        &vec![],
    )
    .unwrap();
    let second = build_default_skill_snapshot(
        &context(),
        SkillListings {
            project_local: vec![skill(
                "local-review",
                "---\ndescription: \"Local review\"\n---\n\nbody 2",
            )],
            ..listings()
        },
        &vec![],
    )
    .unwrap();

    assert_ne!(first.dependency_fingerprint, second.dependency_fingerprint);
}

#[test]
fn skills_skill_snapshot_dependency_fingerprint_changes_on_content_change() {
    fingerprint_changes_with_content();
}

#[test]
fn skills_tests_skill_snapshot_dependency_fingerprint_changes_on_content_change() {
    fingerprint_changes_with_content();
}

#[test]
fn extract_skill_summary_from_frontmatter() {
    let content =
        "---\nname: test-skill\ndescription: \"Test skill description\"\n---\n\nSkill content";
    let summary = extract_skill_summary(content);
    assert_eq!(summary, "Test skill description");
}

#[test]
fn extract_skill_summary_without_frontmatter_returns_fallback() {
    let content = "No frontmatter here.\n\nSome content";
    let summary = extract_skill_summary(content);
    assert!(!summary.is_empty());
    assert!(summary.contains("No frontmatter here."));
}

#[test]
fn extract_skill_summary_falls_back_to_first_non_empty_line() {
    let content = "\n\n---\nname: test\n---\n\nActual content";
    let summary = extract_skill_summary(content);
    assert!(!summary.is_empty());
}

fn loads_builtin_rules() {
    let snapshot =
        build_default_rule_snapshot("/tmp/project", "/tmp/home", "session", "session").unwrap();

    assert!(snapshot.by_name.contains_key("default-agent-rules"));
    assert_eq!(snapshot.always_apply.len(), 1);
    assert_eq!(snapshot.discoverable.len(), 1);
}

#[test]
fn rules_rule_snapshot_loads_builtin_rules() {
    loads_builtin_rules();
}

#[test]
fn rules_tests_rule_snapshot_loads_builtin_rules() {
    loads_builtin_rules();
}

fn read(path: &str, content: &str) -> Option<InstructionRead> {
    Some(InstructionRead { path: path.into(), content: Ok(content.into()) })
}

#[test]
fn context_file_snapshot_loads_project_and_user_files() {
    let snapshot = build_default_context_file_snapshot(
        CWD,
        HOME,
        read("/tmp/root/home/.mink/AGENTS.md", "global instructions"),
        read("/tmp/root/workspace/AGENTS.md", "project instructions"),
    )
    .unwrap();

    assert_eq!(snapshot.always_apply.len(), 2);
    assert!(
        snapshot
            .always_apply
            .iter()
            .any(|file| file.context_file.name == "project")
    );
    assert!(
        snapshot
            .always_apply
            .iter()
            .any(|file| file.context_file.name == "global")
    );
    assert_eq!(snapshot.always_apply[0].context_file.name, "global");
    assert_eq!(snapshot.always_apply[1].context_file.name, "project");
}

#[test]
fn instruction_files_have_an_order() {
    let candidates = instruction_candidates("/p", "helper");
    assert_eq!(
        candidates,
        vec!["/p/AGENTS.md", "/p/AGENT.md", "/p/HELPER.md", "/p/.helper/HELPER.md"]
    );
    assert_eq!(
        find_instruction_file_in_dir("/p", "helper", &vec![false, true, true, false]),
        Some("/p/AGENT.md".to_string())
    );
    assert_eq!(
        find_instruction_file_in_dir("/p", "helper", &vec![false, false, false, false]),
        None
    );
}

#[test]
fn unreadable_instructions_are_an_error() {
    let result = build_default_context_file_snapshot(
        CWD,
        HOME,
        None,
        Some(InstructionRead { path: "/p/AGENTS.md".into(), content: Err("denied".into()) }),
    );
    assert!(result.unwrap_err().contains("denied"));
}

#[test]
fn selected_skill_must_exist() {
    match build_default_skill_snapshot(&context(), listings(), &vec!["missing".to_string()]) {
        Err(SkillFault::NotFound(name)) => assert_eq!(name, "missing"),
        other => panic!("{other:?}"),
    }
}

#[test]
fn skill_directory_is_put_into_the_text() {
    let snapshot = build_default_skill_snapshot(
        &context(),
        SkillListings {
            project_local: vec![skill("tools", "run ${MINK_SKILL_DIR}/x.sh")],
            ..listings()
        },
        &vec![],
    )
    .unwrap();
    let loaded = snapshot.by_name.get("tools").unwrap();
    assert_eq!(loaded.skill.content, "run /tmp/root/workspace/skills/tools/x.sh");
    assert_eq!(loaded.exposure, CapabilityExposure::ModelDiscoverable);
}

#[test]
fn directory_without_a_skill_name_is_passed_over() {
    let snapshot = build_default_skill_snapshot(
        &context(),
        SkillListings {
            project_local: vec![
                skill(".hidden", "text"),
                skill("a/b", "text"),
                skill(" padded", "text"),
                skill("kept", "text"),
            ],
            ..listings()
        },
        &vec![],
    )
    .unwrap();
    assert!(snapshot.by_name.get(".hidden").is_none());
    assert!(snapshot.by_name.get("a/b").is_none());
    assert!(snapshot.by_name.get(" padded").is_some());
    assert!(snapshot.by_name.get("kept").is_some());
}

struct FailingProvider;

impl SkillProvider for FailingProvider {
    fn id(&self) -> &str {
        "failing"
    }

    fn display_name(&self) -> &str {
        "failing"
    }

    fn priority(&self) -> i32 {
        1
    }

    fn load_skills(
        &self,
        _ctx: &LoadContext<'_>,
    ) -> Result<Vec<mink::capabilities::skills::LoadedSkill>, String> {
        Err("broken".into())
    }
}

#[test]
fn provider_that_fails_is_named() {
    let providers: Vec<Box<dyn SkillProvider>> = vec![Box::new(FailingProvider)];
    match SkillSnapshot::load(&providers, &context(), &vec![]) {
        Err(SkillFault::Provider { id, error }) => {
            assert_eq!(id, "failing");
            assert_eq!(error, "broken");
        }
        other => panic!("{other:?}"),
    }
}

#[test]
fn default_providers_give_the_default_snapshot() {
    let providers = default_skill_providers(listings(), "helper");
    let loaded = SkillSnapshot::load(&providers, &context(), &vec![]).unwrap();
    let built = build_default_skill_snapshot(&context(), listings(), &vec![]).unwrap();
    assert_eq!(loaded.dependency_fingerprint, built.dependency_fingerprint);
    assert_eq!(loaded.all.len(), 1);
    let ids: Vec<&str> = providers.iter().map(|provider| provider.id()).collect();
    assert_eq!(
        ids,
        vec![
            "runtime-skills",
            "project-helper-skills",
            "project-local-skills",
            "user-helper-skills",
            "built-in-skills"
        ]
    );
    let priorities: Vec<i32> = providers.iter().map(|provider| provider.priority()).collect();
    assert_eq!(priorities, vec![300, 220, 210, 120, 0]);
}

#[test]
fn loaded_skill_can_be_selected_by_any_bare_name() {
    let provider = RuntimeSkillProvider::from_runtime_skills(vec![RuntimeSkill::new(
        "guide",
        "A guide",
        "body",
    )]);
    let mut given = provider.load_skills(&context()).unwrap();
    given[0].skill.name = "team/guide".into();
    let providers = vec![RuntimeSkillProvider::new(given)];
    let snapshot =
        SkillSnapshot::load(&providers, &context(), &vec!["team/guide".to_string()]).unwrap();
    assert_eq!(snapshot.selected[0].info.name, "team/guide");
    for name in ["../guide", ".guide", ""] {
        match SkillSnapshot::load(&providers, &context(), &vec![name.to_string()]) {
            Err(SkillFault::NotFound(missing)) => assert_eq!(missing, name),
            other => panic!("{other:?}"),
        }
    }
}

#[test]
fn providers_of_several_kinds_stand_side_by_side() {
    let providers: Vec<Box<dyn SkillProvider>> = vec![
        Box::new(RuntimeSkillProvider::default()),
        Box::new(RuntimeSkillProvider::from_runtime_skills(vec![RuntimeSkill::new(
            "guide",
            "A guide",
            "body",
        )])),
    ];
    let snapshot = SkillSnapshot::load(&providers, &context(), &vec![]).unwrap();
    assert!(snapshot.by_name.get("guide").is_some());
}

#[test]
fn snapshot_of_a_session_is_composed() {
    let snapshot = CapabilitySnapshot::load_default(
        CWD,
        HOME,
        "helper",
        listings(),
        None,
        read("/tmp/root/workspace/AGENTS.md", "project instructions"),
        &vec![],
    )
    .unwrap();
    assert_eq!(snapshot.skills.all.len(), 1);
    assert_eq!(snapshot.context_files.all.len(), 1);
    assert_eq!(snapshot.context_files.always_apply.len(), 1);
    assert_eq!(snapshot.context_files.dependency_fingerprint.len(), 64);
    assert_eq!(snapshot.rules.all.len(), 1);
    assert_eq!(snapshot.dependency_fingerprint.len(), 64);
    let broken = CapabilitySnapshot::load_default(
        CWD,
        HOME,
        "helper",
        listings(),
        None,
        None,
        &vec!["missing".to_string()],
    );
    assert!(matches!(broken, Err(CapabilityFault::Skill(SkillFault::NotFound(_)))));
}

#[test]
fn session_may_bring_its_own_providers() {
    let providers = default_skill_providers(listings(), "helper");
    let snapshot = CapabilitySnapshot::load_from_skill_providers(
        &providers,
        CWD,
        HOME,
        "helper",
        None,
        None,
        &vec!["debugging".to_string()],
    )
    .unwrap();
    assert_eq!(snapshot.skills.selected[0].info.name, "debugging");
    let failing: Vec<Box<dyn SkillProvider>> = vec![Box::new(FailingProvider)];
    let broken = CapabilitySnapshot::load_from_skill_providers(
        &failing,
        CWD,
        HOME,
        "helper",
        None,
        None,
        &vec![],
    );
    assert!(matches!(broken, Err(CapabilityFault::Skill(SkillFault::Provider { .. }))));
}
