//! The providers that every session has.

use crate::capabilities::frontmatter::{
    extract_skill_summary, front_of, parse_frontmatter, summary_of, Frontmatter,
};
use crate::capabilities::skills::{
    may_have_failed, may_have_given, may_have_priorities, may_load, may_load_with, outcome_view,
    priority_order, skill_views, snapshot_of, with_by_priority, BatchView, Given, LoadContext,
    LoadedSkill, Outcome, SkillCapability, SkillFault, SkillFaultView, SkillProvider,
    SkillSnapshot, SkillSnapshotView, SkillView,
};
use crate::capabilities::source::{
    is_valid_directory_name, is_valid_skill_name, valid_directory_name, valid_skill_name,
    CapabilityExposure, SourceLevel, SourceMeta, SourceView,
};
use crate::hash::{digest_text, text_digest};
use crate::paths::{display_label, join_path, label_of, path_below};
use crate::text::{clone_opt, opt_view, replace, text_replaced, views};
use vstd::prelude::*;

verus! {

/// A skill that the host of a session defines.
#[derive(Debug)]
pub struct RuntimeSkill {
    pub name: String,
    pub description: String,
    pub content: String,
}

/// What a [`RuntimeSkill`] says.
pub struct RuntimeView {
    pub name: Seq<char>,
    pub description: Seq<char>,
    pub content: Seq<char>,
}

impl View for RuntimeSkill {
    type V = RuntimeView;

    open spec fn view(&self) -> RuntimeView {
        RuntimeView {
            name: self.name@,
            description: self.description@,
            content: self.content@,
        }
    }
}

impl RuntimeSkill {
    /// A skill with this name, description and text.
    pub fn new(name: &str, description: &str, content: &str) -> (r: RuntimeSkill)
        ensures
            r@ == (RuntimeView { name: name@, description: description@, content: content@ }),
    {
        RuntimeSkill {
            name: name.to_owned(),
            description: description.to_owned(),
            content: content.to_owned(),
        }
    }
}

/// The views of a sequence of skills of the host.
pub open spec fn runtime_views(skills: Seq<RuntimeSkill>) -> Seq<RuntimeView> {
    skills.map_values(|s: RuntimeSkill| s@)
}

/// A skill of the host as it is loaded.
pub open spec fn runtime_skill(skill: RuntimeView) -> SkillView {
    SkillView {
        name: skill.name,
        description: skill.description,
        content: skill.content,
        base_dir: "<runtime>"@,
        disable_model_invocation: false,
        source: SourceView {
            provider_id: "runtime-skills"@,
            provider_name: "runtime skills"@,
            level: SourceLevel::Runtime,
            source_path: None,
            real_path: None,
            display_label: Some("runtime"@),
        },
        exposure: CapabilityExposure::ModelDiscoverable,
        revision: text_digest(skill.content),
    }
}

/// The first `n` skills of the host as they are loaded, or the first name that is refused.
pub open spec fn runtime_skills(skills: Seq<RuntimeView>, n: nat) -> Result<
    Seq<SkillView>,
    SkillFaultView,
>
    decreases n,
{
    if n == 0 {
        Ok(seq![])
    } else {
        match runtime_skills(skills, (n - 1) as nat) {
            Err(f) => Err(f),
            Ok(s) => if valid_skill_name(skills[n - 1].name) {
                Ok(s.push(runtime_skill(skills[n - 1])))
            } else {
                Err(SkillFaultView::InvalidRuntime(skills[n - 1].name))
            },
        }
    }
}

proof fn lemma_runtime_fault(skills: Seq<RuntimeView>, n: nat, m: nat)
    requires
        n <= m,
        runtime_skills(skills, n) is Err,
    ensures
        runtime_skills(skills, m) == runtime_skills(skills, n),
    decreases m - n,
{
    if n < m {
        lemma_runtime_fault(skills, n, (m - 1) as nat);
    }
}

/// Gives the skills that the host of a session defines.
#[derive(Debug)]
pub struct RuntimeSkillProvider {
    skills: Vec<LoadedSkill>,
    defined: Vec<RuntimeSkill>,
}

impl Default for RuntimeSkillProvider {
    fn default() -> (r: Self)
        ensures
            r.loaded_spec() == Seq::<SkillView>::empty(),
            r.defined_spec() == Seq::<RuntimeView>::empty(),
    {
        let r = RuntimeSkillProvider { skills: Vec::new(), defined: Vec::new() };
        assert(r.loaded_spec() =~= Seq::<SkillView>::empty());
        assert(r.defined_spec() =~= Seq::<RuntimeView>::empty());
        r
    }
}

impl RuntimeSkillProvider {
    /// The skills that were handed over as they are.
    pub closed spec fn loaded_spec(&self) -> Seq<SkillView> {
        skill_views(self.skills@)
    }

    /// The skills that the host defines.
    pub closed spec fn defined_spec(&self) -> Seq<RuntimeView> {
        runtime_views(self.defined@)
    }

    /// Gives `skills` as they are.
    pub fn new(skills: Vec<LoadedSkill>) -> (r: RuntimeSkillProvider)
        ensures
            r.loaded_spec() == skill_views(skills@),
            r.defined_spec() == Seq::<RuntimeView>::empty(),
    {
        let r = RuntimeSkillProvider { skills, defined: Vec::new() };
        assert(r.defined_spec() =~= Seq::<RuntimeView>::empty());
        r
    }

    /// Gives the skills that the host defines.
    pub fn from_runtime_skills(skills: Vec<RuntimeSkill>) -> (r: RuntimeSkillProvider)
        ensures
            r.loaded_spec() == Seq::<SkillView>::empty(),
            r.defined_spec() == runtime_views(skills@),
    {
        let r = RuntimeSkillProvider { skills: Vec::new(), defined: skills };
        assert(r.loaded_spec() =~= Seq::<SkillView>::empty());
        r
    }

    /// The skills of the host, or the first name that is refused.
    pub fn load(&self) -> (r: Result<Vec<LoadedSkill>, SkillFault>)
        ensures
            ({
                let defined = self.defined_spec();
                match r {
                    Ok(s) => runtime_skills(defined, defined.len()) is Ok && skill_views(s@)
                        == self.loaded_spec() + runtime_skills(defined, defined.len())->Ok_0,
                    Err(f) => runtime_skills(defined, defined.len()) == Err::<
                        Seq<SkillView>,
                        SkillFaultView,
                    >(f@),
                }
            }),
    {
        let ghost given = self.loaded_spec();
        let ghost defined = self.defined_spec();
        let mut out: Vec<LoadedSkill> = Vec::new();
        let mut i: usize = 0;
        assert(skill_views(out@) =~= given.take(0));
        while i < self.skills.len()
            invariant
                i <= self.skills@.len(),
                given == skill_views(self.skills@),
                skill_views(out@) == given.take(i as int),
            decreases self.skills@.len() - i,
        {
            let ghost before = out@;
            out.push(self.skills[i].clone());
            assert(skill_views(out@) =~= skill_views(before).push(given[i as int]));
            assert(given.take(i + 1) =~= given.take(i as int).push(given[i as int]));
            i += 1;
        }
        assert(given.take(i as int) =~= given);
        let mut k: usize = 0;
        assert(given + runtime_skills(defined, 0)->Ok_0 =~= given);
        while k < self.defined.len()
            invariant
                k <= self.defined@.len(),
                defined == runtime_views(self.defined@),
                defined == self.defined_spec(),
                runtime_skills(defined, k as nat) is Ok,
                skill_views(out@) == given + runtime_skills(defined, k as nat)->Ok_0,
            decreases self.defined@.len() - k,
        {
            let skill: &RuntimeSkill = &self.defined[k];
            assert(defined[k as int] == skill@);
            if !is_valid_skill_name(skill.name.as_str()) {
                proof {
                    lemma_runtime_fault(defined, (k + 1) as nat, defined.len());
                }
                return Err(SkillFault::InvalidRuntime(skill.name.clone()));
            }
            let ghost before = out@;
            let loaded: LoadedSkill = LoadedSkill {
                revision: digest_text(skill.content.as_str()),
                skill: SkillCapability {
                    name: skill.name.clone(),
                    description: skill.description.clone(),
                    content: skill.content.clone(),
                    base_dir: "<runtime>".to_owned(),
                    disable_model_invocation: false,
                },
                source: SourceMeta {
                    provider_id: "runtime-skills".to_owned(),
                    provider_name: "runtime skills".to_owned(),
                    level: SourceLevel::Runtime,
                    source_path: None,
                    real_path: None,
                    display_label: Some("runtime".to_owned()),
                },
                exposure: CapabilityExposure::ModelDiscoverable,
            };
            assert(loaded@ == runtime_skill(skill@));
            out.push(loaded);
            assert(skill_views(out@) =~= skill_views(before).push(loaded@));
            assert(skill_views(out@) =~= given + runtime_skills(defined, (k + 1) as nat)->Ok_0);
            k += 1;
        }
        Ok(out)
    }
}

impl SkillProvider for RuntimeSkillProvider {
    open spec fn may_have_id(&self, id: Seq<char>) -> bool {
        id == "runtime-skills"@
    }

    open spec fn may_have_priority(&self, priority: i32) -> bool {
        priority == 300
    }

    open spec fn may_give(
        &self,
        cwd: Seq<char>,
        home: Seq<char>,
        assistant: Seq<char>,
        given: Given,
    ) -> bool {
        let defined = self.defined_spec();
        given == match runtime_skills(defined, defined.len()) {
            Ok(skills) => Given::Ok(self.loaded_spec() + skills),
            Err(fault) => Given::Err(fault.message()),
        }
    }

    fn id(&self) -> &str {
        "runtime-skills"
    }

    fn display_name(&self) -> &str {
        "runtime skills"
    }

    fn priority(&self) -> i32 {
        300
    }

    fn load_skills(&self, _ctx: &LoadContext<'_>) -> Result<Vec<LoadedSkill>, String> {
        match self.load() {
            Ok(skills) => Ok(skills),
            Err(f) => Err(f.message()),
        }
    }
}

/// The directory with the skills of another assistant, below that of the project or the user.
pub open spec fn shared_dir(assistant: Seq<char>) -> Seq<char> {
    "."@ + assistant + "/skills"@
}

fn shared_dir_of(assistant: &str) -> (r: String)
    ensures
        r@ == shared_dir(assistant@),
{
    ".".to_owned().concat(assistant).concat("/skills")
}

/// Which directory holds skills.
#[derive(Clone, Copy, Debug, PartialEq, Eq, Structural)]
pub enum SkillBase {
    ProjectShared,
    ProjectLocal,
    UserShared,
}

impl SkillBase {
    /// The directory in a session.
    pub open spec fn dir_spec(
        self,
        cwd: Seq<char>,
        home: Seq<char>,
        assistant: Seq<char>,
    ) -> Seq<char> {
        match self {
            SkillBase::ProjectShared => path_below(cwd, shared_dir(assistant)),
            SkillBase::ProjectLocal => path_below(cwd, "skills"@),
            SkillBase::UserShared => path_below(home, shared_dir(assistant)),
        }
    }

    /// The directory in a session.
    pub fn dir(self, ctx: &LoadContext<'_>) -> (r: String)
        ensures
            r@ == self.dir_spec(ctx.cwd@, ctx.home@, ctx.assistant@),
    {
        match self {
            SkillBase::ProjectShared => join_path(
                ctx.cwd,
                shared_dir_of(ctx.assistant).as_str(),
            ),
            SkillBase::ProjectLocal => join_path(ctx.cwd, "skills"),
            SkillBase::UserShared => join_path(ctx.home, shared_dir_of(ctx.assistant).as_str()),
        }
    }
}

/// A skill file that was read: the name of its directory, its text and, where the file system
/// gave it, the canonical form of its path.
#[derive(Debug)]
pub struct SkillFile {
    pub dir_name: String,
    pub raw_content: String,
    pub real_path: Option<String>,
}

/// What a [`SkillFile`] says.
pub struct SkillFileView {
    pub dir_name: Seq<char>,
    pub raw_content: Seq<char>,
    pub real_path: Option<Seq<char>>,
}

impl View for SkillFile {
    type V = SkillFileView;

    open spec fn view(&self) -> SkillFileView {
        SkillFileView {
            dir_name: self.dir_name@,
            raw_content: self.raw_content@,
            real_path: opt_view(self.real_path),
        }
    }
}

/// The views of a sequence of skill files.
pub open spec fn file_views(files: Seq<SkillFile>) -> Seq<SkillFileView> {
    files.map_values(|f: SkillFile| f@)
}

/// Gives the skills of a directory.
#[derive(Debug)]
pub struct FileSystemSkillProvider {
    pub id: String,
    pub display_name: String,
    pub level: SourceLevel,
    pub priority: i32,
    pub base: SkillBase,
    pub files: Vec<SkillFile>,
}

/// A skill file of a provider as it is loaded.
pub open spec fn file_skill(
    id: Seq<char>,
    name: Seq<char>,
    level: SourceLevel,
    base: Seq<char>,
    label: Seq<char>,
    file: SkillFileView,
) -> SkillView {
    let dir = path_below(base, file.dir_name);
    let content = text_replaced(file.raw_content, "${MINK_SKILL_DIR}"@, dir);
    let front = front_of(content);
    SkillView {
        name: file.dir_name,
        description: match front.description {
            Some(d) => d,
            None => summary_of(content),
        },
        content,
        base_dir: dir,
        disable_model_invocation: front.disable_model_invocation,
        source: SourceView {
            provider_id: id,
            provider_name: name,
            level,
            source_path: Some(path_below(dir, "SKILL.md"@)),
            real_path: file.real_path,
            display_label: Some(label),
        },
        exposure: if front.hide || front.disable_model_invocation {
            CapabilityExposure::ModelAddressable
        } else {
            CapabilityExposure::ModelDiscoverable
        },
        revision: text_digest(content),
    }
}

/// The first `n` skill files of a provider as they are loaded. A directory whose name
/// leads elsewhere, or that is hidden, is passed over.
pub open spec fn file_skills(
    id: Seq<char>,
    name: Seq<char>,
    level: SourceLevel,
    base: Seq<char>,
    label: Seq<char>,
    files: Seq<SkillFileView>,
    n: nat,
) -> Seq<SkillView>
    decreases n,
{
    if n == 0 {
        seq![]
    } else {
        let before = file_skills(id, name, level, base, label, files, (n - 1) as nat);
        if valid_directory_name(files[n - 1].dir_name) {
            before.push(file_skill(id, name, level, base, label, files[n - 1]))
        } else {
            before
        }
    }
}

fn load_file(
    id: &str,
    name: &str,
    level: SourceLevel,
    base: &str,
    label: &str,
    file: &SkillFile,
) -> (r: LoadedSkill)
    ensures
        r@ == file_skill(id@, name@, level, base@, label@, file@),
{
    let dir: String = join_path(base, file.dir_name.as_str());
    proof {
        reveal_strlit("${MINK_SKILL_DIR}");
    }
    let content: String = replace(file.raw_content.as_str(), "${MINK_SKILL_DIR}", dir.as_str());
    let front: Frontmatter = parse_frontmatter(content.as_str());
    let disable_model_invocation: bool = front.disable_model_invocation;
    let exposure: CapabilityExposure = if front.hide || disable_model_invocation {
        CapabilityExposure::ModelAddressable
    } else {
        CapabilityExposure::ModelDiscoverable
    };
    let description: String = match front.description {
        Some(d) => d,
        None => extract_skill_summary(content.as_str()),
    };
    let skill_file: String = join_path(dir.as_str(), "SKILL.md");
    LoadedSkill {
        revision: digest_text(content.as_str()),
        skill: SkillCapability {
            name: file.dir_name.clone(),
            description,
            content,
            base_dir: dir,
            disable_model_invocation,
        },
        source: SourceMeta {
            provider_id: id.to_owned(),
            provider_name: name.to_owned(),
            level,
            source_path: Some(skill_file),
            real_path: clone_opt(&file.real_path),
            display_label: Some(label.to_owned()),
        },
        exposure,
    }
}

fn load_files(
    id: &str,
    name: &str,
    level: SourceLevel,
    base: &str,
    label: &str,
    files: &Vec<SkillFile>,
) -> (r: Vec<LoadedSkill>)
    ensures
        skill_views(r@) == file_skills(
            id@,
            name@,
            level,
            base@,
            label@,
            file_views(files@),
            files@.len(),
        ),
{
    let ghost all = file_views(files@);
    let mut out: Vec<LoadedSkill> = Vec::new();
    let mut i: usize = 0;
    assert(skill_views(out@) =~= seq![]);
    while i < files.len()
        invariant
            i <= files@.len(),
            all == file_views(files@),
            skill_views(out@) == file_skills(id@, name@, level, base@, label@, all, i as nat),
        decreases files@.len() - i,
    {
        let file: &SkillFile = &files[i];
        assert(all[i as int] == file@);
        if is_valid_directory_name(file.dir_name.as_str()) {
            let ghost before = out@;
            let skill: LoadedSkill = load_file(id, name, level, base, label, file);
            out.push(skill);
            assert(skill_views(out@) =~= skill_views(before).push(skill@));
        }
        i += 1;
    }
    out
}

impl FileSystemSkillProvider {
    /// What the provider gives in a session.
    pub open spec fn batch_spec(
        &self,
        cwd: Seq<char>,
        home: Seq<char>,
        assistant: Seq<char>,
    ) -> BatchView {
        let base = self.base.dir_spec(cwd, home, assistant);
        let files = file_views(self.files@);
        BatchView {
            provider_id: self.id@,
            skills: file_skills(
                self.id@,
                self.display_name@,
                self.level,
                base,
                label_of(base, cwd, home),
                files,
                files.len(),
            ),
        }
    }

    /// The skills of the directory.
    pub fn load(&self, ctx: &LoadContext<'_>) -> (r: Vec<LoadedSkill>)
        ensures
            skill_views(r@) == self.batch_spec(ctx.cwd@, ctx.home@, ctx.assistant@).skills,
    {
        let base: String = self.base.dir(ctx);
        let label: String = display_label(base.as_str(), ctx.cwd, ctx.home);
        load_files(
            self.id.as_str(),
            self.display_name.as_str(),
            self.level,
            base.as_str(),
            label.as_str(),
            &self.files,
        )
    }
}

impl SkillProvider for FileSystemSkillProvider {
    open spec fn may_have_id(&self, id: Seq<char>) -> bool {
        id == self.id@
    }

    open spec fn may_have_priority(&self, priority: i32) -> bool {
        priority == self.priority
    }

    open spec fn may_give(
        &self,
        cwd: Seq<char>,
        home: Seq<char>,
        assistant: Seq<char>,
        given: Given,
    ) -> bool {
        given == Given::Ok(self.batch_spec(cwd, home, assistant).skills)
    }

    fn id(&self) -> &str {
        self.id.as_str()
    }

    fn display_name(&self) -> &str {
        self.display_name.as_str()
    }

    fn priority(&self) -> i32 {
        self.priority
    }

    fn load_skills(&self, ctx: &LoadContext<'_>) -> Result<Vec<LoadedSkill>, String> {
        Ok(self.load(ctx))
    }
}

/// A skill that comes with the program.
#[derive(Debug)]
pub struct EmbeddedSkill {
    pub name: String,
    pub description: String,
    pub content: String,
}

/// What an [`EmbeddedSkill`] says.
pub struct EmbeddedView {
    pub name: Seq<char>,
    pub description: Seq<char>,
    pub content: Seq<char>,
}

impl View for EmbeddedSkill {
    type V = EmbeddedView;

    open spec fn view(&self) -> EmbeddedView {
        EmbeddedView {
            name: self.name@,
            description: self.description@,
            content: self.content@,
        }
    }
}

/// The views of a sequence of skills that come with the program.
pub open spec fn embedded_views(skills: Seq<EmbeddedSkill>) -> Seq<EmbeddedView> {
    skills.map_values(|s: EmbeddedSkill| s@)
}

/// A skill that comes with the program as it is loaded.
pub open spec fn embedded_skill(skill: EmbeddedView) -> SkillView {
    let content = text_replaced(skill.content, "${MINK_SKILL_DIR}"@, "<built-in>"@);
    SkillView {
        name: skill.name,
        description: skill.description,
        content,
        base_dir: "<built-in>"@,
        disable_model_invocation: false,
        source: SourceView {
            provider_id: "built-in-skills"@,
            provider_name: "built-in skills"@,
            level: SourceLevel::BuiltIn,
            source_path: None,
            real_path: None,
            display_label: Some("built-in"@),
        },
        exposure: CapabilityExposure::ModelDiscoverable,
        revision: text_digest(content),
    }
}

/// Gives the skills that come with the program.
#[derive(Debug)]
pub struct BuiltInSkillProvider {
    pub embedded: Vec<EmbeddedSkill>,
}

impl BuiltInSkillProvider {
    /// What the provider gives.
    pub open spec fn batch_spec(&self) -> BatchView {
        BatchView {
            provider_id: "built-in-skills"@,
            skills: embedded_views(self.embedded@).map_values(|s: EmbeddedView| embedded_skill(s)),
        }
    }

    /// The skills that come with the program.
    pub fn load(&self) -> (r: Vec<LoadedSkill>)
        ensures
            skill_views(r@) == self.batch_spec().skills,
    {
        let ghost all = self.batch_spec().skills;
        let mut out: Vec<LoadedSkill> = Vec::new();
        let mut i: usize = 0;
        assert(skill_views(out@) =~= all.take(0));
        while i < self.embedded.len()
            invariant
                i <= self.embedded@.len(),
                all == self.batch_spec().skills,
                skill_views(out@) == all.take(i as int),
            decreases self.embedded@.len() - i,
        {
            let skill: &EmbeddedSkill = &self.embedded[i];
            proof {
                reveal_strlit("${MINK_SKILL_DIR}");
            }
            let content: String = replace(
                skill.content.as_str(),
                "${MINK_SKILL_DIR}",
                "<built-in>",
            );
            let loaded: LoadedSkill = LoadedSkill {
                revision: digest_text(content.as_str()),
                skill: SkillCapability {
                    name: skill.name.clone(),
                    description: skill.description.clone(),
                    content,
                    base_dir: "<built-in>".to_owned(),
                    disable_model_invocation: false,
                },
                source: SourceMeta {
                    provider_id: "built-in-skills".to_owned(),
                    provider_name: "built-in skills".to_owned(),
                    level: SourceLevel::BuiltIn,
                    source_path: None,
                    real_path: None,
                    display_label: Some("built-in".to_owned()),
                },
                exposure: CapabilityExposure::ModelDiscoverable,
            };
            assert(loaded@ == embedded_skill(skill@));
            let ghost before = out@;
            out.push(loaded);
            assert(all[i as int] == loaded@);
            assert(skill_views(out@) =~= skill_views(before).push(loaded@));
            assert(all.take(i + 1) =~= all.take(i as int).push(all[i as int]));
            i += 1;
        }
        assert(all.take(i as int) =~= all);
        out
    }
}

impl SkillProvider for BuiltInSkillProvider {
    open spec fn may_have_id(&self, id: Seq<char>) -> bool {
        id == "built-in-skills"@
    }

    open spec fn may_have_priority(&self, priority: i32) -> bool {
        priority == 0
    }

    open spec fn may_give(
        &self,
        cwd: Seq<char>,
        home: Seq<char>,
        assistant: Seq<char>,
        given: Given,
    ) -> bool {
        given == Given::Ok(self.batch_spec().skills)
    }

    fn id(&self) -> &str {
        "built-in-skills"
    }

    fn display_name(&self) -> &str {
        "built-in skills"
    }

    fn priority(&self) -> i32 {
        0
    }

    fn load_skills(&self, _ctx: &LoadContext<'_>) -> Result<Vec<LoadedSkill>, String> {
        Ok(self.load())
    }
}

/// The skill files of a session and the skills that come with the program.
pub struct SkillListings {
    pub project_shared: Vec<SkillFile>,
    pub project_local: Vec<SkillFile>,
    pub user_shared: Vec<SkillFile>,
    pub embedded: Vec<EmbeddedSkill>,
}

fn project_shared_provider(files: Vec<SkillFile>, assistant: &str) -> (r:
    FileSystemSkillProvider)
    ensures
        r.files == files,
        r.id@ == "project-"@ + assistant@ + "-skills"@,
        r.display_name@ == "project "@ + shared_dir(assistant@),
        r.level == SourceLevel::Project,
        r.base == SkillBase::ProjectShared,
        r.priority == 220,
        forall|cwd: Seq<char>, home: Seq<char>| #[trigger]
            r.batch_spec(cwd, home, assistant@) == project_shared_batch(
                file_views(files@),
                cwd,
                home,
                assistant@,
            ),
{
    reveal(project_shared_batch);
    FileSystemSkillProvider {
        id: "project-".to_owned().concat(assistant).concat("-skills"),
        display_name: "project ".to_owned().concat(shared_dir_of(assistant).as_str()),
        level: SourceLevel::Project,
        priority: 220,
        base: SkillBase::ProjectShared,
        files,
    }
}

fn project_local_provider(files: Vec<SkillFile>) -> (r: FileSystemSkillProvider)
    ensures
        r.files == files,
        r.id@ == "project-local-skills"@,
        r.display_name@ == "project skills"@,
        r.level == SourceLevel::Project,
        r.base == SkillBase::ProjectLocal,
        r.priority == 210,
        forall|cwd: Seq<char>, home: Seq<char>, assistant: Seq<char>| #[trigger]
            r.batch_spec(cwd, home, assistant) == project_local_batch(
                file_views(files@),
                cwd,
                home,
            ),
{
    reveal(project_local_batch);
    FileSystemSkillProvider {
        id: "project-local-skills".to_owned(),
        display_name: "project skills".to_owned(),
        level: SourceLevel::Project,
        priority: 210,
        base: SkillBase::ProjectLocal,
        files,
    }
}

fn user_shared_provider(files: Vec<SkillFile>, assistant: &str) -> (r:
    FileSystemSkillProvider)
    ensures
        r.files == files,
        r.id@ == "user-"@ + assistant@ + "-skills"@,
        r.display_name@ == "user "@ + shared_dir(assistant@),
        r.level == SourceLevel::User,
        r.base == SkillBase::UserShared,
        r.priority == 120,
        forall|cwd: Seq<char>, home: Seq<char>| #[trigger]
            r.batch_spec(cwd, home, assistant@) == user_shared_batch(
                file_views(files@),
                cwd,
                home,
                assistant@,
            ),
{
    reveal(user_shared_batch);
    FileSystemSkillProvider {
        id: "user-".to_owned().concat(assistant).concat("-skills"),
        display_name: "user ".to_owned().concat(shared_dir_of(assistant).as_str()),
        level: SourceLevel::User,
        priority: 120,
        base: SkillBase::UserShared,
        files,
    }
}

/// The skills of `files` as one directory gives them.
pub open spec fn directory_batch(
    id: Seq<char>,
    name: Seq<char>,
    level: SourceLevel,
    base: Seq<char>,
    files: Seq<SkillFileView>,
    cwd: Seq<char>,
    home: Seq<char>,
) -> BatchView {
    BatchView {
        provider_id: id,
        skills: file_skills(
            id,
            name,
            level,
            base,
            label_of(base, cwd, home),
            files,
            files.len(),
        ),
    }
}

/// What the directory with the skills of another assistant gives, below that of the project.
#[verifier::opaque]
pub open spec fn project_shared_batch(
    files: Seq<SkillFileView>,
    cwd: Seq<char>,
    home: Seq<char>,
    assistant: Seq<char>,
) -> BatchView {
    directory_batch(
        "project-"@ + assistant + "-skills"@,
        "project "@ + shared_dir(assistant),
        SourceLevel::Project,
        path_below(cwd, shared_dir(assistant)),
        files,
        cwd,
        home,
    )
}

/// What the directory `skills` of the project gives.
#[verifier::opaque]
pub open spec fn project_local_batch(
    files: Seq<SkillFileView>,
    cwd: Seq<char>,
    home: Seq<char>,
) -> BatchView {
    directory_batch(
        "project-local-skills"@,
        "project skills"@,
        SourceLevel::Project,
        path_below(cwd, "skills"@),
        files,
        cwd,
        home,
    )
}

/// What the directory with the skills of another assistant gives, below that of the user.
#[verifier::opaque]
pub open spec fn user_shared_batch(
    files: Seq<SkillFileView>,
    cwd: Seq<char>,
    home: Seq<char>,
    assistant: Seq<char>,
) -> BatchView {
    directory_batch(
        "user-"@ + assistant + "-skills"@,
        "user "@ + shared_dir(assistant),
        SourceLevel::User,
        path_below(home, shared_dir(assistant)),
        files,
        cwd,
        home,
    )
}

/// What the providers of a session give, in the order of their precedence.
pub open spec fn default_batches(
    listings: SkillListings,
    cwd: Seq<char>,
    home: Seq<char>,
    assistant: Seq<char>,
) -> Seq<BatchView> {
    seq![
        BatchView { provider_id: "runtime-skills"@, skills: seq![] },
        project_shared_batch(file_views(listings.project_shared@), cwd, home, assistant),
        project_local_batch(file_views(listings.project_local@), cwd, home),
        user_shared_batch(file_views(listings.user_shared@), cwd, home, assistant),
        BatchView {
            provider_id: "built-in-skills"@,
            skills: embedded_views(listings.embedded@).map_values(
                |s: EmbeddedView| embedded_skill(s),
            ),
        },
    ]
}

/// A provider that every session has.
#[derive(Debug)]
pub enum DefaultSkillProvider {
    Runtime(RuntimeSkillProvider),
    Directory(FileSystemSkillProvider),
    BuiltIn(BuiltInSkillProvider),
}

impl SkillProvider for DefaultSkillProvider {
    open spec fn may_have_id(&self, id: Seq<char>) -> bool {
        match self {
            DefaultSkillProvider::Runtime(p) => p.may_have_id(id),
            DefaultSkillProvider::Directory(p) => p.may_have_id(id),
            DefaultSkillProvider::BuiltIn(p) => p.may_have_id(id),
        }
    }

    open spec fn may_have_priority(&self, priority: i32) -> bool {
        match self {
            DefaultSkillProvider::Runtime(p) => p.may_have_priority(priority),
            DefaultSkillProvider::Directory(p) => p.may_have_priority(priority),
            DefaultSkillProvider::BuiltIn(p) => p.may_have_priority(priority),
        }
    }

    open spec fn may_give(
        &self,
        cwd: Seq<char>,
        home: Seq<char>,
        assistant: Seq<char>,
        given: Given,
    ) -> bool {
        match self {
            DefaultSkillProvider::Runtime(p) => p.may_give(cwd, home, assistant, given),
            DefaultSkillProvider::Directory(p) => p.may_give(cwd, home, assistant, given),
            DefaultSkillProvider::BuiltIn(p) => p.may_give(cwd, home, assistant, given),
        }
    }

    fn id(&self) -> &str {
        match self {
            DefaultSkillProvider::Runtime(p) => p.id(),
            DefaultSkillProvider::Directory(p) => p.id(),
            DefaultSkillProvider::BuiltIn(p) => p.id(),
        }
    }

    fn display_name(&self) -> &str {
        match self {
            DefaultSkillProvider::Runtime(p) => p.display_name(),
            DefaultSkillProvider::Directory(p) => p.display_name(),
            DefaultSkillProvider::BuiltIn(p) => p.display_name(),
        }
    }

    fn priority(&self) -> i32 {
        match self {
            DefaultSkillProvider::Runtime(p) => p.priority(),
            DefaultSkillProvider::Directory(p) => p.priority(),
            DefaultSkillProvider::BuiltIn(p) => p.priority(),
        }
    }

    fn load_skills(&self, ctx: &LoadContext<'_>) -> Result<Vec<LoadedSkill>, String> {
        match self {
            DefaultSkillProvider::Runtime(p) => p.load_skills(ctx),
            DefaultSkillProvider::Directory(p) => p.load_skills(ctx),
            DefaultSkillProvider::BuiltIn(p) => p.load_skills(ctx),
        }
    }
}

/// The precedences of the providers that every session has: those of the host before those of the
/// project, these before those of the user, and those that come with the program last.
pub open spec fn default_priorities() -> Seq<i32> {
    seq![300, 220, 210, 120, 0]
}

/// The providers that every session has, in the order of their precedence.
pub fn default_skill_providers(listings: SkillListings, assistant: &str) -> (r: Vec<
    DefaultSkillProvider,
>)
    ensures
        r@.len() == 5,
        forall|id: Seq<char>| #[trigger] r@[0].may_have_id(id) <==> id == "runtime-skills"@,
        forall|id: Seq<char>| #[trigger]
            r@[1].may_have_id(id) <==> id == "project-"@ + assistant@ + "-skills"@,
        forall|id: Seq<char>| #[trigger] r@[2].may_have_id(id) <==> id == "project-local-skills"@,
        forall|id: Seq<char>| #[trigger]
            r@[3].may_have_id(id) <==> id == "user-"@ + assistant@ + "-skills"@,
        forall|id: Seq<char>| #[trigger] r@[4].may_have_id(id) <==> id == "built-in-skills"@,
        forall|i: int, priority: i32|
            0 <= i < 5 ==> (#[trigger] r@[i].may_have_priority(priority) <==> priority
                == default_priorities()[i]),
        forall|i: int, cwd: Seq<char>, home: Seq<char>, given: Given|
            0 <= i < 5 ==> (#[trigger] r@[i].may_give(cwd, home, assistant@, given) <==> given
                == Given::Ok(default_batches(listings, cwd, home, assistant@)[i].skills)),
{
    let ghost from = listings;
    let runtime: RuntimeSkillProvider = RuntimeSkillProvider::default();
    let project_shared: FileSystemSkillProvider = project_shared_provider(
        listings.project_shared,
        assistant,
    );
    let project_local: FileSystemSkillProvider = project_local_provider(listings.project_local);
    let user_shared: FileSystemSkillProvider = user_shared_provider(
        listings.user_shared,
        assistant,
    );
    let built_in: BuiltInSkillProvider = BuiltInSkillProvider { embedded: listings.embedded };
    let r: Vec<DefaultSkillProvider> = vec![
        DefaultSkillProvider::Runtime(runtime),
        DefaultSkillProvider::Directory(project_shared),
        DefaultSkillProvider::Directory(project_local),
        DefaultSkillProvider::Directory(user_shared),
        DefaultSkillProvider::BuiltIn(built_in),
    ];
    proof {
        assert(r@ =~= seq![
            DefaultSkillProvider::Runtime(runtime),
            DefaultSkillProvider::Directory(project_shared),
            DefaultSkillProvider::Directory(project_local),
            DefaultSkillProvider::Directory(user_shared),
            DefaultSkillProvider::BuiltIn(built_in),
        ]);
        assert forall|i: int, cwd: Seq<char>, home: Seq<char>, given: Given| 0 <= i < 5 implies (
        #[trigger] r@[i].may_give(cwd, home, assistant@, given) <==> given == Given::Ok(
            default_batches(from, cwd, home, assistant@)[i].skills,
        )) by {
            let batches = default_batches(from, cwd, home, assistant@);
            if i == 0 {
                assert(runtime.loaded_spec() + runtime_skills(seq![], 0)->Ok_0 =~= seq![]);
            } else if i == 1 {
                assert(project_shared.batch_spec(cwd, home, assistant@) == batches[1]);
            } else if i == 2 {
                assert(project_local.batch_spec(cwd, home, assistant@) == batches[2]);
            } else if i == 3 {
                assert(user_shared.batch_spec(cwd, home, assistant@) == batches[3]);
            } else {
                assert(built_in.batch_spec().skills == batches[4].skills);
            }
        }
    }
    r
}

proof fn lemma_default_ids(
    listings: SkillListings,
    cwd: Seq<char>,
    home: Seq<char>,
    assistant: Seq<char>,
)
    ensures
        ({
            let batches = default_batches(listings, cwd, home, assistant);
            &&& batches.len() == 5
            &&& batches[0].provider_id == "runtime-skills"@
            &&& batches[1].provider_id == "project-"@ + assistant + "-skills"@
            &&& batches[2].provider_id == "project-local-skills"@
            &&& batches[3].provider_id == "user-"@ + assistant + "-skills"@
            &&& batches[4].provider_id == "built-in-skills"@
        }),
{
    let batches = default_batches(listings, cwd, home, assistant);
    let project_shared = file_views(listings.project_shared@);
    let project_local = file_views(listings.project_local@);
    let user_shared = file_views(listings.user_shared@);
    assert(batches[1] == project_shared_batch(project_shared, cwd, home, assistant));
    assert(batches[2] == project_local_batch(project_local, cwd, home));
    assert(batches[3] == user_shared_batch(user_shared, cwd, home, assistant));
    lemma_project_shared_id(project_shared, cwd, home, assistant);
    lemma_project_local_id(project_local, cwd, home);
    lemma_user_shared_id(user_shared, cwd, home, assistant);
}

proof fn lemma_project_shared_id(
    files: Seq<SkillFileView>,
    cwd: Seq<char>,
    home: Seq<char>,
    assistant: Seq<char>,
)
    ensures
        project_shared_batch(files, cwd, home, assistant).provider_id == "project-"@ + assistant
            + "-skills"@,
{
    reveal(project_shared_batch);
}

proof fn lemma_project_local_id(files: Seq<SkillFileView>, cwd: Seq<char>, home: Seq<char>)
    ensures
        project_local_batch(files, cwd, home).provider_id == "project-local-skills"@,
{
    reveal(project_local_batch);
}

proof fn lemma_user_shared_id(
    files: Seq<SkillFileView>,
    cwd: Seq<char>,
    home: Seq<char>,
    assistant: Seq<char>,
)
    ensures
        user_shared_batch(files, cwd, home, assistant).provider_id == "user-"@ + assistant
            + "-skills"@,
{
    reveal(user_shared_batch);
}

proof fn lemma_default_order()
    ensures
        priority_order(default_priorities(), 5) == seq![0int, 1, 2, 3, 4],
{
    reveal_with_fuel(priority_order, 6);
    reveal_with_fuel(with_by_priority, 2);
    assert(priority_order(default_priorities(), 5) =~= seq![0int, 1, 2, 3, 4]);
}

/// With providers that have the precedences of those of every session and give `batches`, loading
/// has one outcome: what they give is put together with the skills of the host first, then those
/// of the project and those of the user, and those that come with the program last.
pub proof fn default_providers_load_in_order<P: SkillProvider>(
    providers: Seq<P>,
    batches: Seq<BatchView>,
    ctx: LoadContext<'_>,
    names: Seq<Seq<char>>,
    outcome: Outcome,
)
    requires
        providers.len() == 5,
        batches.len() == 5,
        forall|i: int, id: Seq<char>|
            0 <= i < 5 && #[trigger] providers[i].may_have_id(id) ==> id == batches[i].provider_id,
        forall|i: int, priority: i32|
            0 <= i < 5 && #[trigger] providers[i].may_have_priority(priority) ==> priority
                == default_priorities()[i],
        forall|i: int, given: Given|
            0 <= i < 5 && #[trigger] providers[i].may_give(
                ctx.cwd@,
                ctx.home@,
                ctx.assistant@,
                given,
            ) ==> given == Given::Ok(batches[i].skills),
        may_load(providers, ctx, names, outcome),
    ensures
        outcome == snapshot_of(batches, names),
{
    let priorities = choose|priorities: Seq<i32>|
        #[trigger] may_have_priorities(providers, priorities) && may_load_with(
            providers,
            priorities,
            ctx,
            names,
            outcome,
        );
    assert forall|i: int| 0 <= i < 5 implies priorities[i] == default_priorities()[i] by {
        assert(providers[i].may_have_priority(priorities[i]));
    }
    assert(priorities =~= default_priorities());
    lemma_default_order();
    let order = priority_order(priorities, priorities.len());
    if exists|given: Seq<BatchView>|
        given.len() == providers.len() && may_have_given(providers, order, ctx, given) && outcome
            == #[trigger] snapshot_of(given, names) {
        let given = choose|given: Seq<BatchView>|
            given.len() == providers.len() && may_have_given(providers, order, ctx, given)
                && outcome == #[trigger] snapshot_of(given, names);
        assert forall|k: int| 0 <= k < 5 implies given[k] == batches[k] by {
            assert(order[k] == k);
            assert(providers[k].may_have_id(given[k].provider_id));
            assert(providers[k].may_give(
                ctx.cwd@,
                ctx.home@,
                ctx.assistant@,
                Ok(given[k].skills),
            ));
        }
        assert(given =~= batches);
    } else {
        let (given, id, error) = choose|given: Seq<BatchView>, id: Seq<char>, error: Seq<char>|
            #[trigger] may_have_given(providers, order, ctx, given) && #[trigger] may_have_failed(
                providers,
                order,
                ctx,
                given.len(),
                id,
                error,
            ) && outcome == Outcome::Err(SkillFaultView::Provider { id, error });
        let k = given.len() as int;
        assert(order[k] == k);
        assert(providers[k].may_give(ctx.cwd@, ctx.home@, ctx.assistant@, Err(error)));
        assert(false);
    }
}

/// The snapshot of the skills that every session has.
pub fn build_default_skill_snapshot(
    ctx: &LoadContext<'_>,
    listings: SkillListings,
    selected_skills: &Vec<String>,
) -> (r: Result<SkillSnapshot, SkillFault>)
    ensures
        match r {
            Ok(s) => snapshot_of(
                default_batches(listings, ctx.cwd@, ctx.home@, ctx.assistant@),
                views(selected_skills@),
            ) == Ok::<SkillSnapshotView, SkillFaultView>(s@),
            Err(f) => snapshot_of(
                default_batches(listings, ctx.cwd@, ctx.home@, ctx.assistant@),
                views(selected_skills@),
            ) == Err::<SkillSnapshotView, SkillFaultView>(f@),
        },
{
    let ghost batches = default_batches(listings, ctx.cwd@, ctx.home@, ctx.assistant@);
    let providers: Vec<DefaultSkillProvider> = default_skill_providers(listings, ctx.assistant);
    let r: Result<SkillSnapshot, SkillFault> = SkillSnapshot::load(
        &providers,
        ctx,
        selected_skills,
    );
    proof {
        lemma_default_ids(listings, ctx.cwd@, ctx.home@, ctx.assistant@);
        assert forall|i: int, id: Seq<char>|
            0 <= i < 5 && #[trigger] providers@[i].may_have_id(id) implies id
            == batches[i].provider_id by {
            assert(i == 0 || i == 1 || i == 2 || i == 3 || i == 4);
        }
        default_providers_load_in_order(
            providers@,
            batches,
            *ctx,
            views(selected_skills@),
            outcome_view(r),
        );
    }
    r
}

} // verus!
