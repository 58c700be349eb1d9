//! The prompt of a session.

use crate::capabilities::context_files::ContextFileSnapshot;
use crate::capabilities::rules::RuleSnapshot;
use crate::capabilities::skills::SkillSnapshot;
use crate::prompt::builtin::{builtin_can_render, builtin_is_valid, builtin_workflows};
use crate::prompt::document::{
    accepted_references_hold, all_active, document_text, find_inactive, find_unresolved,
    first_inactive, first_reference_fault, first_unresolved, lemma_place_of, moved_to_end, pushed,
    PromptDocument, PromptSection, PromptSectionOrigin, SectionFault, SectionFaultView, SectionView,
};
use crate::prompt::facts::{FactSet, FactView, PromptFact};
use crate::prompt::mission::{apply, mission_sections, with_mission};
use crate::prompt::modules::{append_tool_sections, reserved_ids, reserved_section_ids, with_tools};
use crate::prompt::render::{
    can_render, render_workflow, rendered, Capabilities, PackView, PromptTemplates, RenderFault,
    RenderedPromptPack,
};
use crate::prompt::sections::{
    append_core_sections, append_external_sections, external_view, with_core, with_external, Draft,
    PromptEnvironment,
};
use crate::prompt::workflows::{
    base_facts, chosen, facts_with, reference_views, settled, FaultView, PromptWorkflowResolver,
    PromptWorkflowSpec, ResolvedPromptWorkflows, WorkflowFault, WorkflowView,
};
use crate::text::{blank, trimmed, trimmed_empty_iff_blank};
use crate::tools::{ModelToolSurface, ResolvedToolCapabilities, ToolSemanticCapability};
use vstd::prelude::*;

verus! {

/// Why the text of a workflow is refused.
#[derive(Debug)]
pub enum PackFault {
    InactiveTool { workflow: String, tool: String },
    UnresolvedFact { workflow: String, fact: PromptFact },
    NoWitness(String),
}

/// What a [`PackFault`] says.
pub enum PackFaultView {
    InactiveTool { workflow: Seq<char>, tool: Seq<char> },
    UnresolvedFact { workflow: Seq<char>, fact: FactView },
    NoWitness(Seq<char>),
}

impl View for PackFault {
    type V = PackFaultView;

    open spec fn view(&self) -> PackFaultView {
        match *self {
            PackFault::InactiveTool { workflow, tool } => PackFaultView::InactiveTool {
                workflow: workflow@,
                tool: tool@,
            },
            PackFault::UnresolvedFact { workflow, fact } => PackFaultView::UnresolvedFact {
                workflow: workflow@,
                fact: fact@,
            },
            PackFault::NoWitness(workflow) => PackFaultView::NoWitness(workflow@),
        }
    }
}

impl PackFaultView {
    /// The fault in words.
    pub open spec fn message(self) -> Seq<char> {
        match self {
            PackFaultView::InactiveTool { workflow, tool } => "workflow '"@ + workflow
                + "' referenced inactive tool '"@ + tool + "'"@,
            PackFaultView::UnresolvedFact { workflow, fact } => "workflow '"@ + workflow
                + "' consumed unresolved fact '"@ + fact.written() + "'"@,
            PackFaultView::NoWitness(workflow) => "workflow '"@ + workflow
                + "' render contract lacks a satisfying requirement witness"@,
        }
    }
}

impl PackFault {
    /// The fault in words.
    pub fn message(&self) -> (r: String)
        ensures
            r@ == self@.message(),
    {
        match self {
            PackFault::InactiveTool { workflow, tool } => "workflow '".to_owned().concat(
                workflow.as_str(),
            ).concat("' referenced inactive tool '").concat(tool.as_str()).concat("'"),
            PackFault::UnresolvedFact { workflow, fact } => "workflow '".to_owned().concat(
                workflow.as_str(),
            ).concat("' consumed unresolved fact '").concat(fact.written().as_str()).concat("'"),
            PackFault::NoWitness(workflow) => "workflow '".to_owned().concat(
                workflow.as_str(),
            ).concat("' render contract lacks a satisfying requirement witness"),
        }
    }
}

/// What is wrong with the text of a workflow: the first tool that is not active, the first
/// fact that does not hold, or that it does not rest on what the workflow needs.
pub open spec fn pack_fault(
    spec: WorkflowView,
    pack: PackView,
    facts: Set<FactView>,
    surface: Seq<Seq<char>>,
) -> Option<PackFaultView> {
    if !all_active(pack.referenced_tools, surface) {
        Some(
            PackFaultView::InactiveTool {
                workflow: spec.id,
                tool: first_inactive(pack.referenced_tools, surface),
            },
        )
    } else if !pack.consumed_facts.subset_of(facts) {
        Some(
            PackFaultView::UnresolvedFact {
                workflow: spec.id,
                fact: first_unresolved(pack.consumed_facts, facts),
            },
        )
    } else if !spec.requirement.satisfied(pack.consumed_facts) {
        Some(PackFaultView::NoWitness(spec.id))
    } else {
        None
    }
}

/// Refuses the text of a workflow that names what is not there.
pub fn validate_pack(
    spec: &PromptWorkflowSpec,
    pack: &RenderedPromptPack,
    facts: &FactSet,
    surface: &ModelToolSurface,
) -> (r: Result<(), PackFault>)
    ensures
        match r {
            Ok(()) => pack_fault(spec@, pack@, facts@, surface@) is None,
            Err(f) => pack_fault(spec@, pack@, facts@, surface@) == Some(f@),
        },
{
    match find_inactive(&pack.referenced_tools, surface) {
        Some(tool) => {
            return Err(PackFault::InactiveTool { workflow: spec.id.clone(), tool });
        },
        None => {},
    }
    match find_unresolved(&pack.consumed_facts, facts) {
        Some(fact) => {
            return Err(PackFault::UnresolvedFact { workflow: spec.id.clone(), fact });
        },
        None => {},
    }
    if !spec.requirement.satisfied_by(&pack.consumed_facts) {
        return Err(PackFault::NoWitness(spec.id.clone()));
    }
    Ok(())
}

/// Why the prompt of a session cannot be put together.
#[derive(Debug)]
pub enum BuildFault {
    Section(SectionFault),
    Workflow(WorkflowFault),
    Render(RenderFault),
    Pack(PackFault),
}

/// What a [`BuildFault`] says.
pub enum BuildFaultView {
    Section(SectionFaultView),
    Workflow(FaultView),
    Render(RenderFault),
    Pack(PackFaultView),
}

impl View for BuildFault {
    type V = BuildFaultView;

    open spec fn view(&self) -> BuildFaultView {
        match *self {
            BuildFault::Section(f) => BuildFaultView::Section(f@),
            BuildFault::Workflow(f) => BuildFaultView::Workflow(f@),
            BuildFault::Render(f) => BuildFaultView::Render(f),
            BuildFault::Pack(f) => BuildFaultView::Pack(f@),
        }
    }
}

impl BuildFaultView {
    /// The fault in words.
    pub open spec fn message(self) -> Seq<char> {
        match self {
            BuildFaultView::Section(f) => f.message(),
            BuildFaultView::Workflow(f) => f.message(),
            BuildFaultView::Render(f) => f.message_spec(),
            BuildFaultView::Pack(f) => f.message(),
        }
    }
}

impl BuildFault {
    /// The fault in words.
    pub fn message(&self) -> (r: String)
        ensures
            r@ == self@.message(),
    {
        match self {
            BuildFault::Section(f) => f.message(),
            BuildFault::Workflow(f) => f.message(),
            BuildFault::Render(f) => f.message().to_owned(),
            BuildFault::Pack(f) => f.message(),
        }
    }
}

/// A prompt that is being built, or why it cannot be.
pub type Build = Result<Seq<SectionView>, BuildFaultView>;

/// A draft as a step of building.
pub open spec fn of_draft(draft: Draft) -> Build {
    match draft {
        Ok(doc) => Ok(doc),
        Err(f) => Err(BuildFaultView::Section(f)),
    }
}

/// The section of a workflow.
pub open spec fn workflow_section(spec: WorkflowView, pack: PackView) -> SectionView {
    SectionView {
        id: spec.id,
        tag: spec.tag,
        origin: PromptSectionOrigin::Workflow,
        content: pack.content,
        name: None,
        referenced_tools: pack.referenced_tools,
        consumed_facts: pack.consumed_facts,
    }
}

/// `doc` with the section of a workflow.
pub open spec fn with_workflow(
    doc: Seq<SectionView>,
    spec: WorkflowView,
    templates: PromptTemplates,
    tools: Capabilities,
    facts: Set<FactView>,
    surface: Seq<Seq<char>>,
) -> Build {
    match rendered(spec.render, templates, tools) {
        Err(f) => Err(BuildFaultView::Render(f)),
        Ok(pack) => match pack_fault(spec, pack, facts, surface) {
            Some(f) => Err(BuildFaultView::Pack(f)),
            None => of_draft(pushed(doc, workflow_section(spec, pack))),
        },
    }
}

/// `doc` with the sections of the first `n` of `specs`.
pub open spec fn with_workflows(
    doc: Seq<SectionView>,
    specs: Seq<WorkflowView>,
    templates: PromptTemplates,
    tools: Capabilities,
    facts: Set<FactView>,
    surface: Seq<Seq<char>>,
    n: nat,
) -> Build
    decreases n,
{
    if n == 0 {
        Ok(doc)
    } else {
        match with_workflows(doc, specs, templates, tools, facts, surface, (n - 1) as nat) {
            Err(f) => Err(f),
            Ok(d) => with_workflow(d, specs[n - 1], templates, tools, facts, surface),
        }
    }
}

proof fn lemma_workflow_fault(
    doc: Seq<SectionView>,
    specs: Seq<WorkflowView>,
    templates: PromptTemplates,
    tools: Capabilities,
    facts: Set<FactView>,
    surface: Seq<Seq<char>>,
    n: nat,
    m: nat,
)
    requires
        n <= m,
        with_workflows(doc, specs, templates, tools, facts, surface, n) is Err,
    ensures
        with_workflows(doc, specs, templates, tools, facts, surface, m) == with_workflows(
            doc,
            specs,
            templates,
            tools,
            facts,
            surface,
            n,
        ),
    decreases m - n,
{
    if n < m {
        lemma_workflow_fault(doc, specs, templates, tools, facts, surface, n, (m - 1) as nat);
    }
}

/// `doc` with the sections of a mission, where there is a text.
pub open spec fn with_mission_text(doc: Seq<SectionView>, mission: Option<String>) -> Build {
    if mission is Some && trimmed(mission->0@).len() > 0 {
        let sections = mission_sections(mission->0@);
        let end = with_mission(doc, sections, reserved_ids(), sections.len());
        match end.1 {
            Some(f) => Err(BuildFaultView::Section(f)),
            None => Ok(end.0),
        }
    } else {
        Ok(doc)
    }
}

/// What the prompt of a session is made of.
pub struct Builder {
    pub env: PromptEnvironment,
    pub skill_snapshot: SkillSnapshot,
    pub context_file_snapshot: ContextFileSnapshot,
    pub rule_snapshot: RuleSnapshot,
    pub mission_content: Option<String>,
    pub tool_surface: ModelToolSurface,
    pub tool_capabilities: ResolvedToolCapabilities,
    pub templates: PromptTemplates,
    pub signals: bool,
}

/// The workflows that apply to a session, and the facts that hold in it.
pub open spec fn session_workflows(tools: Capabilities) -> (Seq<WorkflowView>, Set<FactView>) {
    let all = builtin_workflows();
    let active = settled(all, base_facts(tools));
    (chosen(all, active, all.len()), facts_with(all, base_facts(tools), active))
}

/// The sections of the runtime: the core, the mission, the tools and the workflows.
pub open spec fn runtime_sections(b: Builder) -> Build {
    let workflows = session_workflows(b.tool_capabilities@);
    match of_draft(with_core(seq![], b.env, b.signals, b.tool_surface@)) {
        Err(f) => Err(f),
        Ok(d1) => match with_mission_text(d1, b.mission_content) {
            Err(f) => Err(f),
            Ok(d2) => match of_draft(with_tools(d2, b.tool_surface@, b.templates)) {
                Err(f) => Err(f),
                Ok(d3) => with_workflows(
                    d3,
                    workflows.0,
                    b.templates,
                    b.tool_capabilities@,
                    workflows.1,
                    b.tool_surface@,
                    workflows.0.len(),
                ),
            },
        },
    }
}

/// The prompt of a session: the sections of the runtime, those from outside, and the output
/// language at the end.
pub open spec fn built(b: Builder) -> Build {
    let resources = b.tool_capabilities@.contains_key(ToolSemanticCapability::ResourceRead);
    let external = external_view(
        b.rule_snapshot,
        b.context_file_snapshot,
        b.skill_snapshot,
        resources,
    );
    match runtime_sections(b) {
        Err(f) => Err(f),
        Ok(d4) => match of_draft(with_external(d4, external)) {
            Err(f) => Err(f),
            Ok(d5) => match of_draft(moved_to_end(d5, "output-language"@)) {
                Err(f) => Err(f),
                Ok(doc) => match first_reference_fault(
                    doc,
                    b.tool_surface@,
                    session_workflows(b.tool_capabilities@).1,
                    0,
                ) {
                    Some(f) => Err(BuildFaultView::Section(f)),
                    None => Ok(doc),
                },
            },
        },
    }
}

/// The output language stands last in every prompt.
pub proof fn built_ends_with_language(b: Builder)
    requires
        built(b) is Ok,
    ensures
        built(b)->Ok_0.len() > 0,
        built(b)->Ok_0.last().id == "output-language"@,
{
    let resources = b.tool_capabilities@.contains_key(ToolSemanticCapability::ResourceRead);
    let external = external_view(
        b.rule_snapshot,
        b.context_file_snapshot,
        b.skill_snapshot,
        resources,
    );
    let d5 = with_external(runtime_sections(b)->Ok_0, external)->Ok_0;
    lemma_place_of(d5, "output-language"@);
}

/// In every prompt the sections that the runtime wrote name only tools that the model can
/// call and rest only on facts that hold.
pub proof fn built_references_hold(b: Builder, i: int)
    requires
        built(b) is Ok,
        0 <= i < built(b)->Ok_0.len(),
        built(b)->Ok_0[i].origin.is_generated(),
    ensures
        all_active(built(b)->Ok_0[i].referenced_tools, b.tool_surface@),
        built(b)->Ok_0[i].consumed_facts.subset_of(session_workflows(b.tool_capabilities@).1),
{
    accepted_references_hold(
        built(b)->Ok_0,
        b.tool_surface@,
        session_workflows(b.tool_capabilities@).1,
        0,
        i,
    );
}

proof fn lemma_chosen_can_render(tools: Capabilities, n: nat, k: int)
    requires
        n <= 6,
        0 <= k < chosen(builtin_workflows(), settled(builtin_workflows(), base_facts(tools)), n).len(),
    ensures
        can_render(
            chosen(
                builtin_workflows(),
                settled(builtin_workflows(), base_facts(tools)),
                n,
            )[k].render,
            tools,
        ),
    decreases n,
{
    let all = builtin_workflows();
    let active = settled(all, base_facts(tools));
    if n > 0 {
        let before = chosen(all, active, (n - 1) as nat);
        if active[n - 1] && k == before.len() {
            builtin_can_render(tools, n - 1);
        } else {
            lemma_chosen_can_render(tools, (n - 1) as nat, k);
        }
    }
}

impl Builder {
    fn append_mission(&self, document: &mut PromptDocument) -> (r: Result<(), BuildFault>)
        ensures
            match r {
                Ok(()) => with_mission_text(old(document)@, self.mission_content) == Build::Ok(
                    final(document)@,
                ),
                Err(f) => with_mission_text(old(document)@, self.mission_content) == Build::Err(
                    f@,
                ),
            },
    {
        match &self.mission_content {
            Some(content) => {
                proof {
                    trimmed_empty_iff_blank(content@);
                }
                if blank(content.as_str()) {
                    return Ok(());
                }
                match apply(document, content.as_str(), &reserved_section_ids()) {
                    Ok(()) => Ok(()),
                    Err(f) => Err(BuildFault::Section(f)),
                }
            },
            None => Ok(()),
        }
    }

    fn append_workflow(
        &self,
        document: &mut PromptDocument,
        spec: &PromptWorkflowSpec,
        facts: &FactSet,
    ) -> (r: Result<(), BuildFault>)
        requires
            can_render(spec.render, self.tool_capabilities@),
        ensures
            ({
                let expected = with_workflow(
                    old(document)@,
                    spec@,
                    self.templates,
                    self.tool_capabilities@,
                    facts@,
                    self.tool_surface@,
                );
                match r {
                    Ok(()) => expected == Build::Ok(final(document)@),
                    Err(f) => expected == Build::Err(f@),
                }
            }),
    {
        let pack: RenderedPromptPack = match render_workflow(
            spec.render,
            &self.templates,
            &self.tool_capabilities,
        ) {
            Ok(pack) => pack,
            Err(f) => {
                return Err(BuildFault::Render(f));
            },
        };
        match validate_pack(spec, &pack, facts, &self.tool_surface) {
            Ok(()) => {},
            Err(f) => {
                return Err(BuildFault::Pack(f));
            },
        }
        match document.push(
            PromptSection {
                id: spec.id.clone(),
                tag: spec.tag.clone(),
                origin: PromptSectionOrigin::Workflow,
                content: pack.content,
                name: None,
                referenced_tools: pack.referenced_tools,
                consumed_facts: pack.consumed_facts,
            },
        ) {
            Ok(()) => Ok(()),
            Err(f) => Err(BuildFault::Section(f)),
        }
    }

    fn append_workflows(
        &self,
        document: &mut PromptDocument,
        workflows: &ResolvedPromptWorkflows<'_>,
    ) -> (r: Result<(), BuildFault>)
        requires
            reference_views(workflows.ordered@) == session_workflows(self.tool_capabilities@).0,
        ensures
            ({
                let specs = session_workflows(self.tool_capabilities@).0;
                let expected = with_workflows(
                    old(document)@,
                    specs,
                    self.templates,
                    self.tool_capabilities@,
                    workflows.facts@,
                    self.tool_surface@,
                    specs.len(),
                );
                match r {
                    Ok(()) => expected == Build::Ok(final(document)@),
                    Err(f) => expected == Build::Err(f@),
                }
            }),
    {
        let ghost specs = session_workflows(self.tool_capabilities@).0;
        let ghost start = document@;
        assert(specs.len() == workflows.ordered@.len());
        let mut k: usize = 0;
        while k < workflows.ordered.len()
            invariant
                k <= workflows.ordered@.len(),
                start == old(document)@,
                specs == session_workflows(self.tool_capabilities@).0,
                specs == reference_views(workflows.ordered@),
                specs.len() == workflows.ordered@.len(),
                with_workflows(
                    start,
                    specs,
                    self.templates,
                    self.tool_capabilities@,
                    workflows.facts@,
                    self.tool_surface@,
                    k as nat,
                ) == Build::Ok(document@),
            decreases workflows.ordered@.len() - k,
        {
            let spec: &PromptWorkflowSpec = workflows.ordered[k];
            proof {
                assert(specs[k as int] == spec@);
                lemma_chosen_can_render(self.tool_capabilities@, 6, k as int);
            }
            match self.append_workflow(document, spec, &workflows.facts) {
                Ok(()) => {},
                Err(f) => {
                    proof {
                        lemma_workflow_fault(
                            start,
                            specs,
                            self.templates,
                            self.tool_capabilities@,
                            workflows.facts@,
                            self.tool_surface@,
                            (k + 1) as nat,
                            specs.len(),
                        );
                    }
                    return Err(f);
                },
            }
            k += 1;
        }
        Ok(())
    }

    /// The prompt of the session as a list of sections.
    pub fn build_document(&self) -> (r: Result<PromptDocument, BuildFault>)
        ensures
            match r {
                Ok(d) => built(*self) == Build::Ok(d@),
                Err(f) => built(*self) == Build::Err(f@),
            },
    {
        let mut document: PromptDocument = PromptDocument::new();
        match append_core_sections(&mut document, &self.env, self.signals, &self.tool_surface) {
            Ok(()) => {},
            Err(f) => {
                return Err(BuildFault::Section(f));
            },
        }
        match self.append_mission(&mut document) {
            Ok(()) => {},
            Err(f) => {
                return Err(f);
            },
        }
        match append_tool_sections(&mut document, &self.tool_surface, &self.templates) {
            Ok(()) => {},
            Err(f) => {
                return Err(BuildFault::Section(f));
            },
        }
        proof {
            builtin_is_valid();
        }
        let resolver: PromptWorkflowResolver = PromptWorkflowResolver::builtin();
        let workflows: ResolvedPromptWorkflows<'_> = match resolver.resolve(
            &self.tool_capabilities,
        ) {
            Ok(w) => w,
            Err(f) => {
                return Err(BuildFault::Workflow(f));
            },
        };
        match self.append_workflows(&mut document, &workflows) {
            Ok(()) => {},
            Err(f) => {
                return Err(f);
            },
        }
        let resources: bool = self.tool_capabilities.has(ToolSemanticCapability::ResourceRead);
        match append_external_sections(
            &mut document,
            &self.rule_snapshot,
            &self.context_file_snapshot,
            &self.skill_snapshot,
            resources,
        ) {
            Ok(()) => {},
            Err(f) => {
                return Err(BuildFault::Section(f));
            },
        }
        match document.move_to_end("output-language") {
            Ok(()) => {},
            Err(f) => {
                return Err(BuildFault::Section(f));
            },
        }
        match document.validate_generated_references(&self.tool_surface, &workflows.facts) {
            Ok(()) => {},
            Err(f) => {
                return Err(BuildFault::Section(f));
            },
        }
        Ok(document)
    }

    /// The prompt of the session as text.
    pub fn build_system_prompt(&self) -> (r: Result<String, BuildFault>)
        ensures
            match r {
                Ok(text) => built(*self) is Ok && text@ == document_text(built(*self)->Ok_0),
                Err(f) => built(*self) == Build::Err(f@),
            },
    {
        match self.build_document() {
            Ok(document) => Ok(document.render()),
            Err(f) => Err(f),
        }
    }
}

} // verus!
