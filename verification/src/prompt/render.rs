//! The text that each workflow adds to the prompt.

use crate::prompt::facts::{FactSet, FactView, PromptFact};
use crate::prompt::workflows::WorkflowRender;
use crate::sets::NameSet;
use crate::text::{join, joined, replace, same_text, text_replaced, trim, trimmed, views};
use crate::tools::{
    ProviderTier, ResolvedToolCapabilities, ToolBinding, ToolProvider, ToolSemanticCapability,
};
use vstd::prelude::*;

verus! {

/// The fixed texts of the prompt, with places for the names of tools.
pub struct PromptTemplates {
    pub search_then_inspect: String,
    pub anchored_edit: String,
    pub specialized_provider_routing: String,
    pub specialized_mutation_routing: String,
    pub python_execution_routing: String,
    pub plan_lifecycle: String,
    pub sub_agent: String,
    pub todo_write: String,
}

/// The text of a workflow, the tools that it names and the facts that it rests on.
pub struct RenderedPromptPack {
    pub content: String,
    pub referenced_tools: NameSet,
    pub consumed_facts: FactSet,
}

/// What a [`RenderedPromptPack`] says.
pub struct PackView {
    pub content: Seq<char>,
    pub referenced_tools: Set<Seq<char>>,
    pub consumed_facts: Set<FactView>,
}

impl View for RenderedPromptPack {
    type V = PackView;

    open spec fn view(&self) -> PackView {
        PackView {
            content: self.content@,
            referenced_tools: self.referenced_tools@,
            consumed_facts: self.consumed_facts@,
        }
    }
}

/// Why a workflow has no text.
#[derive(Clone, Copy, Debug, PartialEq, Eq, Structural)]
pub enum RenderFault {
    NoRoutableBinding,
    NoDistinctProvider,
}

impl RenderFault {
    /// The fault in words.
    pub open spec fn message_spec(self) -> Seq<char> {
        match self {
            RenderFault::NoRoutableBinding
                => "routing workflow activated without a routable binding"@,
            RenderFault::NoDistinctProvider
                => "mutation routing workflow activated without distinct specialized providers"@,
        }
    }

    /// The fault in words.
    pub fn message(self) -> (r: &'static str)
        ensures
            r@ == self.message_spec(),
    {
        match self {
            RenderFault::NoRoutableBinding
                => "routing workflow activated without a routable binding",
            RenderFault::NoDistinctProvider
                => "mutation routing workflow activated without distinct specialized providers",
        }
    }
}

/// The capabilities of a session.
pub type Capabilities = Map<ToolSemanticCapability, ToolBinding>;

/// The tool that is used first for `c`.
pub open spec fn primary(tools: Capabilities, c: ToolSemanticCapability) -> Seq<char> {
    tools[c].primary.tool@
}

/// Whether the tools that the text of a workflow cannot do without are there.
pub open spec fn can_render(render: WorkflowRender, tools: Capabilities) -> bool {
    match render {
        WorkflowRender::SearchThenInspect => tools.contains_key(
            ToolSemanticCapability::ContentSearch,
        ) && tools.contains_key(ToolSemanticCapability::PathRead),
        WorkflowRender::AnchoredEdit => tools.contains_key(
            ToolSemanticCapability::EditableSnapshotRead,
        ) && tools.contains_key(ToolSemanticCapability::AnchoredEdit),
        WorkflowRender::SpecializedRouting => true,
        WorkflowRender::SpecializedMutationRouting => tools.contains_key(
            ToolSemanticCapability::ShellExec,
        ),
        WorkflowRender::PythonRouting => true,
        WorkflowRender::PlanLifecycle => tools.contains_key(ToolSemanticCapability::PlanDraft)
            && tools.contains_key(ToolSemanticCapability::PlanConfirm) && tools.contains_key(
            ToolSemanticCapability::PlanClear,
        ),
    }
}

/// Advice that is being put together line by line.
pub struct AdviceView {
    pub lines: Seq<Seq<char>>,
    pub tools: Set<Seq<char>>,
    pub facts: Set<FactView>,
}

struct Advice {
    lines: Vec<String>,
    tools: NameSet,
    facts: FactSet,
}

impl View for Advice {
    type V = AdviceView;

    closed spec fn view(&self) -> AdviceView {
        AdviceView { lines: views(self.lines@), tools: self.tools@, facts: self.facts@ }
    }
}

/// Advice with nothing in it.
pub open spec fn no_advice() -> AdviceView {
    AdviceView { lines: seq![], tools: Set::empty(), facts: Set::empty() }
}

/// The fallbacks among the first `n` of `providers`.
pub open spec fn fallback_tools(providers: Seq<ToolProvider>, n: nat) -> Seq<Seq<char>>
    decreases n,
{
    if n == 0 {
        seq![]
    } else if providers[n - 1].tier == ProviderTier::Fallback {
        fallback_tools(providers, (n - 1) as nat).push(providers[n - 1].tool@)
    } else {
        fallback_tools(providers, (n - 1) as nat)
    }
}

/// `advice` and a line that prefers the specialized provider of `c` to its fallbacks.
pub open spec fn with_route(
    advice: AdviceView,
    tools: Capabilities,
    c: ToolSemanticCapability,
    label: Seq<char>,
) -> AdviceView {
    if tools.contains_key(c) && tools[c].routable_spec() {
        let others = tools[c].alternatives@;
        let names = fallback_tools(others, others.len());
        AdviceView {
            lines: advice.lines.push(
                "- For "@ + label + ", prefer "@ + primary(tools, c) + ". Use "@ + joined(
                    names,
                    ", "@,
                ) + " only when shell semantics are genuinely required."@,
            ),
            tools: advice.tools.insert(primary(tools, c)).union(names.to_set()),
            facts: advice.facts.insert(FactView::SpecializedWithFallback(c)),
        }
    } else {
        advice
    }
}

/// `advice` and a line that prefers the provider of `c` to the shell.
pub open spec fn with_mutation(
    advice: AdviceView,
    tools: Capabilities,
    c: ToolSemanticCapability,
    before: Seq<char>,
    between: Seq<char>,
    after: Seq<char>,
) -> AdviceView {
    let shell = primary(tools, ToolSemanticCapability::ShellExec);
    if tools.contains_key(c) && primary(tools, c) != shell {
        AdviceView {
            lines: advice.lines.push(before + primary(tools, c) + between + shell + after),
            tools: advice.tools.insert(primary(tools, c)),
            facts: advice.facts.insert(FactView::ToolCapability(c)),
        }
    } else {
        advice
    }
}

/// `advice` and a line that says what the provider of `c` provides.
pub open spec fn with_provider(
    advice: AdviceView,
    tools: Capabilities,
    c: ToolSemanticCapability,
    label: Seq<char>,
) -> AdviceView {
    if tools.contains_key(c) {
        AdviceView {
            lines: advice.lines.push(
                "- "@ + primary(tools, c) + " provides "@ + label + "."@,
            ),
            tools: advice.tools.insert(primary(tools, c)),
            facts: advice.facts.insert(FactView::ToolCapability(c)),
        }
    } else {
        advice
    }
}

/// The advice on specialized providers.
pub open spec fn routing_advice(tools: Capabilities) -> AdviceView {
    with_route(
        with_route(
            with_route(
                no_advice(),
                tools,
                ToolSemanticCapability::PathRead,
                "path reading"@,
            ),
            tools,
            ToolSemanticCapability::ContentSearch,
            "content search"@,
        ),
        tools,
        ToolSemanticCapability::PathDiscovery,
        "path discovery"@,
    )
}

/// The advice on changing files.
pub open spec fn mutation_advice(tools: Capabilities) -> AdviceView {
    with_mutation(
        with_mutation(
            with_mutation(
                AdviceView {
                    lines: seq![],
                    tools: set![primary(tools, ToolSemanticCapability::ShellExec)],
                    facts: set![FactView::ToolCapability(ToolSemanticCapability::ShellExec)],
                },
                tools,
                ToolSemanticCapability::FileCreate,
                "- For file creation, use "@,
                " rather than "@,
                " redirection or heredocs."@,
            ),
            tools,
            ToolSemanticCapability::FileOverwrite,
            "- For full-file replacement, use "@,
            " rather than "@,
            " redirection or heredocs."@,
        ),
        tools,
        ToolSemanticCapability::AnchoredEdit,
        "- For changes to existing file content, use "@,
        " with its anchored protocol rather than mutation commands through "@,
        " such as sed or awk."@,
    )
}

/// The advice on running Python.
pub open spec fn python_advice(tools: Capabilities) -> AdviceView {
    with_provider(
        with_provider(
            no_advice(),
            tools,
            ToolSemanticCapability::HostPythonExec,
            "host execution"@,
        ),
        tools,
        ToolSemanticCapability::SandboxedPythonExec,
        "sandboxed execution"@,
    )
}

/// `head`, trimmed, and the lines of `advice` below it.
pub open spec fn advice_pack(head: Seq<char>, advice: AdviceView) -> PackView {
    PackView {
        content: trimmed(head) + "\n"@ + joined(advice.lines, "\n"@),
        referenced_tools: advice.tools,
        consumed_facts: advice.facts,
    }
}

/// The facts that each of `a` and `b` is provided.
pub open spec fn both(a: ToolSemanticCapability, b: ToolSemanticCapability) -> Set<FactView> {
    set![FactView::ToolCapability(a), FactView::ToolCapability(b)]
}

/// The text of the workflow that searches before it reads.
pub open spec fn search_pack(templates: PromptTemplates, tools: Capabilities) -> PackView {
    let search = primary(tools, ToolSemanticCapability::ContentSearch);
    let read = primary(tools, ToolSemanticCapability::PathRead);
    PackView {
        content: trimmed(
            text_replaced(
                text_replaced(
                    templates.search_then_inspect@,
                    "{{SEARCH_PROVIDER}}"@,
                    search,
                ),
                "{{READ_PROVIDER}}"@,
                read,
            ),
        ),
        referenced_tools: set![search, read],
        consumed_facts: both(
            ToolSemanticCapability::ContentSearch,
            ToolSemanticCapability::PathRead,
        ),
    }
}

/// The text of the workflow that edits by anchors.
pub open spec fn edit_pack(templates: PromptTemplates, tools: Capabilities) -> PackView {
    let read = primary(tools, ToolSemanticCapability::EditableSnapshotRead);
    let edit = primary(tools, ToolSemanticCapability::AnchoredEdit);
    let filled = text_replaced(
        text_replaced(templates.anchored_edit@, "{{SNAPSHOT_PROVIDER}}"@, read),
        "{{EDIT_PROVIDER}}"@,
        edit,
    );
    let named = set![read, edit];
    let facts = both(
        ToolSemanticCapability::EditableSnapshotRead,
        ToolSemanticCapability::AnchoredEdit,
    );
    if tools.contains_key(ToolSemanticCapability::FileOverwrite) {
        let write = primary(tools, ToolSemanticCapability::FileOverwrite);
        PackView {
            content: trimmed(
                filled + "\nA successful "@ + write
                    + " overwrite invalidates older snapshot headers for that file."@,
            ),
            referenced_tools: named.insert(write),
            consumed_facts: facts.insert(
                FactView::ToolCapability(ToolSemanticCapability::FileOverwrite),
            ),
        }
    } else {
        PackView { content: trimmed(filled), referenced_tools: named, consumed_facts: facts }
    }
}

/// The text of the workflow that takes a plan from draft to completion.
pub open spec fn plan_pack(templates: PromptTemplates, tools: Capabilities) -> PackView {
    let draft = primary(tools, ToolSemanticCapability::PlanDraft);
    let confirm = primary(tools, ToolSemanticCapability::PlanConfirm);
    let clear = primary(tools, ToolSemanticCapability::PlanClear);
    let filled = trimmed(
        text_replaced(
            text_replaced(
                text_replaced(templates.plan_lifecycle@, "{{DRAFT_PROVIDER}}"@, draft),
                "{{CONFIRM_PROVIDER}}"@,
                confirm,
            ),
            "{{CLEAR_PROVIDER}}"@,
            clear,
        ),
    );
    let named = set![draft, confirm, clear];
    let facts = both(
        ToolSemanticCapability::PlanDraft,
        ToolSemanticCapability::PlanConfirm,
    ).insert(FactView::ToolCapability(ToolSemanticCapability::PlanClear));
    if tools.contains_key(ToolSemanticCapability::TodoState) {
        let todo = primary(tools, ToolSemanticCapability::TodoState);
        PackView {
            content: filled + ("\nAfter confirmation, use "@ + todo
                + " to track execution progress."@),
            referenced_tools: named.insert(todo),
            consumed_facts: facts.insert(FactView::ToolCapability(ToolSemanticCapability::TodoState)),
        }
    } else {
        PackView { content: filled, referenced_tools: named, consumed_facts: facts }
    }
}

/// The text of a workflow, or why it has none.
pub open spec fn rendered(
    render: WorkflowRender,
    templates: PromptTemplates,
    tools: Capabilities,
) -> Result<PackView, RenderFault> {
    match render {
        WorkflowRender::SearchThenInspect => Ok(search_pack(templates, tools)),
        WorkflowRender::AnchoredEdit => Ok(edit_pack(templates, tools)),
        WorkflowRender::SpecializedRouting => if routing_advice(tools).lines.len() == 0 {
            Err(RenderFault::NoRoutableBinding)
        } else {
            Ok(advice_pack(templates.specialized_provider_routing@, routing_advice(tools)))
        },
        WorkflowRender::SpecializedMutationRouting => if mutation_advice(tools).lines.len() == 0 {
            Err(RenderFault::NoDistinctProvider)
        } else {
            Ok(advice_pack(templates.specialized_mutation_routing@, mutation_advice(tools)))
        },
        WorkflowRender::PythonRouting => Ok(
            advice_pack(templates.python_execution_routing@, python_advice(tools)),
        ),
        WorkflowRender::PlanLifecycle => Ok(plan_pack(templates, tools)),
    }
}

impl Advice {
    fn new() -> (r: Advice)
        ensures
            r@ == no_advice(),
    {
        let r = Advice { lines: Vec::new(), tools: NameSet::new(), facts: FactSet::new() };
        assert(views(r.lines@) =~= seq![]);
        r
    }

    fn push_line(&mut self, line: String)
        ensures
            final(self)@ == (AdviceView { lines: old(self)@.lines.push(line@), ..old(self)@ }),
    {
        let ghost before = self.lines@;
        self.lines.push(line);
        assert(views(self.lines@) =~= views(before).push(line@));
    }

    fn add_route(
        &mut self,
        tools: &ResolvedToolCapabilities,
        c: ToolSemanticCapability,
        label: &str,
    )
        ensures
            final(self)@ == with_route(old(self)@, tools@, c, label@),
    {
        let binding: &ToolBinding = match tools.binding(c) {
            Some(binding) => binding,
            None => {
                return;
            },
        };
        if !binding.routable() {
            return;
        }
        let ghost start = self@;
        let ghost others = binding.alternatives@;
        self.tools.insert(binding.primary.tool.as_str());
        let ghost first = self.tools@;
        let mut names: Vec<String> = Vec::new();
        let mut i: usize = 0;
        assert(views(names@) =~= seq![]);
        assert(first.union(views(names@).to_set()) =~= first);
        while i < binding.alternatives.len()
            invariant
                i <= binding.alternatives@.len(),
                others == binding.alternatives@,
                views(names@) == fallback_tools(others, i as nat),
                self.tools@ == first.union(views(names@).to_set()),
                self.lines@ == old(self).lines@,
                self.facts@ == old(self).facts@,
            decreases binding.alternatives@.len() - i,
        {
            let provider: &ToolProvider = &binding.alternatives[i];
            if provider.tier == ProviderTier::Fallback {
                let ghost held = names@;
                self.tools.insert(provider.tool.as_str());
                let name: String = provider.tool.clone();
                names.push(name);
                proof {
                    assert(views(names@) =~= views(held).push(name@));
                    lemma_push_to_set(views(held), name@);
                    assert(self.tools@ =~= first.union(views(names@).to_set()));
                }
            }
            i += 1;
        }
        let line: String = "- For ".to_owned().concat(label).concat(", prefer ").concat(
            binding.primary.tool.as_str(),
        ).concat(". Use ").concat(join(&names, ", ").as_str()).concat(
            " only when shell semantics are genuinely required.",
        );
        self.push_line(line);
        self.facts.insert(PromptFact::SpecializedWithFallback(c));
    }

    fn add_mutation(
        &mut self,
        tools: &ResolvedToolCapabilities,
        shell: &str,
        c: ToolSemanticCapability,
        before: &str,
        between: &str,
        after: &str,
    )
        requires
            shell@ == primary(tools@, ToolSemanticCapability::ShellExec),
        ensures
            final(self)@ == with_mutation(old(self)@, tools@, c, before@, between@, after@),
    {
        match tools.primary_provider(c) {
            Some(provider) => {
                if !same_text(provider.tool.as_str(), shell) {
                    self.push_line(
                        before.to_owned().concat(provider.tool.as_str()).concat(between).concat(
                            shell,
                        ).concat(after),
                    );
                    self.tools.insert(provider.tool.as_str());
                    self.facts.insert(PromptFact::ToolCapability(c));
                }
            },
            None => {},
        }
    }

    fn add_provider(
        &mut self,
        tools: &ResolvedToolCapabilities,
        c: ToolSemanticCapability,
        label: &str,
    )
        ensures
            final(self)@ == with_provider(old(self)@, tools@, c, label@),
    {
        match tools.primary_provider(c) {
            Some(provider) => {
                self.push_line(
                    "- ".to_owned().concat(provider.tool.as_str()).concat(" provides ").concat(
                        label,
                    ).concat("."),
                );
                self.tools.insert(provider.tool.as_str());
                self.facts.insert(PromptFact::ToolCapability(c));
            },
            None => {},
        }
    }

    fn into_pack(self, head: &str) -> (r: RenderedPromptPack)
        ensures
            r@ == advice_pack(head@, self@),
    {
        let content: String = trim(head).concat("\n").concat(join(&self.lines, "\n").as_str());
        RenderedPromptPack {
            content,
            referenced_tools: self.tools,
            consumed_facts: self.facts,
        }
    }
}

proof fn lemma_push_to_set(s: Seq<Seq<char>>, x: Seq<char>)
    ensures
        s.push(x).to_set() == s.to_set().insert(x),
{
    let t = s.push(x);
    assert forall|y: Seq<char>| t.to_set().contains(y) == s.to_set().insert(x).contains(y) by {
        assert(t[s.len() as int] == x);
        if t.contains(y) {
            let i = choose|i: int| 0 <= i < t.len() && t[i] == y;
            if i < s.len() {
                assert(s[i] == y);
            }
        }
        if s.contains(y) {
            let i = choose|i: int| 0 <= i < s.len() && s[i] == y;
            assert(t[i] == y);
        }
    }
    assert(t.to_set() =~= s.to_set().insert(x));
}

fn provider_name(tools: &ResolvedToolCapabilities, c: ToolSemanticCapability) -> (r: String)
    requires
        tools@.contains_key(c),
    ensures
        r@ == primary(tools@, c),
{
    match tools.primary_provider(c) {
        Some(p) => p.tool.clone(),
        None => String::new(),
    }
}

fn render_search_then_inspect(
    templates: &PromptTemplates,
    tools: &ResolvedToolCapabilities,
) -> (r: RenderedPromptPack)
    requires
        can_render(WorkflowRender::SearchThenInspect, tools@),
    ensures
        r@ == search_pack(*templates, tools@),
{
    let search: String = provider_name(tools, ToolSemanticCapability::ContentSearch);
    let read: String = provider_name(tools, ToolSemanticCapability::PathRead);
    proof {
        reveal_strlit("{{SEARCH_PROVIDER}}");
        reveal_strlit("{{READ_PROVIDER}}");
    }
    let once: String = replace(
        templates.search_then_inspect.as_str(),
        "{{SEARCH_PROVIDER}}",
        search.as_str(),
    );
    let twice: String = replace(once.as_str(), "{{READ_PROVIDER}}", read.as_str());
    let mut referenced_tools: NameSet = NameSet::new();
    referenced_tools.insert(search.as_str());
    referenced_tools.insert(read.as_str());
    let mut consumed_facts: FactSet = FactSet::new();
    consumed_facts.insert(PromptFact::ToolCapability(ToolSemanticCapability::ContentSearch));
    consumed_facts.insert(PromptFact::ToolCapability(ToolSemanticCapability::PathRead));
    let r = RenderedPromptPack { content: trim(twice.as_str()), referenced_tools, consumed_facts };
    assert(r@.referenced_tools =~= search_pack(*templates, tools@).referenced_tools);
    assert(r@.consumed_facts =~= search_pack(*templates, tools@).consumed_facts);
    r
}

fn render_anchored_edit(
    templates: &PromptTemplates,
    tools: &ResolvedToolCapabilities,
) -> (r: RenderedPromptPack)
    requires
        can_render(WorkflowRender::AnchoredEdit, tools@),
    ensures
        r@ == edit_pack(*templates, tools@),
{
    let read: String = provider_name(tools, ToolSemanticCapability::EditableSnapshotRead);
    let edit: String = provider_name(tools, ToolSemanticCapability::AnchoredEdit);
    proof {
        reveal_strlit("{{SNAPSHOT_PROVIDER}}");
        reveal_strlit("{{EDIT_PROVIDER}}");
    }
    let once: String = replace(
        templates.anchored_edit.as_str(),
        "{{SNAPSHOT_PROVIDER}}",
        read.as_str(),
    );
    let mut content: String = replace(once.as_str(), "{{EDIT_PROVIDER}}", edit.as_str());
    let mut referenced_tools: NameSet = NameSet::new();
    referenced_tools.insert(read.as_str());
    referenced_tools.insert(edit.as_str());
    let mut consumed_facts: FactSet = FactSet::new();
    consumed_facts.insert(PromptFact::ToolCapability(ToolSemanticCapability::EditableSnapshotRead));
    consumed_facts.insert(PromptFact::ToolCapability(ToolSemanticCapability::AnchoredEdit));
    match tools.primary_provider(ToolSemanticCapability::FileOverwrite) {
        Some(write) => {
            content.append("\nA successful ");
            content.append(write.tool.as_str());
            content.append(" overwrite invalidates older snapshot headers for that file.");
            referenced_tools.insert(write.tool.as_str());
            consumed_facts.insert(
                PromptFact::ToolCapability(ToolSemanticCapability::FileOverwrite),
            );
        },
        None => {},
    }
    let r = RenderedPromptPack { content: trim(content.as_str()), referenced_tools, consumed_facts };
    assert(r@.referenced_tools =~= edit_pack(*templates, tools@).referenced_tools);
    assert(r@.consumed_facts =~= edit_pack(*templates, tools@).consumed_facts);
    r
}

fn render_specialized_routing(
    templates: &PromptTemplates,
    tools: &ResolvedToolCapabilities,
) -> (r: Result<RenderedPromptPack, RenderFault>)
    ensures
        match r {
            Ok(p) => rendered(WorkflowRender::SpecializedRouting, *templates, tools@) == Ok::<
                PackView,
                RenderFault,
            >(p@),
            Err(f) => rendered(WorkflowRender::SpecializedRouting, *templates, tools@) == Err::<
                PackView,
                RenderFault,
            >(f),
        },
{
    let mut advice: Advice = Advice::new();
    advice.add_route(tools, ToolSemanticCapability::PathRead, "path reading");
    advice.add_route(tools, ToolSemanticCapability::ContentSearch, "content search");
    advice.add_route(tools, ToolSemanticCapability::PathDiscovery, "path discovery");
    if advice.lines.len() == 0 {
        return Err(RenderFault::NoRoutableBinding);
    }
    Ok(advice.into_pack(templates.specialized_provider_routing.as_str()))
}

fn render_specialized_mutation_routing(
    templates: &PromptTemplates,
    tools: &ResolvedToolCapabilities,
) -> (r: Result<RenderedPromptPack, RenderFault>)
    requires
        can_render(WorkflowRender::SpecializedMutationRouting, tools@),
    ensures
        match r {
            Ok(p) => rendered(WorkflowRender::SpecializedMutationRouting, *templates, tools@)
                == Ok::<PackView, RenderFault>(p@),
            Err(f) => rendered(WorkflowRender::SpecializedMutationRouting, *templates, tools@)
                == Err::<PackView, RenderFault>(f),
        },
{
    let shell: String = provider_name(tools, ToolSemanticCapability::ShellExec);
    let mut advice: Advice = Advice::new();
    advice.tools.insert(shell.as_str());
    advice.facts.insert(PromptFact::ToolCapability(ToolSemanticCapability::ShellExec));
    assert(advice@.tools =~= set![shell@]);
    assert(advice@.facts =~= set![FactView::ToolCapability(ToolSemanticCapability::ShellExec)]);
    advice.add_mutation(
        tools,
        shell.as_str(),
        ToolSemanticCapability::FileCreate,
        "- For file creation, use ",
        " rather than ",
        " redirection or heredocs.",
    );
    advice.add_mutation(
        tools,
        shell.as_str(),
        ToolSemanticCapability::FileOverwrite,
        "- For full-file replacement, use ",
        " rather than ",
        " redirection or heredocs.",
    );
    advice.add_mutation(
        tools,
        shell.as_str(),
        ToolSemanticCapability::AnchoredEdit,
        "- For changes to existing file content, use ",
        " with its anchored protocol rather than mutation commands through ",
        " such as sed or awk.",
    );
    if advice.lines.len() == 0 {
        return Err(RenderFault::NoDistinctProvider);
    }
    Ok(advice.into_pack(templates.specialized_mutation_routing.as_str()))
}

fn render_python_routing(
    templates: &PromptTemplates,
    tools: &ResolvedToolCapabilities,
) -> (r: RenderedPromptPack)
    ensures
        r@ == advice_pack(templates.python_execution_routing@, python_advice(tools@)),
{
    let mut advice: Advice = Advice::new();
    advice.add_provider(tools, ToolSemanticCapability::HostPythonExec, "host execution");
    advice.add_provider(tools, ToolSemanticCapability::SandboxedPythonExec, "sandboxed execution");
    advice.into_pack(templates.python_execution_routing.as_str())
}

fn render_plan_lifecycle(
    templates: &PromptTemplates,
    tools: &ResolvedToolCapabilities,
) -> (r: RenderedPromptPack)
    requires
        can_render(WorkflowRender::PlanLifecycle, tools@),
    ensures
        r@ == plan_pack(*templates, tools@),
{
    let draft: String = provider_name(tools, ToolSemanticCapability::PlanDraft);
    let confirm: String = provider_name(tools, ToolSemanticCapability::PlanConfirm);
    let clear: String = provider_name(tools, ToolSemanticCapability::PlanClear);
    proof {
        reveal_strlit("{{DRAFT_PROVIDER}}");
        reveal_strlit("{{CONFIRM_PROVIDER}}");
        reveal_strlit("{{CLEAR_PROVIDER}}");
    }
    let once: String = replace(
        templates.plan_lifecycle.as_str(),
        "{{DRAFT_PROVIDER}}",
        draft.as_str(),
    );
    let twice: String = replace(once.as_str(), "{{CONFIRM_PROVIDER}}", confirm.as_str());
    let thrice: String = replace(twice.as_str(), "{{CLEAR_PROVIDER}}", clear.as_str());
    let mut content: String = trim(thrice.as_str());
    let mut referenced_tools: NameSet = NameSet::new();
    referenced_tools.insert(draft.as_str());
    referenced_tools.insert(confirm.as_str());
    referenced_tools.insert(clear.as_str());
    let mut consumed_facts: FactSet = FactSet::new();
    consumed_facts.insert(PromptFact::ToolCapability(ToolSemanticCapability::PlanDraft));
    consumed_facts.insert(PromptFact::ToolCapability(ToolSemanticCapability::PlanConfirm));
    consumed_facts.insert(PromptFact::ToolCapability(ToolSemanticCapability::PlanClear));
    match tools.primary_provider(ToolSemanticCapability::TodoState) {
        Some(todo) => {
            let tail: String = "\nAfter confirmation, use ".to_owned().concat(
                todo.tool.as_str(),
            ).concat(" to track execution progress.");
            content.append(tail.as_str());
            referenced_tools.insert(todo.tool.as_str());
            consumed_facts.insert(PromptFact::ToolCapability(ToolSemanticCapability::TodoState));
        },
        None => {},
    }
    let r = RenderedPromptPack { content, referenced_tools, consumed_facts };
    assert(r@.referenced_tools =~= plan_pack(*templates, tools@).referenced_tools);
    assert(r@.consumed_facts =~= plan_pack(*templates, tools@).consumed_facts);
    r
}

/// The text of a workflow, or why it has none.
pub fn render_workflow(
    render: WorkflowRender,
    templates: &PromptTemplates,
    tools: &ResolvedToolCapabilities,
) -> (r: Result<RenderedPromptPack, RenderFault>)
    requires
        can_render(render, tools@),
    ensures
        match r {
            Ok(p) => rendered(render, *templates, tools@) == Ok::<PackView, RenderFault>(p@),
            Err(f) => rendered(render, *templates, tools@) == Err::<PackView, RenderFault>(f),
        },
{
    match render {
        WorkflowRender::SearchThenInspect => Ok(render_search_then_inspect(templates, tools)),
        WorkflowRender::AnchoredEdit => Ok(render_anchored_edit(templates, tools)),
        WorkflowRender::SpecializedRouting => render_specialized_routing(templates, tools),
        WorkflowRender::SpecializedMutationRouting => render_specialized_mutation_routing(
            templates,
            tools,
        ),
        WorkflowRender::PythonRouting => Ok(render_python_routing(templates, tools)),
        WorkflowRender::PlanLifecycle => Ok(render_plan_lifecycle(templates, tools)),
    }
}

} // verus!
