//! The workflows that every session chooses from.

use crate::prompt::facts::{fact_views, FactView, PromptFact};
use crate::prompt::render::can_render;
use crate::prompt::requirement::{workflow_ids, RequirementView, WorkflowRequirement};
use crate::prompt::workflows::{
    base_facts, dependency_fault, depends, depends_on_itself, entry_fault, facts_with,
    first_dependency_fault, first_entry_fault, is_dependency_cycle, is_valid, settled,
    settled_is_satisfied, workflow_views, PromptWorkflowResolver, PromptWorkflowSpec,
    WorkflowRender, WorkflowView,
};
use crate::tools::{ToolBinding, ToolSemanticCapability};
use vstd::prelude::*;

verus! {

spec fn tool(c: ToolSemanticCapability) -> FactView {
    FactView::ToolCapability(c)
}

spec fn routed(c: ToolSemanticCapability) -> FactView {
    FactView::SpecializedWithFallback(c)
}

/// A workflow outside any exclusive group, with its id as its tag.
pub open spec fn plain_workflow(
    id: Seq<char>,
    requirement: RequirementView,
    render: WorkflowRender,
) -> WorkflowView {
    WorkflowView { id, tag: id, requirement, group: None, priority: 100, render }
}

/// The workflows that every session chooses from.
pub open spec fn builtin_workflows() -> Seq<WorkflowView> {
    seq![
        plain_workflow(
            "search-then-inspect"@,
            RequirementView::All(
                seq![
                    FactView::ToolCapability(ToolSemanticCapability::ContentSearch),
                    FactView::ToolCapability(ToolSemanticCapability::PathRead),
                ],
            ),
            WorkflowRender::SearchThenInspect,
        ),
        plain_workflow(
            "anchored-edit"@,
            RequirementView::All(
                seq![
                    FactView::ToolCapability(ToolSemanticCapability::EditableSnapshotRead),
                    FactView::ToolCapability(ToolSemanticCapability::AnchoredEdit),
                ],
            ),
            WorkflowRender::AnchoredEdit,
        ),
        plain_workflow(
            "specialized-provider-routing"@,
            RequirementView::Any(
                seq![
                    FactView::SpecializedWithFallback(ToolSemanticCapability::PathRead),
                    FactView::SpecializedWithFallback(ToolSemanticCapability::ContentSearch),
                    FactView::SpecializedWithFallback(ToolSemanticCapability::PathDiscovery),
                ],
            ),
            WorkflowRender::SpecializedRouting,
        ),
        plain_workflow(
            "specialized-mutation-routing"@,
            RequirementView::AllWithAny {
                all: seq![FactView::ToolCapability(ToolSemanticCapability::ShellExec)],
                any: seq![
                    FactView::ToolCapability(ToolSemanticCapability::FileCreate),
                    FactView::ToolCapability(ToolSemanticCapability::FileOverwrite),
                    FactView::ToolCapability(ToolSemanticCapability::AnchoredEdit),
                ],
            },
            WorkflowRender::SpecializedMutationRouting,
        ),
        plain_workflow(
            "python-execution-routing"@,
            RequirementView::Any(
                seq![
                    FactView::ToolCapability(ToolSemanticCapability::HostPythonExec),
                    FactView::ToolCapability(ToolSemanticCapability::SandboxedPythonExec),
                ],
            ),
            WorkflowRender::PythonRouting,
        ),
        plain_workflow(
            "plan-lifecycle"@,
            RequirementView::All(
                seq![
                    FactView::ToolCapability(ToolSemanticCapability::PlanDraft),
                    FactView::ToolCapability(ToolSemanticCapability::PlanConfirm),
                    FactView::ToolCapability(ToolSemanticCapability::PlanClear),
                ],
            ),
            WorkflowRender::PlanLifecycle,
        ),
    ]
}

fn provided(c: ToolSemanticCapability) -> (r: PromptFact)
    ensures
        r@ == FactView::ToolCapability(c),
{
    PromptFact::ToolCapability(c)
}

fn plain(id: &str, requirement: WorkflowRequirement, render: WorkflowRender) -> (r:
    PromptWorkflowSpec)
    ensures
        r@ == plain_workflow(id@, requirement@, render),
{
    PromptWorkflowSpec {
        id: id.to_owned(),
        tag: id.to_owned(),
        requirement,
        exclusive_group: None,
        priority: 100,
        render,
    }
}

fn search_workflow() -> (r: PromptWorkflowSpec)
    ensures
        r@ == builtin_workflows()[0],
{
    let w: Vec<PromptFact> = vec![
        provided(ToolSemanticCapability::ContentSearch),
        provided(ToolSemanticCapability::PathRead),
    ];
    assert(fact_views(w@) =~= seq![
        tool(ToolSemanticCapability::ContentSearch),
        tool(ToolSemanticCapability::PathRead),
    ]);
    plain("search-then-inspect", WorkflowRequirement::All(w), WorkflowRender::SearchThenInspect)
}

fn edit_workflow() -> (r: PromptWorkflowSpec)
    ensures
        r@ == builtin_workflows()[1],
{
    let w: Vec<PromptFact> = vec![
        provided(ToolSemanticCapability::EditableSnapshotRead),
        provided(ToolSemanticCapability::AnchoredEdit),
    ];
    assert(fact_views(w@) =~= seq![
        tool(ToolSemanticCapability::EditableSnapshotRead),
        tool(ToolSemanticCapability::AnchoredEdit),
    ]);
    plain("anchored-edit", WorkflowRequirement::All(w), WorkflowRender::AnchoredEdit)
}

fn routing_workflow() -> (r: PromptWorkflowSpec)
    ensures
        r@ == builtin_workflows()[2],
{
    let w: Vec<PromptFact> = vec![
        PromptFact::SpecializedWithFallback(ToolSemanticCapability::PathRead),
        PromptFact::SpecializedWithFallback(ToolSemanticCapability::ContentSearch),
        PromptFact::SpecializedWithFallback(ToolSemanticCapability::PathDiscovery),
    ];
    assert(fact_views(w@) =~= seq![
        routed(ToolSemanticCapability::PathRead),
        routed(ToolSemanticCapability::ContentSearch),
        routed(ToolSemanticCapability::PathDiscovery),
    ]);
    plain(
        "specialized-provider-routing",
        WorkflowRequirement::Any(w),
        WorkflowRender::SpecializedRouting,
    )
}

fn mutation_workflow() -> (r: PromptWorkflowSpec)
    ensures
        r@ == builtin_workflows()[3],
{
    let all: Vec<PromptFact> = vec![provided(ToolSemanticCapability::ShellExec)];
    let any: Vec<PromptFact> = vec![
        provided(ToolSemanticCapability::FileCreate),
        provided(ToolSemanticCapability::FileOverwrite),
        provided(ToolSemanticCapability::AnchoredEdit),
    ];
    assert(fact_views(all@) =~= seq![tool(ToolSemanticCapability::ShellExec)]);
    assert(fact_views(any@) =~= seq![
        tool(ToolSemanticCapability::FileCreate),
        tool(ToolSemanticCapability::FileOverwrite),
        tool(ToolSemanticCapability::AnchoredEdit),
    ]);
    plain(
        "specialized-mutation-routing",
        WorkflowRequirement::AllWithAny { all, any },
        WorkflowRender::SpecializedMutationRouting,
    )
}

fn python_workflow() -> (r: PromptWorkflowSpec)
    ensures
        r@ == builtin_workflows()[4],
{
    let w: Vec<PromptFact> = vec![
        provided(ToolSemanticCapability::HostPythonExec),
        provided(ToolSemanticCapability::SandboxedPythonExec),
    ];
    assert(fact_views(w@) =~= seq![
        tool(ToolSemanticCapability::HostPythonExec),
        tool(ToolSemanticCapability::SandboxedPythonExec),
    ]);
    plain("python-execution-routing", WorkflowRequirement::Any(w), WorkflowRender::PythonRouting)
}

fn plan_workflow() -> (r: PromptWorkflowSpec)
    ensures
        r@ == builtin_workflows()[5],
{
    let w: Vec<PromptFact> = vec![
        provided(ToolSemanticCapability::PlanDraft),
        provided(ToolSemanticCapability::PlanConfirm),
        provided(ToolSemanticCapability::PlanClear),
    ];
    assert(fact_views(w@) =~= seq![
        tool(ToolSemanticCapability::PlanDraft),
        tool(ToolSemanticCapability::PlanConfirm),
        tool(ToolSemanticCapability::PlanClear),
    ]);
    plain("plan-lifecycle", WorkflowRequirement::All(w), WorkflowRender::PlanLifecycle)
}

impl PromptWorkflowResolver {
    /// The resolver of the workflows that every session chooses from.
    pub fn builtin() -> (r: PromptWorkflowResolver)
        ensures
            workflow_views(r.specs@) == builtin_workflows(),
    {
        let specs: Vec<PromptWorkflowSpec> = vec![
            search_workflow(),
            edit_workflow(),
            routing_workflow(),
            mutation_workflow(),
            python_workflow(),
            plan_workflow(),
        ];
        assert(workflow_views(specs@) =~= builtin_workflows());
        PromptWorkflowResolver { specs }
    }
}

proof fn lemma_builtin_ids()
    ensures
        forall|i: int, j: int|
            0 <= i < j < 6 ==> (#[trigger] builtin_workflows()[i]).id != (
            #[trigger] builtin_workflows()[j]).id,
{
    reveal_strlit("search-then-inspect");
    reveal_strlit("anchored-edit");
    reveal_strlit("specialized-provider-routing");
    reveal_strlit("specialized-mutation-routing");
    reveal_strlit("python-execution-routing");
    reveal_strlit("plan-lifecycle");
    let b = builtin_workflows();
    assert(b[0].id.len() == 19);
    assert(b[1].id.len() == 13);
    assert(b[2].id.len() == 28);
    assert(b[3].id.len() == 28);
    assert(b[4].id.len() == 24);
    assert(b[5].id.len() == 14);
    assert(b[2].id[12] == 'p');
    assert(b[3].id[12] == 'm');
}

proof fn lemma_no_workflow_named(facts: Seq<FactView>)
    requires
        forall|i: int| 0 <= i < facts.len() ==> !(#[trigger] facts[i] is Workflow),
    ensures
        workflow_ids(facts) == Seq::<Seq<char>>::empty(),
    decreases facts.len(),
{
    if facts.len() > 0 {
        assert(!(facts[facts.len() - 1] is Workflow));
        lemma_no_workflow_named(facts.drop_last());
    }
}

/// The workflows that every session chooses from are accepted.
pub proof fn builtin_is_valid()
    ensures
        is_valid(builtin_workflows()),
{
    let all = builtin_workflows();
    lemma_builtin_ids();
    assert forall|i: int| 0 <= i < 6 implies entry_fault(all, i) is None && (
    #[trigger] all[i]).requirement.dependencies() == Seq::<Seq<char>>::empty() by {
        assert forall|j: int| 0 <= j < i implies (#[trigger] all[j]).id != all[i].id && all[j].tag
            != all[i].tag by {}
        lemma_no_workflow_named(all[i].requirement.named());
    }
    assert(entry_fault(all, 0) is None && entry_fault(all, 1) is None && entry_fault(all, 2) is None
        && entry_fault(all, 3) is None && entry_fault(all, 4) is None && entry_fault(all, 5)
        is None) by {
        assert(all[0].requirement.dependencies().len() == 0);
        assert(all[1].requirement.dependencies().len() == 0);
        assert(all[2].requirement.dependencies().len() == 0);
        assert(all[3].requirement.dependencies().len() == 0);
        assert(all[4].requirement.dependencies().len() == 0);
        assert(all[5].requirement.dependencies().len() == 0);
    }
    reveal_with_fuel(first_entry_fault, 7);
    reveal_with_fuel(first_dependency_fault, 7);
    assert(first_entry_fault(all, 0) is None);
    assert forall|i: int| 0 <= i < 6 implies dependency_fault(all, #[trigger] all[i], 0) is None by {
        assert(all[i].requirement.dependencies().len() == 0);
    }
    assert(first_dependency_fault(all, 0) is None);
    assert forall|i: int| !depends_on_itself(all, i) by {
        if depends_on_itself(all, i) {
            let p = choose|p: Seq<int>| is_dependency_cycle(all, p, i);
            assert(depends(all, p[0], p[0int + 1]));
            assert(all[i].requirement.dependencies().len() == 0);
        }
    }
}

/// A workflow that every session chooses from applies exactly where the facts that the tools
/// give meet its requirement.
pub proof fn builtin_applies_iff_satisfied(
    tools: Map<ToolSemanticCapability, ToolBinding>,
    i: int,
)
    requires
        0 <= i < 6,
    ensures
        settled(builtin_workflows(), base_facts(tools))[i]
            == builtin_workflows()[i].requirement.satisfied(base_facts(tools)),
{
    let all = builtin_workflows();
    let base = base_facts(tools);
    let end = settled(all, base);
    let held = facts_with(all, base, end);
    assert forall|f: FactView| !(f is Workflow) implies base.contains(f) == held.contains(f) by {}
    lemma_requirement_of_tools(i, base, held);
    if end[i] {
        settled_is_satisfied(all, base, 6, i);
    } else {
        crate::prompt::workflows::settled_leaves_none_eligible(all, base, i);
    }
}

proof fn lemma_requirement_of_tools(i: int, a: Set<FactView>, b: Set<FactView>)
    requires
        0 <= i < 6,
        forall|f: FactView| !(f is Workflow) ==> a.contains(f) == b.contains(f),
    ensures
        builtin_workflows()[i].requirement.satisfied(a)
            == builtin_workflows()[i].requirement.satisfied(b),
{
    let w = builtin_workflows()[i].requirement.named();
    assert forall|k: int| 0 <= k < w.len() implies a.contains(#[trigger] w[k]) == b.contains(w[k]) by {}
    match builtin_workflows()[i].requirement {
        RequirementView::AllWithAny { all, any } => {
            assert forall|k: int| 0 <= k < all.len() implies a.contains(#[trigger] all[k])
                == b.contains(all[k]) by {
                assert(w[k] == all[k]);
            }
            assert forall|k: int| 0 <= k < any.len() implies a.contains(#[trigger] any[k])
                == b.contains(any[k]) by {
                assert(w[all.len() + k] == any[k]);
            }
        },
        _ => {},
    }
}

/// The tools that the text of an applying workflow cannot do without are there.
pub proof fn builtin_can_render(tools: Map<ToolSemanticCapability, ToolBinding>, i: int)
    requires
        0 <= i < 6,
        settled(builtin_workflows(), base_facts(tools))[i],
    ensures
        can_render(builtin_workflows()[i].render, tools),
{
    builtin_applies_iff_satisfied(tools, i);
    let base = base_facts(tools);
    match builtin_workflows()[i].requirement {
        RequirementView::All(w) => {
            assert(base.contains(w[0]));
            assert(base.contains(w[1]));
            if i == 5 {
                assert(base.contains(w[2]));
            }
        },
        RequirementView::AllWithAny { all, any } => {
            assert(base.contains(all[0]));
        },
        _ => {},
    }
}

} // verus!
