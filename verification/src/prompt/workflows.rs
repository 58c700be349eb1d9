//! Which prompt workflows apply to the tools of a session.

use crate::hash::{digest_text, text_digest};
use crate::prompt::facts::{
    fact_key_is_unique, fact_keys, fact_views, FactSet, FactView, PromptFact,
};
use crate::prompt::graph::{closed_graph, edge, find_cycle, is_cycle, on_cycle};
use crate::prompt::requirement::{
    satisfied_is_monotone, RequirementView, WorkflowRequirement,
};
use crate::sets::{ascending, ascending_is_determined, NameSet};
use crate::text::{debug_text, debug_text_of, opt_view, same_text, views};
use crate::tools::{ResolvedToolCapabilities, ToolBinding, ToolSemanticCapability};
use vstd::prelude::*;

verus! {

/// Which text a workflow adds to the prompt.
#[derive(Clone, Copy, Debug, PartialEq, Eq, Structural)]
pub enum WorkflowRender {
    SearchThenInspect,
    AnchoredEdit,
    SpecializedRouting,
    SpecializedMutationRouting,
    PythonRouting,
    PlanLifecycle,
}

/// A workflow: what it needs, and what it adds to the prompt.
#[derive(Debug)]
pub struct PromptWorkflowSpec {
    pub id: String,
    pub tag: String,
    pub requirement: WorkflowRequirement,
    pub exclusive_group: Option<String>,
    pub priority: u16,
    pub render: WorkflowRender,
}

/// What a [`PromptWorkflowSpec`] says.
pub struct WorkflowView {
    pub id: Seq<char>,
    pub tag: Seq<char>,
    pub requirement: RequirementView,
    pub group: Option<Seq<char>>,
    pub priority: u16,
    pub render: WorkflowRender,
}

impl View for PromptWorkflowSpec {
    type V = WorkflowView;

    open spec fn view(&self) -> WorkflowView {
        WorkflowView {
            id: self.id@,
            tag: self.tag@,
            requirement: self.requirement@,
            group: opt_view(self.exclusive_group),
            priority: self.priority,
            render: self.render,
        }
    }
}

/// The views of a sequence of workflows.
pub open spec fn workflow_views(specs: Seq<PromptWorkflowSpec>) -> Seq<WorkflowView> {
    specs.map_values(|s: PromptWorkflowSpec| s@)
}

/// Why a list of workflows is refused.
#[derive(Debug)]
pub enum WorkflowFault {
    DuplicateId(String),
    DuplicateTag(String),
    EmptyRequirement,
    IncompleteRequirement,
    UnknownUpstream(String),
    SelfDependency(String),
    Cycle(String),
}

/// What a [`WorkflowFault`] says.
pub enum FaultView {
    DuplicateId(Seq<char>),
    DuplicateTag(Seq<char>),
    EmptyRequirement,
    IncompleteRequirement,
    UnknownUpstream(Seq<char>),
    SelfDependency(Seq<char>),
    Cycle(Seq<char>),
}

impl View for WorkflowFault {
    type V = FaultView;

    open spec fn view(&self) -> FaultView {
        match *self {
            WorkflowFault::DuplicateId(s) => FaultView::DuplicateId(s@),
            WorkflowFault::DuplicateTag(s) => FaultView::DuplicateTag(s@),
            WorkflowFault::EmptyRequirement => FaultView::EmptyRequirement,
            WorkflowFault::IncompleteRequirement => FaultView::IncompleteRequirement,
            WorkflowFault::UnknownUpstream(s) => FaultView::UnknownUpstream(s@),
            WorkflowFault::SelfDependency(s) => FaultView::SelfDependency(s@),
            WorkflowFault::Cycle(s) => FaultView::Cycle(s@),
        }
    }
}

impl FaultView {
    /// The fault in words.
    pub open spec fn message(self) -> Seq<char> {
        match self {
            FaultView::DuplicateId(s) => "duplicate workflow id '"@ + s + "'"@,
            FaultView::DuplicateTag(s) => "duplicate workflow tag '"@ + s + "'"@,
            FaultView::EmptyRequirement => "workflow requirement cannot be empty"@,
            FaultView::IncompleteRequirement
                => "Condition failed: `!all.is_empty() && !any.is_empty()`"@,
            FaultView::UnknownUpstream(s) => "unknown upstream workflow '"@ + s + "'"@,
            FaultView::SelfDependency(s) => "workflow '"@ + s + "' depends on itself"@,
            FaultView::Cycle(s) => "cycle in prompt workflow dependencies at '"@ + s + "'"@,
        }
    }
}

impl WorkflowFault {
    /// The fault in words.
    pub fn message(&self) -> (r: String)
        ensures
            r@ == self@.message(),
    {
        match self {
            WorkflowFault::DuplicateId(s) => "duplicate workflow id '".to_owned().concat(
                s.as_str(),
            ).concat("'"),
            WorkflowFault::DuplicateTag(s) => "duplicate workflow tag '".to_owned().concat(
                s.as_str(),
            ).concat("'"),
            WorkflowFault::EmptyRequirement => "workflow requirement cannot be empty".to_owned(),
            WorkflowFault::IncompleteRequirement
                => "Condition failed: `!all.is_empty() && !any.is_empty()`".to_owned(),
            WorkflowFault::UnknownUpstream(s) => "unknown upstream workflow '".to_owned().concat(
                s.as_str(),
            ).concat("'"),
            WorkflowFault::SelfDependency(s) => "workflow '".to_owned().concat(s.as_str()).concat(
                "' depends on itself",
            ),
            WorkflowFault::Cycle(s) => "cycle in prompt workflow dependencies at '".to_owned().concat(
                s.as_str(),
            ).concat("'"),
        }
    }
}

/// What is wrong with the workflow at `i` by itself and beside those before it.
pub open spec fn entry_fault(specs: Seq<WorkflowView>, i: int) -> Option<FaultView> {
    if exists|j: int| 0 <= j < i && (#[trigger] specs[j]).id == specs[i].id {
        Some(FaultView::DuplicateId(specs[i].id))
    } else if exists|j: int| 0 <= j < i && (#[trigger] specs[j]).tag == specs[i].tag {
        Some(FaultView::DuplicateTag(specs[i].tag))
    } else {
        match specs[i].requirement {
            RequirementView::All(w) if w.len() == 0 => Some(FaultView::EmptyRequirement),
            RequirementView::Any(w) if w.len() == 0 => Some(FaultView::EmptyRequirement),
            RequirementView::AllWithAny { all, any } if all.len() == 0 || any.len() == 0 => Some(
                FaultView::IncompleteRequirement,
            ),
            _ => None,
        }
    }
}

/// The first fault of an entry from `i` on.
pub open spec fn first_entry_fault(specs: Seq<WorkflowView>, i: int) -> Option<FaultView>
    decreases specs.len() - i,
{
    if i < 0 || i >= specs.len() {
        None
    } else if entry_fault(specs, i) is Some {
        entry_fault(specs, i)
    } else {
        first_entry_fault(specs, i + 1)
    }
}

/// Whether some workflow has `id`.
pub open spec fn is_known(specs: Seq<WorkflowView>, id: Seq<char>) -> bool {
    exists|j: int| 0 <= j < specs.len() && (#[trigger] specs[j]).id == id
}

/// The first fault among what `spec` depends on, from `k` on.
pub open spec fn dependency_fault(
    specs: Seq<WorkflowView>,
    spec: WorkflowView,
    k: int,
) -> Option<FaultView>
    decreases spec.requirement.dependencies().len() - k,
{
    let deps = spec.requirement.dependencies();
    if k < 0 || k >= deps.len() {
        None
    } else if !is_known(specs, deps[k]) {
        Some(FaultView::UnknownUpstream(deps[k]))
    } else if deps[k] == spec.id {
        Some(FaultView::SelfDependency(spec.id))
    } else {
        dependency_fault(specs, spec, k + 1)
    }
}

/// The first fault of a dependency of the workflows from `i` on.
pub open spec fn first_dependency_fault(specs: Seq<WorkflowView>, i: int) -> Option<FaultView>
    decreases specs.len() - i,
{
    if i < 0 || i >= specs.len() {
        None
    } else if dependency_fault(specs, specs[i], 0) is Some {
        dependency_fault(specs, specs[i], 0)
    } else {
        first_dependency_fault(specs, i + 1)
    }
}

/// Whether the workflow at `i` depends directly on the one at `j`.
pub open spec fn depends(specs: Seq<WorkflowView>, i: int, j: int) -> bool {
    0 <= i < specs.len() && 0 <= j < specs.len() && specs[i].requirement.dependencies().contains(
        specs[j].id,
    )
}

/// Whether `p` goes from the workflow at `i` along at least one dependency back to it.
pub open spec fn is_dependency_cycle(specs: Seq<WorkflowView>, p: Seq<int>, i: int) -> bool {
    &&& p.len() > 1
    &&& p[0] == i
    &&& p.last() == i
    &&& forall|k: int| 0 <= k < p.len() - 1 ==> depends(specs, #[trigger] p[k], p[k + 1])
}

/// Whether the workflow at `i` depends on itself through others.
pub open spec fn depends_on_itself(specs: Seq<WorkflowView>, i: int) -> bool {
    exists|p: Seq<int>| is_dependency_cycle(specs, p, i)
}

/// Whether a list of workflows is accepted.
pub open spec fn is_valid(specs: Seq<WorkflowView>) -> bool {
    &&& first_entry_fault(specs, 0) is None
    &&& first_dependency_fault(specs, 0) is None
    &&& forall|i: int| !depends_on_itself(specs, i)
}

proof fn lemma_no_entry_fault(specs: Seq<WorkflowView>, from: int, i: int)
    requires
        0 <= from <= i < specs.len(),
        first_entry_fault(specs, from) is None,
    ensures
        entry_fault(specs, i) is None,
    decreases i - from,
{
    if from < i {
        lemma_no_entry_fault(specs, from + 1, i);
    }
}

/// In an accepted list no two workflows have the same id.
pub proof fn valid_ids_are_distinct(specs: Seq<WorkflowView>, i: int, j: int)
    requires
        first_entry_fault(specs, 0) is None,
        0 <= i < j < specs.len(),
    ensures
        specs[i].id != specs[j].id,
        specs[i].tag != specs[j].tag,
{
    lemma_no_entry_fault(specs, 0, j);
}

proof fn lemma_dependencies_known(specs: Seq<WorkflowView>, spec: WorkflowView, from: int, k: int)
    requires
        0 <= from <= k < spec.requirement.dependencies().len(),
        dependency_fault(specs, spec, from) is None,
    ensures
        is_known(specs, spec.requirement.dependencies()[k]),
    decreases k - from,
{
    if from < k {
        lemma_dependencies_known(specs, spec, from + 1, k);
    }
}

proof fn lemma_no_dependency_fault(specs: Seq<WorkflowView>, from: int, i: int)
    requires
        0 <= from <= i < specs.len(),
        first_dependency_fault(specs, from) is None,
    ensures
        dependency_fault(specs, specs[i], 0) is None,
    decreases i - from,
{
    if from < i {
        lemma_no_dependency_fault(specs, from + 1, i);
    }
}

/// A list of workflows of which those that apply are chosen.
pub struct PromptWorkflowResolver {
    pub specs: Vec<PromptWorkflowSpec>,
}

impl PromptWorkflowResolver {
    /// The workflow with `id`.
    fn position(&self, id: &str) -> (r: Option<usize>)
        ensures
            match r {
                Some(j) => j < self.specs@.len() && self.specs@[j as int].id@ == id@,
                None => !is_known(workflow_views(self.specs@), id@),
            },
    {
        let mut j: usize = 0;
        while j < self.specs.len()
            invariant
                j <= self.specs@.len(),
                forall|k: int| 0 <= k < j ==> (#[trigger] workflow_views(self.specs@)[k]).id != id@,
            decreases self.specs@.len() - j,
        {
            if same_text(self.specs[j].id.as_str(), id) {
                return Some(j);
            }
            assert(workflow_views(self.specs@)[j as int] == self.specs@[j as int]@);
            j += 1;
        }
        None
    }

    fn entry_fault_at(&self, i: usize) -> (r: Option<WorkflowFault>)
        requires
            i < self.specs@.len(),
        ensures
            match r {
                Some(f) => entry_fault(workflow_views(self.specs@), i as int) == Some(f@),
                None => entry_fault(workflow_views(self.specs@), i as int) is None,
            },
    {
        let ghost all = workflow_views(self.specs@);
        let spec: &PromptWorkflowSpec = &self.specs[i];
        assert(all[i as int] == spec@);
        let mut same_tag: bool = false;
        let mut j: usize = 0;
        while j < i
            invariant
                j <= i < self.specs@.len(),
                all == workflow_views(self.specs@),
                spec@ == all[i as int],
                spec.id@ == all[i as int].id,
                forall|k: int| 0 <= k < j ==> (#[trigger] all[k]).id != spec.id@,
                same_tag == exists|k: int| 0 <= k < j && (#[trigger] all[k]).tag == spec.tag@,
            decreases i - j,
        {
            assert(all[j as int] == self.specs@[j as int]@);
            if same_text(self.specs[j].id.as_str(), spec.id.as_str()) {
                return Some(WorkflowFault::DuplicateId(spec.id.clone()));
            }
            if same_text(self.specs[j].tag.as_str(), spec.tag.as_str()) {
                same_tag = true;
            }
            j += 1;
        }
        if same_tag {
            return Some(WorkflowFault::DuplicateTag(spec.tag.clone()));
        }
        match &spec.requirement {
            WorkflowRequirement::All(w) => {
                if w.len() == 0 {
                    return Some(WorkflowFault::EmptyRequirement);
                }
            },
            WorkflowRequirement::Any(w) => {
                if w.len() == 0 {
                    return Some(WorkflowFault::EmptyRequirement);
                }
            },
            WorkflowRequirement::AllWithAny { all, any } => {
                if all.len() == 0 || any.len() == 0 {
                    return Some(WorkflowFault::IncompleteRequirement);
                }
            },
            WorkflowRequirement::Fact(_) => {},
        }
        None
    }

    fn dependency_fault_at(&self, i: usize) -> (r: Option<WorkflowFault>)
        requires
            i < self.specs@.len(),
        ensures
            match r {
                Some(f) => dependency_fault(
                    workflow_views(self.specs@),
                    workflow_views(self.specs@)[i as int],
                    0,
                ) == Some(f@),
                None => dependency_fault(
                    workflow_views(self.specs@),
                    workflow_views(self.specs@)[i as int],
                    0,
                ) is None,
            },
    {
        let ghost all = workflow_views(self.specs@);
        let spec: &PromptWorkflowSpec = &self.specs[i];
        assert(all[i as int] == spec@);
        let deps: Vec<String> = spec.requirement.workflow_dependencies();
        let mut k: usize = 0;
        while k < deps.len()
            invariant
                k <= deps@.len(),
                all == workflow_views(self.specs@),
                i < self.specs@.len(),
                spec@ == all[i as int],
                views(deps@) == spec@.requirement.dependencies(),
                dependency_fault(all, spec@, 0) == dependency_fault(all, spec@, k as int),
            decreases deps@.len() - k,
        {
            assert(views(deps@)[k as int] == deps@[k as int]@);
            match self.position(deps[k].as_str()) {
                None => {
                    return Some(WorkflowFault::UnknownUpstream(deps[k].clone()));
                },
                Some(j) => {
                    assert(all[j as int] == self.specs@[j as int]@);
                },
            }
            if same_text(deps[k].as_str(), spec.id.as_str()) {
                return Some(WorkflowFault::SelfDependency(spec.id.clone()));
            }
            k += 1;
        }
        None
    }

    /// The places of what each workflow depends on.
    fn dependency_graph(&self) -> (g: Vec<Vec<usize>>)
        requires
            first_entry_fault(workflow_views(self.specs@), 0) is None,
            first_dependency_fault(workflow_views(self.specs@), 0) is None,
        ensures
            g@.len() == self.specs@.len(),
            closed_graph(g@),
            forall|i: int, j: int| edge(g@, i, j) == depends(workflow_views(self.specs@), i, j),
    {
        let ghost all = workflow_views(self.specs@);
        let mut g: Vec<Vec<usize>> = Vec::new();
        let mut i: usize = 0;
        while i < self.specs.len()
            invariant
                i <= self.specs@.len(),
                all == workflow_views(self.specs@),
                first_dependency_fault(all, 0) is None,
                g@.len() == i,
                forall|a: int, k: int|
                    0 <= a < i && 0 <= k < g@[a]@.len() ==> (#[trigger] g@[a]@[k])
                        < self.specs@.len(),
                forall|a: int|
                    #![trigger g@[a]]
                    0 <= a < i ==> g@[a]@.len() == all[a].requirement.dependencies().len(),
                forall|a: int, k: int|
                    0 <= a < i && 0 <= k < g@[a]@.len() ==> all[(#[trigger] g@[a]@[k]) as int].id
                        == all[a].requirement.dependencies()[k],
            decreases self.specs@.len() - i,
        {
            let deps: Vec<String> = self.specs[i].requirement.workflow_dependencies();
            assert(all[i as int] == self.specs@[i as int]@);
            let mut row: Vec<usize> = Vec::new();
            let mut k: usize = 0;
            while k < deps.len()
                invariant
                    k <= deps@.len(),
                    i < self.specs@.len(),
                    all == workflow_views(self.specs@),
                    first_dependency_fault(all, 0) is None,
                    views(deps@) == all[i as int].requirement.dependencies(),
                    row@.len() == k,
                    forall|m: int| 0 <= m < k ==> (#[trigger] row@[m]) < self.specs@.len(),
                    forall|m: int|
                        0 <= m < k ==> all[(#[trigger] row@[m]) as int].id
                            == all[i as int].requirement.dependencies()[m],
                decreases deps@.len() - k,
            {
                proof {
                    assert(views(deps@)[k as int] == deps@[k as int]@);
                    lemma_no_dependency_fault(all, 0, i as int);
                    lemma_dependencies_known(all, all[i as int], 0, k as int);
                }
                match self.position(deps[k].as_str()) {
                    Some(j) => {
                        assert(all[j as int] == self.specs@[j as int]@);
                        row.push(j);
                    },
                    None => {},
                }
                k += 1;
            }
            g.push(row);
            i += 1;
        }
        proof {
            assert forall|i: int, j: int| edge(g@, i, j) == depends(all, i, j) by {
                if edge(g@, i, j) {
                    let k = choose|k: int| 0 <= k < g@[i]@.len() && #[trigger] g@[i]@[k] == j;
                    assert(all[i].requirement.dependencies()[k] == all[j].id);
                }
                if depends(all, i, j) {
                    let deps = all[i].requirement.dependencies();
                    let k = choose|k: int| 0 <= k < deps.len() && deps[k] == all[j].id;
                    let m = g@[i]@[k] as int;
                    assert(all[m].id == all[j].id);
                    if m < j {
                        valid_ids_are_distinct(all, m, j);
                    } else if j < m {
                        valid_ids_are_distinct(all, j, m);
                    }
                }
            }
        }
        g
    }

    /// Refuses a list with a repeated id or tag, an empty requirement, an unknown upstream
    /// workflow or a cycle of dependencies. A cycle is reported at a workflow that lies on it.
    pub fn validate(&self) -> (r: Result<(), WorkflowFault>)
        ensures
            r is Ok <==> is_valid(workflow_views(self.specs@)),
            r matches Err(f) ==> {
                let all = workflow_views(self.specs@);
                if first_entry_fault(all, 0) is Some {
                    Some(f@) == first_entry_fault(all, 0)
                } else if first_dependency_fault(all, 0) is Some {
                    Some(f@) == first_dependency_fault(all, 0)
                } else {
                    exists|i: int|
                        0 <= i < all.len() && #[trigger] depends_on_itself(all, i) && f@
                            == FaultView::Cycle(all[i].id)
                }
            },
    {
        let ghost all = workflow_views(self.specs@);
        let mut i: usize = 0;
        while i < self.specs.len()
            invariant
                i <= self.specs@.len(),
                all == workflow_views(self.specs@),
                first_entry_fault(all, 0) == first_entry_fault(all, i as int),
            decreases self.specs@.len() - i,
        {
            match self.entry_fault_at(i) {
                Some(f) => {
                    return Err(f);
                },
                None => {},
            }
            i += 1;
        }
        let mut i: usize = 0;
        while i < self.specs.len()
            invariant
                i <= self.specs@.len(),
                all == workflow_views(self.specs@),
                first_entry_fault(all, 0) is None,
                first_dependency_fault(all, 0) == first_dependency_fault(all, i as int),
            decreases self.specs@.len() - i,
        {
            match self.dependency_fault_at(i) {
                Some(f) => {
                    return Err(f);
                },
                None => {},
            }
            i += 1;
        }
        let g: Vec<Vec<usize>> = self.dependency_graph();
        let starts: Vec<usize> = self.places_by_id();
        proof {
            assert forall|p: Seq<int>, i: int| is_cycle(g@, p, i) == is_dependency_cycle(
                all,
                p,
                i,
            ) by {
                if is_cycle(g@, p, i) {
                    assert forall|k: int| 0 <= k < p.len() - 1 implies depends(
                        all,
                        #[trigger] p[k],
                        p[k + 1],
                    ) by {
                        assert(edge(g@, p[k], p[k + 1]));
                    }
                }
                if is_dependency_cycle(all, p, i) {
                    assert forall|k: int| 0 <= k < p.len() - 1 implies edge(
                        g@,
                        #[trigger] p[k],
                        p[k + 1],
                    ) by {
                        assert(depends(all, p[k], p[k + 1]));
                    }
                }
            }
            assert forall|i: int| on_cycle(g@, i) == depends_on_itself(all, i) by {
                if on_cycle(g@, i) {
                    let p = choose|p: Seq<int>| is_cycle(g@, p, i);
                    assert(is_dependency_cycle(all, p, i));
                }
                if depends_on_itself(all, i) {
                    let p = choose|p: Seq<int>| is_dependency_cycle(all, p, i);
                    assert(is_cycle(g@, p, i));
                }
            }
        }
        match find_cycle(&g, &starts) {
            Ok(()) => {
                assert forall|i: int| !depends_on_itself(all, i) by {
                    assert(on_cycle(g@, i) == depends_on_itself(all, i));
                }
                Ok(())
            },
            Err(x) => {
                assert(all[x as int] == self.specs@[x as int]@);
                assert(on_cycle(g@, x as int) == depends_on_itself(all, x as int));
                Err(WorkflowFault::Cycle(self.specs[x].id.clone()))
            },
        }
    }

    /// The places of the workflows in ascending order of their ids.
    fn places_by_id(&self) -> (r: Vec<usize>)
        requires
            first_entry_fault(workflow_views(self.specs@), 0) is None,
        ensures
            forall|i: int| 0 <= i < r@.len() ==> (#[trigger] r@[i]) < self.specs@.len(),
            forall|n: usize| n < self.specs@.len() ==> r@.contains(n),
    {
        let ghost all = workflow_views(self.specs@);
        let mut ids: NameSet = NameSet::new();
        let mut i: usize = 0;
        while i < self.specs.len()
            invariant
                i <= self.specs@.len(),
                forall|k: int| 0 <= k < i ==> ids@.contains((#[trigger] self.specs@[k]).id@),
            decreases self.specs@.len() - i,
        {
            ids.insert(self.specs[i].id.as_str());
            i += 1;
        }
        let names: &Vec<String> = ids.names();
        let mut out: Vec<usize> = Vec::new();
        let mut k: usize = 0;
        while k < names.len()
            invariant
                k <= names@.len(),
                all == workflow_views(self.specs@),
                forall|m: int| 0 <= m < out@.len() ==> (#[trigger] out@[m]) < self.specs@.len(),
                forall|m: int|
                    0 <= m < k && is_known(all, (#[trigger] names@[m])@) ==> exists|j: int|
                        0 <= j < out@.len() && all[(#[trigger] out@[j]) as int].id == names@[m]@,
            decreases names@.len() - k,
        {
            let ghost before = out@;
            match self.position(names[k].as_str()) {
                Some(j) => {
                    assert(all[j as int] == self.specs@[j as int]@);
                    out.push(j);
                    assert(out@[out@.len() - 1] == j);
                },
                None => {},
            }
            proof {
                assert forall|m: int|
                    0 <= m < k + 1 && is_known(all, (#[trigger] names@[m])@) implies exists|j: int|
                    0 <= j < out@.len() && all[(#[trigger] out@[j]) as int].id == names@[m]@ by {
                    if m < k {
                        let j = choose|j: int|
                            0 <= j < before.len() && all[(#[trigger] before[j]) as int].id
                                == names@[m]@;
                        assert(out@[j] == before[j]);
                    }
                }
            }
            k += 1;
        }
        proof {
            assert forall|n: usize| n < self.specs@.len() implies out@.contains(n) by {
                let id = self.specs@[n as int].id@;
                assert(all[n as int].id == id);
                assert(ids@.contains(id));
                assert(views(names@).contains(id));
                let m = choose|m: int| 0 <= m < views(names@).len() && views(names@)[m] == id;
                assert(names@[m]@ == id);
                assert(is_known(all, id));
                let j = choose|j: int|
                    0 <= j < out@.len() && all[(#[trigger] out@[j]) as int].id == id;
                let p = out@[j] as int;
                if p < n {
                    valid_ids_are_distinct(all, p, n as int);
                } else if n < p {
                    valid_ids_are_distinct(all, n as int, p);
                }
                assert(out@[j] == n);
            }
        }
        out
    }
}

/// Whether a workflow of `group` is active.
pub open spec fn is_claimed(
    specs: Seq<WorkflowView>,
    active: Seq<bool>,
    group: Option<Seq<char>>,
) -> bool {
    group is Some && exists|j: int|
        0 <= j < specs.len() && #[trigger] active[j] && specs[j].group == group
}

/// The facts that hold where the tools give `base` and the workflows marked in `active` apply.
pub open spec fn facts_with(
    specs: Seq<WorkflowView>,
    base: Set<FactView>,
    active: Seq<bool>,
) -> Set<FactView> {
    Set::new(
        |f: FactView|
            base.contains(f) || exists|j: int|
                0 <= j < specs.len() && #[trigger] active[j] && f == FactView::Workflow(
                    specs[j].id,
                ),
    )
}

/// Whether the workflow at `i` can become active beside those marked in `active`.
pub open spec fn is_eligible(
    specs: Seq<WorkflowView>,
    base: Set<FactView>,
    active: Seq<bool>,
    i: int,
) -> bool {
    &&& 0 <= i < specs.len()
    &&& !active[i]
    &&& !is_claimed(specs, active, specs[i].group)
    &&& specs[i].requirement.satisfied(facts_with(specs, base, active))
}

/// Whether `i` comes before `j` in an exclusive group: it has the higher priority, or the same
/// and the earlier place.
pub open spec fn precedes(specs: Seq<WorkflowView>, i: int, j: int) -> bool {
    specs[i].priority > specs[j].priority || (specs[i].priority == specs[j].priority && i <= j)
}

/// Whether the workflow at `i` becomes active beside those marked in `active`: it is eligible,
/// and no other eligible workflow of its exclusive group comes before it.
pub open spec fn is_winner(
    specs: Seq<WorkflowView>,
    base: Set<FactView>,
    active: Seq<bool>,
    i: int,
) -> bool {
    &&& is_eligible(specs, base, active, i)
    &&& specs[i].group is Some ==> forall|j: int|
        #[trigger] is_eligible(specs, base, active, j) && specs[j].group == specs[i].group
            ==> precedes(specs, i, j)
}

/// The workflows that are active one round after those marked in `active`.
pub open spec fn next_round(
    specs: Seq<WorkflowView>,
    base: Set<FactView>,
    active: Seq<bool>,
) -> Seq<bool> {
    Seq::new(specs.len(), |i: int| active[i] || is_winner(specs, base, active, i))
}

/// The workflows that are active after `rounds` rounds.
pub open spec fn active_after(
    specs: Seq<WorkflowView>,
    base: Set<FactView>,
    rounds: nat,
) -> Seq<bool>
    decreases rounds,
{
    if rounds == 0 {
        Seq::new(specs.len(), |i: int| false)
    } else {
        next_round(specs, base, active_after(specs, base, (rounds - 1) as nat))
    }
}

/// The workflows that apply: those that are active after as many rounds as there are workflows.
pub open spec fn settled(specs: Seq<WorkflowView>, base: Set<FactView>) -> Seq<bool> {
    active_after(specs, base, specs.len())
}

/// The first `n` workflows, without those not marked in `active`.
pub open spec fn chosen(specs: Seq<WorkflowView>, active: Seq<bool>, n: nat) -> Seq<WorkflowView>
    decreases n,
{
    if n == 0 {
        seq![]
    } else if active[n - 1] {
        chosen(specs, active, (n - 1) as nat).push(specs[n - 1])
    } else {
        chosen(specs, active, (n - 1) as nat)
    }
}

proof fn lemma_active_len(specs: Seq<WorkflowView>, base: Set<FactView>, rounds: nat)
    ensures
        active_after(specs, base, rounds).len() == specs.len(),
{
}

/// A workflow that is active stays active.
pub proof fn active_stays(
    specs: Seq<WorkflowView>,
    base: Set<FactView>,
    rounds: nat,
    later: nat,
    i: int,
)
    requires
        rounds <= later,
        0 <= i < specs.len(),
        active_after(specs, base, rounds)[i],
    ensures
        active_after(specs, base, later)[i],
    decreases later - rounds,
{
    if rounds < later {
        active_stays(specs, base, rounds, (later - 1) as nat, i);
    }
}

proof fn lemma_stable(specs: Seq<WorkflowView>, base: Set<FactView>, rounds: nat, later: nat)
    requires
        rounds <= later,
        forall|i: int| !is_eligible(specs, base, active_after(specs, base, rounds), i),
    ensures
        active_after(specs, base, later) == active_after(specs, base, rounds),
    decreases later - rounds,
{
    if rounds < later {
        lemma_stable(specs, base, rounds, (later - 1) as nat);
        let here = active_after(specs, base, rounds);
        lemma_active_len(specs, base, rounds);
        assert(next_round(specs, base, here) =~= here);
    }
}

spec fn count(active: Seq<bool>) -> nat
    decreases active.len(),
{
    if active.len() == 0 {
        0
    } else {
        count(active.drop_last()) + if active.last() {
            1nat
        } else {
            0
        }
    }
}

proof fn lemma_count(a: Seq<bool>, b: Seq<bool>)
    requires
        a.len() == b.len(),
        forall|i: int| 0 <= i < a.len() && a[i] ==> b[i],
    ensures
        count(a) <= count(b) <= b.len(),
        (exists|i: int| 0 <= i < a.len() && !a[i] && b[i]) ==> count(a) < count(b),
        count(b) == b.len() ==> forall|i: int| 0 <= i < b.len() ==> b[i],
    decreases a.len(),
{
    if a.len() > 0 {
        lemma_count(a.drop_last(), b.drop_last());
        if exists|i: int| 0 <= i < a.len() && !a[i] && b[i] {
            let i = choose|i: int| 0 <= i < a.len() && !a[i] && b[i];
            if i < a.len() - 1 {
                assert(!a.drop_last()[i] && b.drop_last()[i]);
            }
        }
        if count(b) == b.len() {
            assert forall|i: int| 0 <= i < b.len() implies b[i] by {
                if i < b.len() - 1 {
                    assert(b.drop_last()[i]);
                }
            }
        }
    }
}

/// Among the eligible workflows of the group of `i` with a place below `n`, one comes first.
proof fn lemma_first_of_group(
    specs: Seq<WorkflowView>,
    base: Set<FactView>,
    active: Seq<bool>,
    i: int,
    n: int,
) -> (w: int)
    requires
        is_eligible(specs, base, active, i),
        0 <= n <= specs.len(),
    ensures
        is_eligible(specs, base, active, w),
        specs[w].group == specs[i].group,
        forall|j: int|
            #[trigger] is_eligible(specs, base, active, j) && specs[j].group == specs[i].group && j
                < n ==> precedes(specs, w, j),
        precedes(specs, w, i),
    decreases n,
{
    if n == 0 {
        i
    } else {
        let w = lemma_first_of_group(specs, base, active, i, n - 1);
        if is_eligible(specs, base, active, n - 1) && specs[n - 1].group == specs[i].group
            && !precedes(specs, w, n - 1) {
            n - 1
        } else {
            w
        }
    }
}

proof fn lemma_round_grows(
    specs: Seq<WorkflowView>,
    base: Set<FactView>,
    active: Seq<bool>,
    i: int,
)
    requires
        active.len() == specs.len(),
        is_eligible(specs, base, active, i),
    ensures
        count(active) < count(next_round(specs, base, active)),
{
    let next = next_round(specs, base, active);
    let w = if specs[i].group is Some {
        lemma_first_of_group(specs, base, active, i, specs.len() as int)
    } else {
        i
    };
    assert(is_winner(specs, base, active, w));
    assert(!active[w] && next[w]);
    lemma_count(active, next);
}

proof fn lemma_rounds_count(specs: Seq<WorkflowView>, base: Set<FactView>, rounds: nat)
    ensures
        count(active_after(specs, base, rounds)) >= rounds || forall|i: int|
            !is_eligible(specs, base, active_after(specs, base, rounds), i),
    decreases rounds,
{
    if rounds > 0 {
        let before = (rounds - 1) as nat;
        lemma_rounds_count(specs, base, before);
        let active = active_after(specs, base, before);
        lemma_active_len(specs, base, before);
        if exists|i: int| is_eligible(specs, base, active, i) {
            let i = choose|i: int| is_eligible(specs, base, active, i);
            lemma_round_grows(specs, base, active, i);
        } else {
            lemma_stable(specs, base, before, rounds);
        }
    }
}

/// When the rounds end no workflow is left that could become active.
pub proof fn settled_leaves_none_eligible(specs: Seq<WorkflowView>, base: Set<FactView>, i: int)
    ensures
        !is_eligible(specs, base, settled(specs, base), i),
{
    lemma_rounds_count(specs, base, specs.len());
    let end = settled(specs, base);
    lemma_active_len(specs, base, specs.len());
    if is_eligible(specs, base, end, i) {
        lemma_count(end, end);
    }
}

/// What an active workflow needs holds where the rounds end.
pub proof fn settled_is_satisfied(
    specs: Seq<WorkflowView>,
    base: Set<FactView>,
    rounds: nat,
    i: int,
)
    requires
        0 <= i < specs.len(),
        active_after(specs, base, rounds)[i],
    ensures
        specs[i].requirement.satisfied(
            facts_with(specs, base, active_after(specs, base, rounds)),
        ),
    decreases rounds,
{
    if rounds > 0 {
        let before = active_after(specs, base, (rounds - 1) as nat);
        let after = active_after(specs, base, rounds);
        if before[i] {
            settled_is_satisfied(specs, base, (rounds - 1) as nat, i);
        }
        let a = facts_with(specs, base, before);
        let b = facts_with(specs, base, after);
        assert forall|f: FactView| a.contains(f) implies b.contains(f) by {
            if !base.contains(f) {
                let j = choose|j: int|
                    0 <= j < specs.len() && #[trigger] before[j] && f == FactView::Workflow(
                        specs[j].id,
                    );
                assert(after[j]);
            }
        }
        satisfied_is_monotone(specs[i].requirement, a, b);
    }
}

/// At most one workflow of an exclusive group is active.
pub proof fn exclusive_group_has_one(
    specs: Seq<WorkflowView>,
    base: Set<FactView>,
    rounds: nat,
    i: int,
    j: int,
)
    requires
        0 <= i < j < specs.len(),
        active_after(specs, base, rounds)[i],
        active_after(specs, base, rounds)[j],
        specs[i].group is Some,
    ensures
        specs[i].group != specs[j].group,
    decreases rounds,
{
    if rounds > 0 {
        let before = active_after(specs, base, (rounds - 1) as nat);
        if before[i] && before[j] {
            exclusive_group_has_one(specs, base, (rounds - 1) as nat, i, j);
        } else if before[i] {
            assert(is_winner(specs, base, before, j));
        } else if before[j] {
            assert(is_winner(specs, base, before, i));
        } else {
            assert(is_winner(specs, base, before, i));
            assert(is_winner(specs, base, before, j));
        }
    }
}

/// The facts that the tools of a session give.
pub open spec fn base_facts(
    tools: Map<ToolSemanticCapability, ToolBinding>,
) -> Set<FactView> {
    Set::new(
        |f: FactView|
            match f {
                FactView::ToolCapability(c) => tools.contains_key(c),
                FactView::SpecializedWithFallback(c) => tools.contains_key(c)
                    && tools[c].routable_spec(),
                FactView::Workflow(_) => false,
            },
    )
}

/// The keys of a sequence of facts.
pub open spec fn keys_of(list: Seq<FactView>) -> Seq<Seq<char>> {
    list.map_values(|f: FactView| f.key())
}

/// Whether `list` holds exactly the facts of `facts`, in the order of their keys.
pub open spec fn is_in_order(list: Seq<FactView>, facts: Set<FactView>) -> bool {
    ascending(keys_of(list)) && list.to_set() == facts
}

/// The facts of `facts`, in the order of their keys.
pub open spec fn in_order(facts: Set<FactView>) -> Seq<FactView> {
    choose|list: Seq<FactView>| is_in_order(list, facts)
}

/// There is one order of a set of facts.
pub proof fn in_order_is_unique(list: Seq<FactView>, facts: Set<FactView>)
    requires
        is_in_order(list, facts),
    ensures
        in_order(facts) == list,
{
    let other = in_order(facts);
    assert(is_in_order(other, facts));
    let a = keys_of(list);
    let b = keys_of(other);
    lemma_same_keys(list, other);
    lemma_same_keys(other, list);
    assert(a.to_set() =~= b.to_set());
    ascending_is_determined(a, b);
    assert forall|i: int| 0 <= i < list.len() implies list[i] == other[i] by {
        assert(a[i] == list[i].key());
        assert(b[i] == other[i].key());
        fact_key_is_unique(list[i], other[i]);
    }
    assert(list =~= other);
}

proof fn lemma_same_keys(x: Seq<FactView>, y: Seq<FactView>)
    requires
        x.to_set() == y.to_set(),
    ensures
        forall|k: Seq<char>| keys_of(x).contains(k) ==> #[trigger] keys_of(y).contains(k),
{
    let a = keys_of(x);
    let b = keys_of(y);
    assert forall|k: Seq<char>| a.contains(k) implies #[trigger] b.contains(k) by {
        let i = choose|i: int| 0 <= i < a.len() && a[i] == k;
        assert(x.contains(x[i]));
        assert(x.to_set().contains(x[i]));
        assert(y.to_set().contains(x[i]));
        let j = choose|j: int| 0 <= j < y.len() && y[j] == x[i];
        assert(b[j] == k);
    }
}

impl FactView {
    /// How a fact is written down.
    pub open spec fn written(self) -> Seq<char> {
        match self {
            FactView::ToolCapability(c) => "ToolCapability("@ + c.name_spec() + ")"@,
            FactView::SpecializedWithFallback(c) => "SpecializedWithFallback("@ + c.name_spec()
                + ")"@,
            FactView::Workflow(id) => "Workflow("@ + debug_text_of(id) + ")"@,
        }
    }
}

impl PromptFact {
    /// How the fact is written down.
    pub fn written(&self) -> (r: String)
        ensures
            r@ == self@.written(),
    {
        match self {
            PromptFact::ToolCapability(c) => "ToolCapability(".to_owned().concat(c.name()).concat(
                ")",
            ),
            PromptFact::SpecializedWithFallback(c) => "SpecializedWithFallback(".to_owned().concat(
                c.name(),
            ).concat(")"),
            PromptFact::Workflow(id) => "Workflow(".to_owned().concat(
                debug_text(id.as_str()).as_str(),
            ).concat(")"),
        }
    }
}

/// `parts` in order, each followed by a zero character.
pub open spec fn terminated(parts: Seq<Seq<char>>) -> Seq<char>
    decreases parts.len(),
{
    if parts.len() == 0 {
        seq![]
    } else {
        terminated(parts.drop_last()) + parts.last() + "\0"@
    }
}

/// The text of which the fingerprint of the workflows is the digest.
pub open spec fn fingerprint_text(ids: Seq<Seq<char>>, facts: Set<FactView>) -> Seq<char> {
    "mink-prompt-workflows-v1\0"@ + terminated(ids) + terminated(
        in_order(facts).map_values(|f: FactView| f.written()),
    )
}

/// The ids of a sequence of workflows.
pub open spec fn ids_of(specs: Seq<WorkflowView>) -> Seq<Seq<char>> {
    specs.map_values(|s: WorkflowView| s.id)
}

/// What a sequence of references to workflows says.
pub open spec fn reference_views(specs: Seq<&PromptWorkflowSpec>) -> Seq<WorkflowView> {
    specs.map_values(|s: &PromptWorkflowSpec| s@)
}

fn workflow_fingerprint(ordered: &Vec<&PromptWorkflowSpec>, facts: &FactSet) -> (r: String)
    ensures
        r@ == text_digest(fingerprint_text(ids_of(reference_views(ordered@)), facts@)),
{
    let ghost ids = ids_of(reference_views(ordered@));
    let head: &str = "mink-prompt-workflows-v1\0";
    let mut text: String = head.to_owned();
    let mut i: usize = 0;
    assert(ids.take(0) =~= seq![]);
    assert(head@ + terminated(seq![]) =~= head@);
    while i < ordered.len()
        invariant
            i <= ordered@.len(),
            ids == ids_of(reference_views(ordered@)),
            text@ == head@ + terminated(ids.take(i as int)),
        decreases ordered@.len() - i,
    {
        assert(ids.take(i + 1).drop_last() =~= ids.take(i as int));
        assert(ids.take(i + 1).last() == ordered@[i as int].id@);
        text.append(ordered[i].id.as_str());
        text.append("\0");
        assert(text@ =~= head@ + terminated(ids.take(i + 1)));
        i += 1;
    }
    assert(ids.take(i as int) =~= ids);
    let list: &Vec<PromptFact> = facts.facts();
    let ghost all = fact_views(list@);
    let ghost lines = all.map_values(|f: FactView| f.written());
    proof {
        assert(fact_keys(list@) =~= keys_of(all));
        in_order_is_unique(all, facts@);
    }
    let ghost before = text@;
    let mut k: usize = 0;
    assert(lines.take(0) =~= seq![]);
    assert(before + terminated(seq![]) =~= before);
    while k < list.len()
        invariant
            k <= list@.len(),
            lines == fact_views(list@).map_values(|f: FactView| f.written()),
            text@ == before + terminated(lines.take(k as int)),
        decreases list@.len() - k,
    {
        assert(lines.take(k + 1).drop_last() =~= lines.take(k as int));
        assert(lines.take(k + 1).last() == list@[k as int]@.written());
        text.append(list[k].written().as_str());
        text.append("\0");
        assert(text@ =~= before + terminated(lines.take(k + 1)));
        k += 1;
    }
    assert(lines.take(k as int) =~= lines);
    digest_text(text.as_str())
}

/// The facts that the tools of a session give.
pub fn facts_from_capabilities(tools: &ResolvedToolCapabilities) -> (r: FactSet)
    ensures
        r@ == base_facts(tools@),
{
    let all: Vec<ToolSemanticCapability> = tools.capabilities();
    let mut facts: FactSet = FactSet::new();
    let mut i: usize = 0;
    while i < all.len()
        invariant
            i <= all@.len(),
            forall|c: ToolSemanticCapability| #[trigger]
                all@.contains(c) <==> tools@.contains_key(c),
            forall|f: FactView| #[trigger]
                facts@.contains(f) <==> match f {
                    FactView::ToolCapability(c) => all@.take(i as int).contains(c),
                    FactView::SpecializedWithFallback(c) => all@.take(i as int).contains(c)
                        && tools@[c].routable_spec(),
                    FactView::Workflow(_) => false,
                },
        decreases all@.len() - i,
    {
        let c: ToolSemanticCapability = all[i];
        proof {
            assert(all@.contains(c));
            assert forall|x: ToolSemanticCapability| #[trigger]
                all@.take(i + 1).contains(x) <==> (all@.take(i as int).contains(x) || x == c) by {
                let next = all@.take(i + 1);
                let here = all@.take(i as int);
                if next.contains(x) {
                    let k = choose|k: int| 0 <= k < next.len() && next[k] == x;
                    if k < i {
                        assert(here[k] == x);
                    }
                }
                if here.contains(x) {
                    let k = choose|k: int| 0 <= k < here.len() && here[k] == x;
                    assert(next[k] == x);
                }
                assert(next[i as int] == c);
            }
        }
        facts.insert(PromptFact::ToolCapability(c));
        match tools.binding(c) {
            Some(binding) => {
                if binding.routable() {
                    facts.insert(PromptFact::SpecializedWithFallback(c));
                }
            },
            None => {},
        }
        i += 1;
    }
    assert(all@.take(i as int) =~= all@);
    assert(facts@ =~= base_facts(tools@));
    facts
}

/// The workflows that apply to a session, and the facts that hold in it.
pub struct ResolvedPromptWorkflows<'a> {
    pub ordered: Vec<&'a PromptWorkflowSpec>,
    pub facts: FactSet,
    pub fingerprint: String,
}

impl<'a> ResolvedPromptWorkflows<'a> {
    /// Whether the workflow with `workflow_id` applies.
    pub fn has(&self, workflow_id: &str) -> (r: bool)
        ensures
            r == is_known(reference_views(self.ordered@), workflow_id@),
    {
        let ghost all = reference_views(self.ordered@);
        let mut i: usize = 0;
        while i < self.ordered.len()
            invariant
                i <= self.ordered@.len(),
                all == reference_views(self.ordered@),
                forall|j: int| 0 <= j < i ==> (#[trigger] all[j]).id != workflow_id@,
            decreases self.ordered@.len() - i,
        {
            assert(all[i as int].id == self.ordered@[i as int].id@);
            if same_text(self.ordered[i].id.as_str(), workflow_id) {
                return true;
            }
            i += 1;
        }
        false
    }

    /// Whether `fact` holds.
    pub fn has_fact(&self, fact: &PromptFact) -> (r: bool)
        ensures
            r == self.facts@.contains(fact@),
    {
        self.facts.contains(fact)
    }

    /// The workflows that apply, in the order of the list.
    pub fn ordered(&self) -> (r: &Vec<&'a PromptWorkflowSpec>)
        ensures
            *r == self.ordered,
    {
        &self.ordered
    }

    /// The digest that tells two sets of workflows and facts apart.
    pub fn fingerprint(&self) -> (r: &str)
        ensures
            r@ == self.fingerprint@,
    {
        self.fingerprint.as_str()
    }
}

fn same_group(a: &Option<String>, b: &Option<String>) -> (r: bool)
    ensures
        r == (opt_view(*a) == opt_view(*b)),
{
    match (a, b) {
        (Some(x), Some(y)) => same_text(x.as_str(), y.as_str()),
        (None, None) => true,
        _ => false,
    }
}

impl PromptWorkflowResolver {
    fn claimed(&self, active: &Vec<bool>, i: usize) -> (r: bool)
        requires
            i < self.specs@.len(),
            active@.len() == self.specs@.len(),
        ensures
            r == is_claimed(
                workflow_views(self.specs@),
                active@,
                workflow_views(self.specs@)[i as int].group,
            ),
    {
        let ghost all = workflow_views(self.specs@);
        assert(all[i as int] == self.specs@[i as int]@);
        if self.specs[i].exclusive_group.is_none() {
            return false;
        }
        let mut j: usize = 0;
        while j < self.specs.len()
            invariant
                j <= self.specs@.len(),
                i < self.specs@.len(),
                active@.len() == self.specs@.len(),
                all == workflow_views(self.specs@),
                all[i as int].group is Some,
                forall|k: int| 0 <= k < j && #[trigger] active@[k] ==> all[k].group != all[i as int].group,
            decreases self.specs@.len() - j,
        {
            assert(all[j as int] == self.specs@[j as int]@);
            if active[j] && same_group(
                &self.specs[j].exclusive_group,
                &self.specs[i].exclusive_group,
            ) {
                return true;
            }
            j += 1;
        }
        false
    }

    /// Marks the workflows that can become active.
    fn eligible(&self, active: &Vec<bool>, facts: &FactSet, Ghost(base): Ghost<Set<FactView>>) -> (r:
        Vec<bool>)
        requires
            active@.len() == self.specs@.len(),
            facts@ == facts_with(workflow_views(self.specs@), base, active@),
        ensures
            r@.len() == self.specs@.len(),
            forall|i: int|
                0 <= i < r@.len() ==> #[trigger] r@[i] == is_eligible(
                    workflow_views(self.specs@),
                    base,
                    active@,
                    i,
                ),
    {
        let ghost all = workflow_views(self.specs@);
        let mut out: Vec<bool> = Vec::new();
        let mut i: usize = 0;
        while i < self.specs.len()
            invariant
                i <= self.specs@.len(),
                active@.len() == self.specs@.len(),
                all == workflow_views(self.specs@),
                facts@ == facts_with(all, base, active@),
                out@.len() == i,
                forall|k: int|
                    0 <= k < i ==> #[trigger] out@[k] == is_eligible(all, base, active@, k),
            decreases self.specs@.len() - i,
        {
            assert(all[i as int] == self.specs@[i as int]@);
            let fits: bool = !active[i] && !self.claimed(active, i)
                && self.specs[i].requirement.satisfied_by(facts);
            out.push(fits);
            i += 1;
        }
        out
    }

    fn wins(&self, eligible: &Vec<bool>, i: usize, Ghost(base): Ghost<Set<FactView>>, Ghost(active): Ghost<Seq<bool>>) -> (r: bool)
        requires
            i < self.specs@.len(),
            eligible@.len() == self.specs@.len(),
            forall|k: int|
                0 <= k < eligible@.len() ==> #[trigger] eligible@[k] == is_eligible(
                    workflow_views(self.specs@),
                    base,
                    active,
                    k,
                ),
        ensures
            r == is_winner(workflow_views(self.specs@), base, active, i as int),
    {
        let ghost all = workflow_views(self.specs@);
        assert(all[i as int] == self.specs@[i as int]@);
        if !eligible[i] {
            return false;
        }
        if self.specs[i].exclusive_group.is_none() {
            return true;
        }
        let mut j: usize = 0;
        while j < self.specs.len()
            invariant
                j <= self.specs@.len(),
                i < self.specs@.len(),
                eligible@.len() == self.specs@.len(),
                all == workflow_views(self.specs@),
                all[i as int].group is Some,
                forall|k: int|
                    0 <= k < eligible@.len() ==> #[trigger] eligible@[k] == is_eligible(
                        all,
                        base,
                        active,
                        k,
                    ),
                forall|k: int|
                    0 <= k < j && #[trigger] eligible@[k] && all[k].group == all[i as int].group
                        ==> precedes(all, i as int, k),
            decreases self.specs@.len() - j,
        {
            assert(all[j as int] == self.specs@[j as int]@);
            assert(all[i as int] == self.specs@[i as int]@);
            if eligible[j] && same_group(
                &self.specs[j].exclusive_group,
                &self.specs[i].exclusive_group,
            ) {
                let first: bool = self.specs[i].priority > self.specs[j].priority || (
                self.specs[i].priority == self.specs[j].priority && i <= j);
                if !first {
                    assert(is_eligible(all, base, active, j as int));
                    return false;
                }
            }
            j += 1;
        }
        assert forall|k: int| #[trigger]
            is_eligible(all, base, active, k) && all[k].group == all[i as int].group implies precedes(
            all,
            i as int,
            k,
        ) by {
            assert(eligible@[k]);
        }
        true
    }

    /// Chooses the workflows that apply to `tools`. A workflow becomes active once its
    /// requirement is met; of an exclusive group the first by priority and place does.
    pub fn resolve<'a>(&'a self, tools: &ResolvedToolCapabilities) -> (r: Result<
        ResolvedPromptWorkflows<'a>,
        WorkflowFault,
    >)
        ensures
            r is Ok <==> is_valid(workflow_views(self.specs@)),
            r matches Err(f) ==> {
                let all = workflow_views(self.specs@);
                if first_entry_fault(all, 0) is Some {
                    Some(f@) == first_entry_fault(all, 0)
                } else if first_dependency_fault(all, 0) is Some {
                    Some(f@) == first_dependency_fault(all, 0)
                } else {
                    exists|i: int|
                        0 <= i < all.len() && #[trigger] depends_on_itself(all, i) && f@
                            == FaultView::Cycle(all[i].id)
                }
            },
            r matches Ok(w) ==> {
                let all = workflow_views(self.specs@);
                let active = settled(all, base_facts(tools@));
                &&& reference_views(w.ordered@) == chosen(all, active, all.len())
                &&& w.facts@ == facts_with(all, base_facts(tools@), active)
                &&& w.fingerprint@ == text_digest(
                    fingerprint_text(ids_of(chosen(all, active, all.len())), w.facts@),
                )
            },
    {
        match self.validate() {
            Ok(()) => {},
            Err(f) => {
                return Err(f);
            },
        }
        let ghost all = workflow_views(self.specs@);
        let ghost base = base_facts(tools@);
        let mut facts: FactSet = facts_from_capabilities(tools);
        let mut active: Vec<bool> = Vec::new();
        let mut n: usize = 0;
        while n < self.specs.len()
            invariant
                n <= self.specs@.len(),
                active@.len() == n,
                forall|i: int| 0 <= i < n ==> !(#[trigger] active@[i]),
            decreases self.specs@.len() - n,
        {
            active.push(false);
            n += 1;
        }
        assert(active@ =~= active_after(all, base, 0));
        assert(facts@ =~= facts_with(all, base, active@));
        let mut round: usize = 0;
        while round < self.specs.len()
            invariant
                round <= self.specs@.len(),
                all == workflow_views(self.specs@),
                active@.len() == self.specs@.len(),
                active@ == active_after(all, base, round as nat),
                facts@ == facts_with(all, base, active@),
            decreases self.specs@.len() - round,
        {
            let eligible: Vec<bool> = self.eligible(&active, &facts, Ghost(base));
            let mut any: bool = false;
            let mut next: Vec<bool> = Vec::new();
            let mut i: usize = 0;
            while i < self.specs.len()
                invariant
                    i <= self.specs@.len(),
                    all == workflow_views(self.specs@),
                    active@.len() == self.specs@.len(),
                    eligible@.len() == self.specs@.len(),
                    forall|k: int|
                        0 <= k < eligible@.len() ==> #[trigger] eligible@[k] == is_eligible(
                            all,
                            base,
                            active@,
                            k,
                        ),
                    any == exists|k: int| 0 <= k < i && #[trigger] eligible@[k],
                    next@.len() == i,
                    forall|k: int|
                        0 <= k < i ==> #[trigger] next@[k] == (active@[k] || is_winner(
                            all,
                            base,
                            active@,
                            k,
                        )),
                    forall|f: FactView| #[trigger]
                        facts@.contains(f) <==> (base.contains(f) || (exists|j: int|
                            0 <= j < all.len() && #[trigger] active@[j] && f == FactView::Workflow(
                                all[j].id,
                            )) || (exists|j: int|
                            0 <= j < i && #[trigger] next@[j] && f == FactView::Workflow(
                                all[j].id,
                            ))),
                decreases self.specs@.len() - i,
            {
                assert(all[i as int] == self.specs@[i as int]@);
                let win: bool = self.wins(&eligible, i, Ghost(base), Ghost(active@));
                let ghost before = facts@;
                let ghost shorter = next@;
                if eligible[i] {
                    any = true;
                }
                next.push(active[i] || win);
                if win {
                    facts.insert(PromptFact::Workflow(self.specs[i].id.clone()));
                }
                proof {
                    assert forall|f: FactView| #[trigger]
                        facts@.contains(f) <==> (base.contains(f) || (exists|j: int|
                            0 <= j < all.len() && #[trigger] active@[j] && f == FactView::Workflow(
                                all[j].id,
                            )) || (exists|j: int|
                            0 <= j < i + 1 && #[trigger] next@[j] && f == FactView::Workflow(
                                all[j].id,
                            ))) by {
                        if exists|j: int|
                            0 <= j < i && #[trigger] shorter[j] && f == FactView::Workflow(
                                all[j].id,
                            ) {
                            let j = choose|j: int|
                                0 <= j < i && #[trigger] shorter[j] && f == FactView::Workflow(
                                    all[j].id,
                                );
                            assert(next@[j]);
                        }
                        if exists|j: int|
                            0 <= j < i + 1 && #[trigger] next@[j] && f == FactView::Workflow(
                                all[j].id,
                            ) {
                            let j = choose|j: int|
                                0 <= j < i + 1 && #[trigger] next@[j] && f == FactView::Workflow(
                                    all[j].id,
                                );
                            if j < i {
                                assert(shorter[j]);
                            } else if active@[i as int] {
                            } else {
                                assert(win);
                            }
                        }
                        if win {
                            assert(next@[i as int]);
                        }
                        assert(before.contains(f) ==> facts@.contains(f));
                    }
                }
                i += 1;
            }
            assert(next@ =~= next_round(all, base, active@));
            if !any {
                proof {
                    assert forall|k: int| !is_eligible(all, base, active@, k) by {
                        if 0 <= k < all.len() {
                            assert(!eligible@[k]);
                        }
                    }
                    lemma_stable(all, base, round as nat, all.len());
                    assert(next@ =~= active@);
                    assert(facts@ =~= facts_with(all, base, active@));
                }
                round = self.specs.len();
            } else {
                proof {
                    assert forall|f: FactView| #[trigger]
                        facts@.contains(f) <==> facts_with(all, base, next@).contains(f) by {
                        if exists|j: int|
                            0 <= j < all.len() && #[trigger] active@[j] && f == FactView::Workflow(
                                all[j].id,
                            ) {
                            let j = choose|j: int|
                                0 <= j < all.len() && #[trigger] active@[j] && f
                                    == FactView::Workflow(all[j].id);
                            assert(next@[j]);
                        }
                    }
                    assert(facts@ =~= facts_with(all, base, next@));
                }
                active = next;
                round += 1;
            }
        }
        let mut ordered: Vec<&'a PromptWorkflowSpec> = Vec::new();
        let mut i: usize = 0;
        while i < self.specs.len()
            invariant
                i <= self.specs@.len(),
                all == workflow_views(self.specs@),
                active@.len() == self.specs@.len(),
                reference_views(ordered@) == chosen(all, active@, i as nat),
            decreases self.specs@.len() - i,
        {
            assert(all[i as int] == self.specs@[i as int]@);
            if active[i] {
                let ghost before = ordered@;
                ordered.push(&self.specs[i]);
                assert(reference_views(ordered@) =~= reference_views(before).push(all[i as int]));
            }
            i += 1;
        }
        let fingerprint: String = workflow_fingerprint(&ordered, &facts);
        Ok(ResolvedPromptWorkflows { ordered, facts, fingerprint })
    }
}

} // verus!
