//! What a workflow needs before it applies.

use crate::prompt::facts::{fact_views, FactSet, FactView, PromptFact};
use crate::text::views;
use vstd::prelude::*;

verus! {

/// The facts that a workflow needs.
#[derive(Debug)]
pub enum WorkflowRequirement {
    Fact(PromptFact),
    All(Vec<PromptFact>),
    Any(Vec<PromptFact>),
    AllWithAny { all: Vec<PromptFact>, any: Vec<PromptFact> },
}

/// What a [`WorkflowRequirement`] says.
pub enum RequirementView {
    Fact(FactView),
    All(Seq<FactView>),
    Any(Seq<FactView>),
    AllWithAny { all: Seq<FactView>, any: Seq<FactView> },
}

/// Whether all of `wanted` hold.
pub open spec fn all_hold(wanted: Seq<FactView>, facts: Set<FactView>) -> bool {
    forall|i: int| 0 <= i < wanted.len() ==> facts.contains(#[trigger] wanted[i])
}

/// Whether one of `wanted` holds.
pub open spec fn some_holds(wanted: Seq<FactView>, facts: Set<FactView>) -> bool {
    exists|i: int| 0 <= i < wanted.len() && facts.contains(#[trigger] wanted[i])
}

/// The workflows among `facts`, in order.
pub open spec fn workflow_ids(facts: Seq<FactView>) -> Seq<Seq<char>>
    decreases facts.len(),
{
    if facts.len() == 0 {
        seq![]
    } else {
        match facts.last() {
            FactView::Workflow(id) => workflow_ids(facts.drop_last()).push(id),
            _ => workflow_ids(facts.drop_last()),
        }
    }
}

impl RequirementView {
    /// Whether the requirement is met where exactly `facts` hold.
    pub open spec fn satisfied(self, facts: Set<FactView>) -> bool {
        match self {
            RequirementView::Fact(f) => facts.contains(f),
            RequirementView::All(w) => all_hold(w, facts),
            RequirementView::Any(w) => some_holds(w, facts),
            RequirementView::AllWithAny { all, any } => all_hold(all, facts) && some_holds(
                any,
                facts,
            ),
        }
    }

    /// The facts that the requirement names.
    pub open spec fn named(self) -> Seq<FactView> {
        match self {
            RequirementView::Fact(f) => seq![f],
            RequirementView::All(w) => w,
            RequirementView::Any(w) => w,
            RequirementView::AllWithAny { all, any } => all + any,
        }
    }

    /// The workflows that the requirement names.
    pub open spec fn dependencies(self) -> Seq<Seq<char>> {
        workflow_ids(self.named())
    }
}

/// A requirement that is met stays met when facts are added.
pub proof fn satisfied_is_monotone(r: RequirementView, a: Set<FactView>, b: Set<FactView>)
    requires
        r.satisfied(a),
        a.subset_of(b),
    ensures
        r.satisfied(b),
{
    match r {
        RequirementView::Fact(_) => {},
        RequirementView::All(_) => {},
        RequirementView::Any(w) => {
            let i = choose|i: int| 0 <= i < w.len() && a.contains(#[trigger] w[i]);
            assert(b.contains(w[i]));
        },
        RequirementView::AllWithAny { all, any } => {
            let i = choose|i: int| 0 <= i < any.len() && a.contains(#[trigger] any[i]);
            assert(b.contains(any[i]));
        },
    }
}

impl View for WorkflowRequirement {
    type V = RequirementView;

    open spec fn view(&self) -> RequirementView {
        match *self {
            WorkflowRequirement::Fact(f) => RequirementView::Fact(f@),
            WorkflowRequirement::All(w) => RequirementView::All(fact_views(w@)),
            WorkflowRequirement::Any(w) => RequirementView::Any(fact_views(w@)),
            WorkflowRequirement::AllWithAny { all, any } => RequirementView::AllWithAny {
                all: fact_views(all@),
                any: fact_views(any@),
            },
        }
    }
}

fn holds_all(wanted: &Vec<PromptFact>, facts: &FactSet) -> (r: bool)
    ensures
        r == all_hold(fact_views(wanted@), facts@),
{
    let mut i: usize = 0;
    while i < wanted.len()
        invariant
            i <= wanted@.len(),
            forall|j: int| 0 <= j < i ==> facts@.contains(#[trigger] fact_views(wanted@)[j]),
        decreases wanted@.len() - i,
    {
        assert(fact_views(wanted@)[i as int] == wanted@[i as int]@);
        if !facts.contains(&wanted[i]) {
            return false;
        }
        i += 1;
    }
    true
}

fn holds_some(wanted: &Vec<PromptFact>, facts: &FactSet) -> (r: bool)
    ensures
        r == some_holds(fact_views(wanted@), facts@),
{
    let mut i: usize = 0;
    while i < wanted.len()
        invariant
            i <= wanted@.len(),
            forall|j: int| 0 <= j < i ==> !facts@.contains(#[trigger] fact_views(wanted@)[j]),
        decreases wanted@.len() - i,
    {
        assert(fact_views(wanted@)[i as int] == wanted@[i as int]@);
        if facts.contains(&wanted[i]) {
            return true;
        }
        i += 1;
    }
    false
}

/// Appends the workflows among `facts` to `out`.
fn push_workflow_ids(facts: &Vec<PromptFact>, out: &mut Vec<String>)
    ensures
        views(final(out)@) == views(old(out)@) + workflow_ids(fact_views(facts@)),
{
    let ghost start = views(out@);
    let mut i: usize = 0;
    assert(fact_views(facts@).take(0) =~= seq![]);
    assert(start + workflow_ids(seq![]) =~= start);
    while i < facts.len()
        invariant
            i <= facts@.len(),
            views(out@) == start + workflow_ids(fact_views(facts@).take(i as int)),
        decreases facts@.len() - i,
    {
        let ghost before = out@;
        proof {
            let next = fact_views(facts@).take(i + 1);
            assert(next.drop_last() =~= fact_views(facts@).take(i as int));
            assert(next.last() == facts@[i as int]@);
        }
        match &facts[i] {
            PromptFact::Workflow(id) => {
                let copy: String = id.clone();
                out.push(copy);
                assert(views(out@) =~= views(before).push(copy@));
                assert(views(out@) =~= start + workflow_ids(fact_views(facts@).take(i + 1)));
            },
            _ => {},
        }
        i += 1;
    }
    assert(fact_views(facts@).take(i as int) =~= fact_views(facts@));
}

proof fn lemma_workflow_ids_concat(a: Seq<FactView>, b: Seq<FactView>)
    ensures
        workflow_ids(a + b) == workflow_ids(a) + workflow_ids(b),
    decreases b.len(),
{
    if b.len() == 0 {
        assert(a + b =~= a);
        assert(workflow_ids(a) + workflow_ids(b) =~= workflow_ids(a));
    } else {
        assert((a + b).drop_last() =~= a + b.drop_last());
        assert((a + b).last() == b.last());
        lemma_workflow_ids_concat(a, b.drop_last());
        assert(workflow_ids(a + b) =~= workflow_ids(a) + workflow_ids(b));
    }
}

impl WorkflowRequirement {
    /// Whether the requirement is met where exactly `facts` hold.
    pub fn satisfied_by(&self, facts: &FactSet) -> (r: bool)
        ensures
            r == self@.satisfied(facts@),
    {
        match self {
            WorkflowRequirement::Fact(f) => facts.contains(f),
            WorkflowRequirement::All(w) => holds_all(w, facts),
            WorkflowRequirement::Any(w) => holds_some(w, facts),
            WorkflowRequirement::AllWithAny { all, any } => holds_all(all, facts) && holds_some(
                any,
                facts,
            ),
        }
    }

    /// The workflows that the requirement names, in order.
    pub fn workflow_dependencies(&self) -> (r: Vec<String>)
        ensures
            views(r@) == self@.dependencies(),
    {
        let mut out: Vec<String> = Vec::new();
        match self {
            WorkflowRequirement::Fact(f) => {
                let one: Vec<PromptFact> = vec![f.clone()];
                push_workflow_ids(&one, &mut out);
                assert(fact_views(one@) =~= self@.named());
            },
            WorkflowRequirement::All(w) => {
                push_workflow_ids(w, &mut out);
            },
            WorkflowRequirement::Any(w) => {
                push_workflow_ids(w, &mut out);
            },
            WorkflowRequirement::AllWithAny { all, any } => {
                push_workflow_ids(all, &mut out);
                push_workflow_ids(any, &mut out);
                proof {
                    lemma_workflow_ids_concat(fact_views(all@), fact_views(any@));
                }
            },
        }
        assert(views(out@) =~= self@.dependencies());
        out
    }
}

} // verus!
