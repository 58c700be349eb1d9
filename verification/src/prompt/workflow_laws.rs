//! What holds of the workflows of a prompt, whatever they are.

use crate::prompt::facts::FactView;
use crate::prompt::requirement::{workflow_ids, RequirementView};
use crate::prompt::workflows::{
    active_after, active_stays, base_facts, chosen, dependency_fault, depends_on_itself,
    entry_fault, exclusive_group_has_one, facts_with, first_dependency_fault, first_entry_fault,
    fingerprint_text, is_claimed, is_eligible, is_known, is_valid, is_winner, next_round, precedes,
    settled, settled_is_satisfied, settled_leaves_none_eligible, terminated, WorkflowView,
};
use crate::tools::{ProviderTier, ToolBinding, ToolSemanticCapability};
use vstd::prelude::*;

verus! {

/// What a requirement depends on are the workflows among the facts that it names, each one and
/// in their order.
pub proof fn named_workflows_are_depended_on(facts: Seq<FactView>)
    ensures
        workflow_ids(facts) == facts.filter(|f: FactView| f is Workflow).map_values(
            |f: FactView| f->Workflow_0,
        ),
    decreases facts.len(),
{
    reveal(Seq::filter);
    if facts.len() > 0 {
        named_workflows_are_depended_on(facts.drop_last());
        let before = facts.drop_last().filter(|f: FactView| f is Workflow);
        if facts.last() is Workflow {
            assert(before.push(facts.last()).map_values(|f: FactView| f->Workflow_0)
                =~= before.map_values(|f: FactView| f->Workflow_0).push(
                facts.last()->Workflow_0,
            ));
        }
    } else {
        assert(facts.filter(|f: FactView| f is Workflow).map_values(
            |f: FactView| f->Workflow_0,
        ) =~= seq![]);
    }
}

/// A requirement that names one fact asks for just that one, one of all asks for each, one of any
/// is met by each, and the mixed one asks for both.
pub proof fn requirement_is_met_by_its_facts(
    all: Seq<FactView>,
    any: Seq<FactView>,
    fact: FactView,
    facts: Set<FactView>,
)
    ensures
        RequirementView::Fact(fact).satisfied(facts) == facts.contains(fact),
        RequirementView::All(all).satisfied(facts) <==> all.to_set().subset_of(facts),
        RequirementView::Any(any).satisfied(facts) <==> !any.to_set().disjoint(facts),
        (RequirementView::AllWithAny { all, any }).satisfied(facts) <==> all.to_set().subset_of(facts)
            && !any.to_set().disjoint(facts),
{
    assert(RequirementView::All(all).satisfied(facts) <==> all.to_set().subset_of(facts)) by {
        if RequirementView::All(all).satisfied(facts) {
            assert forall|f: FactView| all.to_set().contains(f) implies facts.contains(f) by {
                let i = all.index_of(f);
                assert(facts.contains(all[i]));
            }
        }
        if all.to_set().subset_of(facts) {
            assert forall|i: int| 0 <= i < all.len() implies facts.contains(#[trigger] all[i]) by {
                assert(all.to_set().contains(all[i]));
            }
        }
    }
    assert(RequirementView::Any(any).satisfied(facts) <==> !any.to_set().disjoint(facts)) by {
        if RequirementView::Any(any).satisfied(facts) {
            let i = choose|i: int| 0 <= i < any.len() && facts.contains(#[trigger] any[i]);
            assert(any.to_set().contains(any[i]));
        }
        if !any.to_set().disjoint(facts) {
            let f = choose|f: FactView| any.to_set().contains(f) && facts.contains(f);
            assert(any[any.index_of(f)] == f);
        }
    }
}

/// The workflows that take part are those that came to hold, each one and in the order in which
/// they were given.
pub proof fn active_workflows_are_chosen(specs: Seq<WorkflowView>, active: Seq<bool>, n: nat)
    ensures
        chosen(specs, active, n) == Seq::new(n, |i: int| i).filter(
            |i: int| active[i],
        ).map_values(|i: int| specs[i]),
    decreases n,
{
    reveal(Seq::filter);
    let holds = |i: int| active[i];
    let at = |i: int| specs[i];
    let places = Seq::new(n, |i: int| i);
    if n > 0 {
        active_workflows_are_chosen(specs, active, (n - 1) as nat);
        let before = Seq::new((n - 1) as nat, |i: int| i);
        assert(places.drop_last() =~= before);
        assert(places.last() == n - 1);
        if active[n - 1] {
            assert(before.filter(holds).push(n - 1).map_values(at) =~= before.filter(
                holds,
            ).map_values(at).push(specs[n - 1]));
        }
    } else {
        assert(places.filter(holds).map_values(at) =~= seq![]);
    }
}

/// A workflow of no group takes part just where its requirement is met by the tools and the
/// workflows that take part.
pub proof fn free_workflow_takes_part_iff_satisfied(
    specs: Seq<WorkflowView>,
    base: Set<FactView>,
    i: int,
)
    requires
        0 <= i < specs.len(),
        specs[i].group is None,
    ensures
        settled(specs, base)[i] == specs[i].requirement.satisfied(
            facts_with(specs, base, settled(specs, base)),
        ),
{
    settled_leaves_none_eligible(specs, base, i);
    if settled(specs, base)[i] {
        settled_is_satisfied(specs, base, specs.len(), i);
    }
}

/// A workflow of a group whose requirement is met stays out only where another one of its group
/// takes part.
pub proof fn group_is_taken_by_one_of_it(specs: Seq<WorkflowView>, base: Set<FactView>, i: int)
    requires
        0 <= i < specs.len(),
        specs[i].requirement.satisfied(facts_with(specs, base, settled(specs, base))),
        !settled(specs, base)[i],
    ensures
        specs[i].group is Some,
        exists|j: int|
            0 <= j < specs.len() && #[trigger] settled(specs, base)[j] && specs[j].group
                == specs[i].group,
{
    settled_leaves_none_eligible(specs, base, i);
    assert(is_claimed(specs, settled(specs, base), specs[i].group));
}

proof fn lemma_first_of_all(
    specs: Seq<WorkflowView>,
    base: Set<FactView>,
    active: Seq<bool>,
    i: int,
    n: int,
) -> (w: int)
    requires
        is_eligible(specs, base, active, i),
        0 <= n <= specs.len(),
    ensures
        is_eligible(specs, base, active, w),
        specs[w].group == specs[i].group,
        forall|j: int|
            #[trigger] is_eligible(specs, base, active, j) && specs[j].group == specs[i].group && j
                < n ==> precedes(specs, w, j),
        precedes(specs, w, i),
    decreases n,
{
    if n == 0 {
        i
    } else {
        let w = lemma_first_of_all(specs, base, active, i, n - 1);
        if is_eligible(specs, base, active, n - 1) && specs[n - 1].group == specs[i].group
            && !precedes(specs, w, n - 1) {
            n - 1
        } else {
            w
        }
    }
}

/// Of a group, a workflow stays out where one of a higher priority, or of the same priority and
/// given before it, is met by the tools alone.
pub proof fn higher_priority_takes_the_group(
    specs: Seq<WorkflowView>,
    base: Set<FactView>,
    i: int,
    j: int,
)
    requires
        0 <= i < specs.len(),
        0 <= j < specs.len(),
        i != j,
        specs[i].group is Some,
        specs[i].group == specs[j].group,
        specs[i].requirement.satisfied(base),
        specs[i].priority > specs[j].priority || (specs[i].priority == specs[j].priority && i < j),
    ensures
        !settled(specs, base)[j],
{
    let none = active_after(specs, base, 0);
    assert(facts_with(specs, base, none) =~= base);
    assert(is_eligible(specs, base, none, i));
    let w = lemma_first_of_all(specs, base, none, i, specs.len() as int);
    assert(is_winner(specs, base, none, w));
    assert(next_round(specs, base, none)[w]);
    reveal_with_fuel(active_after, 2);
    assert(active_after(specs, base, 1)[w]);
    active_stays(specs, base, 1, specs.len(), w);
    assert(w != j);
    if settled(specs, base)[j] {
        if w < j {
            exclusive_group_has_one(specs, base, specs.len(), w, j);
        } else {
            exclusive_group_has_one(specs, base, specs.len(), j, w);
        }
    }
}

/// The facts that are known in the end are those of the tools and one for each workflow that
/// takes part.
pub proof fn facts_are_those_of_tools_and_workflows(
    specs: Seq<WorkflowView>,
    base: Set<FactView>,
    active: Seq<bool>,
    i: int,
    f: FactView,
)
    ensures
        base.contains(f) ==> facts_with(specs, base, active).contains(f),
        0 <= i < specs.len() && active[i] ==> facts_with(specs, base, active).contains(
            FactView::Workflow(specs[i].id),
        ),
        !(f is Workflow) ==> facts_with(specs, base, active).contains(f) == base.contains(f),
        f is Workflow && !base.contains(f) && facts_with(specs, base, active).contains(f)
            ==> exists|j: int|
            0 <= j < specs.len() && #[trigger] active[j] && specs[j].id == f->Workflow_0,
{
}

/// The tools give a fact for each capability that is bound, and one more where a special tool
/// comes first and one to fall back on stands behind it.
pub proof fn tools_give_their_facts(
    tools: Map<ToolSemanticCapability, ToolBinding>,
    c: ToolSemanticCapability,
    id: Seq<char>,
)
    ensures
        base_facts(tools).contains(FactView::ToolCapability(c)) == tools.contains_key(c),
        base_facts(tools).contains(FactView::SpecializedWithFallback(c)) <==> {
            &&& tools.contains_key(c)
            &&& tools[c].primary.tier == ProviderTier::Specialized
            &&& exists|k: int|
                0 <= k < tools[c].alternatives@.len() && (
                #[trigger] tools[c].alternatives@[k]).tier == ProviderTier::Fallback
        },
        !base_facts(tools).contains(FactView::Workflow(id)),
{
}

proof fn lemma_all_entries(specs: Seq<WorkflowView>, from: int)
    requires
        0 <= from,
    ensures
        first_entry_fault(specs, from) is None <==> forall|i: int|
            from <= i < specs.len() ==> #[trigger] entry_fault(specs, i) is None,
    decreases specs.len() - from,
{
    if from < specs.len() {
        lemma_all_entries(specs, from + 1);
        if entry_fault(specs, from) is None && first_entry_fault(specs, from + 1) is None {
            assert forall|i: int| from <= i < specs.len() implies #[trigger] entry_fault(specs, i)
                is None by {
                if i > from {
                    assert(from + 1 <= i);
                }
            }
        }
    }
}

proof fn lemma_all_named(specs: Seq<WorkflowView>, spec: WorkflowView, from: int)
    requires
        0 <= from,
    ensures
        dependency_fault(specs, spec, from) is None <==> forall|k: int|
            from <= k < spec.requirement.dependencies().len() ==> is_known(
                specs,
                #[trigger] spec.requirement.dependencies()[k],
            ) && spec.requirement.dependencies()[k] != spec.id,
    decreases spec.requirement.dependencies().len() - from,
{
    let named = spec.requirement.dependencies();
    if from < named.len() {
        lemma_all_named(specs, spec, from + 1);
        if !is_known(specs, named[from]) || named[from] == spec.id {
            assert(dependency_fault(specs, spec, from) is Some);
        } else {
            assert(dependency_fault(specs, spec, from) == dependency_fault(specs, spec, from + 1));
        }
    }
}

proof fn lemma_all_dependencies(specs: Seq<WorkflowView>, from: int)
    requires
        0 <= from,
    ensures
        first_dependency_fault(specs, from) is None <==> forall|i: int|
            from <= i < specs.len() ==> dependency_fault(specs, #[trigger] specs[i], 0) is None,
    decreases specs.len() - from,
{
    if from < specs.len() {
        lemma_all_dependencies(specs, from + 1);
        if dependency_fault(specs, specs[from], 0) is None {
            assert(first_dependency_fault(specs, from) == first_dependency_fault(specs, from + 1));
        } else {
            assert(first_dependency_fault(specs, from) is Some);
        }
    }
}

/// Workflows are accepted just where no two have the same name or the same tag, each asks for
/// something, each that is depended on is there and is another one, and none depends on itself
/// by way of others.
pub proof fn workflows_are_accepted_iff_sound(specs: Seq<WorkflowView>)
    ensures
        is_valid(specs) <==> {
            &&& forall|i: int, j: int|
                0 <= j < i < specs.len() ==> (#[trigger] specs[j]).id != (#[trigger] specs[i]).id
                    && specs[j].tag != specs[i].tag
            &&& forall|i: int|
                0 <= i < specs.len() ==> match (#[trigger] specs[i]).requirement {
                    RequirementView::Fact(_) => true,
                    RequirementView::All(all) => all.len() > 0,
                    RequirementView::Any(any) => any.len() > 0,
                    RequirementView::AllWithAny { all, any } => all.len() > 0 && any.len() > 0,
                }
            &&& forall|i: int, k: int|
                0 <= i < specs.len() && 0 <= k < specs[i].requirement.dependencies().len()
                    ==> is_known(specs, #[trigger] specs[i].requirement.dependencies()[k])
                    && specs[i].requirement.dependencies()[k] != specs[i].id
            &&& forall|i: int| !#[trigger] depends_on_itself(specs, i)
        },
{
    lemma_all_entries(specs, 0);
    lemma_all_dependencies(specs, 0);
    assert forall|i: int| 0 <= i < specs.len() implies (dependency_fault(
        specs,
        #[trigger] specs[i],
        0,
    ) is None <==> forall|k: int|
        0 <= k < specs[i].requirement.dependencies().len() ==> is_known(
            specs,
            #[trigger] specs[i].requirement.dependencies()[k],
        ) && specs[i].requirement.dependencies()[k] != specs[i].id) by {
        lemma_all_named(specs, specs[i], 0);
    }
    if first_entry_fault(specs, 0) is None {
        assert forall|i: int, j: int| 0 <= j < i < specs.len() implies (#[trigger] specs[j]).id != (
        #[trigger] specs[i]).id && specs[j].tag != specs[i].tag by {
            assert(entry_fault(specs, i) is None);
        }
        assert forall|i: int| 0 <= i < specs.len() implies match (#[trigger] specs[i]).requirement {
            RequirementView::Fact(_) => true,
            RequirementView::All(all) => all.len() > 0,
            RequirementView::Any(any) => any.len() > 0,
            RequirementView::AllWithAny { all, any } => all.len() > 0 && any.len() > 0,
        } by {
            assert(entry_fault(specs, i) is None);
        }
    }
}

/// The text from which a set of workflows is known holds the names and then the facts, each with
/// the mark behind it that ends it.
pub proof fn every_part_is_ended(parts: Seq<Seq<char>>)
    ensures
        terminated(parts) == parts.map_values(|p: Seq<char>| p + "\0"@).flatten(),
    decreases parts.len(),
{
    let end = |p: Seq<char>| p + "\0"@;
    if parts.len() > 0 {
        every_part_is_ended(parts.drop_last());
        let before = parts.drop_last().map_values(end);
        assert(parts.map_values(end) =~= before.push(parts.last() + "\0"@));
        before.lemma_flatten_push(parts.last() + "\0"@);
        assert(terminated(parts) =~= before.flatten() + (parts.last() + "\0"@));
    } else {
        assert(parts.map_values(end).flatten() =~= seq![]);
    }
}

/// Sets of workflows with other names or other facts are known by texts that begin with those of
/// the names: the same facts and one name more give the text with that name between.
pub proof fn name_takes_part_in_the_text(
    ids: Seq<Seq<char>>,
    id: Seq<char>,
    facts: Set<FactView>,
)
    ensures
        ({
            let head = "mink-prompt-workflows-v1\0"@ + terminated(ids);
            let tail = fingerprint_text(ids, facts).skip(head.len() as int);
            &&& head.is_prefix_of(fingerprint_text(ids, facts))
            &&& fingerprint_text(ids.push(id), facts) == head + id + "\0"@ + tail
        }),
{
    let head = "mink-prompt-workflows-v1\0"@ + terminated(ids);
    let whole = fingerprint_text(ids, facts);
    assert(ids.push(id).drop_last() =~= ids);
    assert(whole.take(head.len() as int) =~= head);
    assert(fingerprint_text(ids.push(id), facts) =~= head + id + "\0"@ + whole.skip(
        head.len() as int,
    ));
}

} // verus!
