//! What holds of the skills and the instruction files that a session offers.

use crate::capabilities::context_files::{
    instruction_files, visible_files, ContextFileView, InstructionRead,
};
use crate::capabilities::frontmatter::{
    front_from, front_of, no_front, scalar, summary_of, with_field, FrontView,
};
use crate::capabilities::providers::{
    embedded_skill, file_skill, file_skills, runtime_skill, runtime_skills, EmbeddedView,
    RuntimeView, SkillFileView,
};
use crate::capabilities::skills::{
    by_name_order, discoverable_mark, discoverable_marks, discoverable_skills, place_of_name,
    priority_order, selectable, snapshot_of, taken, taken_batches, taken_skills, with_by_name,
    with_by_priority, BatchView, ResolvedView, SkillFaultView, SkillView, TakenView,
};
use crate::capabilities::source::{valid_directory_name, SourceLevel};
use crate::hash::text_digest;
use crate::paths::path_below;
use crate::text::{
    char_trimmed, is_space, lines_of, text_less, text_less_total, text_less_transitive,
    text_replaced, trimmed,
};
use crate::text_laws::{is_part_of, part_of_part};
use vstd::prelude::*;

verus! {

proof fn lemma_with_by_priority(order: Seq<int>, priorities: Seq<i32>, index: int)
    requires
        forall|j: int| 0 <= j < order.len() ==> 0 <= #[trigger] order[j] < index,
        forall|j: int, k: int|
            0 <= j < k < order.len() ==> comes_first(
                priorities,
                #[trigger] order[j],
                #[trigger] order[k],
            ),
    ensures
        ({
            let after = with_by_priority(order, priorities, index);
            &&& forall|i: int| #[trigger] after.contains(i) <==> order.contains(i) || i == index
            &&& after.len() == order.len() + 1
            &&& forall|j: int, k: int|
                0 <= j < k < after.len() ==> comes_first(
                    priorities,
                    #[trigger] after[j],
                    #[trigger] after[k],
                )
        }),
    decreases order.len(),
{
    let after = with_by_priority(order, priorities, index);
    if order.len() > 0 && priorities[order.last()] < priorities[index] {
        let front = order.drop_last();
        let last = order.last();
        assert forall|j: int| 0 <= j < front.len() implies 0 <= #[trigger] front[j] < index by {
            assert(front[j] == order[j]);
        }
        assert forall|j: int, k: int| 0 <= j < k < front.len() implies comes_first(
            priorities,
            #[trigger] front[j],
            #[trigger] front[k],
        ) by {
            assert(front[j] == order[j] && front[k] == order[k]);
        }
        lemma_with_by_priority(front, priorities, index);
        let shorter = with_by_priority(front, priorities, index);
        assert forall|i: int| #[trigger] after.contains(i) <==> order.contains(i) || i == index by {
            if after.contains(i) {
                let k = choose|k: int| 0 <= k < after.len() && after[k] == i;
                if k < shorter.len() {
                    assert(shorter.contains(i)) by {
                        assert(shorter[k] == i);
                    }
                    if front.contains(i) {
                        let m = choose|m: int| 0 <= m < front.len() && front[m] == i;
                        assert(order[m] == i);
                    }
                } else {
                    assert(order[order.len() - 1] == i);
                }
            }
            if order.contains(i) || i == index {
                if i == last {
                    assert(after[after.len() - 1] == i);
                } else {
                    if i != index {
                        let m = choose|m: int| 0 <= m < order.len() && order[m] == i;
                        assert(front[m] == i);
                    }
                    assert(shorter.contains(i));
                    let k = choose|k: int| 0 <= k < shorter.len() && shorter[k] == i;
                    assert(after[k] == i);
                }
            }
        }
        assert forall|j: int, k: int| 0 <= j < k < after.len() implies comes_first(
            priorities,
            #[trigger] after[j],
            #[trigger] after[k],
        ) by {
            if k < shorter.len() {
                assert(after[j] == shorter[j] && after[k] == shorter[k]);
            } else {
                assert(after[j] == shorter[j]);
                assert(shorter.contains(shorter[j]));
                if shorter[j] != index {
                    let m = choose|m: int| 0 <= m < front.len() && front[m] == shorter[j];
                    assert(order[m] == shorter[j]);
                    assert(comes_first(priorities, order[m], order[order.len() - 1]));
                }
            }
        }
    } else {
        assert forall|i: int| #[trigger] after.contains(i) <==> order.contains(i) || i == index by {
            if after.contains(i) {
                let k = choose|k: int| 0 <= k < after.len() && after[k] == i;
                if k < order.len() {
                    assert(order[k] == i);
                }
            }
            if order.contains(i) {
                let k = choose|k: int| 0 <= k < order.len() && order[k] == i;
                assert(after[k] == i);
            }
            assert(after[order.len() as int] == index);
        }
        assert forall|j: int, k: int| 0 <= j < k < after.len() implies comes_first(
            priorities,
            #[trigger] after[j],
            #[trigger] after[k],
        ) by {
            if k == order.len() {
                assert(after[j] == order[j]);
                if j < order.len() - 1 {
                    assert(comes_first(priorities, order[j], order[order.len() - 1]));
                }
            } else {
                assert(after[j] == order[j] && after[k] == order[k]);
            }
        }
    }
}

/// Whether the provider at place `a` comes before the one at `b`: it has the higher priority, or
/// the same and stands first.
pub open spec fn comes_first(priorities: Seq<i32>, a: int, b: int) -> bool {
    priorities[a] > priorities[b] || (priorities[a] == priorities[b] && a < b)
}

/// The providers are asked each once, those of a higher priority first, and those of the same
/// priority in the order in which they are given.
pub proof fn providers_are_asked_by_priority(priorities: Seq<i32>, n: nat)
    requires
        n <= priorities.len(),
    ensures
        priority_order(priorities, n).len() == n,
        forall|i: int| #[trigger] priority_order(priorities, n).contains(i) <==> 0 <= i < n,
        forall|j: int, k: int|
            0 <= j < k < n ==> comes_first(
                priorities,
                #[trigger] priority_order(priorities, n)[j],
                #[trigger] priority_order(priorities, n)[k],
            ),
    decreases n,
{
    if n > 0 {
        providers_are_asked_by_priority(priorities, (n - 1) as nat);
        let before = priority_order(priorities, (n - 1) as nat);
        assert forall|j: int| 0 <= j < before.len() implies 0 <= #[trigger] before[j] < n - 1 by {
            assert(before.contains(before[j]));
        }
        lemma_with_by_priority(before, priorities, n - 1);
    }
}

proof fn lemma_with_by_name_sorted(sorted: Seq<SkillView>, skill: SkillView)
    requires
        forall|i: int, j: int|
            0 <= i < j < sorted.len() ==> !text_less(
                (#[trigger] sorted[j]).name,
                (#[trigger] sorted[i]).name,
            ),
    ensures
        ({
            let after = with_by_name(sorted, skill);
            &&& forall|i: int, j: int|
                0 <= i < j < after.len() ==> !text_less(
                    (#[trigger] after[j]).name,
                    (#[trigger] after[i]).name,
                )
            &&& forall|i: int|
                0 <= i < after.len() ==> (#[trigger] after[i]) == skill || sorted.contains(after[i])
        }),
    decreases sorted.len(),
{
    let after = with_by_name(sorted, skill);
    if sorted.len() > 0 && text_less(skill.name, sorted.last().name) {
        let front = sorted.drop_last();
        let last = sorted.last();
        assert forall|i: int, j: int| 0 <= i < j < front.len() implies !text_less(
            (#[trigger] front[j]).name,
            (#[trigger] front[i]).name,
        ) by {
            assert(front[i] == sorted[i] && front[j] == sorted[j]);
        }
        lemma_with_by_name_sorted(front, skill);
        let shorter = with_by_name(front, skill);
        assert forall|i: int| 0 <= i < after.len() implies (#[trigger] after[i]) == skill
            || sorted.contains(after[i]) by {
            if i < shorter.len() {
                assert(after[i] == shorter[i]);
                if front.contains(shorter[i]) {
                    let k = choose|k: int| 0 <= k < front.len() && front[k] == shorter[i];
                    assert(sorted[k] == shorter[i]);
                }
            } else {
                assert(sorted[sorted.len() - 1] == last);
            }
        }
        assert forall|i: int, j: int| 0 <= i < j < after.len() implies !text_less(
            (#[trigger] after[j]).name,
            (#[trigger] after[i]).name,
        ) by {
            assert(after[i] == shorter[i]);
            if j < shorter.len() {
                assert(after[j] == shorter[j]);
            } else if shorter[i] == skill {
                if text_less(last.name, skill.name) {
                    text_less_transitive(last.name, skill.name, last.name);
                    crate::text::text_less_irreflexive(last.name);
                }
            } else {
                let k = choose|k: int| 0 <= k < front.len() && front[k] == shorter[i];
                assert(sorted[k] == shorter[i] && sorted[sorted.len() - 1] == last);
            }
        }
    } else {
        assert forall|i: int| 0 <= i < after.len() implies (#[trigger] after[i]) == skill
            || sorted.contains(after[i]) by {
            if i < sorted.len() {
                assert(after[i] == sorted[i]);
            }
        }
        assert forall|i: int, j: int| 0 <= i < j < after.len() implies !text_less(
            (#[trigger] after[j]).name,
            (#[trigger] after[i]).name,
        ) by {
            assert(after[i] == sorted[i]);
            if j < sorted.len() {
                assert(after[j] == sorted[j]);
            } else {
                let last = sorted[sorted.len() - 1];
                if text_less(skill.name, sorted[i].name) {
                    if i < sorted.len() - 1 {
                        text_less_total(sorted[i].name, last.name);
                        if sorted[i].name != last.name {
                            text_less_transitive(skill.name, sorted[i].name, last.name);
                        }
                    }
                }
            }
        }
    }
}

/// The skills of a provider are gone through in the order of their names.
pub proof fn skills_are_taken_by_name(skills: Seq<SkillView>)
    ensures
        forall|i: int, j: int|
            0 <= i < j < by_name_order(skills).len() ==> !text_less(
                (#[trigger] by_name_order(skills)[j]).name,
                (#[trigger] by_name_order(skills)[i]).name,
            ),
    decreases skills.len(),
{
    if skills.len() > 0 {
        skills_are_taken_by_name(skills.drop_last());
        lemma_with_by_name_sorted(by_name_order(skills.drop_last()), skills.last());
    }
}

proof fn lemma_order_members(skills: Seq<SkillView>, s: SkillView)
    ensures
        by_name_order(skills).contains(s) <==> skills.contains(s),
{
    crate::capabilities::skills::by_name_order_keeps_skills(skills);
    broadcast use vstd::seq_lib::group_to_multiset_ensures;

    assert(by_name_order(skills).to_multiset().count(s) == skills.to_multiset().count(s));
}

proof fn lemma_place(skills: Seq<SkillView>, name: Seq<char>)
    ensures
        0 <= place_of_name(skills, name) <= skills.len(),
        forall|i: int| 0 <= i < place_of_name(skills, name) ==> (#[trigger] skills[i]).name != name,
        place_of_name(skills, name) < skills.len() ==> skills[place_of_name(skills, name)].name
            == name,
    decreases skills.len(),
{
    if skills.len() > 0 && skills[0].name != name {
        let rest = skills.drop_first();
        lemma_place(rest, name);
        assert forall|i: int| 0 <= i < place_of_name(skills, name) implies (
        #[trigger] skills[i]).name != name by {
            if i > 0 {
                assert(skills[i] == rest[i - 1]);
            }
        }
    }
}

/// Whether one of the skills has this name.
pub open spec fn has_name(skills: Seq<SkillView>, name: Seq<char>) -> bool {
    exists|i: int| 0 <= i < skills.len() && (#[trigger] skills[i]).name == name
}

proof fn lemma_taken(state: TakenView, provider_id: Seq<char>, skill: SkillView)
    ensures
        ({
            let after = taken(state, provider_id, skill);
            &&& state.all.is_prefix_of(after.all)
            &&& forall|s: SkillView| #[trigger]
                after.all.contains(s) ==> state.all.contains(s) || s == skill
            &&& skill.source.real_path is None ==> has_name(after.all, skill.name)
            &&& skill.source.real_path is None && !has_name(state.all, skill.name)
                ==> after.all.contains(skill)
        }),
{
    let after = taken(state, provider_id, skill);
    lemma_place(state.all, skill.name);
    let at = place_of_name(state.all, skill.name);
    assert(state.all =~= after.all.subrange(0, state.all.len() as int));
    assert forall|s: SkillView| #[trigger] after.all.contains(s) implies state.all.contains(s) || s
        == skill by {
        let k = choose|k: int| 0 <= k < after.all.len() && after.all[k] == s;
        if k < state.all.len() {
            assert(state.all[k] == s);
        }
    }
    if skill.source.real_path is None {
        if at < state.all.len() {
            assert(after.all[at].name == skill.name);
            assert(state.all[at].name == skill.name);
        } else {
            assert(after.all[state.all.len() as int] == skill);
        }
    }
}

proof fn lemma_taken_skills(
    state: TakenView,
    provider_id: Seq<char>,
    skills: Seq<SkillView>,
    n: nat,
)
    requires
        n <= skills.len(),
    ensures
        ({
            let after = taken_skills(state, provider_id, skills, n);
            &&& state.all.is_prefix_of(after.all)
            &&& forall|s: SkillView| #[trigger]
                after.all.contains(s) ==> state.all.contains(s) || skills.contains(s)
            &&& forall|i: int|
                0 <= i < n && (#[trigger] skills[i]).source.real_path is None ==> has_name(
                    after.all,
                    skills[i].name,
                )
        }),
    decreases n,
{
    let after = taken_skills(state, provider_id, skills, n);
    if n == 0 {
        assert(state.all =~= after.all.subrange(0, state.all.len() as int));
    } else {
        lemma_taken_skills(state, provider_id, skills, (n - 1) as nat);
        let before = taken_skills(state, provider_id, skills, (n - 1) as nat);
        let skill = skills[n - 1];
        lemma_taken(before, provider_id, skill);
        assert(state.all =~= after.all.subrange(0, state.all.len() as int)) by {
            assert forall|i: int| 0 <= i < state.all.len() implies state.all[i] == after.all[i] by {
                assert(before.all.subrange(0, state.all.len() as int)[i] == state.all[i]);
                assert(after.all.subrange(0, before.all.len() as int)[i] == before.all[i]);
            }
        }
        assert forall|i: int| 0 <= i < n && (#[trigger] skills[i]).source.real_path
            is None implies has_name(after.all, skills[i].name) by {
            if i < n - 1 {
                let k = choose|k: int|
                    0 <= k < before.all.len() && (#[trigger] before.all[k]).name == skills[i].name;
                assert(after.all.subrange(0, before.all.len() as int)[k] == before.all[k]);
                assert(after.all[k].name == skills[i].name);
            }
        }
    }
}

proof fn lemma_taken_batches(batches: Seq<BatchView>, n: nat)
    requires
        n <= batches.len(),
    ensures
        ({
            let after = taken_batches(batches, n).all;
            &&& forall|s: SkillView| #[trigger]
                after.contains(s) ==> exists|b: int|
                    0 <= b < n && (#[trigger] batches[b]).skills.contains(s)
            &&& forall|b: int, i: int|
                0 <= b < n && 0 <= i < batches[b].skills.len() && (
                #[trigger] batches[b].skills[i]).source.real_path is None ==> has_name(
                    after,
                    batches[b].skills[i].name,
                )
        }),
    decreases n,
{
    let after = taken_batches(batches, n).all;
    if n > 0 {
        lemma_taken_batches(batches, (n - 1) as nat);
        let before = taken_batches(batches, (n - 1) as nat);
        let batch = batches[n - 1];
        let sorted = by_name_order(batch.skills);
        lemma_taken_skills(before, batch.provider_id, sorted, sorted.len());
        assert forall|s: SkillView| #[trigger] after.contains(s) implies exists|b: int|
            0 <= b < n && (#[trigger] batches[b]).skills.contains(s) by {
            if before.all.contains(s) {
                let b = choose|b: int|
                    0 <= b < n - 1 && (#[trigger] batches[b]).skills.contains(s);
                assert(batches[b].skills.contains(s));
            } else {
                lemma_order_members(batch.skills, s);
                assert(batches[n - 1].skills.contains(s));
            }
        }
        assert forall|b: int, i: int|
            0 <= b < n && 0 <= i < batches[b].skills.len() && (
            #[trigger] batches[b].skills[i]).source.real_path is None implies has_name(
            after,
            batches[b].skills[i].name,
        ) by {
            let s = batches[b].skills[i];
            if b < n - 1 {
                let k = choose|k: int|
                    0 <= k < before.all.len() && (#[trigger] before.all[k]).name == s.name;
                assert(after.subrange(0, before.all.len() as int)[k] == before.all[k]);
                assert(after[k].name == s.name);
            } else {
                assert(batch.skills.contains(s));
                lemma_order_members(batch.skills, s);
                let k = choose|k: int| 0 <= k < sorted.len() && sorted[k] == s;
                assert(sorted[k].source.real_path is None);
            }
        }
    }
}

/// Every skill that a session has was given by one of its providers.
pub proof fn skills_come_from_providers(batches: Seq<BatchView>, s: SkillView)
    requires
        taken_batches(batches, batches.len()).all.contains(s),
    ensures
        exists|b: int| 0 <= b < batches.len() && (#[trigger] batches[b]).skills.contains(s),
{
    lemma_taken_batches(batches, batches.len());
}

/// No name of a skill is lost: under the name of each skill that a provider gives, and that is not
/// a file that was already seen, the session has a skill.
pub proof fn no_skill_name_is_lost(batches: Seq<BatchView>, b: int, i: int)
    requires
        0 <= b < batches.len(),
        0 <= i < batches[b].skills.len(),
        batches[b].skills[i].source.real_path is None,
    ensures
        has_name(taken_batches(batches, batches.len()).all, batches[b].skills[i].name),
{
    lemma_taken_batches(batches, batches.len());
}

proof fn lemma_first_is_taken(
    state: TakenView,
    provider_id: Seq<char>,
    skills: Seq<SkillView>,
    n: nat,
    k: int,
)
    requires
        0 <= k < n <= skills.len(),
        skills[k].source.real_path is None,
        !has_name(state.all, skills[k].name),
        forall|j: int| 0 <= j < k ==> (#[trigger] skills[j]).name != skills[k].name,
    ensures
        taken_skills(state, provider_id, skills, n).all.contains(skills[k]),
    decreases n,
{
    let before = taken_skills(state, provider_id, skills, (n - 1) as nat);
    let after = taken_skills(state, provider_id, skills, n);
    let s = skills[k];
    lemma_taken(before, provider_id, skills[n - 1]);
    if k == n - 1 {
        lemma_taken_skills(state, provider_id, skills, (n - 1) as nat);
        assert(!has_name(before.all, s.name)) by {
            if has_name(before.all, s.name) {
                lemma_names_of(state, provider_id, skills, (n - 1) as nat, s.name);
            }
        }
    } else {
        lemma_first_is_taken(state, provider_id, skills, (n - 1) as nat, k);
        let m = choose|m: int| 0 <= m < before.all.len() && before.all[m] == s;
        assert(after.all.subrange(0, before.all.len() as int)[m] == before.all[m]);
        assert(after.all[m] == s);
    }
}

proof fn lemma_names_of(
    state: TakenView,
    provider_id: Seq<char>,
    skills: Seq<SkillView>,
    n: nat,
    name: Seq<char>,
)
    requires
        n <= skills.len(),
        !has_name(state.all, name),
        forall|j: int| 0 <= j < n ==> (#[trigger] skills[j]).name != name,
    ensures
        !has_name(taken_skills(state, provider_id, skills, n).all, name),
    decreases n,
{
    if n > 0 {
        lemma_names_of(state, provider_id, skills, (n - 1) as nat, name);
        let before = taken_skills(state, provider_id, skills, (n - 1) as nat);
        let after = taken_skills(state, provider_id, skills, n);
        lemma_taken(before, provider_id, skills[n - 1]);
        assert(skills[n - 1].name != name);
        if has_name(after.all, name) {
            let k = choose|k: int| 0 <= k < after.all.len() && (#[trigger] after.all[k]).name == name;
            assert(after.all.contains(after.all[k]));
            if before.all.contains(after.all[k]) {
                let m = choose|m: int| 0 <= m < before.all.len() && before.all[m] == after.all[k];
                assert(before.all[m].name == name);
            }
        }
    }
}

/// The provider that is asked first wins: the skill that it gives under a name is the one that the
/// session has, where none that was asked before it has that name, and it gives the name once.
pub proof fn first_provider_wins(batches: Seq<BatchView>, b: int, i: int)
    requires
        0 <= b < batches.len(),
        0 <= i < batches[b].skills.len(),
        batches[b].skills[i].source.real_path is None,
        forall|c: int|
            0 <= c < b ==> !has_name((#[trigger] batches[c]).skills, batches[b].skills[i].name),
        forall|j: int|
            0 <= j < batches[b].skills.len() && j != i ==> (#[trigger] batches[b].skills[j]).name
                != batches[b].skills[i].name,
    ensures
        taken_batches(batches, batches.len()).all.contains(batches[b].skills[i]),
{
    let s = batches[b].skills[i];
    let before = taken_batches(batches, b as nat);
    let batch = batches[b];
    let sorted = by_name_order(batch.skills);
    lemma_taken_batches(batches, b as nat);
    assert(!has_name(before.all, s.name)) by {
        if has_name(before.all, s.name) {
            let k = choose|k: int|
                0 <= k < before.all.len() && (#[trigger] before.all[k]).name == s.name;
            assert(before.all.contains(before.all[k]));
            let c = choose|c: int|
                0 <= c < b && (#[trigger] batches[c]).skills.contains(before.all[k]);
            let m = choose|m: int|
                0 <= m < batches[c].skills.len() && batches[c].skills[m] == before.all[k];
            assert(batches[c].skills[m].name == s.name);
        }
    }
    assert(batch.skills.contains(s));
    lemma_order_members(batch.skills, s);
    lemma_first_place(sorted, s.name);
    let k = choose|k: int|
        0 <= k < sorted.len() && (#[trigger] sorted[k]).name == s.name && forall|j: int|
            0 <= j < k ==> (#[trigger] sorted[j]).name != s.name;
    assert(sorted.contains(sorted[k]));
    lemma_order_members(batch.skills, sorted[k]);
    let m = choose|m: int| 0 <= m < batch.skills.len() && batch.skills[m] == sorted[k];
    assert(m == i);
    lemma_first_is_taken(before, batch.provider_id, sorted, sorted.len(), k);
    crate::capabilities::skills::earlier_skills_stay(batches, (b + 1) as nat, batches.len());
    let now = taken_batches(batches, (b + 1) as nat).all;
    let all = taken_batches(batches, batches.len()).all;
    let p = choose|p: int| 0 <= p < now.len() && now[p] == s;
    assert(all.subrange(0, now.len() as int)[p] == now[p]);
    assert(all[p] == s);
}

proof fn lemma_first_place(skills: Seq<SkillView>, name: Seq<char>)
    requires
        exists|k: int| 0 <= k < skills.len() && (#[trigger] skills[k]).name == name,
    ensures
        exists|k: int|
            0 <= k < skills.len() && (#[trigger] skills[k]).name == name && forall|j: int|
                0 <= j < k ==> (#[trigger] skills[j]).name != name,
{
    lemma_place(skills, name);
    let at = place_of_name(skills, name);
    assert(at < skills.len()) by {
        let k = choose|k: int| 0 <= k < skills.len() && (#[trigger] skills[k]).name == name;
        if at == skills.len() {
            assert(skills[k].name != name);
        }
    }
    assert(skills[at].name == name);
}

/// A skill that is selected is the one that the session has under its name, with its text, its
/// description and its directory; it is selected just where there is one, the host does not keep it
/// to itself, and no white space stands around the name.
pub proof fn selected_skill_is_the_one_named(all: Seq<SkillView>, name: Seq<char>, i: int)
    requires
        0 <= i < all.len(),
        all[i].name == name,
        forall|j: int| 0 <= j < i ==> (#[trigger] all[j]).name != name,
    ensures
        selectable(all, name) is Ok <==> trimmed(name) == name && !(all[i].exposure is HostOnly),
        selectable(all, name) matches Ok(s) ==> {
            &&& s.name == name
            &&& s.content == all[i].content
            &&& s.description == all[i].description
            &&& s.base_dir == all[i].base_dir
        },
{
    lemma_place(all, name);
    let at = place_of_name(all, name);
    if at < i {
        assert(all[at].name != name);
    } else if at > i {
        assert(all[i].name != name);
    }
}

/// A name under which the session has no skill cannot be selected.
pub proof fn unknown_skill_cannot_be_selected(all: Seq<SkillView>, name: Seq<char>)
    requires
        !has_name(all, name),
    ensures
        selectable(all, name) is Err,
        trimmed(name) == name ==> selectable(all, name) == Err::<ResolvedView, SkillFaultView>(
            SkillFaultView::NotFound(name),
        ),
{
    lemma_place(all, name);
    let at = place_of_name(all, name);
    if at < all.len() {
        assert(all[at].name == name);
    }
}

/// The model finds just those skills that are meant to be found.
pub proof fn findable_skills_are_those_exposed(all: Seq<SkillView>, n: nat)
    requires
        n <= all.len(),
    ensures
        discoverable_skills(all, n) == all.take(n as int).filter(
            |s: SkillView| s.exposure is ModelDiscoverable,
        ),
    decreases n,
{
    reveal(Seq::filter);
    if n > 0 {
        findable_skills_are_those_exposed(all, (n - 1) as nat);
        assert(all.take(n as int).drop_last() =~= all.take(n - 1));
        assert(all.take(n as int).last() == all[n - 1]);
    }
}

/// A snapshot holds the skills of its providers, those of them that can be found, and one selected
/// skill for each name, in the order of the names.
pub proof fn snapshot_holds_what_was_loaded(batches: Seq<BatchView>, names: Seq<Seq<char>>)
    requires
        snapshot_of(batches, names) is Ok,
    ensures
        ({
            let s = snapshot_of(batches, names)->Ok_0;
            let all = taken_batches(batches, batches.len()).all;
            &&& s.all == all
            &&& s.by_name == all
            &&& s.discoverable == all.filter(|k: SkillView| k.exposure is ModelDiscoverable)
            &&& s.selected.len() == names.len()
            &&& forall|i: int| 0 <= i < names.len() ==> (#[trigger] s.selected[i]).name == names[i]
            &&& forall|i: int|
                0 <= i < names.len() ==> selectable(all, #[trigger] names[i]) == Ok::<
                    ResolvedView,
                    SkillFaultView,
                >(s.selected[i])
        }),
{
    reveal(snapshot_of);
    let s = snapshot_of(batches, names)->Ok_0;
    let all = taken_batches(batches, batches.len()).all;
    findable_skills_are_those_exposed(all, all.len());
    assert(all.take(all.len() as int) =~= all);
    assert forall|i: int| 0 <= i < names.len() implies selectable(all, #[trigger] names[i]) == Ok::<
        ResolvedView,
        SkillFaultView,
    >(s.selected[i]) by {
        crate::capabilities::skills::selection_follows_names(all, names, names.len(), i);
    }
    assert forall|i: int| 0 <= i < names.len() implies (#[trigger] s.selected[i]).name
        == names[i] by {
        assert(selectable(all, names[i]) == Ok::<ResolvedView, SkillFaultView>(s.selected[i]));
        lemma_place(all, names[i]);
    }
    if names.len() > 0 {
        crate::capabilities::skills::selection_follows_names(all, names, names.len(), 0);
    }
}

proof fn lemma_marks_hold(skills: Seq<SkillView>, n: nat, i: int)
    requires
        0 <= i < n <= skills.len(),
    ensures
        is_part_of(discoverable_mark(skills[i]), discoverable_marks(skills, n)),
    decreases n,
{
    let none = Seq::<char>::empty();
    let before = discoverable_marks(skills, (n - 1) as nat);
    let whole = discoverable_marks(skills, n);
    if i == n - 1 {
        assert(whole =~= before + discoverable_mark(skills[i]) + none);
    } else {
        lemma_marks_hold(skills, (n - 1) as nat, i);
        assert(whole =~= none + before + discoverable_mark(skills[n - 1]));
        part_of_part(discoverable_mark(skills[i]), before, whole);
    }
}

/// What the fingerprint is taken of holds, for each skill that can be found, its name, its
/// description and the digest of its text.
pub proof fn fingerprint_takes_in_each_skill(skills: Seq<SkillView>, i: int)
    requires
        0 <= i < skills.len(),
    ensures
        ({
            let marks = discoverable_marks(skills, skills.len());
            let s = skills[i];
            &&& is_part_of(s.name + "\0"@ + s.description + "\0"@, marks)
            &&& is_part_of("\0"@ + s.revision + "\0"@, marks)
        }),
{
    lemma_marks_hold(skills, skills.len(), i);
    let marks = discoverable_marks(skills, skills.len());
    let s = skills[i];
    let mark = discoverable_mark(s);
    let none = Seq::<char>::empty();
    let middle = s.exposure.label_spec() + "\0"@ + s.source.provider_id;
    let told = s.name + "\0"@ + s.description + "\0"@;
    let digest = "\0"@ + s.revision + "\0"@;
    assert(mark =~= "discoverable\0"@ + told + (middle + digest));
    assert(mark =~= ("discoverable\0"@ + told + middle) + digest + none);
    part_of_part(told, mark, marks);
    part_of_part(digest, mark, marks);
}

/// A skill from a file is named after its directory, has the text of the file, with the directory
/// in the place that is kept for it, and the digest of that text; its description is the one in the
/// file. It can be found unless the file says otherwise.
pub proof fn file_skill_has_the_text_of_its_file(
    id: Seq<char>,
    name: Seq<char>,
    level: SourceLevel,
    base: Seq<char>,
    label: Seq<char>,
    file: SkillFileView,
)
    ensures
        ({
            let s = file_skill(id, name, level, base, label, file);
            let front = front_of(s.content);
            &&& s.name == file.dir_name
            &&& s.base_dir == path_below(base, file.dir_name)
            &&& s.content == text_replaced(file.raw_content, "${MINK_SKILL_DIR}"@, s.base_dir)
            &&& s.revision == text_digest(s.content)
            &&& s.description == summary_of(s.content)
            &&& s.exposure is ModelDiscoverable == (!front.hide && !front.disable_model_invocation)
            &&& !(s.exposure is HostOnly)
            &&& s.source.provider_id == id
            &&& s.source.level == level
        }),
{
}

/// A directory gives a skill for each file in it whose directory can hold one, in their order.
pub proof fn directory_gives_its_files(
    id: Seq<char>,
    name: Seq<char>,
    level: SourceLevel,
    base: Seq<char>,
    label: Seq<char>,
    files: Seq<SkillFileView>,
    n: nat,
)
    requires
        n <= files.len(),
    ensures
        file_skills(id, name, level, base, label, files, n) == files.take(n as int).filter(
            |f: SkillFileView| valid_directory_name(f.dir_name),
        ).map_values(|f: SkillFileView| file_skill(id, name, level, base, label, f)),
    decreases n,
{
    reveal(Seq::filter);
    let p = |f: SkillFileView| valid_directory_name(f.dir_name);
    let g = |f: SkillFileView| file_skill(id, name, level, base, label, f);
    let now = files.take(n as int);
    if n > 0 {
        directory_gives_its_files(id, name, level, base, label, files, (n - 1) as nat);
        let before = files.take(n - 1);
        assert(now.drop_last() =~= before);
        assert(now.last() == files[n - 1]);
        if p(files[n - 1]) {
            assert(now.filter(p).map_values(g) =~= before.filter(p).map_values(g).push(
                g(files[n - 1]),
            ));
        }
    } else {
        assert(now.filter(p).map_values(g) =~= seq![]);
    }
}

/// A skill of the host is the one that it defined, and so is one that comes with the program.
pub proof fn defined_skills_are_given_as_they_are(host: RuntimeView, own: EmbeddedView)
    ensures
        runtime_skill(host).name == host.name,
        runtime_skill(host).description == host.description,
        runtime_skill(host).content == host.content,
        runtime_skill(host).exposure is ModelDiscoverable,
        embedded_skill(own).name == own.name,
        embedded_skill(own).description == own.description,
        embedded_skill(own).content == text_replaced(
            own.content,
            "${MINK_SKILL_DIR}"@,
            "<built-in>"@,
        ),
        embedded_skill(own).exposure is ModelDiscoverable,
{
}

/// The host gives each skill that it defined, in order, unless a name is refused.
pub proof fn host_gives_all_its_skills(skills: Seq<RuntimeView>, n: nat)
    requires
        n <= skills.len(),
        runtime_skills(skills, n) is Ok,
    ensures
        runtime_skills(skills, n)->Ok_0 == skills.take(n as int).map_values(
            |s: RuntimeView| runtime_skill(s),
        ),
    decreases n,
{
    let f = |s: RuntimeView| runtime_skill(s);
    if n > 0 {
        host_gives_all_its_skills(skills, (n - 1) as nat);
        assert(skills.take(n as int).map_values(f) =~= skills.take(n - 1).map_values(f).push(
            f(skills[n - 1]),
        ));
    } else {
        assert(skills.take(0).map_values(f) =~= seq![]);
    }
}

/// The instructions of the user and of the project are taken as they were read, those of the user
/// first, unless they are blank; a file that cannot be read is an error.
pub proof fn instructions_are_taken_as_read(
    cwd: Seq<char>,
    home: Seq<char>,
    global: Option<InstructionRead>,
    project: Option<InstructionRead>,
)
    ensures
        ({
            let files = instruction_files(cwd, home, global, project);
            let has_global = global matches Some(g) && g.content matches Ok(t) && trimmed(t@).len()
                > 0;
            let has_project = project matches Some(p) && p.content matches Ok(t) && trimmed(
                t@,
            ).len() > 0;
            let fails = (global matches Some(g) && g.content is Err) || (project matches Some(p)
                && p.content is Err);
            &&& files is Err == fails
            &&& files matches Ok(all) ==> {
                &&& all.len() == (if has_global {
                    1int
                } else {
                    0
                }) + (if has_project {
                    1int
                } else {
                    0
                })
                &&& has_global ==> all[0].name == "global"@ && all[0].content
                    == global->0.content->Ok_0@ && all[0].source.level is User
                &&& has_project ==> all.last().name == "project"@ && all.last().content
                    == project->0.content->Ok_0@ && all.last().source.level is Project
                &&& forall|i: int|
                    0 <= i < all.len() ==> !((#[trigger] all[i]).exposure is HostOnly)
            }
        }),
{
}

/// The files that always apply are all but those that the host keeps to itself, in their order.
pub proof fn files_for_the_host_are_left_out(files: Seq<ContextFileView>, n: nat)
    requires
        n <= files.len(),
    ensures
        visible_files(files, n) == files.take(n as int).filter(
            |f: ContextFileView| !(f.exposure is HostOnly),
        ),
    decreases n,
{
    reveal(Seq::filter);
    if n > 0 {
        files_for_the_host_are_left_out(files, (n - 1) as nat);
        assert(files.take(n as int).drop_last() =~= files.take(n - 1));
        assert(files.take(n as int).last() == files[n - 1]);
    }
}

/// The front matter of a text is read line by line, from behind the first line to the next rule, or
/// to the end.
pub proof fn front_matter_is_read_to_its_end(
    lines: Seq<Seq<char>>,
    i: int,
    end: int,
    front: FrontView,
)
    requires
        0 <= i <= end <= lines.len(),
        forall|k: int| i <= k < end ==> trimmed(#[trigger] lines[k]) != "---"@,
        end == lines.len() || trimmed(lines[end]) == "---"@,
    ensures
        front_from(lines, i, front) == lines.subrange(i, end).fold_left(
            front,
            |f: FrontView, l: Seq<char>| with_field(f, trimmed(l)),
        ),
    decreases end - i,
{
    let step = |f: FrontView, l: Seq<char>| with_field(f, trimmed(l));
    let these = lines.subrange(i, end);
    if i < end {
        assert(trimmed(lines[i]) != "---"@);
        let next = with_field(front, trimmed(lines[i]));
        front_matter_is_read_to_its_end(lines, i + 1, end, next);
        these.lemma_fold_left_split(front, step, 1);
        assert(these.subrange(1, these.len() as int) =~= lines.subrange(i + 1, end));
        assert(these.subrange(0, 1) =~= seq![lines[i]]);
        assert(seq![lines[i]].drop_last() =~= seq![]);
        reveal_with_fuel(Seq::fold_left, 2);
        assert(seq![lines[i]].fold_left(front, step) == next);
    } else {
        assert(these =~= seq![]);
    }
}

/// A text that does not begin with a rule has no front matter.
pub proof fn front_matter_stands_first(content: Seq<char>)
    requires
        lines_of(content).len() == 0 || trimmed(lines_of(content)[0]) != "---"@,
    ensures
        front_of(content) == no_front(),
        front_of(content).description is None,
        !front_of(content).hide,
{
}

/// A line of front matter sets what it names, and nothing else.
pub proof fn line_of_front_matter_sets_one_thing(front: FrontView, line: Seq<char>)
    ensures
        ({
            let after = with_field(front, line);
            let described = "description:"@;
            let hidden = "hide:"@;
            &&& described.is_prefix_of(line) ==> after.hide == front.hide
                && after.disable_model_invocation == front.disable_model_invocation
            &&& described.is_prefix_of(line) && scalar(line.skip(described.len() as int)).len() > 0
                ==> after.description == Some(scalar(line.skip(described.len() as int)))
            &&& !described.is_prefix_of(line) ==> after.description == front.description
            &&& !described.is_prefix_of(line) && !hidden.is_prefix_of(line) ==> after.hide
                == front.hide
        }),
{
}

/// A value in quotation marks is what stands between them.
pub proof fn quoted_value_stands_between_its_marks(value: Seq<char>)
    requires
        value.len() > 0,
        value[0] != '"' && value.last() != '"',
        value[0] != '\'' && value.last() != '\'',
    ensures
        scalar(seq!['"'] + value + seq!['"']) == value,
        !is_space(value[0]) && !is_space(value.last()) ==> scalar(value) == value,
{
    let quoted = seq!['"'] + value + seq!['"'];
    assert(quoted[0] == '"' && quoted.last() == '"');
    assert(trimmed(quoted) == quoted);
    assert(quoted.drop_first() =~= value + seq!['"']);
    assert((value + seq!['"']).drop_last() =~= value);
    assert((value + seq!['"']).last() == '"');
    assert((value + seq!['"'])[0] == value[0]);
    reveal_with_fuel(char_trimmed, 3);
    assert(char_trimmed(value, '"') == value);
    assert(char_trimmed(value + seq!['"'], '"') == value);
    assert(char_trimmed(quoted, '"') == value);
    assert(char_trimmed(value, '\'') == value);
}

} // verus!
