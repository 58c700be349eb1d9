//! What holds of how skills are taken, found and named.

use crate::capabilities::frontmatter::{first_text, is_truthy, scalar, with_field, FrontView};
use crate::capabilities::skills::{
    place_of_name, resolved_skill, selected_mark, taken, ResolvedView, SkillFaultView, SkillSource,
    SkillView, TakenView,
};
use crate::hash::text_digest;
use crate::text::{ascii_lower, char_trimmed, trimmed};
use crate::text_laws::{is_part_of, middle_is_part};
use vstd::prelude::*;

verus! {

proof fn lemma_place(skills: Seq<SkillView>, name: Seq<char>)
    ensures
        0 <= place_of_name(skills, name) <= skills.len(),
        place_of_name(skills, name) < skills.len() ==> skills[place_of_name(skills, name)].name
            == name,
        forall|i: int| 0 <= i < place_of_name(skills, name) ==> (#[trigger] skills[i]).name != name,
    decreases skills.len(),
{
    if skills.len() > 0 && skills[0].name != name {
        let rest = skills.drop_first();
        lemma_place(rest, name);
        assert forall|i: int| 0 <= i < place_of_name(skills, name) implies (
        #[trigger] skills[i]).name != name by {
            if i > 0 {
                assert(rest[i - 1] == skills[i]);
            }
        }
    }
}

/// A file that was taken once is not taken again and gives no warning.
pub proof fn file_is_taken_once(state: TakenView, provider_id: Seq<char>, skill: SkillView)
    requires
        skill.source.real_path is Some,
    ensures
        state.seen.contains(skill.source.real_path->0) ==> taken(state, provider_id, skill)
            == state,
        taken(state, provider_id, skill).seen.contains(skill.source.real_path->0),
        taken(taken(state, provider_id, skill), provider_id, skill) == taken(
            state,
            provider_id,
            skill,
        ),
{
}

/// A skill of a new name is taken behind the others, and there is a warning just where nobody but
/// the host may see it. One of a name that is taken changes no skill, and the warning names it,
/// where it comes from, and then where the one comes from that keeps the name.
pub proof fn new_name_is_taken_and_known_name_is_kept(
    state: TakenView,
    provider_id: Seq<char>,
    skill: SkillView,
    i: int,
)
    requires
        skill.source.real_path is Some ==> !state.seen.contains(skill.source.real_path->0),
    ensures
        ({
            let after = taken(state, provider_id, skill);
            let fresh = forall|j: int|
                0 <= j < state.all.len() ==> (#[trigger] state.all[j]).name != skill.name;
            let first = 0 <= i < state.all.len() && state.all[i].name == skill.name && forall|
                j: int,
            |
                0 <= j < i ==> (#[trigger] state.all[j]).name != skill.name;
            &&& state.warnings.is_prefix_of(after.warnings)
            &&& fresh ==> after.all == state.all.push(skill)
            &&& fresh && !(skill.exposure is HostOnly) ==> after.warnings == state.warnings
            &&& fresh && skill.exposure is HostOnly ==> after.warnings.len()
                == state.warnings.len() + 1 && is_part_of(skill.name, after.warnings.last().message)
            &&& first ==> {
                &&& after.all == state.all
                &&& after.warnings.len() == state.warnings.len() + 1
                &&& after.warnings.last().provider_id == provider_id
                &&& is_part_of(skill.name, after.warnings.last().message)
                &&& (skill.source.label() + " is shadowed by "@
                    + state.all[i].source.label()).is_suffix_of(after.warnings.last().message)
            }
        }),
{
    let after = taken(state, provider_id, skill);
    lemma_place(state.all, skill.name);
    let at = place_of_name(state.all, skill.name);
    assert(after.warnings.take(state.warnings.len() as int) =~= state.warnings);
    if at < state.all.len() {
        let message = after.warnings.last().message;
        let tail = skill.source.label() + " is shadowed by "@ + state.all[at].source.label();
        middle_is_part("skill '"@, skill.name, "' from "@ + tail);
        assert(message =~= "skill '"@ + skill.name + ("' from "@ + tail));
        assert(message.skip(message.len() - tail.len()) =~= tail);
    } else if skill.exposure is HostOnly {
        middle_is_part("host-only skill '"@, skill.name, "' is hidden"@);
    }
}

/// A selected skill is told apart by where it comes from: with the library, or from a file.
pub proof fn selected_skill_keeps_its_source(skill: SkillView)
    ensures
        resolved_skill(skill).source == SkillSource::BuiltIn <==> skill.source.level is BuiltIn,
        resolved_skill(skill).source == SkillSource::BuiltIn || resolved_skill(skill).source
            == SkillSource::FileSystem,
        resolved_skill(skill).name == skill.name,
        resolved_skill(skill).description == skill.description,
        resolved_skill(skill).base_dir == skill.base_dir,
        resolved_skill(skill).content == skill.content,
{
}

/// A selected skill takes part in the fingerprint with its name, its revision and the digest of
/// what is told of it.
pub proof fn selected_skill_takes_part(all: Seq<SkillView>, skill: ResolvedView, at: int)
    requires
        0 <= at < all.len(),
        all[at].name == skill.name,
        forall|j: int| 0 <= j < at ==> (#[trigger] all[j]).name != skill.name,
    ensures
        selected_mark(all, skill) == "selected\0"@ + skill.name + "\0"@ + all[at].revision + "\0"@
            + text_digest(skill.content) + "\0"@,
{
    lemma_place(all, skill.name);
    let place = place_of_name(all, skill.name);
    if place < at {
        assert(all[place].name != skill.name);
    }
    if place > at {
        assert(all[at].name != skill.name);
    }
}

/// What is told of a skill that cannot be used names it.
pub proof fn skill_at_fault_is_named(name: Seq<char>, error: Seq<char>)
    ensures
        name.is_suffix_of(SkillFaultView::NotFound(name).message()),
        name.is_suffix_of(SkillFaultView::InvalidSelected(name).message()),
        name.is_suffix_of(SkillFaultView::HostOnly(name).message()),
        name.is_suffix_of(SkillFaultView::InvalidRuntime(name).message()),
        error.is_suffix_of((SkillFaultView::Provider { id: name, error }).message()),
        is_part_of(name, (SkillFaultView::Provider { id: name, error }).message()),
{
    let a = SkillFaultView::NotFound(name).message();
    let b = SkillFaultView::InvalidSelected(name).message();
    let c = SkillFaultView::HostOnly(name).message();
    let d = SkillFaultView::InvalidRuntime(name).message();
    let e = (SkillFaultView::Provider { id: name, error }).message();
    assert(a.skip(a.len() - name.len()) =~= name);
    assert(b.skip(b.len() - name.len()) =~= name);
    assert(c.skip(c.len() - name.len()) =~= name);
    assert(d.skip(d.len() - name.len()) =~= name);
    assert(e.skip(e.len() - error.len()) =~= error);
    let tail = " failed to load skills: "@ + error;
    middle_is_part("Error: skill provider "@, name, tail);
    assert(e =~= "Error: skill provider "@ + name + tail);
}

/// A switch is on just where its value, without white space, marks and capitals, is one of the
/// three words for it, and a line sets no other switch than its own.
pub proof fn switch_is_on_by_its_word(front: FrontView, value: Seq<char>)
    ensures
        is_truthy(value) <==> seq!["true"@, "yes"@, "1"@].contains(ascii_lower(scalar(value))),
        with_field(front, "hide:"@ + value).hide == is_truthy(value),
        with_field(front, "hide:"@ + value).description == front.description,
        with_field(front, "disable-model-invocation:"@ + value).disable_model_invocation
            == is_truthy(value),
        with_field(front, "disable-model-invocation:"@ + value).hide == front.hide,
{
    let words = seq!["true"@, "yes"@, "1"@];
    let word = ascii_lower(scalar(value));
    assert(words[0] == "true"@ && words[1] == "yes"@ && words[2] == "1"@);
    reveal_strlit("description:");
    reveal_strlit("hide:");
    reveal_strlit("disable-model-invocation:");
    let a = "hide:"@ + value;
    let b = "disable-model-invocation:"@ + value;
    assert(a.take(5) =~= "hide:"@);
    assert(a.skip(5) =~= value);
    assert(b.take(25) =~= "disable-model-invocation:"@);
    assert(b.skip(25) =~= value);
    assert(a[0] == 'h' && b[1] == 'i' && b[0] == 'd');
    if "description:"@.is_prefix_of(a) {
        assert(a.take(12)[0] == 'd');
    }
    if "description:"@.is_prefix_of(b) {
        assert(b.take(12)[1] == 'e');
    }
    if "hide:"@.is_prefix_of(b) {
        assert(b.take(5)[0] == 'h');
    }
}

/// A text that does not describe itself is summed up by its first line that is not blank, without
/// white space around it.
pub proof fn first_line_sums_up(lines: Seq<Seq<char>>, from: int, i: int)
    requires
        0 <= from <= i < lines.len(),
        trimmed(lines[i]).len() > 0,
        forall|j: int| from <= j < i ==> trimmed(#[trigger] lines[j]).len() == 0,
    ensures
        first_text(lines, from) == trimmed(lines[i]),
    decreases i - from,
{
    if from < i {
        assert(trimmed(lines[from]).len() == 0);
        first_line_sums_up(lines, from + 1, i);
    }
}

/// What is trimmed of a character begins and ends with another, and only that character is taken.
pub proof fn only_the_mark_is_trimmed(s: Seq<char>, c: char)
    ensures
        exists|before: Seq<char>, after: Seq<char>|
            s == #[trigger] (before + char_trimmed(s, c) + after) && (forall|i: int|
                0 <= i < before.len() ==> before[i] == c) && (forall|i: int|
                0 <= i < after.len() ==> after[i] == c),
        char_trimmed(s, c).len() > 0 ==> char_trimmed(s, c)[0] != c && char_trimmed(s, c).last()
            != c,
    decreases s.len(),
{
    let none = Seq::<char>::empty();
    let inner = char_trimmed(s, c);
    if s.len() > 0 && s[0] == c {
        let rest = s.drop_first();
        only_the_mark_is_trimmed(rest, c);
        let (a, b) = choose|before: Seq<char>, after: Seq<char>|
            rest == #[trigger] (before + char_trimmed(rest, c) + after) && (forall|i: int|
                0 <= i < before.len() ==> before[i] == c) && (forall|i: int|
                0 <= i < after.len() ==> after[i] == c);
        let front = seq![c] + a;
        assert(inner == char_trimmed(rest, c));
        assert(rest == a + inner + b);
        assert(s =~= seq![c] + rest);
        assert(front + inner + b =~= seq![c] + (a + inner + b));
    } else if s.len() > 0 && s.last() == c {
        let rest = s.drop_last();
        only_the_mark_is_trimmed(rest, c);
        let (a, b) = choose|before: Seq<char>, after: Seq<char>|
            rest == #[trigger] (before + char_trimmed(rest, c) + after) && (forall|i: int|
                0 <= i < before.len() ==> before[i] == c) && (forall|i: int|
                0 <= i < after.len() ==> after[i] == c);
        let end = b.push(c);
        assert(inner == char_trimmed(rest, c));
        assert(rest == a + inner + b);
        assert(s =~= rest.push(c));
        assert(a + inner + end =~= (a + inner + b).push(c));
    } else {
        assert(s =~= none + inner + none);
    }
}

/// In small letters a text keeps its length and every character that is no capital, and has no
/// capital any more.
pub proof fn small_letters_keep_the_rest(s: Seq<char>, i: int)
    requires
        0 <= i < s.len(),
    ensures
        ascii_lower(s).len() == s.len(),
        s[i] < 'A' || s[i] > 'Z' ==> ascii_lower(s)[i] == s[i],
        ascii_lower(s)[i] < 'A' || ascii_lower(s)[i] > 'Z',
        'A' <= s[i] <= 'Z' ==> ascii_lower(s)[i] as int - 32 == s[i] as int,
{
}

} // verus!
