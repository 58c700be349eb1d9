//! What holds of the sections from which a prompt is put together.

use crate::prompt::builder::{pack_fault, with_workflows};
use crate::prompt::document::{all_active, has_id, pushed, SectionView};
use crate::prompt::facts::FactView;
use crate::prompt::mission::{may_override, with_mission_section};
use crate::prompt::modules::{with_tool, with_tools};
use crate::prompt::render::{rendered, Capabilities, PackView, PromptTemplates};
use crate::prompt::sections::{
    added_until_fault, core_sections, environment_text, external_section, external_sections,
    file_elements, identity_text, is_set, language_text, locale_of, locale_setting, rule_elements,
    rule_lines, skill_elements, skill_lines, Draft, ExternalView, PromptEnvironment,
};
use crate::prompt::workflows::WorkflowView;
use crate::text::{index_of, joined, lemma_index_of, trim_twice_is_once, trimmed};
use crate::text_laws::{cut_text_is_put_together, is_part_of, middle_is_part};
use vstd::prelude::*;

verus! {

/// The core of a prompt are six sections, and a seventh on belief where signals are drawn. They
/// stand in a fixed order, the language of the answers last.
pub proof fn core_stands_in_its_order(
    env: PromptEnvironment,
    signals: bool,
    names: Seq<Seq<char>>,
    i: int,
)
    requires
        0 <= i < core_sections(env, signals, names).len(),
    ensures
        ({
            let core = core_sections(env, signals, names);
            let last = core.len() - 1;
            &&& core.len() == if signals {
                7int
            } else {
                6
            }
            &&& core[0].id == "system-conventions"@
            &&& core[1].id == "agent-identity"@
            &&& core[1].content == identity_text(locale_of(env))
            &&& core[2].id == "environment"@
            &&& core[2].content == environment_text(env)
            &&& core[3].id == "execution-codes"@
            &&& signals ==> core[4].id == "belief-awareness"@
            &&& names.len() > 0 ==> core[last - 1].content == "Available tools: "@ + joined(
                names,
                ", "@,
            ) && core[last - 1].referenced_tools == names.to_set()
            &&& names.len() == 0 ==> core[last - 1].origin is Core
            &&& core[last].id == "output-language"@
            &&& core[last].content == language_text(locale_of(env))
            &&& core[i].tag == core[i].id
        }),
{
}

/// What can come from outside, with the parts of which each consists, in the order in which a
/// prompt tells it.
pub open spec fn told_from_outside(external: ExternalView) -> Seq<(Seq<char>, Seq<Seq<char>>)> {
    let none = Seq::<Seq<char>>::empty();
    seq![
        ("rules"@, rule_elements(external.rules)),
        ("instruction-files"@, file_elements(external.files)),
        (
            "rule-index"@,
            if external.resources {
                rule_lines(external.rule_index)
            } else {
                none
            },
        ),
        (
            "skill-index"@,
            if external.resources {
                skill_lines(external.skill_index)
            } else {
                none
            },
        ),
        ("selected-skills"@, skill_elements(external.selected, external.resources)),
    ]
}

/// From outside come the rules, the instruction files, what can be found and the selected skills,
/// in this order; each that has no part is left out, and each other holds all its parts, line
/// by line.
pub proof fn outside_stands_in_its_order(external: ExternalView)
    ensures
        external_sections(external) == told_from_outside(external).filter(
            |told: (Seq<char>, Seq<Seq<char>>)| told.1.len() > 0,
        ).map_values(
            |told: (Seq<char>, Seq<Seq<char>>)| external_section(told.0, joined(told.1, "\n"@)),
        ),
{
    reveal(Seq::filter);
    let all = told_from_outside(external);
    let some = |told: (Seq<char>, Seq<Seq<char>>)| told.1.len() > 0;
    let write = |told: (Seq<char>, Seq<Seq<char>>)|
        external_section(told.0, joined(told.1, "\n"@));
    let p4 = all.drop_last();
    let p3 = p4.drop_last();
    let p2 = p3.drop_last();
    let p1 = p2.drop_last();
    let p0 = p1.drop_last();
    assert(p0.len() == 0);
    assert(p0.filter(some) =~= seq![]);
    assert(p1.last() == all[0] && p2.last() == all[1] && p3.last() == all[2] && p4.last()
        == all[3]);
    lemma_keep_one(p1);
    lemma_keep_one(p2);
    lemma_keep_one(p3);
    lemma_keep_one(p4);
    lemma_keep_one(all);
    assert(p0.filter(some).map_values(write) =~= seq![]);
    assert(external_sections(external) =~= all.filter(some).map_values(write));
}

proof fn lemma_keep_one(all: Seq<(Seq<char>, Seq<Seq<char>>)>)
    requires
        all.len() > 0,
    ensures
        ({
            let some = |told: (Seq<char>, Seq<Seq<char>>)| told.1.len() > 0;
            let write = |told: (Seq<char>, Seq<Seq<char>>)|
                external_section(told.0, joined(told.1, "\n"@));
            let before = all.drop_last().filter(some).map_values(write);
            all.filter(some).map_values(write) == if all.last().1.len() > 0 {
                before.push(external_section(all.last().0, joined(all.last().1, "\n"@)))
            } else {
                before
            }
        }),
{
    reveal(Seq::filter);
    let some = |told: (Seq<char>, Seq<Seq<char>>)| told.1.len() > 0;
    let write = |told: (Seq<char>, Seq<Seq<char>>)|
        external_section(told.0, joined(told.1, "\n"@));
    let kept = all.drop_last().filter(some);
    if some(all.last()) {
        assert(kept.push(all.last()).map_values(write) =~= kept.map_values(write).push(
            write(all.last()),
        ));
    }
}

/// Sections from outside that say something, under names of which none is taken and none stands
/// twice, are all added, in their order, behind what is there.
pub proof fn new_sections_are_all_added(doc: Seq<SectionView>, sections: Seq<SectionView>)
    requires
        forall|i: int|
            0 <= i < sections.len() ==> (#[trigger] sections[i]).origin is External && trimmed(
                sections[i].content,
            ).len() > 0 && !has_id(doc, sections[i].id),
        forall|i: int, j: int|
            0 <= i < j < sections.len() ==> (#[trigger] sections[i]).id != (
            #[trigger] sections[j]).id,
    ensures
        added_until_fault(doc, sections) == doc + sections,
    decreases sections.len(),
{
    if sections.len() > 0 {
        let longer = doc.push(sections[0]);
        let rest = sections.drop_first();
        assert(!has_id(doc, sections[0].id));
        assert(pushed(doc, sections[0])->Ok_0 == longer);
        assert forall|i: int| 0 <= i < rest.len() implies (#[trigger] rest[i]).origin is External
            && trimmed(rest[i].content).len() > 0 && !has_id(longer, rest[i].id) by {
            assert(rest[i] == sections[i + 1]);
            assert(sections[0].id != sections[i + 1].id);
            if has_id(longer, rest[i].id) {
                let k = choose|k: int|
                    0 <= k < longer.len() && (#[trigger] longer[k]).id == rest[i].id;
                if k < doc.len() {
                    assert(doc[k].id == rest[i].id);
                }
            }
        }
        assert forall|i: int, j: int| 0 <= i < j < rest.len() implies (#[trigger] rest[i]).id != (
        #[trigger] rest[j]).id by {
            assert(rest[i] == sections[i + 1] && rest[j] == sections[j + 1]);
        }
        new_sections_are_all_added(longer, rest);
        assert(longer + rest =~= doc + sections);
    } else {
        assert(doc + sections =~= doc);
    }
}

/// Nothing that is there is lost when sections are added, whether one is refused or not.
pub proof fn added_sections_keep_what_is_there(doc: Seq<SectionView>, sections: Seq<SectionView>)
    ensures
        doc.is_prefix_of(added_until_fault(doc, sections)),
    decreases sections.len(),
{
    if sections.len() > 0 {
        match pushed(doc, sections[0]) {
            Ok(longer) => {
                added_sections_keep_what_is_there(longer, sections.drop_first());
                let all = added_until_fault(doc, sections);
                assert(longer.take(doc.len() as int) =~= doc);
                assert(all.take(longer.len() as int) =~= longer);
                assert(all.take(doc.len() as int) =~= doc);
            },
            Err(_) => {},
        }
    }
}

/// The language is that of the first setting that is there: the one for everything, the one for
/// messages, the general one. Of the setting counts what stands before the first dot.
pub proof fn language_is_that_of_the_first_setting(env: PromptEnvironment)
    ensures
        is_set(env.lc_all) ==> locale_setting(env) == env.lc_all->0@,
        !is_set(env.lc_all) && is_set(env.lc_messages) ==> locale_setting(env)
            == env.lc_messages->0@,
        !is_set(env.lc_all) && !is_set(env.lc_messages) && is_set(env.lang) ==> locale_setting(env)
            == env.lang->0@,
        !is_set(env.lc_all) && !is_set(env.lc_messages) && !is_set(env.lang) ==> locale_setting(
            env,
        ) == "en_US"@,
        !locale_of(env).contains('.'),
        locale_of(env) == locale_setting(env) || (locale_of(env) + "."@).is_prefix_of(
            locale_setting(env),
        ),
{
    let s = locale_setting(env);
    reveal_strlit(".");
    cut_text_is_put_together(s, '.');
    lemma_index_of(s, '.');
    let at = index_of(s, '.');
    if at < s.len() {
        assert(locale_of(env) == s.take(at));
        let head = locale_of(env) + "."@;
        assert(s.take(head.len() as int) =~= head);
    }
}

/// Whoever uses Chinese is addressed in it, whatever the region, and asked for answers in it;
/// anybody else is told the language of the answers by its name.
pub proof fn language_is_told(locale: Seq<char>)
    ensures
        "zh"@.is_prefix_of(locale) ==> identity_text(locale) == identity_text("zh"@)
            && language_text(locale) == language_text("zh"@),
        !"zh"@.is_prefix_of(locale) ==> is_part_of(locale, language_text(locale)) && identity_text(
            locale,
        ) == identity_text("en_US"@),
{
    reveal_strlit("zh");
    reveal_strlit("en_US");
    assert("zh"@.take(2) =~= "zh"@);
    assert("en_US"@.take(2)[0] == 'e');
    assert("zh"@[0] == 'z');
    if !"zh"@.is_prefix_of(locale) {
        let end = "\" for all explanations. Code, commands, and file content remain as-is."@;
        middle_is_part("Use \""@, locale, end);
    }
}

/// What is said of a tool stands in a section of its own, which refers to that tool, where the
/// tool can be called, and nowhere where it cannot.
pub proof fn guidance_stands_with_its_tool(
    doc: Seq<SectionView>,
    surface: Seq<Seq<char>>,
    tool: Seq<char>,
    id: Seq<char>,
    template: Seq<char>,
)
    ensures
        !surface.contains(tool) ==> with_tool(doc, surface, tool, id, template) == Draft::Ok(doc),
        surface.contains(tool) && trimmed(template).len() > 0 ==> (with_tool(
            doc,
            surface,
            tool,
            id,
            template,
        ) matches Ok(after) ==> {
            &&& after.len() == doc.len() + 1
            &&& after.last().id == id
            &&& after.last().content == trimmed(template)
            &&& after.last().referenced_tools == set![tool]
        }),
{
    trim_twice_is_once(template);
}

/// Each tool with guidance of its own gets just that: what is said of sub-agents stands with the
/// one that starts them, what is said of the list of tasks with the one that writes it.
pub proof fn guidance_is_that_of_the_tool(
    doc: Seq<SectionView>,
    surface: Seq<Seq<char>>,
    templates: PromptTemplates,
)
    requires
        trimmed(templates.sub_agent@).len() > 0,
        trimmed(templates.todo_write@).len() > 0,
    ensures
        with_tools(doc, surface, templates) matches Ok(after) ==> {
            &&& surface.contains("TodoWrite"@) ==> after.last().content == trimmed(
                templates.todo_write@,
            )
            &&& surface.contains("SubAgent"@) ==> after[doc.len() as int].content == trimmed(
                templates.sub_agent@,
            )
            &&& !surface.contains("SubAgent"@) && !surface.contains("TodoWrite"@) ==> after == doc
        },
{
    let sub = templates.sub_agent@;
    let todo = templates.todo_write@;
    guidance_stands_with_its_tool(doc, surface, "SubAgent"@, "sub-agent-guidance"@, sub);
    match with_tool(doc, surface, "SubAgent"@, "sub-agent-guidance"@, sub) {
        Ok(d) => {
            guidance_stands_with_its_tool(d, surface, "TodoWrite"@, "todo-guidance"@, todo);
        },
        Err(_) => {},
    }
}

/// The advice of a workflow is refused just where it names a tool that cannot be called, rests on
/// a fact that does not hold, or does not use what the workflow asks for.
pub proof fn advice_is_refused_for_a_reason(
    spec: WorkflowView,
    pack: PackView,
    facts: Set<FactView>,
    surface: Seq<Seq<char>>,
)
    ensures
        pack_fault(spec, pack, facts, surface) is None <==> {
            &&& pack.referenced_tools.subset_of(surface.to_set())
            &&& pack.consumed_facts.subset_of(facts)
            &&& spec.requirement.satisfied(pack.consumed_facts)
        },
{
    assert(all_active(pack.referenced_tools, surface) <==> pack.referenced_tools.subset_of(
        surface.to_set(),
    ));
}

/// The advice of each workflow that takes part stands in the prompt under the name of the
/// workflow, as it was written.
pub proof fn advice_stands_in_the_prompt(
    doc: Seq<SectionView>,
    specs: Seq<WorkflowView>,
    templates: PromptTemplates,
    tools: Capabilities,
    facts: Set<FactView>,
    surface: Seq<Seq<char>>,
    n: nat,
    i: int,
)
    requires
        0 <= i < n <= specs.len(),
        with_workflows(doc, specs, templates, tools, facts, surface, n) is Ok,
    ensures
        ({
            let after = with_workflows(doc, specs, templates, tools, facts, surface, n)->Ok_0;
            &&& doc.is_prefix_of(after)
            &&& rendered(specs[i].render, templates, tools) matches Ok(pack) && (trimmed(
                pack.content,
            ).len() > 0 ==> exists|k: int|
                0 <= k < after.len() && (#[trigger] after[k]).id == specs[i].id && after[k].tag
                    == specs[i].tag && after[k].content == pack.content
                    && after[k].referenced_tools == pack.referenced_tools)
        }),
    decreases n,
{
    let before = with_workflows(doc, specs, templates, tools, facts, surface, (n - 1) as nat)->Ok_0;
    let after = with_workflows(doc, specs, templates, tools, facts, surface, n)->Ok_0;
    assert(before.is_prefix_of(after)) by {
        assert(after.take(before.len() as int) =~= before);
    }
    if n > 1 {
        let j = if i < n - 1 {
            i
        } else {
            0
        };
        advice_stands_in_the_prompt(
            doc,
            specs,
            templates,
            tools,
            facts,
            surface,
            (n - 1) as nat,
            j,
        );
    }
    assert(doc.is_prefix_of(after)) by {
        if n == 1 {
            assert(before == doc);
        } else {
            assert(before.take(doc.len() as int) =~= doc);
            assert(after.take(before.len() as int) =~= before);
            assert(after.take(doc.len() as int) =~= doc);
        }
    }
    if i < n - 1 {
        let pack = rendered(specs[i].render, templates, tools)->Ok_0;
        if trimmed(pack.content).len() > 0 {
            let k = choose|k: int|
                0 <= k < before.len() && (#[trigger] before[k]).id == specs[i].id && before[k].tag
                    == specs[i].tag && before[k].content == pack.content
                    && before[k].referenced_tools == pack.referenced_tools;
            assert(after.take(before.len() as int)[k] == after[k]);
        }
    } else {
        let pack = rendered(specs[i].render, templates, tools)->Ok_0;
        if trimmed(pack.content).len() > 0 {
            assert(after[before.len() as int].id == specs[i].id);
        }
    }
}

/// A mission can replace each section of the core but the one on what can be called, and then
/// that section says what the mission says; under any other heading it adds a section, or is
/// refused, and replaces nothing.
pub proof fn mission_replaces_the_core(
    env: PromptEnvironment,
    signals: bool,
    names: Seq<Seq<char>>,
    heading: Seq<char>,
    body: Seq<char>,
    reserved: Set<Seq<char>>,
)
    ensures
        ({
            let core = core_sections(env, signals, names);
            let replaceable = has_id(core, heading) && heading != "runtime-capabilities"@ && heading
                != "tool-inventory"@;
            let known = heading == "belief-awareness"@ || has_id(core, heading);
            &&& replaceable ==> may_override(heading)
            &&& may_override(heading) ==> known
            &&& !may_override(heading) ==> (with_mission_section(
                core,
                heading,
                body,
                reserved,
            ) matches Ok(after) ==> core.is_prefix_of(after) && (trimmed(body).len() > 0
                ==> after.last().content == body && after.last().tag == heading))
        }),
{
    let core = core_sections(env, signals, names);
    let last = core.len() - 1;
    assert(core[0].id == "system-conventions"@);
    assert(core[1].id == "agent-identity"@);
    assert(core[2].id == "environment"@);
    assert(core[3].id == "execution-codes"@);
    assert(core[last].id == "output-language"@);
    assert(core[last - 1].id == "runtime-capabilities"@ || core[last - 1].id == "tool-inventory"@);
    if signals {
        assert(core[4].id == "belief-awareness"@);
    }
    if has_id(core, heading) {
        let k = choose|k: int| 0 <= k < core.len() && (#[trigger] core[k]).id == heading;
        assert(k == 0 || k == 1 || k == 2 || k == 3 || k == 4 || k == 5 || k == 6);
    }
    if !may_override(heading) {
        match with_mission_section(core, heading, body, reserved) {
            Ok(after) => {
                assert(after.take(core.len() as int) =~= core);
            },
            Err(_) => {},
        }
    }
}

} // verus!
