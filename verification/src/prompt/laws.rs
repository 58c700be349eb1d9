//! What the model is told in the prompt of a session.

use crate::prompt::builder::{
    built, runtime_sections, session_workflows, with_mission_text, with_workflows, Builder,
};
use crate::prompt::document::{
    document_text, escaped, lemma_place_of, moved_to_end, place_of, pushed, section_text,
    SectionView,
};
use crate::prompt::mission::{
    closed_sections, heading_of, may_override, mission_section, mission_sections, read_lines,
    with_mission, with_mission_section,
};
use crate::prompt::modules::{reserved_ids, with_tool, with_tools};
use crate::prompt::render::{Capabilities, PromptTemplates};
use crate::prompt::sections::{
    core_section, environment_text, external_section, external_view, file_elements,
    inventory_section, language_text, locale_of, rule_elements, rule_lines, skill_elements,
    skill_lines, tools_section, with_basics, with_core, with_external, with_parts, with_signals,
    ExternalView, PromptEnvironment,
};
use crate::prompt::facts::FactView;
use crate::prompt::workflows::WorkflowView;
use crate::text::{is_blank, is_space, joined, lines_of, trimmed, trimmed_empty_iff_blank};
use crate::text_laws::{is_part_of, joined_holds_each_part, part_of_part};
use crate::tools::ToolSemanticCapability;
use vstd::prelude::*;

verus! {

/// The text of every section stands in the prompt, between the tags of the section.
pub proof fn sections_stand_in_the_prompt(doc: Seq<SectionView>, k: int)
    requires
        0 <= k < doc.len(),
    ensures
        is_part_of(doc[k].content, document_text(doc)),
        doc[k].name is None ==> is_part_of(
            "<"@ + doc[k].tag + ">\n"@ + doc[k].content + "\n</"@ + doc[k].tag + ">"@,
            document_text(doc),
        ),
        doc[k].name matches Some(name) ==> is_part_of(
            "<"@ + doc[k].tag + " name=\""@ + escaped(name) + "\">\n"@ + doc[k].content + "\n</"@
                + doc[k].tag + ">"@,
            document_text(doc),
        ),
{
    let texts = doc.map_values(|s: SectionView| section_text(s));
    joined_holds_each_part(texts, "\n"@, k);
    let section = doc[k];
    let text = section_text(section);
    assert(texts[k] == text);
    let head = match section.name {
        Some(name) => "<"@ + section.tag + " name=\""@ + escaped(name) + "\">\n"@,
        None => "<"@ + section.tag + ">\n"@,
    };
    let foot = "\n</"@ + section.tag + ">"@;
    assert(text =~= head + section.content + foot);
    part_of_part(section.content, text, document_text(doc));
}

/// The sections stand in the prompt in their order, with a line feed between each two.
pub proof fn prompt_is_made_of_its_sections(doc: Seq<SectionView>, section: SectionView)
    requires
        doc.len() > 0,
    ensures
        document_text(doc.push(section)) == document_text(doc) + "\n"@ + document_text(
            seq![section],
        ),
{
    let f = |s: SectionView| section_text(s);
    let texts = doc.push(section).map_values(f);
    assert(texts.drop_last() =~= doc.map_values(f));
    assert(texts.last() == section_text(section));
    assert(seq![section].map_values(f) =~= seq![section_text(section)]);
    assert(joined(seq![section_text(section)], "\n"@) == section_text(section));
}

proof fn lemma_push_keeps(doc: Seq<SectionView>, section: SectionView)
    requires
        pushed(doc, section) is Ok,
    ensures
        doc.is_prefix_of(pushed(doc, section)->Ok_0),
        !is_blank(section.content) ==> pushed(doc, section)->Ok_0.contains(section),
{
    let after = pushed(doc, section)->Ok_0;
    trimmed_empty_iff_blank(section.content);
    assert(doc =~= after.subrange(0, doc.len() as int));
    if !is_blank(section.content) {
        assert(after.last() == section);
    }
}

proof fn lemma_prefix_holds(a: Seq<SectionView>, b: Seq<SectionView>, s: SectionView)
    requires
        a.is_prefix_of(b),
        a.contains(s),
    ensures
        b.contains(s),
{
    let k = choose|k: int| 0 <= k < a.len() && a[k] == s;
    assert(b[k] == a[k]) by {
        assert(b.subrange(0, a.len() as int)[k] == a[k]);
    }
}

proof fn lemma_prefix_of_prefix(a: Seq<SectionView>, b: Seq<SectionView>, c: Seq<SectionView>)
    requires
        a.is_prefix_of(b),
        b.is_prefix_of(c),
    ensures
        a.is_prefix_of(c),
{
    assert(a =~= c.subrange(0, a.len() as int)) by {
        assert forall|i: int| 0 <= i < a.len() implies a[i] == c[i] by {
            assert(b.subrange(0, a.len() as int)[i] == a[i]);
            assert(c.subrange(0, b.len() as int)[i] == b[i]);
        }
    }
}

proof fn lemma_visible(parts: Seq<Seq<char>>, sep: Seq<char>, i: int)
    requires
        0 <= i < parts.len(),
        parts[i].len() > 0,
        !is_space(parts[i][0]),
    ensures
        !is_blank(joined(parts, sep)),
{
    joined_holds_each_part(parts, sep, i);
    let whole = joined(parts, sep);
    let (a, b) = choose|before: Seq<char>, after: Seq<char>| whole == #[trigger] (before + parts[i]
        + after);
    assert(whole[a.len() as int] == parts[i][0]);
}

/// Whether the prompt `doc` holds a section from outside with these parts.
spec fn holds_parts(doc: Seq<SectionView>, id: Seq<char>, parts: Seq<Seq<char>>) -> bool {
    doc.contains(external_section(id, joined(parts, "\n"@)))
}

proof fn lemma_parts(doc: Seq<SectionView>, id: Seq<char>, parts: Seq<Seq<char>>)
    requires
        with_parts(Ok(doc), id, parts) is Ok,
    ensures
        doc.is_prefix_of(with_parts(Ok(doc), id, parts)->Ok_0),
        forall|i: int|
            0 <= i < parts.len() && (#[trigger] parts[i]).len() > 0 && !is_space(parts[i][0])
                ==> holds_parts(with_parts(Ok(doc), id, parts)->Ok_0, id, parts),
{
    if parts.len() == 0 {
        assert(doc =~= doc.subrange(0, doc.len() as int));
    } else {
        let section = external_section(id, joined(parts, "\n"@));
        lemma_push_keeps(doc, section);
        assert forall|i: int|
            0 <= i < parts.len() && (#[trigger] parts[i]).len() > 0 && !is_space(
                parts[i][0],
            ) implies holds_parts(with_parts(Ok(doc), id, parts)->Ok_0, id, parts) by {
            lemma_visible(parts, "\n"@, i);
        }
    }
}

proof fn lemma_later_holds(
    a: Seq<SectionView>,
    b: Seq<SectionView>,
    id: Seq<char>,
    parts: Seq<Seq<char>>,
)
    requires
        a.is_prefix_of(b),
        holds_parts(a, id, parts),
    ensures
        holds_parts(b, id, parts),
{
    lemma_prefix_holds(a, b, external_section(id, joined(parts, "\n"@)));
}

proof fn lemma_external(doc: Seq<SectionView>, external: ExternalView)
    requires
        with_external(doc, external) is Ok,
    ensures
        doc.is_prefix_of(with_external(doc, external)->Ok_0),
        external.rules.len() > 0 ==> holds_parts(
            with_external(doc, external)->Ok_0,
            "rules"@,
            rule_elements(external.rules),
        ),
        external.files.len() > 0 ==> holds_parts(
            with_external(doc, external)->Ok_0,
            "instruction-files"@,
            file_elements(external.files),
        ),
        external.resources && external.rule_index.len() > 0 ==> holds_parts(
            with_external(doc, external)->Ok_0,
            "rule-index"@,
            rule_lines(external.rule_index),
        ),
        external.resources && external.skill_index.len() > 0 ==> holds_parts(
            with_external(doc, external)->Ok_0,
            "skill-index"@,
            skill_lines(external.skill_index),
        ),
        external.selected.len() > 0 ==> holds_parts(
            with_external(doc, external)->Ok_0,
            "selected-skills"@,
            skill_elements(external.selected, external.resources),
        ),
{
    reveal_strlit("<");
    reveal_strlit("- ");
    let rules = rule_elements(external.rules);
    let files = file_elements(external.files);
    let rule_index = rule_lines(external.rule_index);
    let skill_index = skill_lines(external.skill_index);
    let selected = skill_elements(external.selected, external.resources);
    let d1 = with_parts(Ok(doc), "rules"@, rules)->Ok_0;
    let d2 = with_parts(Ok(d1), "instruction-files"@, files)->Ok_0;
    lemma_parts(doc, "rules"@, rules);
    lemma_parts(d1, "instruction-files"@, files);
    let d3 = if external.resources {
        with_parts(Ok(d2), "rule-index"@, rule_index)->Ok_0
    } else {
        d2
    };
    let d4 = if external.resources {
        with_parts(Ok(d3), "skill-index"@, skill_index)->Ok_0
    } else {
        d2
    };
    if external.resources {
        lemma_parts(d2, "rule-index"@, rule_index);
        lemma_parts(d3, "skill-index"@, skill_index);
    } else {
        assert(d2 =~= d2.subrange(0, d2.len() as int));
    }
    let d5 = with_external(doc, external)->Ok_0;
    lemma_parts(d4, "selected-skills"@, selected);
    lemma_prefix_of_prefix(d3, d4, d5);
    lemma_prefix_of_prefix(d2, d3, d5);
    lemma_prefix_of_prefix(d1, d2, d5);
    lemma_prefix_of_prefix(doc, d1, d5);
    if external.rules.len() > 0 {
        assert(rules[0].len() > 0 && rules[0][0] == '<');
        lemma_later_holds(d1, d5, "rules"@, rules);
    }
    if external.files.len() > 0 {
        assert(files[0].len() > 0 && files[0][0] == '<');
        lemma_later_holds(d2, d5, "instruction-files"@, files);
    }
    if external.resources && external.rule_index.len() > 0 {
        assert(rule_index[0].len() > 0 && rule_index[0][0] == '-');
        lemma_later_holds(d3, d5, "rule-index"@, rule_index);
    }
    if external.resources && external.skill_index.len() > 0 {
        assert(skill_index[0].len() > 0 && skill_index[0][0] == '-');
        lemma_later_holds(d4, d5, "skill-index"@, skill_index);
    }
    if external.selected.len() > 0 {
        assert(selected[0].len() > 0 && selected[0][0] == '<');
    }
}

proof fn lemma_move_keeps(doc: Seq<SectionView>, id: Seq<char>, s: SectionView)
    requires
        moved_to_end(doc, id) is Ok,
        doc.contains(s),
    ensures
        moved_to_end(doc, id)->Ok_0.contains(s),
{
    lemma_place_of(doc, id);
    let i = place_of(doc, id);
    let after = moved_to_end(doc, id)->Ok_0;
    let k = choose|k: int| 0 <= k < doc.len() && doc[k] == s;
    if k < i {
        assert(after[k] == s);
    } else if k == i {
        assert(after[after.len() - 1] == s);
    } else {
        assert(after[k - 1] == s);
    }
}

/// What the builder takes from outside.
spec fn external_of(b: Builder) -> ExternalView {
    external_view(
        b.rule_snapshot,
        b.context_file_snapshot,
        b.skill_snapshot,
        b.tool_capabilities@.contains_key(ToolSemanticCapability::ResourceRead),
    )
}

proof fn lemma_part_is_told(b: Builder, id: Seq<char>, parts: Seq<Seq<char>>, i: int)
    requires
        built(b) is Ok,
        holds_parts(
            with_external(runtime_sections(b)->Ok_0, external_of(b))->Ok_0,
            id,
            parts,
        ),
        0 <= i < parts.len(),
    ensures
        is_part_of(parts[i], document_text(built(b)->Ok_0)),
{
    let d5 = with_external(runtime_sections(b)->Ok_0, external_of(b))->Ok_0;
    let section = external_section(id, joined(parts, "\n"@));
    lemma_move_keeps(d5, "output-language"@, section);
    let doc = built(b)->Ok_0;
    let k = choose|k: int| 0 <= k < doc.len() && doc[k] == section;
    sections_stand_in_the_prompt(doc, k);
    joined_holds_each_part(parts, "\n"@, i);
    part_of_part(parts[i], section.content, document_text(doc));
}

/// Every instruction file that always applies is told to the model: its text stands in the prompt
/// as it was read, in one piece, between the tags of an element that carries its name.
pub proof fn instruction_files_are_told(b: Builder, i: int)
    requires
        built(b) is Ok,
        0 <= i < b.context_file_snapshot@.always_apply.len(),
    ensures
        ({
            let file = b.context_file_snapshot@.always_apply[i];
            is_part_of(
                "<instruction-file name=\""@ + escaped(file.name) + "\">\n"@ + file.content
                    + "\n</instruction-file>"@,
                document_text(built(b)->Ok_0),
            )
        }),
{
    let external = external_of(b);
    let parts = file_elements(external.files);
    lemma_external(runtime_sections(b)->Ok_0, external);
    lemma_part_is_told(b, "instruction-files"@, parts, i);
    let file = b.context_file_snapshot@.always_apply[i];
    reveal_strlit("<");
    reveal_strlit("instruction-file");
    reveal_strlit(" name=\"");
    reveal_strlit("<instruction-file name=\"");
    reveal_strlit("\n</");
    reveal_strlit(">");
    reveal_strlit("\n</instruction-file>");
    assert("<instruction-file name=\""@ =~= "<"@ + "instruction-file"@ + " name=\""@);
    assert("\n</instruction-file>"@ =~= "\n</"@ + "instruction-file"@ + ">"@);
    assert(parts[i] =~= "<instruction-file name=\""@ + escaped(file.name) + "\">\n"@ + file.content
        + "\n</instruction-file>"@);
}

/// Every rule that always applies is told to the model: its text stands in the prompt in one piece,
/// between the tags of an element that carries its name.
pub proof fn rules_are_told(b: Builder, i: int)
    requires
        built(b) is Ok,
        0 <= i < b.rule_snapshot@.always_apply.len(),
    ensures
        ({
            let rule = b.rule_snapshot@.always_apply[i];
            is_part_of(
                "<rule name=\""@ + escaped(rule.name) + "\">\n"@ + rule.content + "\n</rule>"@,
                document_text(built(b)->Ok_0),
            )
        }),
{
    let external = external_of(b);
    let parts = rule_elements(external.rules);
    lemma_external(runtime_sections(b)->Ok_0, external);
    lemma_part_is_told(b, "rules"@, parts, i);
    let rule = b.rule_snapshot@.always_apply[i];
    reveal_strlit("<");
    reveal_strlit("rule");
    reveal_strlit(" name=\"");
    reveal_strlit("<rule name=\"");
    reveal_strlit("\n</");
    reveal_strlit(">");
    reveal_strlit("\n</rule>");
    assert("<rule name=\""@ =~= "<"@ + "rule"@ + " name=\""@);
    assert("\n</rule>"@ =~= "\n</"@ + "rule"@ + ">"@);
    assert(parts[i] =~= "<rule name=\""@ + escaped(rule.name) + "\">\n"@ + rule.content
        + "\n</rule>"@);
}

/// Every skill that is selected is told to the model: its text stands in the prompt in one piece,
/// behind the directory it comes from, in an element that carries its name.
pub proof fn selected_skills_are_told(b: Builder, i: int)
    requires
        built(b) is Ok,
        0 <= i < b.skill_snapshot@.selected.len(),
    ensures
        ({
            let skill = b.skill_snapshot@.selected[i];
            let text = document_text(built(b)->Ok_0);
            &&& is_part_of(
                "<skill name=\""@ + escaped(skill.name) + "\">\nBase directory: "@
                    + skill.base_dir,
                text,
            )
            &&& is_part_of("\n\n"@ + skill.content + "\n</skill>"@, text)
        }),
{
    let external = external_of(b);
    let parts = skill_elements(external.selected, external.resources);
    lemma_external(runtime_sections(b)->Ok_0, external);
    lemma_part_is_told(b, "selected-skills"@, parts, i);
    let skill = b.skill_snapshot@.selected[i];
    let text = document_text(built(b)->Ok_0);
    reveal_strlit("<");
    reveal_strlit("skill");
    reveal_strlit(" name=\"");
    reveal_strlit("<skill name=\"");
    reveal_strlit("\n</");
    reveal_strlit(">");
    reveal_strlit("\n</skill>");
    reveal_strlit("\">\n");
    reveal_strlit("Base directory: ");
    reveal_strlit("\">\nBase directory: ");
    assert("<skill name=\""@ =~= "<"@ + "skill"@ + " name=\""@);
    assert("\n</skill>"@ =~= "\n</"@ + "skill"@ + ">"@);
    assert("\">\nBase directory: "@ =~= "\">\n"@ + "Base directory: "@);
    let more = if external.resources {
        "\nResource base: skill://"@ + skill.name + "/"@
    } else {
        Seq::<char>::empty()
    };
    let head = "<skill name=\""@ + escaped(skill.name) + "\">\nBase directory: "@ + skill.base_dir;
    let foot = "\n\n"@ + skill.content + "\n</skill>"@;
    let none = Seq::<char>::empty();
    assert(parts[i] =~= head + more + foot);
    assert(parts[i] =~= none + head + (more + foot));
    assert(parts[i] =~= (head + more) + foot + none);
    part_of_part(head, parts[i], text);
    part_of_part(foot, parts[i], text);
}

/// Every skill that the model can find is told to it by name, with what it is for, where the model
/// can read resources.
pub proof fn findable_skills_are_told(b: Builder, i: int)
    requires
        built(b) is Ok,
        b.tool_capabilities@.contains_key(ToolSemanticCapability::ResourceRead),
        0 <= i < b.skill_snapshot@.discoverable.len(),
    ensures
        ({
            let skill = b.skill_snapshot@.discoverable[i];
            is_part_of(
                "- "@ + skill.name + ": "@ + skill.description,
                document_text(built(b)->Ok_0),
            )
        }),
{
    let external = external_of(b);
    let parts = skill_lines(external.skill_index);
    lemma_external(runtime_sections(b)->Ok_0, external);
    lemma_part_is_told(b, "skill-index"@, parts, i);
}

/// Every rule that the model can look up is told to it by name, with what it is for, where the
/// model can read resources.
pub proof fn findable_rules_are_told(b: Builder, i: int)
    requires
        built(b) is Ok,
        b.tool_capabilities@.contains_key(ToolSemanticCapability::ResourceRead),
        0 <= i < b.rule_snapshot@.discoverable.len(),
    ensures
        ({
            let rule = b.rule_snapshot@.discoverable[i];
            is_part_of("- "@ + rule.name + ": "@ + rule.description, document_text(built(b)->Ok_0))
        }),
{
    let external = external_of(b);
    let parts = rule_lines(external.rule_index);
    lemma_external(runtime_sections(b)->Ok_0, external);
    lemma_part_is_told(b, "rule-index"@, parts, i);
}

proof fn lemma_tools_keep(
    doc: Seq<SectionView>,
    surface: Seq<Seq<char>>,
    templates: PromptTemplates,
)
    requires
        with_tools(doc, surface, templates) is Ok,
    ensures
        doc.is_prefix_of(with_tools(doc, surface, templates)->Ok_0),
{
    let d = with_tool(
        doc,
        surface,
        "SubAgent"@,
        "sub-agent-guidance"@,
        templates.sub_agent@,
    )->Ok_0;
    let e = with_tools(doc, surface, templates)->Ok_0;
    assert(doc.is_prefix_of(d)) by {
        assert(doc =~= d.subrange(0, doc.len() as int));
    }
    assert(d.is_prefix_of(e)) by {
        assert(d =~= e.subrange(0, d.len() as int));
    }
    lemma_prefix_of_prefix(doc, d, e);
}

proof fn lemma_workflows_keep(
    doc: Seq<SectionView>,
    specs: Seq<WorkflowView>,
    templates: PromptTemplates,
    tools: Capabilities,
    facts: Set<FactView>,
    surface: Seq<Seq<char>>,
    n: nat,
)
    requires
        n <= specs.len(),
        with_workflows(doc, specs, templates, tools, facts, surface, n) is Ok,
    ensures
        doc.is_prefix_of(with_workflows(doc, specs, templates, tools, facts, surface, n)->Ok_0),
    decreases n,
{
    let after = with_workflows(doc, specs, templates, tools, facts, surface, n)->Ok_0;
    if n == 0 {
        assert(doc =~= after.subrange(0, doc.len() as int));
    } else {
        lemma_workflows_keep(doc, specs, templates, tools, facts, surface, (n - 1) as nat);
        let before = with_workflows(
            doc,
            specs,
            templates,
            tools,
            facts,
            surface,
            (n - 1) as nat,
        )->Ok_0;
        assert(before.is_prefix_of(after)) by {
            assert(before =~= after.subrange(0, before.len() as int));
        }
        lemma_prefix_of_prefix(doc, before, after);
    }
}

/// What stands in the prompt once the mission is in it, is told to the model.
proof fn lemma_early_section_is_told(b: Builder, section: SectionView)
    requires
        built(b) is Ok,
        ({
            let d1 = with_core(seq![], b.env, b.signals, b.tool_surface@)->Ok_0;
            with_mission_text(d1, b.mission_content)->Ok_0.contains(section)
        }),
    ensures
        built(b)->Ok_0.contains(section),
        is_part_of(section.content, document_text(built(b)->Ok_0)),
{
    let workflows = session_workflows(b.tool_capabilities@);
    let d1 = with_core(seq![], b.env, b.signals, b.tool_surface@)->Ok_0;
    let d2 = with_mission_text(d1, b.mission_content)->Ok_0;
    let d3 = with_tools(d2, b.tool_surface@, b.templates)->Ok_0;
    lemma_tools_keep(d2, b.tool_surface@, b.templates);
    lemma_workflows_keep(
        d3,
        workflows.0,
        b.templates,
        b.tool_capabilities@,
        workflows.1,
        b.tool_surface@,
        workflows.0.len(),
    );
    let d4 = runtime_sections(b)->Ok_0;
    let external = external_of(b);
    lemma_external(d4, external);
    let d5 = with_external(d4, external)->Ok_0;
    lemma_prefix_holds(d2, d3, section);
    lemma_prefix_holds(d3, d4, section);
    lemma_prefix_holds(d4, d5, section);
    lemma_move_keeps(d5, "output-language"@, section);
    let doc = built(b)->Ok_0;
    let k = choose|k: int| 0 <= k < doc.len() && doc[k] == section;
    sections_stand_in_the_prompt(doc, k);
}

proof fn lemma_core(doc: Seq<SectionView>, env: PromptEnvironment, signals: bool, names: Seq<Seq<char>>)
    requires
        with_core(doc, env, signals, names) is Ok,
    ensures
        ({
            let after = with_core(doc, env, signals, names)->Ok_0;
            &&& after.contains(core_section("environment"@, environment_text(env)))
            &&& after.contains(tools_section(names))
            &&& !is_blank(language_text(locale_of(env))) ==> after.contains(
                core_section("output-language"@, language_text(locale_of(env))),
            )
        }),
{
    let a = pushed(
        doc,
        core_section("system-conventions"@, crate::prompt::sections::SYSTEM_CONVENTIONS@),
    )->Ok_0;
    let b = pushed(
        a,
        core_section("agent-identity"@, crate::prompt::sections::identity_text(locale_of(env))),
    )->Ok_0;
    let place = core_section("environment"@, environment_text(env));
    let c = pushed(b, place)->Ok_0;
    let codes = core_section("execution-codes"@, crate::prompt::sections::EXECUTION_CODES@);
    let d = with_basics(doc, env)->Ok_0;
    let aware = core_section("belief-awareness"@, crate::prompt::sections::BELIEF_AWARENESS@);
    let e = with_signals(Ok(d), signals)->Ok_0;
    let listed = tools_section(names);
    let f = pushed(e, listed)->Ok_0;
    let language = core_section("output-language"@, language_text(locale_of(env)));
    let g = with_core(doc, env, signals, names)->Ok_0;
    reveal_strlit("lang: ");
    reveal_strlit("Available tools: ");
    reveal_strlit("No callable runtime capabilities are available in this session.");
    assert(place.content[0] == 'l');
    assert(!is_blank(place.content));
    assert(listed.content[0] == 'A' || listed.content[0] == 'N');
    assert(!is_blank(listed.content));
    lemma_push_keeps(b, place);
    lemma_push_keeps(c, codes);
    if signals {
        lemma_push_keeps(d, aware);
    } else {
        assert(d =~= d.subrange(0, d.len() as int));
    }
    lemma_push_keeps(e, listed);
    lemma_push_keeps(f, language);
    lemma_prefix_holds(c, d, place);
    lemma_prefix_holds(d, e, place);
    lemma_prefix_holds(e, f, place);
    lemma_prefix_holds(f, g, place);
    lemma_prefix_holds(f, g, listed);
}

proof fn lemma_mission_keeps(b: Builder, section: SectionView)
    requires
        built(b) is Ok,
        with_core(seq![], b.env, b.signals, b.tool_surface@)->Ok_0.contains(section),
        b.mission_content is None || !may_override(section.id) || !(section.origin is Core),
    ensures
        ({
            let d1 = with_core(seq![], b.env, b.signals, b.tool_surface@)->Ok_0;
            with_mission_text(d1, b.mission_content)->Ok_0.contains(section)
        }),
{
    let d1 = with_core(seq![], b.env, b.signals, b.tool_surface@)->Ok_0;
    if b.mission_content is Some && trimmed(b.mission_content->0@).len() > 0 {
        let sections = mission_sections(b.mission_content->0@);
        let end = with_mission(d1, sections, reserved_ids(), sections.len());
        let i = choose|i: int| 0 <= i < d1.len() && d1[i] == section;
        crate::prompt::mission::mission_keeps_other_sections(
            d1,
            sections,
            reserved_ids(),
            sections.len(),
            i,
        );
        assert(end.0[i] == section);
    }
}

/// The model is told of every tool that it can call.
pub proof fn callable_tools_are_told(b: Builder, i: int)
    requires
        built(b) is Ok,
        0 <= i < b.tool_surface@.len(),
    ensures
        is_part_of(b.tool_surface@[i], document_text(built(b)->Ok_0)),
{
    let names = b.tool_surface@;
    let section = inventory_section(names);
    lemma_core(seq![], b.env, b.signals, names);
    assert(tools_section(names) == section);
    lemma_mission_keeps(b, section);
    lemma_early_section_is_told(b, section);
    joined_holds_each_part(names, ", "@, i);
    let list = joined(names, ", "@);
    assert(section.content =~= "Available tools: "@ + list + Seq::<char>::empty());
    part_of_part(names[i], list, section.content);
    part_of_part(names[i], section.content, document_text(built(b)->Ok_0));
}

/// Without a mission the model is told where it runs: the directory it works in, that of the user,
/// the platform and the language.
pub proof fn environment_is_told(b: Builder)
    requires
        built(b) is Ok,
        b.mission_content is None,
    ensures
        is_part_of(
            "lang: "@ + locale_of(b.env) + "\npwd: "@ + b.env.cwd@ + "\nhome: "@ + b.env.home@
                + "\nplatform: "@ + b.env.platform@ + "\nshell: "@,
            document_text(built(b)->Ok_0),
        ),
        b.env.shell matches Some(shell) ==> is_part_of(
            "\nshell: "@ + shell@,
            document_text(built(b)->Ok_0),
        ),
{
    let section = core_section("environment"@, environment_text(b.env));
    lemma_core(seq![], b.env, b.signals, b.tool_surface@);
    lemma_mission_keeps(b, section);
    lemma_early_section_is_told(b, section);
    let text = document_text(built(b)->Ok_0);
    let shell = match b.env.shell {
        Some(s) => s@,
        None => "unknown"@,
    };
    let none = Seq::<char>::empty();
    let head = "lang: "@ + locale_of(b.env) + "\npwd: "@ + b.env.cwd@ + "\nhome: "@ + b.env.home@
        + "\nplatform: "@ + b.env.platform@;
    assert(section.content =~= none + (head + "\nshell: "@) + shell);
    assert(section.content =~= head + ("\nshell: "@ + shell) + none);
    part_of_part(head + "\nshell: "@, section.content, text);
    part_of_part("\nshell: "@ + shell, section.content, text);
}

/// What becomes of a section of a mission that is let in: its text is in the prompt.
spec fn holds_mission(doc: Seq<SectionView>, heading: Seq<char>, body: Seq<char>) -> bool {
    exists|k: int|
        0 <= k < doc.len() && (#[trigger] doc[k]).content == body && !(doc[k].origin is Core) && (
        doc[k].id == heading || doc[k].id == "mission:"@ + heading)
}

proof fn lemma_mission_section(
    doc: Seq<SectionView>,
    heading: Seq<char>,
    body: Seq<char>,
    reserved: Set<Seq<char>>,
)
    requires
        with_mission_section(doc, heading, body, reserved) is Ok,
        trimmed(body).len() > 0,
    ensures
        holds_mission(with_mission_section(doc, heading, body, reserved)->Ok_0, heading, body),
{
    let after = with_mission_section(doc, heading, body, reserved)->Ok_0;
    if may_override(heading) {
        lemma_place_of(doc, heading);
        let i = place_of(doc, heading);
        assert(after[i].content == body && after[i].id == heading);
    } else {
        assert(after[after.len() - 1] == mission_section(heading, body));
    }
}

proof fn lemma_mission_stays(
    doc: Seq<SectionView>,
    heading: Seq<char>,
    body: Seq<char>,
    reserved: Set<Seq<char>>,
    h: Seq<char>,
    text: Seq<char>,
)
    requires
        with_mission_section(doc, heading, body, reserved) is Ok,
        holds_mission(doc, h, text),
    ensures
        holds_mission(with_mission_section(doc, heading, body, reserved)->Ok_0, h, text),
{
    let after = with_mission_section(doc, heading, body, reserved)->Ok_0;
    let k = choose|k: int|
        0 <= k < doc.len() && (#[trigger] doc[k]).content == text && !(doc[k].origin is Core) && (
        doc[k].id == h || doc[k].id == "mission:"@ + h);
    lemma_place_of(doc, heading);
    assert(after[k] == doc[k]);
}

proof fn lemma_mission_holds(
    doc: Seq<SectionView>,
    sections: Seq<(Seq<char>, Seq<char>)>,
    reserved: Set<Seq<char>>,
    n: nat,
    k: int,
)
    requires
        0 <= k < n <= sections.len(),
        with_mission(doc, sections, reserved, n).1 is None,
        trimmed(sections[k].1).len() > 0,
    ensures
        holds_mission(with_mission(doc, sections, reserved, n).0, sections[k].0, sections[k].1),
    decreases n,
{
    let before = with_mission(doc, sections, reserved, (n - 1) as nat);
    let s = sections[n - 1];
    if k == n - 1 {
        lemma_mission_section(before.0, s.0, s.1, reserved);
    } else {
        lemma_mission_holds(doc, sections, reserved, (n - 1) as nat, k);
        lemma_mission_stays(before.0, s.0, s.1, reserved, sections[k].0, sections[k].1);
    }
}

/// Every section of a mission is told to the model: in a prompt that is built its text stands in
/// one piece.
pub proof fn mission_is_told(b: Builder, k: int)
    requires
        built(b) is Ok,
        b.mission_content is Some,
        trimmed(b.mission_content->0@).len() > 0,
        0 <= k < mission_sections(b.mission_content->0@).len(),
    ensures
        is_part_of(
            mission_sections(b.mission_content->0@)[k].1,
            document_text(built(b)->Ok_0),
        ),
{
    let sections = mission_sections(b.mission_content->0@);
    let d1 = with_core(seq![], b.env, b.signals, b.tool_surface@)->Ok_0;
    let (heading, body) = sections[k];
    lemma_bodies_visible(lines_of(b.mission_content->0@));
    lemma_mission_holds(d1, sections, reserved_ids(), sections.len(), k);
    let d2 = with_mission_text(d1, b.mission_content)->Ok_0;
    let j = choose|j: int|
        0 <= j < d2.len() && (#[trigger] d2[j]).content == body && !(d2[j].origin is Core) && (
        d2[j].id == heading || d2[j].id == "mission:"@ + heading);
    assert(d2.contains(d2[j]));
    lemma_early_section_is_told(b, d2[j]);
}

proof fn lemma_bodies_visible(lines: Seq<Seq<char>>)
    ensures
        forall|i: int|
            0 <= i < read_lines(lines).done.len() ==> trimmed(
                (#[trigger] read_lines(lines).done[i]).1,
            ).len() > 0,
        forall|i: int|
            0 <= i < closed_sections(read_lines(lines)).len() ==> trimmed(
                (#[trigger] closed_sections(read_lines(lines))[i]).1,
            ).len() > 0,
    decreases lines.len(),
{
    if lines.len() > 0 {
        lemma_bodies_visible(lines.drop_last());
    }
    let state = read_lines(lines);
    crate::text::trim_twice_is_once(joined(state.body, "\n"@));
}

proof fn lemma_read_on(lines: Seq<Seq<char>>, a: int, n: int)
    requires
        0 <= a < n <= lines.len(),
        heading_of(lines[a]) is Some,
        forall|i: int| a < i < n ==> heading_of(#[trigger] lines[i]) is None,
    ensures
        read_lines(lines.take(n)).heading == heading_of(lines[a]),
        read_lines(lines.take(n)).body == lines.subrange(a + 1, n),
    decreases n - a,
{
    assert(lines.take(n).drop_last() =~= lines.take(n - 1));
    assert(lines.take(n).last() == lines[n - 1]);
    if n - 1 == a {
        assert(lines.subrange(a + 1, n) =~= seq![]);
    } else {
        lemma_read_on(lines, a, n - 1);
        assert(heading_of(lines[n - 1]) is None);
        assert(lines.subrange(a + 1, n) =~= lines.subrange(a + 1, n - 1).push(lines[n - 1]));
    }
}

proof fn lemma_done_stays(
    lines: Seq<Seq<char>>,
    n: int,
    m: int,
    section: (Seq<char>, Seq<char>),
)
    requires
        0 <= n <= m <= lines.len(),
        read_lines(lines.take(n)).done.contains(section),
    ensures
        read_lines(lines.take(m)).done.contains(section),
    decreases m - n,
{
    if n < m {
        lemma_done_stays(lines, n, m - 1, section);
        assert(lines.take(m).drop_last() =~= lines.take(m - 1));
        let before = read_lines(lines.take(m - 1)).done;
        let after = read_lines(lines.take(m)).done;
        let k = choose|k: int| 0 <= k < before.len() && before[k] == section;
        assert(after[k] == section);
    }
}

/// The sections of a mission are the texts under its headings: under each heading the lines up to
/// the next one, or the end, without white space around them, where there is anything.
pub proof fn mission_sections_stand_under_headings(content: Seq<char>, a: int, end: int)
    requires
        0 <= a < end <= lines_of(content).len(),
        heading_of(lines_of(content)[a]) is Some,
        forall|i: int| a < i < end ==> heading_of(#[trigger] lines_of(content)[i]) is None,
        end == lines_of(content).len() || heading_of(lines_of(content)[end]) is Some,
        trimmed(joined(lines_of(content).subrange(a + 1, end), "\n"@)).len() > 0,
    ensures
        mission_sections(content).contains(
            (
                heading_of(lines_of(content)[a])->Some_0,
                trimmed(joined(lines_of(content).subrange(a + 1, end), "\n"@)),
            ),
        ),
{
    let lines = lines_of(content);
    let section = (
        heading_of(lines[a])->Some_0,
        trimmed(joined(lines.subrange(a + 1, end), "\n"@)),
    );
    lemma_read_on(lines, a, end);
    let state = read_lines(lines.take(end));
    let closed = closed_sections(state);
    assert(closed[closed.len() - 1] == section);
    assert(lines.take(lines.len() as int) =~= lines);
    if end < lines.len() {
        assert(lines.take(end + 1).drop_last() =~= lines.take(end));
        assert(lines.take(end + 1).last() == lines[end]);
        assert(read_lines(lines.take(end + 1)).done.contains(section)) by {
            assert(read_lines(lines.take(end + 1)).done == closed);
            assert(closed.contains(section));
        }
        lemma_done_stays(lines, end + 1, lines.len() as int, section);
        let done = read_lines(lines).done;
        let k = choose|k: int| 0 <= k < done.len() && done[k] == section;
        assert(mission_sections(content)[k] == section);
    } else {
        assert(closed.contains(section));
    }
}

/// A heading is what stands behind the mark at the start of its line.
pub proof fn heading_stands_behind_its_mark(title: Seq<char>)
    ensures
        heading_of("# "@ + title) == if trimmed(title).len() > 0 {
            Some(trimmed(title))
        } else {
            None
        },
        forall|line: Seq<char>| #[trigger] heading_of(line) is Some ==> "# "@.is_prefix_of(line),
{
    let line = "# "@ + title;
    assert(line.skip("# "@.len() as int) =~= title);
    assert("# "@ =~= line.subrange(0, "# "@.len() as int));
}

} // verus!
