//! Prompt sections for single tools, and the names that the runtime keeps for itself.

use crate::prompt::document::{
    pushed, PromptDocument, PromptSection, PromptSectionOrigin, SectionFault, SectionFaultView,
    SectionView,
};
use crate::prompt::facts::FactSet;
use crate::prompt::render::PromptTemplates;
use crate::sets::NameSet;
use crate::text::{trim, trimmed};
use crate::tools::ModelToolSurface;
use vstd::prelude::*;

verus! {

/// The section for `tool` with the text of `template`.
pub open spec fn tool_section(tool: Seq<char>, id: Seq<char>, template: Seq<char>) -> SectionView {
    SectionView {
        id,
        tag: id,
        origin: PromptSectionOrigin::Tool,
        content: trimmed(template),
        name: None,
        referenced_tools: set![tool],
        consumed_facts: Set::empty(),
    }
}

/// `doc` with the section for `tool`, where the model can call it.
pub open spec fn with_tool(
    doc: Seq<SectionView>,
    surface: Seq<Seq<char>>,
    tool: Seq<char>,
    id: Seq<char>,
    template: Seq<char>,
) -> Result<Seq<SectionView>, SectionFaultView> {
    if surface.contains(tool) {
        pushed(doc, tool_section(tool, id, template))
    } else {
        Ok(doc)
    }
}

/// `doc` with the sections for the tools that the model can call, or why one is refused.
pub open spec fn with_tools(
    doc: Seq<SectionView>,
    surface: Seq<Seq<char>>,
    templates: PromptTemplates,
) -> Result<Seq<SectionView>, SectionFaultView> {
    match with_tool(doc, surface, "SubAgent"@, "sub-agent-guidance"@, templates.sub_agent@) {
        Ok(d) => with_tool(d, surface, "TodoWrite"@, "todo-guidance"@, templates.todo_write@),
        Err(f) => Err(f),
    }
}

fn append_tool_section(
    document: &mut PromptDocument,
    surface: &ModelToolSurface,
    tool: &str,
    id: &str,
    template: &str,
) -> (r: Result<(), SectionFault>)
    ensures
        match r {
            Ok(()) => with_tool(old(document)@, surface@, tool@, id@, template@) == Ok::<
                Seq<SectionView>,
                SectionFaultView,
            >(final(document)@),
            Err(f) => final(document)@ == old(document)@ && with_tool(
                old(document)@,
                surface@,
                tool@,
                id@,
                template@,
            ) == Err::<Seq<SectionView>, SectionFaultView>(f@),
        },
{
    if !surface.has(tool) {
        return Ok(());
    }
    let mut referenced_tools: NameSet = NameSet::new();
    referenced_tools.insert(tool);
    assert(referenced_tools@ =~= set![tool@]);
    document.push(
        PromptSection {
            id: id.to_owned(),
            tag: id.to_owned(),
            origin: PromptSectionOrigin::Tool,
            content: trim(template),
            name: None,
            referenced_tools,
            consumed_facts: FactSet::new(),
        },
    )
}

/// Adds the sections for the tools that the model can call.
pub fn append_tool_sections(
    document: &mut PromptDocument,
    surface: &ModelToolSurface,
    templates: &PromptTemplates,
) -> (r: Result<(), SectionFault>)
    ensures
        match r {
            Ok(()) => with_tools(old(document)@, surface@, *templates) == Ok::<
                Seq<SectionView>,
                SectionFaultView,
            >(final(document)@),
            Err(f) => with_tools(old(document)@, surface@, *templates) == Err::<
                Seq<SectionView>,
                SectionFaultView,
            >(f@),
        },
{
    match append_tool_section(
        document,
        surface,
        "SubAgent",
        "sub-agent-guidance",
        templates.sub_agent.as_str(),
    ) {
        Ok(()) => {},
        Err(f) => {
            return Err(f);
        },
    }
    append_tool_section(
        document,
        surface,
        "TodoWrite",
        "todo-guidance",
        templates.todo_write.as_str(),
    )
}

/// The section names that the runtime keeps for itself.
pub open spec fn reserved_ids() -> Set<Seq<char>> {
    set![
        "sub-agent-guidance"@,
        "todo-guidance"@,
        "search-then-inspect"@,
        "anchored-edit"@,
        "specialized-provider-routing"@,
        "specialized-mutation-routing"@,
        "python-execution-routing"@,
        "plan-lifecycle"@,
        "runtime-capabilities"@,
        "rules"@,
        "instruction-files"@,
        "rule-index"@,
        "skill-index"@,
        "selected-skills"@,
        "current-plan"@,
    ]
}

/// The section names that the runtime keeps for itself.
pub fn reserved_section_ids() -> (r: NameSet)
    ensures
        r@ == reserved_ids(),
{
    let mut ids: NameSet = NameSet::new();
    ids.insert("sub-agent-guidance");
    ids.insert("todo-guidance");
    ids.insert("search-then-inspect");
    ids.insert("anchored-edit");
    ids.insert("specialized-provider-routing");
    ids.insert("specialized-mutation-routing");
    ids.insert("python-execution-routing");
    ids.insert("plan-lifecycle");
    ids.insert("runtime-capabilities");
    ids.insert("rules");
    ids.insert("instruction-files");
    ids.insert("rule-index");
    ids.insert("skill-index");
    ids.insert("selected-skills");
    ids.insert("current-plan");
    assert(ids@ =~= reserved_ids());
    ids
}

} // verus!
