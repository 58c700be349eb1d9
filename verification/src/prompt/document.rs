//! The prompt as a list of sections.

use crate::prompt::facts::{fact_keys, fact_views, FactSet, FactView, PromptFact};
use crate::sets::{ascending, NameSet};
use crate::text::{
    blank, char_replaced, clone_opt, join, joined, opt_view, replace_char, same_text, text_less,
    text_less_irreflexive, text_less_transitive, trimmed,
    trimmed_empty_iff_blank, views,
};
use crate::tools::ModelToolSurface;
use vstd::prelude::*;

verus! {

/// Where a section comes from.
#[derive(Clone, Copy, Debug, PartialEq, Eq, Structural)]
pub enum PromptSectionOrigin {
    Core,
    Tool,
    Workflow,
    External,
    ExternalOverride,
    SessionState,
}

impl PromptSectionOrigin {
    /// Whether the sections of this origin are written by the runtime.
    pub open spec fn is_generated(self) -> bool {
        self is Core || self is Tool || self is Workflow
    }
}

/// A section of the prompt.
pub struct PromptSection {
    pub id: String,
    pub tag: String,
    pub origin: PromptSectionOrigin,
    pub content: String,
    pub name: Option<String>,
    pub referenced_tools: NameSet,
    pub consumed_facts: FactSet,
}

/// What a [`PromptSection`] says.
pub struct SectionView {
    pub id: Seq<char>,
    pub tag: Seq<char>,
    pub origin: PromptSectionOrigin,
    pub content: Seq<char>,
    pub name: Option<Seq<char>>,
    pub referenced_tools: Set<Seq<char>>,
    pub consumed_facts: Set<FactView>,
}

impl View for PromptSection {
    type V = SectionView;

    open spec fn view(&self) -> SectionView {
        SectionView {
            id: self.id@,
            tag: self.tag@,
            origin: self.origin,
            content: self.content@,
            name: opt_view(self.name),
            referenced_tools: self.referenced_tools@,
            consumed_facts: self.consumed_facts@,
        }
    }
}

/// The views of a sequence of sections.
pub open spec fn section_views(sections: Seq<PromptSection>) -> Seq<SectionView> {
    sections.map_values(|s: PromptSection| s@)
}

/// Why a prompt cannot be put together.
#[derive(Debug)]
pub enum SectionFault {
    DuplicateId(String),
    CoreReferences(String),
    ToolReferences(String),
    MissingCore(String),
    Reserved(String),
    MissingSection(String),
    InactiveTool { section: String, tool: String },
    UnresolvedFact { section: String, fact: PromptFact },
}

/// What a [`SectionFault`] says.
pub enum SectionFaultView {
    DuplicateId(Seq<char>),
    CoreReferences(Seq<char>),
    ToolReferences(Seq<char>),
    MissingCore(Seq<char>),
    Reserved(Seq<char>),
    MissingSection(Seq<char>),
    InactiveTool { section: Seq<char>, tool: Seq<char> },
    UnresolvedFact { section: Seq<char>, fact: FactView },
}

impl View for SectionFault {
    type V = SectionFaultView;

    open spec fn view(&self) -> SectionFaultView {
        match *self {
            SectionFault::DuplicateId(s) => SectionFaultView::DuplicateId(s@),
            SectionFault::CoreReferences(s) => SectionFaultView::CoreReferences(s@),
            SectionFault::ToolReferences(s) => SectionFaultView::ToolReferences(s@),
            SectionFault::MissingCore(s) => SectionFaultView::MissingCore(s@),
            SectionFault::Reserved(s) => SectionFaultView::Reserved(s@),
            SectionFault::MissingSection(s) => SectionFaultView::MissingSection(s@),
            SectionFault::InactiveTool { section, tool } => SectionFaultView::InactiveTool {
                section: section@,
                tool: tool@,
            },
            SectionFault::UnresolvedFact { section, fact } => SectionFaultView::UnresolvedFact {
                section: section@,
                fact: fact@,
            },
        }
    }
}

impl SectionFaultView {
    /// The fault in words.
    pub open spec fn message(self) -> Seq<char> {
        match self {
            SectionFaultView::DuplicateId(s) => "duplicate prompt section id '"@ + s + "'"@,
            SectionFaultView::CoreReferences(s) => "core prompt section '"@ + s
                + "' cannot reference tools or workflow facts"@,
            SectionFaultView::ToolReferences(s) => "tool prompt section '"@ + s
                + "' must reference exactly its active tool"@,
            SectionFaultView::MissingCore(s) => "MISSION cannot replace missing core section '"@ + s
                + "'"@,
            SectionFaultView::Reserved(s) => "MISSION section '"@ + s
                + "' is reserved by the runtime"@,
            SectionFaultView::MissingSection(s) => "missing prompt section '"@ + s + "'"@,
            SectionFaultView::InactiveTool { section, tool } => "prompt section '"@ + section
                + "' referenced inactive tool '"@ + tool + "'"@,
            SectionFaultView::UnresolvedFact { section, fact } => "prompt section '"@ + section
                + "' consumed unresolved fact '"@ + fact.written() + "'"@,
        }
    }
}

impl SectionFault {
    /// The fault in words.
    pub fn message(&self) -> (r: String)
        ensures
            r@ == self@.message(),
    {
        match self {
            SectionFault::DuplicateId(s) => "duplicate prompt section id '".to_owned().concat(
                s.as_str(),
            ).concat("'"),
            SectionFault::CoreReferences(s) => "core prompt section '".to_owned().concat(
                s.as_str(),
            ).concat("' cannot reference tools or workflow facts"),
            SectionFault::ToolReferences(s) => "tool prompt section '".to_owned().concat(
                s.as_str(),
            ).concat("' must reference exactly its active tool"),
            SectionFault::MissingCore(s) => "MISSION cannot replace missing core section '".to_owned().concat(
            s.as_str()).concat("'"),
            SectionFault::Reserved(s) => "MISSION section '".to_owned().concat(s.as_str()).concat(
                "' is reserved by the runtime",
            ),
            SectionFault::MissingSection(s) => "missing prompt section '".to_owned().concat(
                s.as_str(),
            ).concat("'"),
            SectionFault::InactiveTool { section, tool } => "prompt section '".to_owned().concat(
                section.as_str(),
            ).concat("' referenced inactive tool '").concat(tool.as_str()).concat("'"),
            SectionFault::UnresolvedFact { section, fact } => "prompt section '".to_owned().concat(
                section.as_str(),
            ).concat("' consumed unresolved fact '").concat(fact.written().as_str()).concat("'"),
        }
    }
}

/// Whether `doc` has a section with `id`.
pub open spec fn has_id(doc: Seq<SectionView>, id: Seq<char>) -> bool {
    exists|i: int| 0 <= i < doc.len() && (#[trigger] doc[i]).id == id
}

/// The place of the first section with `id`, or the number of sections where there is none.
pub open spec fn place_of(doc: Seq<SectionView>, id: Seq<char>) -> int
    decreases doc.len(),
{
    if doc.len() == 0 || doc[0].id == id {
        0
    } else {
        1 + place_of(doc.drop_first(), id)
    }
}

/// `doc` with `section` added, or why it is refused. A section without text is left out.
pub open spec fn pushed(doc: Seq<SectionView>, section: SectionView) -> Result<
    Seq<SectionView>,
    SectionFaultView,
> {
    if has_id(doc, section.id) {
        Err(SectionFaultView::DuplicateId(section.id))
    } else if section.origin is Core && !(section.referenced_tools == Set::<Seq<char>>::empty()
        && section.consumed_facts == Set::<FactView>::empty()) {
        Err(SectionFaultView::CoreReferences(section.id))
    } else if section.origin is Tool && !(section.referenced_tools.len() == 1
        && section.consumed_facts == Set::<FactView>::empty()) {
        Err(SectionFaultView::ToolReferences(section.id))
    } else if trimmed(section.content).len() == 0 {
        Ok(doc)
    } else {
        Ok(doc.push(section))
    }
}

/// `doc` with the core section `id` replaced by `content`, or why that is refused.
pub open spec fn overridden(doc: Seq<SectionView>, id: Seq<char>, content: Seq<char>) -> Result<
    Seq<SectionView>,
    SectionFaultView,
> {
    let i = place_of(doc, id);
    if i >= doc.len() {
        Err(SectionFaultView::MissingCore(id))
    } else if !(doc[i].origin is Core) {
        Err(SectionFaultView::Reserved(id))
    } else {
        Ok(
            doc.update(
                i,
                SectionView {
                    content,
                    origin: PromptSectionOrigin::ExternalOverride,
                    referenced_tools: Set::empty(),
                    consumed_facts: Set::empty(),
                    ..doc[i]
                },
            ),
        )
    }
}

/// `doc` with the section `id` at its end, or why that is refused.
pub open spec fn moved_to_end(doc: Seq<SectionView>, id: Seq<char>) -> Result<
    Seq<SectionView>,
    SectionFaultView,
> {
    let i = place_of(doc, id);
    if i >= doc.len() {
        Err(SectionFaultView::MissingSection(id))
    } else {
        Ok(doc.remove(i).push(doc[i]))
    }
}

/// The sections among the first `n` that the runtime wrote.
pub open spec fn generated(doc: Seq<SectionView>, n: nat) -> Seq<SectionView>
    decreases n,
{
    if n == 0 {
        seq![]
    } else if doc[n - 1].origin.is_generated() {
        generated(doc, (n - 1) as nat).push(doc[n - 1])
    } else {
        generated(doc, (n - 1) as nat)
    }
}

/// Whether `tool` is the first of `tools` that `surface` lacks.
pub open spec fn is_first_inactive(
    tools: Set<Seq<char>>,
    surface: Seq<Seq<char>>,
    tool: Seq<char>,
) -> bool {
    &&& tools.contains(tool)
    &&& !surface.contains(tool)
    &&& forall|t: Seq<char>| #[trigger]
        tools.contains(t) && !surface.contains(t) ==> t == tool || text_less(tool, t)
}

/// Whether `fact` is the first of `wanted` that `facts` lacks.
pub open spec fn is_first_unresolved(
    wanted: Set<FactView>,
    facts: Set<FactView>,
    fact: FactView,
) -> bool {
    &&& wanted.contains(fact)
    &&& !facts.contains(fact)
    &&& forall|f: FactView| #[trigger]
        wanted.contains(f) && !facts.contains(f) ==> f == fact || text_less(fact.key(), f.key())
}

/// The first of `tools` that `surface` lacks.
pub open spec fn first_inactive(tools: Set<Seq<char>>, surface: Seq<Seq<char>>) -> Seq<char> {
    choose|tool: Seq<char>| is_first_inactive(tools, surface, tool)
}

/// The first of `wanted` that `facts` lacks.
pub open spec fn first_unresolved(wanted: Set<FactView>, facts: Set<FactView>) -> FactView {
    choose|fact: FactView| is_first_unresolved(wanted, facts, fact)
}

proof fn lemma_first_inactive(tools: Set<Seq<char>>, surface: Seq<Seq<char>>, tool: Seq<char>)
    requires
        is_first_inactive(tools, surface, tool),
    ensures
        first_inactive(tools, surface) == tool,
{
    let other = first_inactive(tools, surface);
    assert(is_first_inactive(tools, surface, other));
    if other != tool {
        text_less_transitive(tool, other, tool);
        text_less_irreflexive(tool);
    }
}

proof fn lemma_first_unresolved(wanted: Set<FactView>, facts: Set<FactView>, fact: FactView)
    requires
        is_first_unresolved(wanted, facts, fact),
    ensures
        first_unresolved(wanted, facts) == fact,
{
    let other = first_unresolved(wanted, facts);
    assert(is_first_unresolved(wanted, facts, other));
    if other != fact {
        text_less_transitive(fact.key(), other.key(), fact.key());
        text_less_irreflexive(fact.key());
    }
}

/// Whether `surface` holds all of `tools`.
pub open spec fn all_active(tools: Set<Seq<char>>, surface: Seq<Seq<char>>) -> bool {
    forall|t: Seq<char>| #[trigger] tools.contains(t) ==> surface.contains(t)
}

/// What is wrong with the references of `section`: the first tool that is not active, or else
/// the first fact that does not hold.
pub open spec fn reference_fault(
    section: SectionView,
    surface: Seq<Seq<char>>,
    facts: Set<FactView>,
) -> Option<SectionFaultView> {
    if !all_active(section.referenced_tools, surface) {
        Some(
            SectionFaultView::InactiveTool {
                section: section.id,
                tool: first_inactive(section.referenced_tools, surface),
            },
        )
    } else if !section.consumed_facts.subset_of(facts) {
        Some(
            SectionFaultView::UnresolvedFact {
                section: section.id,
                fact: first_unresolved(section.consumed_facts, facts),
            },
        )
    } else {
        None
    }
}

/// What is wrong with the references of the first section from `i` on that the runtime wrote
/// and whose references do not hold.
pub open spec fn first_reference_fault(
    doc: Seq<SectionView>,
    surface: Seq<Seq<char>>,
    facts: Set<FactView>,
    i: int,
) -> Option<SectionFaultView>
    decreases doc.len() - i,
{
    if i < 0 || i >= doc.len() {
        None
    } else if doc[i].origin.is_generated() && reference_fault(doc[i], surface, facts) is Some {
        reference_fault(doc[i], surface, facts)
    } else {
        first_reference_fault(doc, surface, facts, i + 1)
    }
}

/// Where no fault is reported, every section that the runtime wrote names only active tools
/// and rests only on facts that hold.
pub proof fn accepted_references_hold(
    doc: Seq<SectionView>,
    surface: Seq<Seq<char>>,
    facts: Set<FactView>,
    from: int,
    i: int,
)
    requires
        first_reference_fault(doc, surface, facts, from) is None,
        0 <= from <= i < doc.len(),
        doc[i].origin.is_generated(),
    ensures
        all_active(doc[i].referenced_tools, surface),
        doc[i].consumed_facts.subset_of(facts),
    decreases i - from,
{
    if from < i {
        accepted_references_hold(doc, surface, facts, from + 1, i);
    }
}

/// `value` as it stands between quotation marks in a tag.
pub open spec fn escaped(value: Seq<char>) -> Seq<char> {
    char_replaced(
        char_replaced(
            char_replaced(char_replaced(value, '&', "&amp;"@), '"', "&quot;"@),
            '<',
            "&lt;"@,
        ),
        '>',
        "&gt;"@,
    )
}

/// A named element with `content` between its tags.
pub open spec fn named_element(tag: Seq<char>, name: Seq<char>, content: Seq<char>) -> Seq<char> {
    "<"@ + tag + " name=\""@ + escaped(name) + "\">\n"@ + content + "\n</"@ + tag + ">"@
}

/// The text of a section between its tags.
pub open spec fn section_text(section: SectionView) -> Seq<char> {
    match section.name {
        Some(name) => named_element(section.tag, name, section.content),
        None => "<"@ + section.tag + ">\n"@ + section.content + "\n</"@ + section.tag + ">"@,
    }
}

/// The text of the prompt.
pub open spec fn document_text(doc: Seq<SectionView>) -> Seq<char> {
    joined(doc.map_values(|s: SectionView| section_text(s)), "\n"@)
}

/// The place of a section is the first with its id.
pub proof fn lemma_place_of(doc: Seq<SectionView>, id: Seq<char>)
    ensures
        0 <= place_of(doc, id) <= doc.len(),
        forall|i: int| 0 <= i < place_of(doc, id) ==> (#[trigger] doc[i]).id != id,
        place_of(doc, id) < doc.len() ==> doc[place_of(doc, id)].id == id,
        has_id(doc, id) == (place_of(doc, id) < doc.len()),
    decreases doc.len(),
{
    if doc.len() > 0 && doc[0].id != id {
        lemma_place_of(doc.drop_first(), id);
        assert forall|i: int| 0 <= i < place_of(doc, id) implies (#[trigger] doc[i]).id != id by {
            if i > 0 {
                assert(doc.drop_first()[i - 1] == doc[i]);
            }
        }
        if has_id(doc, id) {
            let i = choose|i: int| 0 <= i < doc.len() && (#[trigger] doc[i]).id == id;
            assert(doc.drop_first()[i - 1].id == id);
        }
    }
}

/// Whether no two sections have the same id.
pub open spec fn ids_distinct(doc: Seq<SectionView>) -> bool {
    forall|i: int, j: int|
        0 <= i < j < doc.len() ==> (#[trigger] doc[i]).id != (#[trigger] doc[j]).id
}

/// Adding a section keeps the ids of a prompt distinct.
pub proof fn push_keeps_ids_distinct(doc: Seq<SectionView>, section: SectionView)
    requires
        ids_distinct(doc),
        pushed(doc, section) is Ok,
    ensures
        ids_distinct(pushed(doc, section)->Ok_0),
{
}

/// Replacing a core section keeps the ids of a prompt, and their order.
pub proof fn override_keeps_ids(doc: Seq<SectionView>, id: Seq<char>, content: Seq<char>)
    requires
        overridden(doc, id, content) is Ok,
    ensures
        overridden(doc, id, content)->Ok_0.len() == doc.len(),
        forall|i: int|
            0 <= i < doc.len() ==> (#[trigger] overridden(doc, id, content)->Ok_0[i]).id
                == doc[i].id,
{
    lemma_place_of(doc, id);
}

/// Moving a section to the end keeps the ids of a prompt distinct.
pub proof fn move_keeps_ids_distinct(doc: Seq<SectionView>, id: Seq<char>)
    requires
        ids_distinct(doc),
        moved_to_end(doc, id) is Ok,
    ensures
        ids_distinct(moved_to_end(doc, id)->Ok_0),
        moved_to_end(doc, id)->Ok_0.last().id == id,
        moved_to_end(doc, id)->Ok_0.len() == doc.len(),
{
    lemma_place_of(doc, id);
}

proof fn lemma_replaced_lacks(s: Seq<char>, c: char, with: Seq<char>, x: char)
    requires
        !with.contains(x),
        x == c || !s.contains(x),
    ensures
        !char_replaced(s, c, with).contains(x),
    decreases s.len(),
{
    if s.len() > 0 {
        let front = s.drop_last();
        if x != c && front.contains(x) {
            let i = choose|i: int| 0 <= i < front.len() && front[i] == x;
            assert(s[i] == x);
        }
        lemma_replaced_lacks(front, c, with, x);
        let a = char_replaced(front, c, with);
        let b = if s.last() == c {
            with
        } else {
            seq![s.last()]
        };
        let r = a + b;
        if r.contains(x) {
            let i = choose|i: int| 0 <= i < r.len() && r[i] == x;
            if i < a.len() {
                assert(a[i] == x);
            } else {
                assert(b[i - a.len()] == x);
                if s.last() == c {
                    assert(with.contains(x));
                } else {
                    assert(s[s.len() - 1] == x);
                }
            }
        }
    }
}

/// The name in a tag can end neither the attribute nor the tag.
pub proof fn escaped_cannot_close(value: Seq<char>)
    ensures
        !escaped(value).contains('"'),
        !escaped(value).contains('<'),
        !escaped(value).contains('>'),
{
    reveal_strlit("&amp;");
    reveal_strlit("&quot;");
    reveal_strlit("&lt;");
    reveal_strlit("&gt;");
    let a = char_replaced(value, '&', "&amp;"@);
    let b = char_replaced(a, '"', "&quot;"@);
    let c = char_replaced(b, '<', "&lt;"@);
    lemma_replaced_lacks(a, '"', "&quot;"@, '"');
    lemma_replaced_lacks(b, '<', "&lt;"@, '"');
    lemma_replaced_lacks(c, '>', "&gt;"@, '"');
    lemma_replaced_lacks(b, '<', "&lt;"@, '<');
    lemma_replaced_lacks(c, '>', "&gt;"@, '<');
    lemma_replaced_lacks(c, '>', "&gt;"@, '>');
}

/// `value` as it stands between quotation marks in a tag.
pub fn escape_attr(value: &str) -> (r: String)
    ensures
        r@ == escaped(value@),
{
    let a: String = replace_char(value, '&', "&amp;");
    let b: String = replace_char(a.as_str(), '"', "&quot;");
    let c: String = replace_char(b.as_str(), '<', "&lt;");
    replace_char(c.as_str(), '>', "&gt;")
}

/// A named element with `content` between its tags.
pub fn nested_named(tag: &str, name: &str, content: &str) -> (r: String)
    ensures
        r@ == named_element(tag@, name@, content@),
{
    "<".to_owned().concat(tag).concat(" name=\"").concat(escape_attr(name).as_str()).concat(
        "\">\n",
    ).concat(content).concat("\n</").concat(tag).concat(">")
}

fn render_section(section: &PromptSection) -> (r: String)
    ensures
        r@ == section_text(section@),
{
    match &section.name {
        Some(name) => nested_named(section.tag.as_str(), name.as_str(), section.content.as_str()),
        None => "<".to_owned().concat(section.tag.as_str()).concat(">\n").concat(
            section.content.as_str(),
        ).concat("\n</").concat(section.tag.as_str()).concat(">"),
    }
}

/// The prompt as a list of sections.
pub struct PromptDocument {
    sections: Vec<PromptSection>,
}

impl View for PromptDocument {
    type V = Seq<SectionView>;

    closed spec fn view(&self) -> Seq<SectionView> {
        section_views(self.sections@)
    }
}

impl PromptDocument {
    /// The prompt without sections.
    pub fn new() -> (r: PromptDocument)
        ensures
            r@ == Seq::<SectionView>::empty(),
    {
        let r = PromptDocument { sections: Vec::new() };
        assert(r@ =~= Seq::<SectionView>::empty());
        r
    }

    fn position(&self, id: &str) -> (r: Option<usize>)
        ensures
            match r {
                Some(i) => i < self@.len() && i == place_of(self@, id@),
                None => place_of(self@, id@) == self@.len(),
            },
    {
        proof {
            lemma_place_of(self@, id@);
        }
        let mut i: usize = 0;
        while i < self.sections.len()
            invariant
                i <= self.sections@.len(),
                self@.len() == self.sections@.len(),
                forall|j: int| 0 <= j < i ==> (#[trigger] self@[j]).id != id@,
                0 <= place_of(self@, id@) <= self@.len(),
                forall|j: int| 0 <= j < place_of(self@, id@) ==> (#[trigger] self@[j]).id != id@,
                place_of(self@, id@) < self@.len() ==> self@[place_of(self@, id@)].id == id@,
            decreases self.sections@.len() - i,
        {
            assert(self@[i as int] == self.sections@[i as int]@);
            if same_text(self.sections[i].id.as_str(), id) {
                return Some(i);
            }
            i += 1;
        }
        None
    }

    /// Adds a section. One whose id is taken, or that refers to what its origin may not refer
    /// to, is refused; one without text is left out.
    pub fn push(&mut self, section: PromptSection) -> (r: Result<(), SectionFault>)
        ensures
            match r {
                Ok(()) => pushed(old(self)@, section@) == Ok::<
                    Seq<SectionView>,
                    SectionFaultView,
                >(final(self)@),
                Err(f) => final(self)@ == old(self)@ && pushed(old(self)@, section@) == Err::<
                    Seq<SectionView>,
                    SectionFaultView,
                >(f@),
            },
    {
        proof {
            lemma_place_of(self@, section.id@);
            trimmed_empty_iff_blank(section.content@);
        }
        if self.position(section.id.as_str()).is_some() {
            return Err(SectionFault::DuplicateId(section.id));
        }
        match section.origin {
            PromptSectionOrigin::Core => {
                if !(section.referenced_tools.is_empty() && section.consumed_facts.is_empty()) {
                    return Err(SectionFault::CoreReferences(section.id));
                }
            },
            PromptSectionOrigin::Tool => {
                if !(section.referenced_tools.len() == 1 && section.consumed_facts.is_empty()) {
                    return Err(SectionFault::ToolReferences(section.id));
                }
            },
            _ => {},
        }
        if blank(section.content.as_str()) {
            return Ok(());
        }
        self.sections.push(section);
        assert(self@ =~= old(self)@.push(section@));
        Ok(())
    }

    /// Replaces the text of a core section by text from outside.
    pub fn replace_core_with_external(&mut self, id: &str, content: String) -> (r: Result<
        (),
        SectionFault,
    >)
        ensures
            match r {
                Ok(()) => overridden(old(self)@, id@, content@) == Ok::<
                    Seq<SectionView>,
                    SectionFaultView,
                >(final(self)@),
                Err(f) => final(self)@ == old(self)@ && overridden(old(self)@, id@, content@)
                    == Err::<Seq<SectionView>, SectionFaultView>(f@),
            },
    {
        let i: usize = match self.position(id) {
            Some(i) => i,
            None => {
                return Err(SectionFault::MissingCore(id.to_owned()));
            },
        };
        assert(self@[i as int] == self.sections@[i as int]@);
        if self.sections[i].origin != PromptSectionOrigin::Core {
            return Err(SectionFault::Reserved(id.to_owned()));
        }
        let ghost before = self.sections@;
        let section: PromptSection = PromptSection {
            id: self.sections[i].id.clone(),
            tag: self.sections[i].tag.clone(),
            origin: PromptSectionOrigin::ExternalOverride,
            content,
            name: clone_opt(&self.sections[i].name),
            referenced_tools: NameSet::new(),
            consumed_facts: FactSet::new(),
        };
        self.sections.set(i, section);
        assert(self@ =~= section_views(before).update(i as int, section@));
        Ok(())
    }

    /// The sections in order.
    pub fn sections(&self) -> (r: &Vec<PromptSection>)
        ensures
            section_views(r@) == self@,
    {
        &self.sections
    }

    /// Whether the prompt has a section with `id`.
    pub fn has_section(&self, id: &str) -> (r: bool)
        ensures
            r == has_id(self@, id@),
    {
        proof {
            lemma_place_of(self@, id@);
        }
        self.position(id).is_some()
    }

    /// Moves the section with `id` to the end.
    pub fn move_to_end(&mut self, id: &str) -> (r: Result<(), SectionFault>)
        ensures
            match r {
                Ok(()) => moved_to_end(old(self)@, id@) == Ok::<
                    Seq<SectionView>,
                    SectionFaultView,
                >(final(self)@),
                Err(f) => final(self)@ == old(self)@ && moved_to_end(old(self)@, id@) == Err::<
                    Seq<SectionView>,
                    SectionFaultView,
                >(f@),
            },
    {
        let i: usize = match self.position(id) {
            Some(i) => i,
            None => {
                return Err(SectionFault::MissingSection(id.to_owned()));
            },
        };
        let ghost before = self.sections@;
        let section: PromptSection = self.sections.remove(i);
        self.sections.push(section);
        assert(self@ =~= section_views(before).remove(i as int).push(before[i as int]@));
        Ok(())
    }

    /// The sections that the runtime wrote, in order.
    pub fn generated_sections(&self) -> (r: Vec<&PromptSection>)
        ensures
            r@.map_values(|s: &PromptSection| s@) == generated(self@, self@.len()),
    {
        let mut out: Vec<&PromptSection> = Vec::new();
        let mut i: usize = 0;
        assert(out@.map_values(|s: &PromptSection| s@) =~= generated(self@, 0));
        while i < self.sections.len()
            invariant
                i <= self.sections@.len(),
                self@ == section_views(self.sections@),
                out@.map_values(|s: &PromptSection| s@) == generated(self@, i as nat),
            decreases self.sections@.len() - i,
        {
            let section: &PromptSection = &self.sections[i];
            let is_generated: bool = match section.origin {
                PromptSectionOrigin::Core => true,
                PromptSectionOrigin::Tool => true,
                PromptSectionOrigin::Workflow => true,
                _ => false,
            };
            assert(self@[i as int] == section@);
            if is_generated {
                let ghost before = out@;
                out.push(section);
                assert(out@.map_values(|s: &PromptSection| s@) =~= before.map_values(
                    |s: &PromptSection| s@,
                ).push(section@));
            }
            i += 1;
        }
        out
    }

    /// Refuses a prompt in which a section that the runtime wrote names a tool that is not
    /// active or rests on a fact that does not hold. The first such section is reported.
    pub fn validate_generated_references(
        &self,
        surface: &ModelToolSurface,
        facts: &FactSet,
    ) -> (r: Result<(), SectionFault>)
        ensures
            match r {
                Ok(()) => first_reference_fault(self@, surface@, facts@, 0) is None,
                Err(f) => first_reference_fault(self@, surface@, facts@, 0) == Some(f@),
            },
    {
        let mut i: usize = 0;
        while i < self.sections.len()
            invariant
                i <= self.sections@.len(),
                self@ == section_views(self.sections@),
                first_reference_fault(self@, surface@, facts@, 0) == first_reference_fault(
                    self@,
                    surface@,
                    facts@,
                    i as int,
                ),
            decreases self.sections@.len() - i,
        {
            let section: &PromptSection = &self.sections[i];
            assert(self@[i as int] == section@);
            let is_generated: bool = match section.origin {
                PromptSectionOrigin::Core => true,
                PromptSectionOrigin::Tool => true,
                PromptSectionOrigin::Workflow => true,
                _ => false,
            };
            if is_generated {
                match find_inactive(&section.referenced_tools, surface) {
                    Some(tool) => {
                        return Err(
                            SectionFault::InactiveTool { section: section.id.clone(), tool },
                        );
                    },
                    None => {},
                }
                match find_unresolved(&section.consumed_facts, facts) {
                    Some(fact) => {
                        return Err(
                            SectionFault::UnresolvedFact { section: section.id.clone(), fact },
                        );
                    },
                    None => {},
                }
            }
            i += 1;
        }
        Ok(())
    }

    /// The text of the prompt.
    pub fn render(&self) -> (r: String)
        ensures
            r@ == document_text(self@),
    {
        let mut parts: Vec<String> = Vec::new();
        let ghost texts = self@.map_values(|s: SectionView| section_text(s));
        let mut i: usize = 0;
        while i < self.sections.len()
            invariant
                i <= self.sections@.len(),
                self@ == section_views(self.sections@),
                texts == self@.map_values(|s: SectionView| section_text(s)),
                views(parts@) == texts.take(i as int),
            decreases self.sections@.len() - i,
        {
            let ghost before = parts@;
            let part: String = render_section(&self.sections[i]);
            parts.push(part);
            assert(views(parts@) =~= views(before).push(part@));
            assert(texts.take(i + 1) =~= texts.take(i as int).push(texts[i as int]));
            i += 1;
        }
        assert(texts.take(i as int) =~= texts);
        join(&parts, "\n")
    }
}

/// The first of `tools` that the model cannot call.
pub fn find_inactive(tools: &NameSet, surface: &ModelToolSurface) -> (r: Option<String>)
    ensures
        match r {
            Some(t) => !all_active(tools@, surface@) && t@ == first_inactive(tools@, surface@),
            None => all_active(tools@, surface@),
        },
{
    let names: &Vec<String> = tools.names();
    let ghost all = views(names@);
    let mut k: usize = 0;
    while k < names.len()
        invariant
            k <= names@.len(),
            all == views(names@),
            all.to_set() == tools@,
            ascending(all),
            forall|j: int| 0 <= j < k ==> surface@.contains(#[trigger] all[j]),
        decreases names@.len() - k,
    {
        assert(all[k as int] == names@[k as int]@);
        if !surface.has(names[k].as_str()) {
            proof {
                let tool = all[k as int];
                assert(all.contains(tool));
                assert(all.to_set().contains(tool));
                assert forall|t: Seq<char>| #[trigger]
                    tools@.contains(t) && !surface@.contains(t) implies t == tool || text_less(
                    tool,
                    t,
                ) by {
                    assert(all.to_set().contains(t));
                    let j = choose|j: int| 0 <= j < all.len() && all[j] == t;
                    assert(!(j < k));
                }
                lemma_first_inactive(tools@, surface@, tool);
            }
            return Some(names[k].clone());
        }
        k += 1;
    }
    proof {
        assert forall|t: Seq<char>| #[trigger] tools@.contains(t) implies surface@.contains(t) by {
            assert(all.to_set().contains(t));
            let j = choose|j: int| 0 <= j < all.len() && all[j] == t;
            assert(surface@.contains(all[j]));
        }
    }
    None
}

/// The first of `wanted` that does not hold.
pub fn find_unresolved(wanted: &FactSet, facts: &FactSet) -> (r: Option<PromptFact>)
    ensures
        match r {
            Some(f) => !wanted@.subset_of(facts@) && f@ == first_unresolved(wanted@, facts@),
            None => wanted@.subset_of(facts@),
        },
{
    let items: &Vec<PromptFact> = wanted.facts();
    let ghost list = fact_views(items@);
    let ghost keys = fact_keys(items@);
    let mut k: usize = 0;
    while k < items.len()
        invariant
            k <= items@.len(),
            list == fact_views(items@),
            keys == fact_keys(items@),
            list.to_set() == wanted@,
            ascending(keys),
            forall|j: int| 0 <= j < k ==> facts@.contains(#[trigger] list[j]),
        decreases items@.len() - k,
    {
        assert(list[k as int] == items@[k as int]@);
        if !facts.contains(&items[k]) {
            proof {
                let fact = list[k as int];
                assert(list.contains(fact));
                assert(list.to_set().contains(fact));
                assert forall|f: FactView| #[trigger]
                    wanted@.contains(f) && !facts@.contains(f) implies f == fact || text_less(
                    fact.key(),
                    f.key(),
                ) by {
                    assert(list.to_set().contains(f));
                    let j = choose|j: int| 0 <= j < list.len() && list[j] == f;
                    assert(!(j < k));
                    assert(keys[j] == f.key());
                    assert(keys[k as int] == fact.key());
                }
                lemma_first_unresolved(wanted@, facts@, fact);
            }
            return Some(items[k].clone());
        }
        k += 1;
    }
    proof {
        assert forall|f: FactView| wanted@.contains(f) implies facts@.contains(f) by {
            assert(list.to_set().contains(f));
            let j = choose|j: int| 0 <= j < list.len() && list[j] == f;
            assert(facts@.contains(list[j]));
        }
    }
    None
}

} // verus!
