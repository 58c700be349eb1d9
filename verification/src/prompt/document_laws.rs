//! What holds of a prompt and its sections.

use crate::capabilities::rules::{always_marks, index_marks, RuleView};
use crate::prompt::document::{
    all_active, document_text, escaped, first_reference_fault, generated, has_id, lemma_place_of,
    moved_to_end, overridden, place_of, pushed, reference_fault, section_text, SectionFaultView,
    SectionView,
};
use crate::prompt::facts::FactView;
use crate::prompt::workflows::FaultView;
use crate::text::{char_replaced, joined, trimmed};
use crate::text_laws::{each_character_is_replaced, is_part_of};
use vstd::prelude::*;

verus! {

/// A section that is taken stands behind all others, which stay as they are. One that says
/// nothing is left out, and one whose name is taken is refused.
pub proof fn taken_section_comes_last(doc: Seq<SectionView>, section: SectionView)
    ensures
        pushed(doc, section) matches Ok(after) ==> {
            &&& doc.is_prefix_of(after)
            &&& trimmed(section.content).len() > 0 ==> after.len() == doc.len() + 1
                && after.last() == section
            &&& trimmed(section.content).len() == 0 ==> after == doc
        },
        has_id(doc, section.id) ==> pushed(doc, section) is Err,
        !has_id(doc, section.id) && !(section.origin is Core) && !(section.origin is Tool) ==> pushed(
            doc,
            section,
        ) is Ok,
        !has_id(doc, section.id) && section.origin is Core ==> (pushed(doc, section) is Ok
            <==> section.referenced_tools.is_empty() && section.consumed_facts.is_empty()),
{
    if pushed(doc, section) is Ok {
        let after = pushed(doc, section)->Ok_0;
        assert(after.take(doc.len() as int) =~= doc);
    }
    if section.referenced_tools.is_empty() {
        assert(section.referenced_tools =~= Set::<Seq<char>>::empty());
    }
    if section.consumed_facts.is_empty() {
        assert(section.consumed_facts =~= Set::<FactView>::empty());
    }
}

/// Only a section of the core can be replaced: it keeps its place, its name and its tag, says what
/// it was given, and refers to nothing any more. The others stay as they are.
pub proof fn replaced_section_says_what_was_given(
    doc: Seq<SectionView>,
    at: int,
    content: Seq<char>,
)
    requires
        0 <= at < doc.len(),
        forall|i: int| 0 <= i < at ==> (#[trigger] doc[i]).id != doc[at].id,
    ensures
        overridden(doc, doc[at].id, content) is Ok <==> doc[at].origin is Core,
        overridden(doc, doc[at].id, content) matches Ok(after) ==> {
            &&& after.len() == doc.len()
            &&& after[at].content == content
            &&& after[at].id == doc[at].id
            &&& after[at].tag == doc[at].tag
            &&& after[at].name == doc[at].name
            &&& after[at].origin is ExternalOverride
            &&& forall|t: Seq<char>| !after[at].referenced_tools.contains(t)
            &&& forall|f: FactView| !after[at].consumed_facts.contains(f)
            &&& forall|i: int|
                0 <= i < doc.len() && i != at ==> #[trigger] after[i] == doc[i]
        },
{
    lemma_place_of(doc, doc[at].id);
    let place = place_of(doc, doc[at].id);
    if place < at {
        assert(doc[place].id != doc[at].id);
    }
    if place > at {
        assert(doc[at].id != doc[at].id);
    }
}

/// A section that is moved stands behind all others, which keep their order.
pub proof fn moved_section_comes_last(doc: Seq<SectionView>, at: int)
    requires
        0 <= at < doc.len(),
        forall|i: int| 0 <= i < at ==> (#[trigger] doc[i]).id != doc[at].id,
    ensures
        moved_to_end(doc, doc[at].id) matches Ok(after) && after == doc.take(at) + doc.skip(at + 1)
            + seq![doc[at]],
{
    lemma_place_of(doc, doc[at].id);
    let place = place_of(doc, doc[at].id);
    if place < at {
        assert(doc[place].id != doc[at].id);
    }
    if place > at {
        assert(doc[at].id != doc[at].id);
    }
    assert(doc.remove(at).push(doc[at]) =~= doc.take(at) + doc.skip(at + 1) + seq![doc[at]]);
}

/// What the library itself wrote are the sections of the core, of the tools and of the workflows,
/// each one and in their order.
pub proof fn own_sections_are_kept_in_order(doc: Seq<SectionView>)
    ensures
        generated(doc, doc.len()) == doc.filter(
            |s: SectionView| s.origin is Core || s.origin is Tool || s.origin is Workflow,
        ),
    decreases doc.len(),
{
    reveal(Seq::filter);
    if doc.len() > 0 {
        own_sections_are_kept_in_order(doc.drop_last());
        lemma_own_of_prefix(doc, doc.drop_last().len());
    }
}

proof fn lemma_own_of_prefix(doc: Seq<SectionView>, n: nat)
    requires
        n < doc.len(),
    ensures
        generated(doc, n) == generated(doc.drop_last(), n),
    decreases n,
{
    if n > 0 {
        lemma_own_of_prefix(doc, (n - 1) as nat);
    }
}

/// A prompt is accepted just where every section that the library wrote refers only to tools that
/// can be called and to facts that hold.
pub proof fn prompt_is_accepted_iff_references_hold(
    doc: Seq<SectionView>,
    surface: Seq<Seq<char>>,
    facts: Set<FactView>,
)
    ensures
        first_reference_fault(doc, surface, facts, 0) is None <==> forall|i: int|
            0 <= i < doc.len() && ((#[trigger] doc[i]).origin is Core || doc[i].origin is Tool
                || doc[i].origin is Workflow) ==> doc[i].referenced_tools.subset_of(
                surface.to_set(),
            ) && doc[i].consumed_facts.subset_of(facts),
{
    lemma_references_from(doc, surface, facts, 0);
}

proof fn lemma_references_from(
    doc: Seq<SectionView>,
    surface: Seq<Seq<char>>,
    facts: Set<FactView>,
    from: int,
)
    requires
        0 <= from,
    ensures
        first_reference_fault(doc, surface, facts, from) is None <==> forall|i: int|
            from <= i < doc.len() && ((#[trigger] doc[i]).origin is Core || doc[i].origin is Tool
                || doc[i].origin is Workflow) ==> doc[i].referenced_tools.subset_of(
                surface.to_set(),
            ) && doc[i].consumed_facts.subset_of(facts),
    decreases doc.len() - from,
{
    if from < doc.len() {
        lemma_references_from(doc, surface, facts, from + 1);
        let tools = doc[from].referenced_tools;
        assert(all_active(tools, surface) <==> tools.subset_of(surface.to_set()));
        assert(reference_fault(doc[from], surface, facts) is None <==> tools.subset_of(
            surface.to_set(),
        ) && doc[from].consumed_facts.subset_of(facts));
    }
}

/// A section is written between its tag at the beginning and at the end, each on a line of its
/// own.
pub proof fn section_stands_between_its_tags(section: SectionView)
    ensures
        ("<"@ + section.tag).is_prefix_of(section_text(section)),
        ("\n"@ + section.content + "\n</"@ + section.tag + ">"@).is_suffix_of(
            section_text(section),
        ),
        section.name is None ==> section_text(section).len() == 2 * section.tag.len()
            + section.content.len() + 7,
{
    reveal_strlit("<");
    reveal_strlit(">\n");
    reveal_strlit("\n</");
    reveal_strlit(">");
    reveal_strlit("\">\n");
    reveal_strlit("\n");
    let text = section_text(section);
    let head = "<"@ + section.tag;
    let tail = "\n"@ + section.content + "\n</"@ + section.tag + ">"@;
    match section.name {
        Some(name) => {
            let front = "<"@ + section.tag + " name=\""@ + escaped(name) + "\">"@;
            reveal_strlit("\">");
            assert(text =~= front + tail);
        },
        None => {
            let front = "<"@ + section.tag + ">"@;
            assert(text =~= front + tail);
        },
    }
    assert(text.take(head.len() as int) =~= head);
    assert(text.skip(text.len() - tail.len()) =~= tail);
}

/// A prompt is written section by section, in their order.
pub proof fn prompt_is_written_by_sections(doc: Seq<SectionView>, more: SectionView)
    requires
        doc.len() > 0,
    ensures
        document_text(doc.push(more)) == document_text(doc) + "\n"@ + section_text(more),
        document_text(seq![more]) == section_text(more),
{
    let write = |s: SectionView| section_text(s);
    assert(doc.push(more).map_values(write) =~= doc.map_values(write).push(section_text(more)));
    assert(doc.map_values(write).push(section_text(more)).drop_last() =~= doc.map_values(write));
    assert(seq![more].map_values(write) =~= seq![section_text(more)]);
}

/// How a character stands in the name of a section.
pub open spec fn escaped_char(c: char) -> Seq<char> {
    if c == '&' {
        "&amp;"@
    } else if c == '"' {
        "&quot;"@
    } else if c == '<' {
        "&lt;"@
    } else if c == '>' {
        "&gt;"@
    } else {
        seq![c]
    }
}

proof fn lemma_replaced_twice(s: Seq<char>, t: Seq<char>, c: char, with: Seq<char>)
    ensures
        char_replaced(s + t, c, with) == char_replaced(s, c, with) + char_replaced(t, c, with),
    decreases t.len(),
{
    let f = |x: char| if x == c { with } else { seq![x] };
    each_character_is_replaced(s + t, c, with);
    each_character_is_replaced(s, c, with);
    each_character_is_replaced(t, c, with);
    if t.len() > 0 {
        let less = t.drop_last();
        lemma_replaced_twice(s, less, c, with);
        each_character_is_replaced(s + less, c, with);
        each_character_is_replaced(less, c, with);
        let last = f(t.last());
        assert((s + t).map_values(f) =~= (s + less).map_values(f).push(last));
        assert(t.map_values(f) =~= less.map_values(f).push(last));
        (s + less).map_values(f).lemma_flatten_push(last);
        less.map_values(f).lemma_flatten_push(last);
        assert(char_replaced(s, c, with) + (char_replaced(less, c, with) + last)
            =~= char_replaced(s, c, with) + char_replaced(less, c, with) + last);
    } else {
        assert(s + t =~= s);
        assert(t.map_values(f) =~= seq![]);
        assert(char_replaced(s, c, with) + char_replaced(t, c, with) =~= char_replaced(s, c, with));
    }
}

proof fn lemma_untouched(s: Seq<char>, c: char, with: Seq<char>)
    requires
        !s.contains(c),
    ensures
        char_replaced(s, c, with) == s,
    decreases s.len(),
{
    let f = |x: char| if x == c { with } else { seq![x] };
    each_character_is_replaced(s, c, with);
    if s.len() > 0 {
        let less = s.drop_last();
        assert(s.contains(s.last()));
        assert forall|i: int| 0 <= i < less.len() implies less[i] != c by {
            assert(s.contains(s[i]));
        }
        lemma_untouched(less, c, with);
        each_character_is_replaced(less, c, with);
        assert(s.map_values(f) =~= less.map_values(f).push(seq![s.last()]));
        less.map_values(f).lemma_flatten_push(seq![s.last()]);
        assert(less + seq![s.last()] =~= s);
    } else {
        assert(s.map_values(f).flatten() =~= s);
    }
}

proof fn lemma_one_replaced(c: char, with: Seq<char>)
    ensures
        char_replaced(seq![c], c, with) == with,
{
    let f = |x: char| if x == c { with } else { seq![x] };
    let none = Seq::<Seq<char>>::empty();
    each_character_is_replaced(seq![c], c, with);
    assert(seq![c].map_values(f) =~= none.push(with));
    none.lemma_flatten_push(with);
    assert(none.flatten() + with =~= with);
}

proof fn lemma_one_escaped(c: char)
    ensures
        escaped(seq![c]) == escaped_char(c),
{
    reveal_strlit("&amp;");
    reveal_strlit("&quot;");
    reveal_strlit("&lt;");
    reveal_strlit("&gt;");
    let amp = "&amp;"@;
    let quot = "&quot;"@;
    let lt = "&lt;"@;
    let gt = "&gt;"@;
    let s = seq![c];
    if c == '&' {
        lemma_one_replaced('&', amp);
        lemma_untouched(amp, '"', quot);
        lemma_untouched(amp, '<', lt);
        lemma_untouched(amp, '>', gt);
    } else {
        lemma_untouched(s, '&', amp);
        if c == '"' {
            lemma_one_replaced('"', quot);
            lemma_untouched(quot, '<', lt);
            lemma_untouched(quot, '>', gt);
        } else {
            lemma_untouched(s, '"', quot);
            if c == '<' {
                lemma_one_replaced('<', lt);
                lemma_untouched(lt, '>', gt);
            } else {
                lemma_untouched(s, '<', lt);
                if c == '>' {
                    lemma_one_replaced('>', gt);
                } else {
                    lemma_untouched(s, '>', gt);
                }
            }
        }
    }
}

/// In the name of a section each of the four marks is written in its own way, once, and every
/// other character as it is.
pub proof fn marks_are_escaped_once(value: Seq<char>)
    ensures
        escaped(value) == value.map_values(|c: char| escaped_char(c)).flatten(),
    decreases value.len(),
{
    let f = |c: char| escaped_char(c);
    let amp = "&amp;"@;
    let quot = "&quot;"@;
    let lt = "&lt;"@;
    let gt = "&gt;"@;
    if value.len() > 0 {
        let less = value.drop_last();
        let last = seq![value.last()];
        marks_are_escaped_once(less);
        assert(value =~= less + last);
        lemma_replaced_twice(less, last, '&', amp);
        let a = char_replaced(less, '&', amp);
        let x = char_replaced(last, '&', amp);
        lemma_replaced_twice(a, x, '"', quot);
        let b = char_replaced(a, '"', quot);
        let y = char_replaced(x, '"', quot);
        lemma_replaced_twice(b, y, '<', lt);
        lemma_replaced_twice(char_replaced(b, '<', lt), char_replaced(y, '<', lt), '>', gt);
        assert(escaped(value) == escaped(less) + escaped(last));
        lemma_one_escaped(value.last());
        assert(value.map_values(f) =~= less.map_values(f).push(escaped_char(value.last())));
        less.map_values(f).lemma_flatten_push(escaped_char(value.last()));
    } else {
        lemma_untouched(value, '&', amp);
        lemma_untouched(value, '"', quot);
        lemma_untouched(value, '<', lt);
        lemma_untouched(value, '>', gt);
        assert(value.map_values(f).flatten() =~= value);
    }
}

/// A rule that can be found takes part in the fingerprint with its name, its description, where it
/// comes from and its revision, behind those before it.
pub proof fn findable_rule_takes_part(rules: Seq<RuleView>, n: nat)
    requires
        n < rules.len(),
    ensures
        index_marks(rules, n + 1) == index_marks(rules, n) + joined(
            seq![
                "rule:index"@,
                rules[n as int].name,
                rules[n as int].description,
                rules[n as int].source.provider_id,
                rules[n as int].revision,
                seq![],
            ],
            "\0"@,
        ),
        always_marks(rules, n + 1) == always_marks(rules, n) + joined(
            seq!["rule:always"@, rules[n as int].name, rules[n as int].revision, seq![]],
            "\0"@,
        ),
{
    reveal_with_fuel(joined, 7);
    reveal_strlit("rule:index\0");
    reveal_strlit("rule:index");
    reveal_strlit("rule:always\0");
    reveal_strlit("rule:always");
    reveal_strlit("\0");
    let r = rules[n as int];
    assert("rule:index\0"@ =~= "rule:index"@ + "\0"@);
    assert("rule:always\0"@ =~= "rule:always"@ + "\0"@);
    let none = Seq::<char>::empty();
    let p1 = seq!["rule:index"@];
    let p2 = seq!["rule:index"@, r.name];
    let p3 = seq!["rule:index"@, r.name, r.description];
    let p4 = seq!["rule:index"@, r.name, r.description, r.source.provider_id];
    let p5 = seq!["rule:index"@, r.name, r.description, r.source.provider_id, r.revision];
    let p6 = seq!["rule:index"@, r.name, r.description, r.source.provider_id, r.revision, none];
    assert(p2.drop_last() =~= p1);
    assert(p3.drop_last() =~= p2);
    assert(p4.drop_last() =~= p3);
    assert(p5.drop_last() =~= p4);
    assert(p6.drop_last() =~= p5);
    assert(joined(p6, "\0"@) =~= "rule:index\0"@ + r.name + "\0"@ + r.description + "\0"@
        + r.source.provider_id + "\0"@ + r.revision + "\0"@);
    let q1 = seq!["rule:always"@];
    let q2 = seq!["rule:always"@, r.name];
    let q3 = seq!["rule:always"@, r.name, r.revision];
    let q4 = seq!["rule:always"@, r.name, r.revision, none];
    assert(q2.drop_last() =~= q1);
    assert(q3.drop_last() =~= q2);
    assert(q4.drop_last() =~= q3);
    assert(joined(q4, "\0"@) =~= "rule:always\0"@ + r.name + "\0"@ + r.revision + "\0"@);
}

/// What is told of a section or a workflow that is refused names it, and the tool or the fact for
/// which it is refused.
pub proof fn refused_part_is_named(name: Seq<char>, tool: Seq<char>, fact: FactView)
    ensures
        is_part_of("'"@ + name + "'"@, SectionFaultView::DuplicateId(name).message()),
        is_part_of("'"@ + name + "'"@, SectionFaultView::CoreReferences(name).message()),
        is_part_of("'"@ + name + "'"@, SectionFaultView::ToolReferences(name).message()),
        is_part_of("'"@ + name + "'"@, SectionFaultView::MissingCore(name).message()),
        is_part_of("'"@ + name + "'"@, SectionFaultView::Reserved(name).message()),
        is_part_of("'"@ + name + "'"@, SectionFaultView::MissingSection(name).message()),
        ({
            let text = (SectionFaultView::InactiveTool { section: name, tool }).message();
            text == "prompt section '"@ + name + "' referenced inactive tool '"@ + tool + "'"@
        }),
        ({
            let text = (SectionFaultView::UnresolvedFact { section: name, fact }).message();
            text == "prompt section '"@ + name + "' consumed unresolved fact '"@ + fact.written()
                + "'"@
        }),
        is_part_of("'"@ + name + "'"@, FaultView::DuplicateId(name).message()),
        is_part_of("'"@ + name + "'"@, FaultView::DuplicateTag(name).message()),
        is_part_of("'"@ + name + "'"@, FaultView::UnknownUpstream(name).message()),
        is_part_of("'"@ + name + "'"@, FaultView::SelfDependency(name).message()),
        is_part_of("'"@ + name + "'"@, FaultView::Cycle(name).message()),
{
    reveal_strlit("'");
    reveal_strlit("duplicate prompt section id '");
    reveal_strlit("core prompt section '");
    reveal_strlit("' cannot reference tools or workflow facts");
    reveal_strlit("tool prompt section '");
    reveal_strlit("' must reference exactly its active tool");
    reveal_strlit("MISSION cannot replace missing core section '");
    reveal_strlit("MISSION section '");
    reveal_strlit("' is reserved by the runtime");
    reveal_strlit("missing prompt section '");
    reveal_strlit("duplicate workflow id '");
    reveal_strlit("duplicate workflow tag '");
    reveal_strlit("unknown upstream workflow '");
    reveal_strlit("workflow '");
    reveal_strlit("' depends on itself");
    reveal_strlit("cycle in prompt workflow dependencies at '");
    lemma_named("duplicate prompt section id '"@, name, "'"@);
    lemma_named("core prompt section '"@, name, "' cannot reference tools or workflow facts"@);
    lemma_named("tool prompt section '"@, name, "' must reference exactly its active tool"@);
    lemma_named("MISSION cannot replace missing core section '"@, name, "'"@);
    lemma_named("MISSION section '"@, name, "' is reserved by the runtime"@);
    lemma_named("missing prompt section '"@, name, "'"@);
    lemma_named("duplicate workflow id '"@, name, "'"@);
    lemma_named("duplicate workflow tag '"@, name, "'"@);
    lemma_named("unknown upstream workflow '"@, name, "'"@);
    lemma_named("workflow '"@, name, "' depends on itself"@);
    lemma_named("cycle in prompt workflow dependencies at '"@, name, "'"@);
}

proof fn lemma_named(before: Seq<char>, name: Seq<char>, after: Seq<char>)
    requires
        before.len() > 0,
        before.last() == '\'',
        after.len() > 0,
        after[0] == '\'',
    ensures
        is_part_of("'"@ + name + "'"@, before + name + after),
{
    reveal_strlit("'");
    let part = "'"@ + name + "'"@;
    let front = before.drop_last();
    let end = after.drop_first();
    assert(before + name + after =~= front + part + end);
}

} // verus!
