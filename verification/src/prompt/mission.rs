//! Prompt sections from a mission text.

use crate::prompt::document::{
    has_id, lemma_place_of, overridden, pushed, PromptDocument, PromptSection, PromptSectionOrigin, SectionFault,
    SectionFaultView, SectionView,
};
use crate::prompt::facts::FactSet;
use crate::sets::NameSet;
use crate::text::{
    join, joined, lines, lines_of, same_text, strip_prefix, trim, trimmed, views,
};
use vstd::prelude::*;

verus! {

/// Whether a mission may replace the core section `id`.
pub open spec fn may_override(id: Seq<char>) -> bool {
    ||| id == "system-conventions"@
    ||| id == "agent-identity"@
    ||| id == "environment"@
    ||| id == "execution-codes"@
    ||| id == "belief-awareness"@
    ||| id == "output-language"@
}

fn can_override(id: &str) -> (r: bool)
    ensures
        r == may_override(id@),
{
    same_text(id, "system-conventions") || same_text(id, "agent-identity") || same_text(
        id,
        "environment",
    ) || same_text(id, "execution-codes") || same_text(id, "belief-awareness") || same_text(
        id,
        "output-language",
    )
}

/// What a line says as a heading of the first level.
pub open spec fn heading_of(line: Seq<char>) -> Option<Seq<char>> {
    let mark = "# "@;
    if mark.is_prefix_of(line) && trimmed(line.skip(mark.len() as int)).len() > 0 {
        Some(trimmed(line.skip(mark.len() as int)))
    } else {
        None
    }
}

/// How far a mission text has been read.
pub struct ReadView {
    pub done: Seq<(Seq<char>, Seq<char>)>,
    pub heading: Option<Seq<char>>,
    pub body: Seq<Seq<char>>,
}

/// The sections that are complete once the open one is closed. One without text is left out.
pub open spec fn closed_sections(state: ReadView) -> Seq<(Seq<char>, Seq<char>)> {
    match state.heading {
        Some(h) if trimmed(joined(state.body, "\n"@)).len() > 0 => state.done.push(
            (h, trimmed(joined(state.body, "\n"@))),
        ),
        _ => state.done,
    }
}

/// What has been read after one more line.
pub open spec fn read_line(state: ReadView, line: Seq<char>) -> ReadView {
    match heading_of(line) {
        Some(h) => ReadView { done: closed_sections(state), heading: Some(h), body: seq![] },
        None => if state.heading is Some {
            ReadView { body: state.body.push(line), ..state }
        } else {
            state
        },
    }
}

/// What has been read after `lines`.
pub open spec fn read_lines(lines: Seq<Seq<char>>) -> ReadView
    decreases lines.len(),
{
    if lines.len() == 0 {
        ReadView { done: seq![], heading: None, body: seq![] }
    } else {
        read_line(read_lines(lines.drop_last()), lines.last())
    }
}

/// The sections of the first level in a mission text, each with its heading and text.
pub open spec fn mission_sections(content: Seq<char>) -> Seq<(Seq<char>, Seq<char>)> {
    closed_sections(read_lines(lines_of(content)))
}

/// The views of a sequence of headings with their texts.
pub open spec fn pair_views(v: Seq<(String, String)>) -> Seq<(Seq<char>, Seq<char>)> {
    v.map_values(|p: (String, String)| (p.0@, p.1@))
}

fn close(done: &mut Vec<(String, String)>, heading: &Option<String>, body: &Vec<String>)
    ensures
        pair_views(final(done)@) == closed_sections(
            ReadView {
                done: pair_views(old(done)@),
                heading: crate::text::opt_view(*heading),
                body: views(body@),
            },
        ),
{
    match heading {
        Some(h) => {
            let text: String = trim(join(body, "\n").as_str());
            if text.as_str().unicode_len() > 0 {
                let pair: (String, String) = (h.clone(), text);
                done.push(pair);
                assert(pair_views(done@) =~= pair_views(old(done)@).push((pair.0@, pair.1@)));
            }
        },
        None => {},
    }
}

/// The sections of the first level in a mission text, each with its heading and text.
pub fn level_one_sections(content: &str) -> (r: Vec<(String, String)>)
    ensures
        pair_views(r@) == mission_sections(content@),
{
    let all: Vec<String> = lines(content);
    let ghost texts = views(all@);
    let mut done: Vec<(String, String)> = Vec::new();
    let mut heading: Option<String> = None;
    let mut body: Vec<String> = Vec::new();
    let mut i: usize = 0;
    assert(pair_views(done@) =~= seq![]);
    assert(views(body@) =~= seq![]);
    while i < all.len()
        invariant
            i <= all@.len(),
            texts == views(all@),
            pair_views(done@) == read_lines(texts.take(i as int)).done,
            crate::text::opt_view(heading) == read_lines(texts.take(i as int)).heading,
            views(body@) == read_lines(texts.take(i as int)).body,
        decreases all@.len() - i,
    {
        let ghost state = read_lines(texts.take(i as int));
        let ghost line = texts[i as int];
        proof {
            assert(texts.take(i + 1).drop_last() =~= texts.take(i as int));
            assert(texts.take(i + 1).last() == line);
            assert(line == all@[i as int]@);
        }
        let mut value: String = String::new();
        match strip_prefix(all[i].as_str(), "# ") {
            Some(rest) => {
                assert(line.skip("# "@.len() as int) =~= rest@);
                assert("# "@.is_prefix_of(line));
                value = trim(rest.as_str());
            },
            None => {},
        }
        if value.as_str().unicode_len() > 0 {
            close(&mut done, &heading, &body);
            heading = Some(value);
            body = Vec::new();
            assert(views(body@) =~= seq![]);
        } else if heading.is_some() {
            let ghost before = body@;
            body.push(all[i].clone());
            assert(views(body@) =~= views(before).push(line));
        }
        i += 1;
    }
    assert(texts.take(i as int) =~= texts);
    close(&mut done, &heading, &body);
    done
}

/// The section that a mission adds under `heading`.
pub open spec fn mission_section(heading: Seq<char>, body: Seq<char>) -> SectionView {
    SectionView {
        id: "mission:"@ + heading,
        tag: heading,
        origin: PromptSectionOrigin::External,
        content: body,
        name: None,
        referenced_tools: Set::empty(),
        consumed_facts: Set::empty(),
    }
}

/// `doc` with one section of a mission: it replaces the core section that it names, where a
/// mission may, and is added otherwise, unless the runtime has reserved the name.
pub open spec fn with_mission_section(
    doc: Seq<SectionView>,
    heading: Seq<char>,
    body: Seq<char>,
    reserved: Set<Seq<char>>,
) -> Result<Seq<SectionView>, SectionFaultView> {
    if may_override(heading) {
        overridden(doc, heading, body)
    } else if reserved.contains(heading) || has_id(doc, heading) {
        Err(SectionFaultView::Reserved(heading))
    } else {
        pushed(doc, mission_section(heading, body))
    }
}

/// `doc` with the first `n` of `sections`, up to the first that is refused, and why it is.
pub open spec fn with_mission(
    doc: Seq<SectionView>,
    sections: Seq<(Seq<char>, Seq<char>)>,
    reserved: Set<Seq<char>>,
    n: nat,
) -> (Seq<SectionView>, Option<SectionFaultView>)
    decreases n,
{
    if n == 0 {
        (doc, None)
    } else {
        let before = with_mission(doc, sections, reserved, (n - 1) as nat);
        if before.1 is Some {
            before
        } else {
            let s = sections[n - 1];
            match with_mission_section(before.0, s.0, s.1, reserved) {
                Ok(d) => (d, None),
                Err(f) => (before.0, Some(f)),
            }
        }
    }
}

proof fn lemma_fault_stays(
    doc: Seq<SectionView>,
    sections: Seq<(Seq<char>, Seq<char>)>,
    reserved: Set<Seq<char>>,
    n: nat,
    m: nat,
)
    requires
        n <= m,
        with_mission(doc, sections, reserved, n).1 is Some,
    ensures
        with_mission(doc, sections, reserved, m) == with_mission(doc, sections, reserved, n),
    decreases m - n,
{
    if n < m {
        lemma_fault_stays(doc, sections, reserved, n, (m - 1) as nat);
    }
}

/// A mission leaves every section alone that it may not replace.
pub proof fn mission_keeps_other_sections(
    doc: Seq<SectionView>,
    sections: Seq<(Seq<char>, Seq<char>)>,
    reserved: Set<Seq<char>>,
    n: nat,
    i: int,
)
    requires
        0 <= i < doc.len(),
        !may_override(doc[i].id) || !(doc[i].origin is Core),
        n <= sections.len(),
    ensures
        with_mission(doc, sections, reserved, n).0.len() >= doc.len(),
        with_mission(doc, sections, reserved, n).0[i] == doc[i],
    decreases n,
{
    if n > 0 {
        mission_keeps_other_sections(doc, sections, reserved, (n - 1) as nat, i);
        let before = with_mission(doc, sections, reserved, (n - 1) as nat).0;
        lemma_place_of(before, sections[n - 1].0);
    }
}

/// Adds the sections of a mission text to the prompt, up to the first that is refused.
pub fn apply(
    document: &mut PromptDocument,
    content: &str,
    runtime_reserved: &NameSet,
) -> (r: Result<(), SectionFault>)
    ensures
        ({
            let sections = mission_sections(content@);
            let end = with_mission(old(document)@, sections, runtime_reserved@, sections.len());
            &&& final(document)@ == end.0
            &&& match r {
                Ok(()) => end.1 is None,
                Err(f) => end.1 == Some(f@),
            }
        }),
{
    let pairs: Vec<(String, String)> = level_one_sections(content);
    let ghost sections = pair_views(pairs@);
    let ghost start = document@;
    let mut i: usize = 0;
    while i < pairs.len()
        invariant
            i <= pairs@.len(),
            sections == pair_views(pairs@),
            sections == mission_sections(content@),
            start == old(document)@,
            with_mission(start, sections, runtime_reserved@, i as nat) == (
                document@,
                None::<SectionFaultView>,
            ),
        decreases pairs@.len() - i,
    {
        let heading: &String = &pairs[i].0;
        let body: &String = &pairs[i].1;
        let ghost before = document@;
        assert(sections[i as int] == (heading@, body@));
        let step: Result<(), SectionFault> = if can_override(heading.as_str()) {
            document.replace_core_with_external(heading.as_str(), body.clone())
        } else if runtime_reserved.contains(heading.as_str()) || document.has_section(
            heading.as_str(),
        ) {
            Err(SectionFault::Reserved(heading.clone()))
        } else {
            document.push(
                PromptSection {
                    id: "mission:".to_owned().concat(heading.as_str()),
                    tag: heading.clone(),
                    origin: PromptSectionOrigin::External,
                    content: body.clone(),
                    name: None,
                    referenced_tools: NameSet::new(),
                    consumed_facts: FactSet::new(),
                },
            )
        };
        match step {
            Ok(()) => {},
            Err(f) => {
                proof {
                    lemma_fault_stays(
                        start,
                        sections,
                        runtime_reserved@,
                        (i + 1) as nat,
                        sections.len(),
                    );
                }
                return Err(f);
            },
        }
        i += 1;
    }
    Ok(())
}

} // verus!
