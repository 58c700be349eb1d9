//! The header of a skill file.

use crate::text::{
    ascii_lower, char_trimmed, lines, lines_of, opt_view, same_text, strip_prefix, to_ascii_lower,
    trim, trim_char, trimmed, views,
};
use vstd::prelude::*;

verus! {

/// What the header of a skill file says.
#[derive(Debug)]
pub struct Frontmatter {
    pub description: Option<String>,
    pub hide: bool,
    pub disable_model_invocation: bool,
}

/// What a [`Frontmatter`] says.
pub struct FrontView {
    pub description: Option<Seq<char>>,
    pub hide: bool,
    pub disable_model_invocation: bool,
}

impl View for Frontmatter {
    type V = FrontView;

    open spec fn view(&self) -> FrontView {
        FrontView {
            description: opt_view(self.description),
            hide: self.hide,
            disable_model_invocation: self.disable_model_invocation,
        }
    }
}

/// The value of a field, without white space and quotation marks around it.
pub open spec fn scalar(value: Seq<char>) -> Seq<char> {
    char_trimmed(char_trimmed(trimmed(value), '"'), '\'')
}

/// Whether the value of a field means yes.
pub open spec fn is_truthy(value: Seq<char>) -> bool {
    let word = ascii_lower(scalar(value));
    word == "true"@ || word == "yes"@ || word == "1"@
}

/// The header that says nothing.
pub open spec fn no_front() -> FrontView {
    FrontView { description: None, hide: false, disable_model_invocation: false }
}

/// The header after one more of its lines. An empty description says nothing.
pub open spec fn with_field(front: FrontView, line: Seq<char>) -> FrontView {
    let described = "description:"@;
    let hidden = "hide:"@;
    let disabled = "disable-model-invocation:"@;
    if described.is_prefix_of(line) {
        let value = scalar(line.skip(described.len() as int));
        if value.len() > 0 {
            FrontView { description: Some(value), ..front }
        } else {
            front
        }
    } else if hidden.is_prefix_of(line) {
        FrontView { hide: is_truthy(line.skip(hidden.len() as int)), ..front }
    } else if disabled.is_prefix_of(line) {
        FrontView {
            disable_model_invocation: is_truthy(line.skip(disabled.len() as int)),
            ..front
        }
    } else {
        front
    }
}

/// The header after the lines from `i` on, up to the line that ends it.
pub open spec fn front_from(lines: Seq<Seq<char>>, i: int, front: FrontView) -> FrontView
    decreases lines.len() - i,
{
    if i < 0 || i >= lines.len() || trimmed(lines[i]) == "---"@ {
        front
    } else {
        front_from(lines, i + 1, with_field(front, trimmed(lines[i])))
    }
}

/// The header of a skill file.
pub open spec fn front_of(content: Seq<char>) -> FrontView {
    let all = lines_of(content);
    if all.len() > 0 && trimmed(all[0]) == "---"@ {
        front_from(all, 1, no_front())
    } else {
        no_front()
    }
}

/// The first line from `i` on with text in it, without white space around it.
pub open spec fn first_text(lines: Seq<Seq<char>>, i: int) -> Seq<char>
    decreases lines.len() - i,
{
    if i < 0 || i >= lines.len() {
        seq![]
    } else if trimmed(lines[i]).len() > 0 {
        trimmed(lines[i])
    } else {
        first_text(lines, i + 1)
    }
}

/// What a skill file is about.
pub open spec fn summary_of(content: Seq<char>) -> Seq<char> {
    match front_of(content).description {
        Some(d) => d,
        None => first_text(lines_of(content), 0),
    }
}

fn trim_yaml_scalar(value: &str) -> (r: String)
    ensures
        r@ == scalar(value@),
{
    let bare: String = trim(value);
    let unquoted: String = trim_char(bare.as_str(), '"');
    trim_char(unquoted.as_str(), '\'')
}

fn parse_bool(value: &str) -> (r: bool)
    ensures
        r == is_truthy(value@),
{
    let word: String = to_ascii_lower(trim_yaml_scalar(value).as_str());
    same_text(word.as_str(), "true") || same_text(word.as_str(), "yes") || same_text(
        word.as_str(),
        "1",
    )
}

fn read_field(front: &mut Frontmatter, line: &str)
    ensures
        final(front)@ == with_field(old(front)@, line@),
{
    match strip_prefix(line, "description:") {
        Some(value) => {
            assert("description:"@.is_prefix_of(line@));
            assert(line@.skip("description:"@.len() as int) =~= value@);
            let text: String = trim_yaml_scalar(value.as_str());
            if !text.as_str().is_empty() {
                front.description = Some(text);
            }
            return;
        },
        None => {},
    }
    match strip_prefix(line, "hide:") {
        Some(value) => {
            assert("hide:"@.is_prefix_of(line@));
            assert(line@.skip("hide:"@.len() as int) =~= value@);
            front.hide = parse_bool(value.as_str());
            return;
        },
        None => {},
    }
    match strip_prefix(line, "disable-model-invocation:") {
        Some(value) => {
            assert("disable-model-invocation:"@.is_prefix_of(line@));
            assert(line@.skip("disable-model-invocation:"@.len() as int) =~= value@);
            front.disable_model_invocation = parse_bool(value.as_str());
        },
        None => {},
    }
}

/// The header of a skill file.
pub fn parse_frontmatter(content: &str) -> (r: Frontmatter)
    ensures
        r@ == front_of(content@),
{
    let all: Vec<String> = lines(content);
    let ghost texts = views(all@);
    let mut front: Frontmatter = Frontmatter {
        description: None,
        hide: false,
        disable_model_invocation: false,
    };
    if all.len() == 0 {
        return front;
    }
    assert(texts[0] == all@[0]@);
    if !same_text(trim(all[0].as_str()).as_str(), "---") {
        return front;
    }
    let mut i: usize = 1;
    while i < all.len()
        invariant
            1 <= i <= all@.len(),
            texts == views(all@),
            texts == lines_of(content@),
            trimmed(texts[0]) == "---"@,
            front_from(texts, i as int, front@) == front_of(content@),
        decreases all@.len() - i,
    {
        let line: String = trim(all[i].as_str());
        assert(texts[i as int] == all@[i as int]@);
        if same_text(line.as_str(), "---") {
            return front;
        }
        read_field(&mut front, line.as_str());
        i += 1;
    }
    front
}

/// What a skill file is about: the description in its header, or else its first line with
/// text in it.
pub fn extract_skill_summary(content: &str) -> (r: String)
    ensures
        r@ == summary_of(content@),
{
    match parse_frontmatter(content).description {
        Some(d) => {
            return d;
        },
        None => {},
    }
    let all: Vec<String> = lines(content);
    let ghost texts = views(all@);
    let mut i: usize = 0;
    while i < all.len()
        invariant
            i <= all@.len(),
            texts == views(all@),
            texts == lines_of(content@),
            first_text(texts, i as int) == first_text(texts, 0),
            front_of(content@).description is None,
        decreases all@.len() - i,
    {
        let line: String = trim(all[i].as_str());
        assert(texts[i as int] == all@[i as int]@);
        if !line.as_str().is_empty() {
            return line;
        }
        i += 1;
    }
    String::new()
}

} // verus!
