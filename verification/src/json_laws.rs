//! What holds of values in JSON and of how they are written.

use crate::json::{
    distinct_fields, field_of, field_place, item_texts, json_char, json_chars, json_string_of,
    json_text, lemma_array_text, lemma_field_place, lemma_object_text, member_texts, sorted_place,
    with_field, FieldView, JsonView,
};
use crate::json_parse::{parsed_json_of, parsed_lines};
use crate::sets::ascending;
use crate::text::{joined, text_less};
use crate::text_laws::{is_part_of, joined_holds_each_part, middle_is_part, part_of_part};
use crate::tool_args::{json_of_args, names_in_order};
use vstd::prelude::*;

verus! {

/// A text is written character by character.
pub proof fn text_is_written_by_characters(text: Seq<char>)
    ensures
        json_chars(text) == text.map_values(|c: char| json_char(c)).flatten(),
    decreases text.len(),
{
    let write = |c: char| json_char(c);
    if text.len() > 0 {
        text_is_written_by_characters(text.drop_last());
        let before = text.drop_last().map_values(write);
        assert(text.map_values(write) =~= before.push(json_char(text.last())));
        before.lemma_flatten_push(json_char(text.last()));
    } else {
        assert(text.map_values(write).flatten() =~= seq![]);
    }
}

proof fn lemma_marks()
    ensures
        "\\\""@ == seq!['\\', '"'],
        "\\\\"@ == seq!['\\', '\\'],
        "\\b"@ == seq!['\\', 'b'],
        "\\t"@ == seq!['\\', 't'],
        "\\n"@ == seq!['\\', 'n'],
        "\\f"@ == seq!['\\', 'f'],
        "\\r"@ == seq!['\\', 'r'],
        "\\u00"@ == seq!['\\', 'u', '0', '0'],
        "0123456789abcdef"@ == seq![
            '0',
            '1',
            '2',
            '3',
            '4',
            '5',
            '6',
            '7',
            '8',
            '9',
            'a',
            'b',
            'c',
            'd',
            'e',
            'f',
        ],
{
    reveal_strlit("\\\"");
    reveal_strlit("\\\\");
    reveal_strlit("\\b");
    reveal_strlit("\\t");
    reveal_strlit("\\n");
    reveal_strlit("\\f");
    reveal_strlit("\\r");
    reveal_strlit("\\u00");
    reveal_strlit("0123456789abcdef");
}

/// A character that may stand for itself does, each other one is written with a mark in front,
/// and none is written with a character that may not stand by itself.
pub proof fn character_is_written_safely(c: char, i: int)
    requires
        0 <= i < json_char(c).len(),
    ensures
        (c as u32) >= 0x20 && c != '"' && c != '\\' ==> json_char(c) == seq![c],
        (c as u32) < 0x20 || c == '"' || c == '\\' ==> json_char(c)[0] == '\\' && json_char(c).len()
            >= 2,
        (json_char(c)[i] as u32) >= 0x20,
        json_char(c)[i] == '"' ==> i == 1 && c == '"',
{
    lemma_marks();
}

/// Two characters are written alike only where they are the same.
pub proof fn characters_are_told_apart(a: char, b: char)
    requires
        json_char(a) == json_char(b),
    ensures
        a == b,
{
    lemma_marks();
    let x = json_char(a);
    let y = json_char(b);
    assert(x.len() == y.len());
    assert(x[0] == y[0] && x[1] == y[1] && x[4] == y[4] && x[5] == y[5]);
}

/// What is in a list is written in it, in its order, with a comma between.
pub proof fn items_are_written_in_order(items: Seq<JsonView>, i: int)
    requires
        0 <= i < items.len(),
    ensures
        is_part_of(json_text(items[i]), json_text(JsonView::Array(items))),
        json_text(JsonView::Array(items)) == "["@ + joined(
            items.map_values(|v: JsonView| json_text(v)),
            ","@,
        ) + "]"@,
{
    lemma_array_text(items);
    let texts = item_texts(items);
    let inner = joined(texts, ","@);
    joined_holds_each_part(texts, ","@, i);
    middle_is_part("["@, inner, "]"@);
    part_of_part(texts[i], inner, json_text(JsonView::Array(items)));
}

/// Each field of an object is written in it: its name, a colon and its value.
pub proof fn fields_are_written_under_their_names(fields: Seq<FieldView>, i: int)
    requires
        0 <= i < fields.len(),
    ensures
        is_part_of(
            json_string_of(fields[i].name) + ":"@ + json_text(fields[i].value),
            json_text(JsonView::Object(fields)),
        ),
{
    lemma_object_text(fields);
    let texts = member_texts(fields);
    let inner = joined(texts, ","@);
    joined_holds_each_part(texts, ","@, i);
    middle_is_part("{"@, inner, "}"@);
    part_of_part(texts[i], inner, json_text(JsonView::Object(fields)));
}

/// What is read under a name is what stands in the first field of that name.
pub proof fn field_is_read_by_its_name(fields: Seq<FieldView>, name: Seq<char>, i: int)
    requires
        0 <= i < fields.len(),
        fields[i].name == name,
        forall|j: int| 0 <= j < i ==> (#[trigger] fields[j]).name != name,
    ensures
        field_of(JsonView::Object(fields), name) == Some(fields[i].value),
{
    lemma_field_place(fields, name);
    let at = field_place(fields, name);
    if at < i {
        assert(at < fields.len());
    }
    if at > i {
        assert(fields[i].name != name);
    }
}

/// Nothing is read under a name that no field has.
pub proof fn missing_field_is_not_read(fields: Seq<FieldView>, name: Seq<char>)
    requires
        forall|j: int| 0 <= j < fields.len() ==> (#[trigger] fields[j]).name != name,
    ensures
        field_of(JsonView::Object(fields), name) is None,
{
    lemma_field_place(fields, name);
}

proof fn lemma_place_for(fields: Seq<FieldView>, name: Seq<char>)
    ensures
        ({
            let at = sorted_place(fields, name);
            &&& 0 <= at <= fields.len()
            &&& forall|i: int| 0 <= i < at ==> !text_less(name, (#[trigger] fields[i]).name)
            &&& at < fields.len() ==> text_less(name, fields[at].name)
        }),
    decreases fields.len(),
{
    if fields.len() > 0 && !text_less(name, fields[0].name) {
        let rest = fields.drop_first();
        lemma_place_for(rest, name);
        assert forall|i: int| 0 <= i < sorted_place(fields, name) implies !text_less(
            name,
            (#[trigger] fields[i]).name,
        ) by {
            if i > 0 {
                assert(rest[i - 1] == fields[i]);
            }
        }
    }
}

/// A field that is set takes the place of the one with its name or comes new among the others,
/// behind those that it does not precede; the others stay as they are, in their order, and no
/// name comes to stand twice.
pub proof fn set_field_takes_its_place(fields: Seq<FieldView>, name: Seq<char>, value: JsonView)
    ensures
        ({
            let after = with_field(fields, name, value);
            let known = exists|i: int| 0 <= i < fields.len() && (#[trigger] fields[i]).name == name;
            &&& known ==> after.len() == fields.len()
            &&& !known ==> after.len() == fields.len() + 1
            &&& exists|at: int|
                {
                    &&& 0 <= at < after.len()
                    &&& #[trigger] after[at] == FieldView { name, value }
                    &&& after.take(at) == fields.take(at)
                    &&& known ==> after.skip(at + 1) == fields.skip(at + 1)
                    &&& !known ==> after.skip(at + 1) == fields.skip(at)
                    &&& !known && at < fields.len() ==> text_less(name, fields[at].name)
                }
            &&& distinct_fields(fields) ==> distinct_fields(after)
        }),
{
    lemma_field_place(fields, name);
    lemma_place_for(fields, name);
    let after = with_field(fields, name, value);
    let found = field_place(fields, name);
    let at = if found < fields.len() {
        found
    } else {
        sorted_place(fields, name)
    };
    assert(after[at] == FieldView { name, value });
    assert(after.take(at) =~= fields.take(at));
    if found < fields.len() {
        assert(fields[found].name == name);
        assert(after.skip(at + 1) =~= fields.skip(at + 1));
    } else {
        assert(after.skip(at + 1) =~= fields.skip(at));
        if distinct_fields(fields) {
            assert forall|i: int, j: int| 0 <= i < j < after.len() implies (
            #[trigger] after[i]).name != (#[trigger] after[j]).name by {
                let a = if i < at {
                    i
                } else {
                    i - 1
                };
                let b = if j < at {
                    j
                } else {
                    j - 1
                };
                if i != at {
                    assert(after[i] == fields[a]);
                }
                if j != at {
                    assert(after[j] == fields[b]);
                }
            }
        }
    }
}

/// The values that are read from lines are those of the lines that hold one, in their order.
pub proof fn lines_are_read_in_order(lines: Seq<Seq<char>>)
    ensures
        parsed_lines(lines, lines.len()) == lines.filter_map(
            |line: Seq<char>| parsed_json_of(line),
        ),
    decreases lines.len(),
{
    let read = |line: Seq<char>| parsed_json_of(line);
    reveal(Seq::filter_map);
    if lines.len() > 0 {
        let less = lines.drop_last();
        lines_are_read_in_order(less);
        lemma_read_of_prefix(lines, less.len());
    }
}

proof fn lemma_read_of_prefix(lines: Seq<Seq<char>>, n: nat)
    requires
        n < lines.len(),
    ensures
        parsed_lines(lines, n) == parsed_lines(lines.drop_last(), n),
    decreases n,
{
    if n > 0 {
        lemma_read_of_prefix(lines, (n - 1) as nat);
    }
}

/// Arguments are written one after the other in the order of their names, each with its own
/// value.
pub proof fn arguments_are_written_by_name(
    args: Map<Seq<char>, Seq<char>>,
    names: Seq<Seq<char>>,
    i: int,
)
    requires
        ascending(names),
        names.to_set() == args.dom(),
        0 <= i < names.len(),
    ensures
        json_of_args(args) == json_text(
            JsonView::Object(
                names.map_values(
                    |name: Seq<char>| FieldView { name, value: JsonView::Text(args[name]) },
                ),
            ),
        ),
        is_part_of(
            json_string_of(names[i]) + ":"@ + json_string_of(args[names[i]]),
            json_of_args(args),
        ),
{
    assert(ascending(names_in_order(args)) && names_in_order(args).to_set() == args.dom());
    crate::sets::ascending_is_determined(names, names_in_order(args));
    let fields = names.map_values(
        |name: Seq<char>| FieldView { name, value: JsonView::Text(args[name]) },
    );
    fields_are_written_under_their_names(fields, i);
    assert(json_text(JsonView::Text(args[names[i]])) == json_string_of(args[names[i]]));
}

} // verus!
