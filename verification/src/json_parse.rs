//! Reading JSON texts.

use crate::json::{
    field_views, json_views, lemma_array_view, lemma_object_view, FieldView, Json, JsonField,
    JsonView,
};
use crate::text::views;
use vstd::prelude::*;

verus! {

/// The JSON value of the crate `serde_json`.
#[verifier::external_type_specification]
#[verifier::external_body]
pub struct ExValue(serde_json::Value);

/// What a value of `serde_json` holds. A number is taken as it is written.
pub uninterp spec fn held_json(value: serde_json::Value) -> JsonView;

/// The value that a JSON text stands for, or `None` where it is no JSON text.
pub uninterp spec fn parsed_json_of(text: Seq<char>) -> Option<JsonView>;

/// What an optional value of `serde_json` holds.
pub open spec fn opt_held(value: Option<serde_json::Value>) -> Option<JsonView> {
    match value {
        Some(v) => Some(held_json(v)),
        None => None,
    }
}

/// Calls `serde_json::from_str` for a `serde_json::Value`: the value that the text stands for, or
/// `None` where it fails. The result depends on the text alone.
#[verifier::external_body]
fn parse_value(text: &str) -> (r: Option<serde_json::Value>)
    ensures
        opt_held(r) == parsed_json_of(text@),
{
    serde_json::from_str::<serde_json::Value>(text).ok()
}

/// A value of `serde_json`, with its parts as they stand.
enum Shape<'a> {
    Null,
    Bool(bool),
    Number(String),
    Text(String),
    Array(Vec<&'a serde_json::Value>),
    Object(Vec<(String, &'a serde_json::Value)>),
}

impl<'a> Shape<'a> {
    /// The value that these are the parts of.
    spec fn whole(self) -> JsonView {
        match self {
            Shape::Null => JsonView::Null,
            Shape::Bool(b) => JsonView::Bool(b),
            Shape::Number(n) => JsonView::Number(n@),
            Shape::Text(t) => JsonView::Text(t@),
            Shape::Array(items) => JsonView::Array(
                items@.map_values(|v: &serde_json::Value| held_json(*v)),
            ),
            Shape::Object(fields) => JsonView::Object(
                fields@.map_values(
                    |f: (String, &serde_json::Value)|
                        FieldView { name: f.0@, value: held_json(*f.1) },
                ),
            ),
        }
    }
}

/// Tells the variants of a `serde_json::Value` apart: the items of an array and the fields of an
/// object come in the order in which `serde_json` keeps them, and a number as its `Display` writes
/// it.
#[verifier::external_body]
fn shape_of<'a>(value: &'a serde_json::Value) -> (r: Shape<'a>)
    ensures
        r.whole() == held_json(*value),
{
    match value {
        serde_json::Value::Null => Shape::Null,
        serde_json::Value::Bool(b) => Shape::Bool(*b),
        serde_json::Value::Number(n) => Shape::Number(n.to_string()),
        serde_json::Value::String(s) => Shape::Text(s.clone()),
        serde_json::Value::Array(items) => Shape::Array(items.iter().collect()),
        serde_json::Value::Object(fields) => {
            Shape::Object(fields.iter().map(|(name, value)| (name.clone(), value)).collect())
        }
    }
}

proof fn lemma_item_is_smaller(value: JsonView, i: int)
    requires
        value is Array,
        0 <= i < value->Array_0.len(),
    ensures
        decreases_to!(value => value->Array_0[i]),
{
    assert(decreases_to!(value => value->Array_0));
    assert(decreases_to!(value->Array_0 => value->Array_0[i]));
}

proof fn lemma_field_is_smaller(value: JsonView, i: int)
    requires
        value is Object,
        0 <= i < value->Object_0.len(),
    ensures
        decreases_to!(value => value->Object_0[i].value),
{
    assert(decreases_to!(value => value->Object_0));
    assert(decreases_to!(value->Object_0 => value->Object_0[i]));
    assert(decreases_to!(value->Object_0[i] => value->Object_0[i].value));
}

fn json_of_value(value: &serde_json::Value) -> (r: Json)
    ensures
        r@ == held_json(*value),
    decreases held_json(*value),
{
    let ghost held = held_json(*value);
    match shape_of(value) {
        Shape::Null => Json::Null,
        Shape::Bool(b) => Json::Bool(b),
        Shape::Number(n) => Json::Number(n),
        Shape::Text(t) => Json::Text(t),
        Shape::Array(items) => {
            let ghost parts = items@.map_values(|v: &serde_json::Value| held_json(*v));
            let mut out: Vec<Json> = Vec::new();
            let mut i: usize = 0;
            assert(json_views(out@) =~= parts.take(0));
            while i < items.len()
                invariant
                    i <= items@.len(),
                    held == held_json(*value),
                    held == JsonView::Array(parts),
                    parts == items@.map_values(|v: &serde_json::Value| held_json(*v)),
                    json_views(out@) == parts.take(i as int),
                decreases items@.len() - i,
            {
                assert(parts[i as int] == held_json(*items@[i as int]));
                proof {
                    lemma_item_is_smaller(held, i as int);
                }
                let part: Json = json_of_value(items[i]);
                let ghost before = out@;
                out.push(part);
                assert(json_views(out@) =~= json_views(before).push(part@));
                assert(parts.take(i + 1) =~= parts.take(i as int).push(parts[i as int]));
                i += 1;
            }
            proof {
                assert(parts.take(i as int) =~= parts);
                lemma_array_view(out);
            }
            Json::Array(out)
        },
        Shape::Object(fields) => {
            let ghost parts = fields@.map_values(
                |f: (String, &serde_json::Value)| FieldView { name: f.0@, value: held_json(*f.1) },
            );
            let mut out: Vec<JsonField> = Vec::new();
            let mut i: usize = 0;
            assert(field_views(out@) =~= parts.take(0));
            while i < fields.len()
                invariant
                    i <= fields@.len(),
                    held == held_json(*value),
                    held == JsonView::Object(parts),
                    parts == fields@.map_values(
                        |f: (String, &serde_json::Value)|
                            FieldView { name: f.0@, value: held_json(*f.1) },
                    ),
                    field_views(out@) == parts.take(i as int),
                decreases fields@.len() - i,
            {
                assert(parts[i as int].value == held_json(*fields@[i as int].1));
                proof {
                    lemma_field_is_smaller(held, i as int);
                }
                let value: Json = json_of_value(fields[i].1);
                let field: JsonField = JsonField { name: fields[i].0.clone(), value };
                let ghost before = out@;
                out.push(field);
                assert(field_views(out@) =~= field_views(before).push(field@));
                assert(parts.take(i + 1) =~= parts.take(i as int).push(parts[i as int]));
                i += 1;
            }
            proof {
                assert(parts.take(i as int) =~= parts);
                lemma_object_view(out);
            }
            Json::Object(out)
        },
    }
}

/// The value that a JSON text stands for, or `None` where it is no JSON text.
pub fn parse_json(text: &str) -> (r: Option<Json>)
    ensures
        match r {
            Some(j) => parsed_json_of(text@) == Some(j@),
            None => parsed_json_of(text@) is None,
        },
{
    match parse_value(text) {
        Some(value) => Some(json_of_value(&value)),
        None => None,
    }
}

/// The values that the first `n` of `lines` stand for, without the lines that are no JSON text.
pub open spec fn parsed_lines(lines: Seq<Seq<char>>, n: nat) -> Seq<JsonView>
    decreases n,
{
    if n == 0 {
        seq![]
    } else {
        let before = parsed_lines(lines, (n - 1) as nat);
        match parsed_json_of(lines[n - 1]) {
            Some(value) => before.push(value),
            None => before,
        }
    }
}

/// The values that `lines` stand for, without the lines that are no JSON text.
pub fn parse_lines(lines: &Vec<String>) -> (r: Vec<Json>)
    ensures
        json_views(r@) == parsed_lines(views(lines@), lines@.len()),
{
    let ghost all = views(lines@);
    let mut out: Vec<Json> = Vec::new();
    let mut i: usize = 0;
    assert(json_views(out@) =~= seq![]);
    while i < lines.len()
        invariant
            i <= lines@.len(),
            all == views(lines@),
            json_views(out@) == parsed_lines(all, i as nat),
        decreases lines@.len() - i,
    {
        assert(all[i as int] == lines@[i as int]@);
        match parse_json(lines[i].as_str()) {
            Some(value) => {
                let ghost before = out@;
                out.push(value);
                assert(json_views(out@) =~= json_views(before).push(value@));
            },
            None => {},
        }
        i += 1;
    }
    out
}

} // verus!
