//! JSON values.

use crate::text::{join, joined, less, same_text, text_less, views};
use vstd::prelude::*;

verus! {

/// A JSON value. A number is kept as it is written.
#[derive(Debug)]
pub enum Json {
    Null,
    Bool(bool),
    Number(String),
    Text(String),
    Array(Vec<Json>),
    Object(Vec<JsonField>),
}

/// A field of a JSON object.
#[derive(Debug)]
pub struct JsonField {
    pub name: String,
    pub value: Json,
}

/// What a [`Json`] says.
pub enum JsonView {
    Null,
    Bool(bool),
    Number(Seq<char>),
    Text(Seq<char>),
    Array(Seq<JsonView>),
    Object(Seq<FieldView>),
}

/// What a [`JsonField`] says.
pub struct FieldView {
    pub name: Seq<char>,
    pub value: JsonView,
}

impl View for Json {
    type V = JsonView;

    open spec fn view(&self) -> JsonView
        decreases self,
    {
        match self {
            Json::Null => JsonView::Null,
            Json::Bool(b) => JsonView::Bool(*b),
            Json::Number(n) => JsonView::Number(n@),
            Json::Text(s) => JsonView::Text(s@),
            Json::Array(items) => JsonView::Array(
                Seq::new(
                    items@.len(),
                    |i: int|
                        if 0 <= i < items@.len() {
                            items@[i].view()
                        } else {
                            JsonView::Null
                        },
                ),
            ),
            Json::Object(fields) => JsonView::Object(
                Seq::new(
                    fields@.len(),
                    |i: int|
                        if 0 <= i < fields@.len() {
                            FieldView { name: fields@[i].name@, value: fields@[i].value.view() }
                        } else {
                            FieldView { name: seq![], value: JsonView::Null }
                        },
                ),
            ),
        }
    }
}

impl View for JsonField {
    type V = FieldView;

    open spec fn view(&self) -> FieldView {
        FieldView { name: self.name@, value: self.value@ }
    }
}

/// The views of a sequence of values.
pub open spec fn json_views(items: Seq<Json>) -> Seq<JsonView> {
    items.map_values(|j: Json| j@)
}

/// The views of a sequence of fields.
pub open spec fn field_views(fields: Seq<JsonField>) -> Seq<FieldView> {
    fields.map_values(|f: JsonField| f@)
}

/// An array says what its items say.
pub proof fn lemma_array_view(items: Vec<Json>)
    ensures
        Json::Array(items)@ == JsonView::Array(json_views(items@)),
{
    let j = Json::Array(items);
    assert(j@->Array_0 =~= json_views(items@));
}

/// An object says what its fields say.
pub proof fn lemma_object_view(fields: Vec<JsonField>)
    ensures
        Json::Object(fields)@ == JsonView::Object(field_views(fields@)),
{
    let j = Json::Object(fields);
    assert(j@->Object_0 =~= field_views(fields@));
}

/// The place of the first field `name`, or the number of fields where there is none.
pub open spec fn field_place(fields: Seq<FieldView>, name: Seq<char>) -> int
    decreases fields.len(),
{
    if fields.len() == 0 || fields[0].name == name {
        0
    } else {
        1 + field_place(fields.drop_first(), name)
    }
}

/// The place of a field is the first with its name.
pub proof fn lemma_field_place(fields: Seq<FieldView>, name: Seq<char>)
    ensures
        0 <= field_place(fields, name) <= fields.len(),
        forall|i: int| 0 <= i < field_place(fields, name) ==> (#[trigger] fields[i]).name != name,
        field_place(fields, name) < fields.len() ==> fields[field_place(fields, name)].name == name,
    decreases fields.len(),
{
    if fields.len() > 0 && fields[0].name != name {
        lemma_field_place(fields.drop_first(), name);
        assert forall|i: int| 0 <= i < field_place(fields, name) implies (
        #[trigger] fields[i]).name != name by {
            if i > 0 {
                assert(fields.drop_first()[i - 1] == fields[i]);
            }
        }
    }
}

/// The field `name` of a value, where it is an object that has one.
pub open spec fn field_of(value: JsonView, name: Seq<char>) -> Option<JsonView> {
    match value {
        JsonView::Object(fields) => {
            let i = field_place(fields, name);
            if i < fields.len() {
                Some(fields[i].value)
            } else {
                None
            }
        },
        _ => None,
    }
}

/// The text that a value is, or the empty text where it is none.
pub open spec fn text_or_empty(value: Option<JsonView>) -> Seq<char> {
    match value {
        Some(JsonView::Text(s)) => s,
        _ => seq![],
    }
}

/// The field `name` of a value as text, or the empty text.
pub open spec fn field_text(value: JsonView, name: Seq<char>) -> Seq<char> {
    text_or_empty(field_of(value, name))
}

/// Whether the field `name` of a value is the text `text`.
pub open spec fn field_is(value: JsonView, name: Seq<char>, text: Seq<char>) -> bool {
    field_of(value, name) == Some(JsonView::Text(text))
}

/// How a character is written in a JSON string: a quotation mark, a backslash and the control
/// characters are escaped.
pub open spec fn json_char(c: char) -> Seq<char> {
    if c == '"' {
        "\\\""@
    } else if c == '\\' {
        "\\\\"@
    } else if c == '\u{8}' {
        "\\b"@
    } else if c == '\t' {
        "\\t"@
    } else if c == '\n' {
        "\\n"@
    } else if c == '\u{c}' {
        "\\f"@
    } else if c == '\r' {
        "\\r"@
    } else if (c as u32) < 0x20 {
        let digits = "0123456789abcdef"@;
        "\\u00"@ + seq![digits[c as int / 16], digits[c as int % 16]]
    } else {
        seq![c]
    }
}

/// How the characters of a text are written in a JSON string.
pub open spec fn json_chars(text: Seq<char>) -> Seq<char>
    decreases text.len(),
{
    if text.len() == 0 {
        seq![]
    } else {
        json_chars(text.drop_last()) + json_char(text.last())
    }
}

/// The JSON text of a string.
pub open spec fn json_string_of(text: Seq<char>) -> Seq<char> {
    "\""@ + json_chars(text) + "\""@
}

/// Calls `serde_json::to_string` on a string: the text between quotation marks, with quotation
/// marks, backslashes and the control characters below the space escaped, those that have a letter
/// of their own by it and the others by their number in hexadecimal. All else is written as it is.
#[verifier::external_body]
fn json_string(text: &str) -> (r: String)
    ensures
        r@ == json_string_of(text@),
{
    serde_json::to_string(text).unwrap_or_default()
}

/// The JSON texts of the parts of a value.
pub open spec fn json_parts(value: JsonView) -> Seq<Seq<char>>
    decreases value, 0nat,
{
    match value {
        JsonView::Array(items) => Seq::new(
            items.len(),
            |i: int|
                if 0 <= i < items.len() {
                    json_text(items[i])
                } else {
                    seq![]
                },
        ),
        JsonView::Object(fields) => Seq::new(
            fields.len(),
            |i: int|
                if 0 <= i < fields.len() {
                    json_string_of(fields[i].name) + ":"@ + json_text(fields[i].value)
                } else {
                    seq![]
                },
        ),
        _ => seq![],
    }
}

/// The JSON text of a value, without white space between its parts.
pub open spec fn json_text(value: JsonView) -> Seq<char>
    decreases value, 1nat,
{
    match value {
        JsonView::Null => "null"@,
        JsonView::Bool(b) => if b {
            "true"@
        } else {
            "false"@
        },
        JsonView::Number(n) => n,
        JsonView::Text(s) => json_string_of(s),
        JsonView::Array(_) => "["@ + joined(json_parts(value), ","@) + "]"@,
        JsonView::Object(_) => "{"@ + joined(json_parts(value), ","@) + "}"@,
    }
}

/// The JSON texts of a sequence of values.
pub open spec fn item_texts(items: Seq<JsonView>) -> Seq<Seq<char>> {
    items.map_values(|v: JsonView| json_text(v))
}

/// The JSON texts of a sequence of fields.
pub open spec fn member_texts(fields: Seq<FieldView>) -> Seq<Seq<char>> {
    fields.map_values(|f: FieldView| json_string_of(f.name) + ":"@ + json_text(f.value))
}

/// The text of an array is made of the texts of its items.
pub proof fn lemma_array_text(items: Seq<JsonView>)
    ensures
        json_text(JsonView::Array(items)) == "["@ + joined(item_texts(items), ","@) + "]"@,
{
    assert(json_parts(JsonView::Array(items)) =~= item_texts(items));
}

/// The text of an object is made of the texts of its fields.
pub proof fn lemma_object_text(fields: Seq<FieldView>)
    ensures
        json_text(JsonView::Object(fields)) == "{"@ + joined(member_texts(fields), ","@) + "}"@,
{
    assert(json_parts(JsonView::Object(fields)) =~= member_texts(fields));
}

/// `fields` with the field `name` set to `value`: in its place where there is one, else before
/// the first field whose name comes after it.
pub open spec fn with_field(fields: Seq<FieldView>, name: Seq<char>, value: JsonView) -> Seq<
    FieldView,
> {
    let i = field_place(fields, name);
    if i < fields.len() {
        fields.update(i, FieldView { name, value })
    } else {
        fields.insert(sorted_place(fields, name), FieldView { name, value })
    }
}

/// The place of the first field whose name comes after `name`.
pub open spec fn sorted_place(fields: Seq<FieldView>, name: Seq<char>) -> int
    decreases fields.len(),
{
    if fields.len() == 0 || text_less(name, fields[0].name) {
        0
    } else {
        1 + sorted_place(fields.drop_first(), name)
    }
}

/// `fields` without the field `name`.
pub open spec fn without_field(fields: Seq<FieldView>, name: Seq<char>) -> Seq<FieldView> {
    let i = field_place(fields, name);
    if i < fields.len() {
        fields.remove(i)
    } else {
        fields
    }
}

proof fn lemma_sorted_place(fields: Seq<FieldView>, name: Seq<char>, at: int)
    requires
        0 <= at <= fields.len(),
        forall|i: int| 0 <= i < at ==> !text_less(name, (#[trigger] fields[i]).name),
        at < fields.len() ==> text_less(name, fields[at].name),
    ensures
        sorted_place(fields, name) == at,
    decreases fields.len(),
{
    if at > 0 {
        let rest = fields.drop_first();
        assert(!text_less(name, fields[0].name));
        assert forall|i: int| 0 <= i < at - 1 implies !text_less(name, (#[trigger] rest[i]).name) by {
            assert(rest[i] == fields[i + 1]);
        }
        lemma_sorted_place(rest, name, at - 1);
    }
}

fn find_field(fields: &Vec<JsonField>, name: &str) -> (r: usize)
    ensures
        r == field_place(field_views(fields@), name@),
        r <= fields@.len(),
{
    let ghost all = field_views(fields@);
    proof {
        lemma_field_place(all, name@);
    }
    let mut i: usize = 0;
    while i < fields.len()
        invariant
            i <= fields@.len(),
            all == field_views(fields@),
            forall|j: int| 0 <= j < i ==> (#[trigger] all[j]).name != name@,
            0 <= field_place(all, name@) <= all.len(),
            forall|j: int| 0 <= j < field_place(all, name@) ==> (#[trigger] all[j]).name != name@,
            field_place(all, name@) < all.len() ==> all[field_place(all, name@)].name == name@,
        decreases fields@.len() - i,
    {
        assert(all[i as int] == fields@[i as int]@);
        if same_text(fields[i].name.as_str(), name) {
            return i;
        }
        i += 1;
    }
    i
}

/// Sets the field `name` of an object.
pub fn set_field(fields: &mut Vec<JsonField>, name: &str, value: Json)
    ensures
        field_views(final(fields)@) == with_field(field_views(old(fields)@), name@, value@),
{
    let ghost all = field_views(fields@);
    let i: usize = find_field(fields, name);
    let field: JsonField = JsonField { name: name.to_owned(), value };
    if i < fields.len() {
        fields.set(i, field);
        assert(field_views(fields@) =~= all.update(i as int, field@));
        return;
    }
    let mut at: usize = 0;
    while at < fields.len() && !less(name, fields[at].name.as_str())
        invariant
            at <= fields@.len(),
            all == field_views(fields@),
            forall|j: int| 0 <= j < at ==> !text_less(name@, (#[trigger] all[j]).name),
        decreases fields@.len() - at,
    {
        assert(all[at as int] == fields@[at as int]@);
        at += 1;
    }
    proof {
        if at < fields@.len() {
            assert(all[at as int] == fields@[at as int]@);
        }
        lemma_sorted_place(all, name@, at as int);
    }
    fields.insert(at, field);
    assert(field_views(fields@) =~= all.insert(at as int, field@));
}

/// Removes the field `name` of an object.
pub fn remove_field(fields: &mut Vec<JsonField>, name: &str)
    ensures
        field_views(final(fields)@) == without_field(field_views(old(fields)@), name@),
{
    let ghost all = field_views(fields@);
    let i: usize = find_field(fields, name);
    if i < fields.len() {
        let _ = fields.remove(i);
        assert(field_views(fields@) =~= all.remove(i as int));
    }
}

impl Json {
    /// The field `name`, where the value is an object that has one.
    pub fn get(&self, name: &str) -> (r: Option<&Json>)
        ensures
            match r {
                Some(v) => field_of(self@, name@) == Some(v@),
                None => field_of(self@, name@) is None,
            },
    {
        match self {
            Json::Object(fields) => {
                proof {
                    lemma_object_view(*fields);
                    lemma_field_place(field_views(fields@), name@);
                }
                let i: usize = find_field(fields, name);
                if i < fields.len() {
                    assert(field_views(fields@)[i as int] == fields@[i as int]@);
                    Some(&fields[i].value)
                } else {
                    None
                }
            },
            _ => None,
        }
    }

    /// The field `name` as text, or the empty text.
    pub fn field_text(&self, name: &str) -> (r: String)
        ensures
            r@ == field_text(self@, name@),
    {
        match self.get(name) {
            Some(Json::Text(s)) => s.clone(),
            _ => String::new(),
        }
    }

    /// Whether the field `name` is the text `text`.
    pub fn field_is(&self, name: &str, text: &str) -> (r: bool)
        ensures
            r == field_is(self@, name@, text@),
    {
        match self.get(name) {
            Some(Json::Text(s)) => same_text(s.as_str(), text),
            _ => false,
        }
    }

    /// The JSON text of the value, without white space between its parts.
    pub fn to_text(&self) -> (r: String)
        ensures
            r@ == json_text(self@),
        decreases self,
    {
        match self {
            Json::Null => "null".to_owned(),
            Json::Bool(b) => if *b {
                "true".to_owned()
            } else {
                "false".to_owned()
            },
            Json::Number(n) => n.clone(),
            Json::Text(s) => json_string(s.as_str()),
            Json::Array(items) => {
                let parts: Vec<String> = array_parts(items);
                proof {
                    lemma_array_view(*items);
                    lemma_array_text(json_views(items@));
                }
                "[".to_owned().concat(join(&parts, ",").as_str()).concat("]")
            },
            Json::Object(fields) => {
                let parts: Vec<String> = object_parts(fields);
                proof {
                    lemma_object_view(*fields);
                    lemma_object_text(field_views(fields@));
                }
                "{".to_owned().concat(join(&parts, ",").as_str()).concat("}")
            },
        }
    }
}

fn array_parts(items: &Vec<Json>) -> (r: Vec<String>)
    ensures
        views(r@) == item_texts(json_views(items@)),
    decreases items,
{
    let ghost all = json_views(items@);
    let mut parts: Vec<String> = Vec::new();
    let mut i: usize = 0;
    assert(views(parts@) =~= item_texts(all).take(0));
    while i < items.len()
        invariant
            i <= items@.len(),
            all == json_views(items@),
            views(parts@) == item_texts(all).take(i as int),
        decreases items@.len() - i,
    {
        let ghost before = parts@;
        assert(decreases_to!(*items => items[i as int]));
        let part: String = items[i].to_text();
        parts.push(part);
        proof {
            assert(all[i as int] == items@[i as int]@);
            assert(views(parts@) =~= views(before).push(part@));
            assert(item_texts(all).take(i + 1) =~= item_texts(all).take(i as int).push(
                item_texts(all)[i as int],
            ));
        }
        i += 1;
    }
    assert(item_texts(all).take(i as int) =~= item_texts(all));
    parts
}

fn object_parts(fields: &Vec<JsonField>) -> (r: Vec<String>)
    ensures
        views(r@) == member_texts(field_views(fields@)),
    decreases fields,
{
    let ghost all = field_views(fields@);
    let mut parts: Vec<String> = Vec::new();
    let mut i: usize = 0;
    assert(views(parts@) =~= member_texts(all).take(0));
    while i < fields.len()
        invariant
            i <= fields@.len(),
            all == field_views(fields@),
            views(parts@) == member_texts(all).take(i as int),
        decreases fields@.len() - i,
    {
        let ghost before = parts@;
        assert(decreases_to!(*fields => fields[i as int]));
        let field: &JsonField = &fields[i];
        let text: String = field.value.to_text();
        let part: String = json_string(field.name.as_str()).concat(":").concat(text.as_str());
        parts.push(part);
        proof {
            assert(all[i as int] == fields@[i as int]@);
            assert(views(parts@) =~= views(before).push(part@));
            assert(member_texts(all).take(i + 1) =~= member_texts(all).take(i as int).push(
                member_texts(all)[i as int],
            ));
        }
        i += 1;
    }
    assert(member_texts(all).take(i as int) =~= member_texts(all));
    parts
}

/// A copy of `items`.
pub fn clone_items(items: &Vec<Json>) -> (r: Vec<Json>)
    ensures
        json_views(r@) == json_views(items@),
        r@.len() == items@.len(),
    decreases items,
{
    let ghost all = json_views(items@);
    let mut out: Vec<Json> = Vec::new();
    let mut i: usize = 0;
    assert(json_views(out@) =~= all.take(0));
    while i < items.len()
        invariant
            i <= items@.len(),
            out@.len() == i,
            all == json_views(items@),
            json_views(out@) == all.take(i as int),
        decreases items@.len() - i,
    {
        let ghost before = out@;
        assert(decreases_to!(*items => items[i as int]));
        let item: Json = items[i].copy();
        out.push(item);
        proof {
            assert(all[i as int] == items@[i as int]@);
            assert(json_views(out@) =~= json_views(before).push(item@));
            assert(all.take(i + 1) =~= all.take(i as int).push(all[i as int]));
        }
        i += 1;
    }
    assert(all.take(i as int) =~= all);
    out
}

/// A copy of `fields`.
pub fn clone_fields(fields: &Vec<JsonField>) -> (r: Vec<JsonField>)
    ensures
        field_views(r@) == field_views(fields@),
    decreases fields,
{
    let ghost all = field_views(fields@);
    let mut out: Vec<JsonField> = Vec::new();
    let mut i: usize = 0;
    assert(field_views(out@) =~= all.take(0));
    while i < fields.len()
        invariant
            i <= fields@.len(),
            all == field_views(fields@),
            field_views(out@) == all.take(i as int),
        decreases fields@.len() - i,
    {
        let ghost before = out@;
        assert(decreases_to!(*fields => fields[i as int]));
        let field: &JsonField = &fields[i];
        let copy: JsonField = JsonField { name: field.name.clone(), value: field.value.copy() };
        out.push(copy);
        proof {
            assert(all[i as int] == fields@[i as int]@);
            assert(field_views(out@) =~= field_views(before).push(copy@));
            assert(all.take(i + 1) =~= all.take(i as int).push(all[i as int]));
        }
        i += 1;
    }
    assert(all.take(i as int) =~= all);
    out
}

impl Json {
    /// A copy of the value.
    pub fn copy(&self) -> (r: Json)
        ensures
            r@ == self@,
        decreases self,
    {
        match self {
            Json::Null => Json::Null,
            Json::Bool(b) => Json::Bool(*b),
            Json::Number(n) => Json::Number(n.clone()),
            Json::Text(s) => Json::Text(s.clone()),
            Json::Array(items) => {
                let copies: Vec<Json> = clone_items(items);
                proof {
                    lemma_array_view(*items);
                    lemma_array_view(copies);
                }
                Json::Array(copies)
            },
            Json::Object(fields) => {
                let copies: Vec<JsonField> = clone_fields(fields);
                proof {
                    lemma_object_view(*fields);
                    lemma_object_view(copies);
                }
                Json::Object(copies)
            },
        }
    }
}

/// Whether no two fields have the same name.
pub open spec fn distinct_fields(fields: Seq<FieldView>) -> bool {
    forall|i: int, j: int|
        0 <= i < j < fields.len() ==> (#[trigger] fields[i]).name != (#[trigger] fields[j]).name
}

/// Whether a value has no two fields of the same name, where it is an object.
pub open spec fn proper(value: JsonView) -> bool {
    value is Object ==> distinct_fields(value->Object_0)
}

proof fn lemma_place_is(fields: Seq<FieldView>, name: Seq<char>, at: int)
    requires
        0 <= at <= fields.len(),
        forall|i: int| 0 <= i < at ==> (#[trigger] fields[i]).name != name,
        at < fields.len() ==> fields[at].name == name,
    ensures
        field_place(fields, name) == at,
{
    lemma_field_place(fields, name);
    let p = field_place(fields, name);
    if p < at {
        assert(fields[p].name != name);
    }
}

proof fn lemma_sorted_place_bound(fields: Seq<FieldView>, name: Seq<char>)
    ensures
        0 <= sorted_place(fields, name) <= fields.len(),
    decreases fields.len(),
{
    if fields.len() > 0 && !text_less(name, fields[0].name) {
        lemma_sorted_place_bound(fields.drop_first(), name);
    }
}

/// A field that was set has the value it was set to.
pub proof fn set_field_is_read(fields: Seq<FieldView>, name: Seq<char>, value: JsonView)
    ensures
        field_of(JsonView::Object(with_field(fields, name, value)), name) == Some(value),
{
    lemma_field_place(fields, name);
    lemma_sorted_place_bound(fields, name);
    let set = with_field(fields, name, value);
    let i = field_place(fields, name);
    if i < fields.len() {
        lemma_place_is(set, name, i);
    } else {
        lemma_place_is(set, name, sorted_place(fields, name));
    }
}

/// To set a field leaves the others as they are.
pub proof fn set_field_keeps_others(
    fields: Seq<FieldView>,
    name: Seq<char>,
    value: JsonView,
    other: Seq<char>,
)
    requires
        other != name,
    ensures
        field_of(JsonView::Object(with_field(fields, name, value)), other) == field_of(
            JsonView::Object(fields),
            other,
        ),
{
    lemma_field_place(fields, name);
    lemma_field_place(fields, other);
    lemma_sorted_place_bound(fields, name);
    let set = with_field(fields, name, value);
    let i = field_place(fields, name);
    let k = field_place(fields, other);
    if i < fields.len() {
        lemma_place_is(set, other, k);
    } else {
        let at = sorted_place(fields, name);
        if k < at {
            lemma_place_is(set, other, k);
        } else {
            assert forall|j: int| 0 <= j < k + 1 implies (#[trigger] set[j]).name != other by {
                if j < at {
                    assert(set[j] == fields[j]);
                } else if j > at {
                    assert(set[j] == fields[j - 1]);
                }
            }
            lemma_place_is(set, other, k + 1);
        }
    }
}

/// To remove a field leaves the others as they are.
pub proof fn remove_field_keeps_others(fields: Seq<FieldView>, name: Seq<char>, other: Seq<char>)
    requires
        other != name,
    ensures
        field_of(JsonView::Object(without_field(fields, name)), other) == field_of(
            JsonView::Object(fields),
            other,
        ),
{
    lemma_field_place(fields, name);
    lemma_field_place(fields, other);
    let rest = without_field(fields, name);
    let i = field_place(fields, name);
    let k = field_place(fields, other);
    if i < fields.len() {
        if k < i {
            lemma_place_is(rest, other, k);
        } else {
            assert forall|j: int| 0 <= j < k - 1 implies (#[trigger] rest[j]).name != other by {
                if j < i {
                    assert(rest[j] == fields[j]);
                } else {
                    assert(rest[j] == fields[j + 1]);
                }
            }
            lemma_place_is(rest, other, k - 1);
        }
    }
}

/// A field that was removed is gone, and the names of the rest are still distinct.
pub proof fn removed_field_is_gone(fields: Seq<FieldView>, name: Seq<char>)
    requires
        distinct_fields(fields),
    ensures
        field_of(JsonView::Object(without_field(fields, name)), name) is None,
        distinct_fields(without_field(fields, name)),
{
    lemma_field_place(fields, name);
    let rest = without_field(fields, name);
    let i = field_place(fields, name);
    if i < fields.len() {
        assert forall|j: int| 0 <= j < rest.len() implies (#[trigger] rest[j]).name != name by {
            if j < i {
                assert(rest[j] == fields[j]);
            } else {
                assert(rest[j] == fields[j + 1]);
            }
        }
        lemma_place_is(rest, name, rest.len() as int);
    }
}

} // verus!
