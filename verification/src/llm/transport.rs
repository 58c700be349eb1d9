//! Requests to an OpenAI-compatible service.

use crate::json::{
    clone_fields, field_is, field_of, field_text, field_views, json_text, json_views,
    lemma_array_view, lemma_object_view, remove_field, set_field, with_field, without_field,
    FieldView, Json, JsonField, JsonView,
};
use crate::llm::options::{
    default_options, OpenAiCompatibleOptions, OptionsView, TokenParamKind,
};
use crate::text::{decimal, decimal_of, holds, same_text, views};
use vstd::prelude::*;
use vstd::utf8::encode_utf8;

verus! {

/// A field that holds a text.
pub open spec fn text_field(name: Seq<char>, text: Seq<char>) -> FieldView {
    FieldView { name, value: JsonView::Text(text) }
}

/// A field of a JSON object.
pub open spec fn field(name: Seq<char>, value: JsonView) -> FieldView {
    FieldView { name, value }
}

fn make_text(name: &str, text: &str) -> (r: JsonField)
    ensures
        r@ == text_field(name@, text@),
{
    JsonField { name: name.to_owned(), value: Json::Text(text.to_owned()) }
}

fn make_field(name: &str, value: Json) -> (r: JsonField)
    ensures
        r@ == field(name@, value@),
{
    JsonField { name: name.to_owned(), value }
}

fn object(fields: Vec<JsonField>) -> (r: Json)
    ensures
        r@ == JsonView::Object(field_views(fields@)),
{
    proof {
        lemma_object_view(fields);
    }
    Json::Object(fields)
}

fn array(items: Vec<Json>) -> (r: Json)
    ensures
        r@ == JsonView::Array(json_views(items@)),
{
    proof {
        lemma_array_view(items);
    }
    Json::Array(items)
}

/// The texts in the fields `name` of the first `n` blocks of type `kind`, one after the other.
pub open spec fn block_texts(
    blocks: Seq<JsonView>,
    kind: Seq<char>,
    name: Seq<char>,
    n: nat,
) -> Seq<char>
    decreases n,
{
    if n == 0 {
        seq![]
    } else if field_text(blocks[n - 1], "type"@) == kind {
        block_texts(blocks, kind, name, (n - 1) as nat) + field_text(blocks[n - 1], name)
    } else {
        block_texts(blocks, kind, name, (n - 1) as nat)
    }
}

/// What a tool is called with.
pub open spec fn call_input(block: JsonView) -> JsonView {
    match field_of(block, "input"@) {
        Some(v) => v,
        None => JsonView::Object(seq![]),
    }
}

/// A tool call as the service wants it.
pub open spec fn tool_call(block: JsonView) -> JsonView {
    JsonView::Object(
        seq![
            field(
                "function"@,
                JsonView::Object(
                    seq![
                        text_field("arguments"@, json_text(call_input(block))),
                        text_field("name"@, field_text(block, "name"@)),
                    ],
                ),
            ),
            text_field("id"@, field_text(block, "id"@)),
            text_field("type"@, "function"@),
        ],
    )
}

/// The tool calls among the first `n` blocks.
pub open spec fn tool_calls(blocks: Seq<JsonView>, n: nat) -> Seq<JsonView>
    decreases n,
{
    if n == 0 {
        seq![]
    } else if field_text(blocks[n - 1], "type"@) == "tool_use"@ {
        tool_calls(blocks, (n - 1) as nat).push(tool_call(blocks[n - 1]))
    } else {
        tool_calls(blocks, (n - 1) as nat)
    }
}

/// The message of the assistant that is made of `blocks`.
pub open spec fn assistant_message(blocks: Seq<JsonView>) -> JsonView {
    let calls = tool_calls(blocks, blocks.len());
    let base = seq![
        text_field("content"@, block_texts(blocks, "text"@, "text"@, blocks.len())),
        text_field(
            "reasoning_content"@,
            block_texts(blocks, "thinking"@, "thinking"@, blocks.len()),
        ),
        text_field("role"@, "assistant"@),
    ];
    if calls.len() == 0 {
        JsonView::Object(base)
    } else {
        JsonView::Object(base.push(field("tool_calls"@, JsonView::Array(calls))))
    }
}

/// The message that carries the result of a tool.
pub open spec fn tool_message(block: JsonView) -> JsonView {
    JsonView::Object(
        seq![
            text_field("content"@, field_text(block, "content"@)),
            text_field("role"@, "tool"@),
            text_field("tool_call_id"@, field_text(block, "tool_use_id"@)),
        ],
    )
}

/// The messages that carry the results among the first `n` blocks.
pub open spec fn tool_messages(blocks: Seq<JsonView>, n: nat) -> Seq<JsonView>
    decreases n,
{
    if n == 0 {
        seq![]
    } else if field_is(blocks[n - 1], "type"@, "tool_result"@) {
        tool_messages(blocks, (n - 1) as nat).push(tool_message(blocks[n - 1]))
    } else {
        tool_messages(blocks, (n - 1) as nat)
    }
}

/// A message without what is kept only for the session.
pub open spec fn without_internals(message: JsonView) -> JsonView {
    match message {
        JsonView::Object(fields) => JsonView::Object(
            without_field(without_field(fields, "_mink"@), "internal"@),
        ),
        other => other,
    }
}

/// The messages that the service gets for one message of the session.
pub open spec fn converted(message: JsonView) -> Seq<JsonView> {
    let role = field_text(message, "role"@);
    match field_of(message, "content"@) {
        Some(JsonView::Array(blocks)) => {
            if role == "assistant"@ {
                seq![assistant_message(blocks)]
            } else if role == "user"@ && tool_messages(blocks, blocks.len()).len() > 0 {
                tool_messages(blocks, blocks.len())
            } else {
                seq![without_internals(message)]
            }
        },
        _ => seq![without_internals(message)],
    }
}

/// The messages that the service gets for the first `n` messages of the session.
pub open spec fn converted_all(messages: Seq<JsonView>, n: nat) -> Seq<JsonView>
    decreases n,
{
    if n == 0 {
        seq![]
    } else {
        converted_all(messages, (n - 1) as nat) + converted(messages[n - 1])
    }
}

/// The ids of the results that the first `n` messages carry.
pub open spec fn result_ids(messages: Seq<JsonView>, n: nat) -> Seq<Seq<char>>
    decreases n,
{
    if n == 0 {
        seq![]
    } else {
        let before = result_ids(messages, (n - 1) as nat);
        match field_of(messages[n - 1], "tool_call_id"@) {
            Some(JsonView::Text(id)) if field_is(messages[n - 1], "role"@, "tool"@) => before.push(
                id,
            ),
            _ => before,
        }
    }
}

/// The calls among the first `n` that have a result.
pub open spec fn matched_calls(calls: Seq<JsonView>, ids: Seq<Seq<char>>, n: nat) -> Seq<JsonView>
    decreases n,
{
    if n == 0 {
        seq![]
    } else if ids.contains(field_text(calls[n - 1], "id"@)) {
        matched_calls(calls, ids, (n - 1) as nat).push(calls[n - 1])
    } else {
        matched_calls(calls, ids, (n - 1) as nat)
    }
}

/// A message of the assistant without the calls that have no result. Other messages stay.
pub open spec fn without_orphans(message: JsonView, ids: Seq<Seq<char>>) -> JsonView {
    if !field_is(message, "role"@, "assistant"@) {
        message
    } else {
        match field_of(message, "tool_calls"@) {
            Some(JsonView::Array(calls)) => {
                let kept = matched_calls(calls, ids, calls.len());
                if kept.len() == calls.len() {
                    message
                } else if kept.len() == 0 {
                    JsonView::Object(without_field(message->Object_0, "tool_calls"@))
                } else {
                    JsonView::Object(
                        with_field(message->Object_0, "tool_calls"@, JsonView::Array(kept)),
                    )
                }
            },
            _ => message,
        }
    }
}

/// The messages that the service gets for the messages of the session.
pub open spec fn openai_messages(messages: Seq<JsonView>) -> Seq<JsonView> {
    let all = converted_all(messages, messages.len());
    all.map_values(|m: JsonView| without_orphans(m, result_ids(all, all.len())))
}

/// A tool as the service wants it.
pub open spec fn openai_tool(tool: JsonView) -> JsonView {
    if field_is(tool, "type"@, "function"@) {
        tool
    } else {
        let empty = JsonView::Text(seq![]);
        JsonView::Object(
            seq![
                field(
                    "function"@,
                    JsonView::Object(
                        seq![
                            field(
                                "description"@,
                                match field_of(tool, "description"@) {
                                    Some(v) => v,
                                    None => empty,
                                },
                            ),
                            field(
                                "name"@,
                                match field_of(tool, "name"@) {
                                    Some(v) => v,
                                    None => empty,
                                },
                            ),
                            field(
                                "parameters"@,
                                match field_of(tool, "input_schema"@) {
                                    Some(v) => v,
                                    None => match field_of(tool, "parameters"@) {
                                        Some(v) => v,
                                        None => JsonView::Object(seq![]),
                                    },
                                },
                            ),
                        ],
                    ),
                ),
                text_field("type"@, "function"@),
            ],
        )
    }
}

/// The message with the system prompt.
pub open spec fn system_message(prompt: Seq<char>) -> JsonView {
    JsonView::Object(seq![text_field("content"@, prompt), text_field("role"@, "system"@)])
}

/// The messages of a request: the system prompt, where there is one, and those of the session.
pub open spec fn request_messages(messages: Seq<JsonView>, prompt: Seq<char>) -> Seq<JsonView> {
    if prompt.len() == 0 {
        openai_messages(messages)
    } else {
        seq![system_message(prompt)] + openai_messages(messages)
    }
}

fn copy_or(value: Option<&Json>, default: Json) -> (r: Json)
    ensures
        r@ == match value {
            Some(v) => v@,
            None => default@,
        },
{
    match value {
        Some(v) => v.copy(),
        None => default,
    }
}

fn convert_tool_call(block: &Json) -> (r: Json)
    ensures
        r@ == tool_call(block@),
{
    let none: Vec<JsonField> = Vec::new();
    assert(field_views(none@) =~= seq![]);
    let input: Json = copy_or(block.get("input"), object(none));
    let function: Vec<JsonField> = vec![
        make_text("arguments", input.to_text().as_str()),
        make_text("name", block.field_text("name").as_str()),
    ];
    let fields: Vec<JsonField> = vec![
        make_field("function", object(function)),
        make_text("id", block.field_text("id").as_str()),
        make_text("type", "function"),
    ];
    assert(field_views(function@) =~= seq![
        text_field("arguments"@, json_text(call_input(block@))),
        text_field("name"@, field_text(block@, "name"@)),
    ]);
    let r: Json = object(fields);
    assert(r@->Object_0 =~= tool_call(block@)->Object_0);
    r
}

fn collect_block_texts(blocks: &Vec<Json>, kind: &str, name: &str) -> (r: String)
    ensures
        r@ == block_texts(json_views(blocks@), kind@, name@, blocks@.len()),
{
    let ghost all = json_views(blocks@);
    let mut out: String = String::new();
    let mut i: usize = 0;
    while i < blocks.len()
        invariant
            i <= blocks@.len(),
            all == json_views(blocks@),
            out@ == block_texts(all, kind@, name@, i as nat),
        decreases blocks@.len() - i,
    {
        assert(all[i as int] == blocks@[i as int]@);
        if same_text(blocks[i].field_text("type").as_str(), kind) {
            out.append(blocks[i].field_text(name).as_str());
        }
        i += 1;
    }
    out
}

fn collect_tool_calls(blocks: &Vec<Json>) -> (r: Vec<Json>)
    ensures
        json_views(r@) == tool_calls(json_views(blocks@), blocks@.len()),
        r@.len() == json_views(r@).len(),
{
    let ghost all = json_views(blocks@);
    let mut out: Vec<Json> = Vec::new();
    let mut i: usize = 0;
    assert(json_views(out@) =~= tool_calls(all, 0));
    while i < blocks.len()
        invariant
            i <= blocks@.len(),
            all == json_views(blocks@),
            json_views(out@) == tool_calls(all, i as nat),
        decreases blocks@.len() - i,
    {
        assert(all[i as int] == blocks@[i as int]@);
        if same_text(blocks[i].field_text("type").as_str(), "tool_use") {
            let ghost before = out@;
            let call: Json = convert_tool_call(&blocks[i]);
            out.push(call);
            assert(json_views(out@) =~= json_views(before).push(call@));
        }
        i += 1;
    }
    out
}

fn convert_assistant_message(blocks: &Vec<Json>) -> (r: Json)
    ensures
        r@ == assistant_message(json_views(blocks@)),
{
    let text: String = collect_block_texts(blocks, "text", "text");
    let reasoning: String = collect_block_texts(blocks, "thinking", "thinking");
    let calls: Vec<Json> = collect_tool_calls(blocks);
    let ghost all = json_views(blocks@);
    assert(all.len() == blocks@.len());
    let mut fields: Vec<JsonField> = vec![
        make_text("content", text.as_str()),
        make_text("reasoning_content", reasoning.as_str()),
        make_text("role", "assistant"),
    ];
    let ghost base = seq![
        text_field("content"@, block_texts(all, "text"@, "text"@, all.len())),
        text_field("reasoning_content"@, block_texts(all, "thinking"@, "thinking"@, all.len())),
        text_field("role"@, "assistant"@),
    ];
    assert(field_views(fields@) =~= base);
    if calls.len() > 0 {
        let ghost before = fields@;
        let more: JsonField = make_field("tool_calls", array(calls));
        fields.push(more);
        assert(field_views(fields@) =~= field_views(before).push(more@));
    }
    object(fields)
}

fn convert_tool_message(block: &Json) -> (r: Json)
    ensures
        r@ == tool_message(block@),
{
    let fields: Vec<JsonField> = vec![
        make_text("content", block.field_text("content").as_str()),
        make_text("role", "tool"),
        make_text("tool_call_id", block.field_text("tool_use_id").as_str()),
    ];
    let r: Json = object(fields);
    assert(r@->Object_0 =~= tool_message(block@)->Object_0);
    r
}

fn convert_tool_result_messages(blocks: &Vec<Json>) -> (r: Vec<Json>)
    ensures
        json_views(r@) == tool_messages(json_views(blocks@), blocks@.len()),
        r@.len() == json_views(r@).len(),
{
    let ghost all = json_views(blocks@);
    let mut out: Vec<Json> = Vec::new();
    let mut i: usize = 0;
    assert(json_views(out@) =~= tool_messages(all, 0));
    while i < blocks.len()
        invariant
            i <= blocks@.len(),
            all == json_views(blocks@),
            json_views(out@) == tool_messages(all, i as nat),
        decreases blocks@.len() - i,
    {
        assert(all[i as int] == blocks@[i as int]@);
        if blocks[i].field_is("type", "tool_result") {
            let ghost before = out@;
            let message: Json = convert_tool_message(&blocks[i]);
            out.push(message);
            assert(json_views(out@) =~= json_views(before).push(message@));
        }
        i += 1;
    }
    out
}

fn strip_internals(message: &Json) -> (r: Json)
    ensures
        r@ == without_internals(message@),
{
    match message {
        Json::Object(fields) => {
            proof {
                lemma_object_view(*fields);
            }
            let mut kept: Vec<JsonField> = clone_fields(fields);
            remove_field(&mut kept, "_mink");
            remove_field(&mut kept, "internal");
            object(kept)
        },
        other => other.copy(),
    }
}

fn convert_message(message: &Json) -> (r: Vec<Json>)
    ensures
        json_views(r@) == converted(message@),
{
    let role: String = message.field_text("role");
    match message.get("content") {
        Some(Json::Array(blocks)) => {
            proof {
                lemma_array_view(*blocks);
            }
            assert(json_views(blocks@).len() == blocks@.len());
            if same_text(role.as_str(), "assistant") {
                let r: Vec<Json> = vec![convert_assistant_message(blocks)];
                assert(json_views(r@) =~= converted(message@));
                return r;
            }
            if same_text(role.as_str(), "user") {
                let r: Vec<Json> = convert_tool_result_messages(blocks);
                if r.len() > 0 {
                    return r;
                }
            }
        },
        _ => {},
    }
    let r: Vec<Json> = vec![strip_internals(message)];
    assert(json_views(r@) =~= converted(message@));
    r
}

/// The ids of the results that `messages` carry.
pub fn collect_tool_call_ids(messages: &Vec<Json>) -> (r: Vec<String>)
    ensures
        views(r@) == result_ids(json_views(messages@), messages@.len()),
{
    let ghost all = json_views(messages@);
    let mut ids: Vec<String> = Vec::new();
    let mut i: usize = 0;
    assert(views(ids@) =~= result_ids(all, 0));
    while i < messages.len()
        invariant
            i <= messages@.len(),
            all == json_views(messages@),
            views(ids@) == result_ids(all, i as nat),
        decreases messages@.len() - i,
    {
        assert(all[i as int] == messages@[i as int]@);
        if messages[i].field_is("role", "tool") {
            match messages[i].get("tool_call_id") {
                Some(Json::Text(id)) => {
                    let ghost before = ids@;
                    ids.push(id.clone());
                    assert(views(ids@) =~= views(before).push(id@));
                },
                _ => {},
            }
        }
        i += 1;
    }
    ids
}

fn keep_matched(calls: &Vec<Json>, ids: &Vec<String>) -> (r: Vec<Json>)
    ensures
        json_views(r@) == matched_calls(json_views(calls@), views(ids@), calls@.len()),
        r@.len() == json_views(r@).len(),
{
    let ghost all = json_views(calls@);
    let mut out: Vec<Json> = Vec::new();
    let mut i: usize = 0;
    assert(json_views(out@) =~= matched_calls(all, views(ids@), 0));
    while i < calls.len()
        invariant
            i <= calls@.len(),
            all == json_views(calls@),
            json_views(out@) == matched_calls(all, views(ids@), i as nat),
        decreases calls@.len() - i,
    {
        assert(all[i as int] == calls@[i as int]@);
        if holds(ids, calls[i].field_text("id").as_str()) {
            let ghost before = out@;
            out.push(calls[i].copy());
            assert(json_views(out@) =~= json_views(before).push(all[i as int]));
        }
        i += 1;
    }
    out
}

/// A message of the assistant without the calls that have no result.
pub fn strip_orphaned_tool_calls(message: &Json, valid_ids: &Vec<String>) -> (r: Json)
    ensures
        r@ == without_orphans(message@, views(valid_ids@)),
{
    if !message.field_is("role", "assistant") {
        return message.copy();
    }
    let kept: Vec<Json> = match message.get("tool_calls") {
        Some(Json::Array(calls)) => {
            proof {
                lemma_array_view(*calls);
            }
            let kept: Vec<Json> = keep_matched(calls, valid_ids);
            assert(json_views(calls@).len() == calls@.len());
            if kept.len() == calls.len() {
                return message.copy();
            }
            kept
        },
        _ => {
            return message.copy();
        },
    };
    match message {
        Json::Object(fields) => {
            proof {
                lemma_object_view(*fields);
            }
            let mut rest: Vec<JsonField> = clone_fields(fields);
            if kept.len() == 0 {
                remove_field(&mut rest, "tool_calls");
            } else {
                set_field(&mut rest, "tool_calls", array(kept));
            }
            object(rest)
        },
        other => other.copy(),
    }
}

/// The messages that the service gets for the messages of the session.
pub fn convert_messages_to_openai(messages: &Vec<Json>) -> (r: Vec<Json>)
    ensures
        json_views(r@) == openai_messages(json_views(messages@)),
{
    let ghost given = json_views(messages@);
    let mut all: Vec<Json> = Vec::new();
    let mut i: usize = 0;
    assert(json_views(all@) =~= converted_all(given, 0));
    while i < messages.len()
        invariant
            i <= messages@.len(),
            given == json_views(messages@),
            json_views(all@) == converted_all(given, i as nat),
        decreases messages@.len() - i,
    {
        assert(given[i as int] == messages@[i as int]@);
        let ghost before = all@;
        let mut more: Vec<Json> = convert_message(&messages[i]);
        let ghost added = more@;
        all.append(&mut more);
        assert(json_views(all@) =~= json_views(before) + json_views(added));
        i += 1;
    }
    let ids: Vec<String> = collect_tool_call_ids(&all);
    let ghost whole = json_views(all@);
    let ghost expected = openai_messages(given);
    assert(whole.len() == all@.len());
    let mut out: Vec<Json> = Vec::new();
    let mut k: usize = 0;
    assert(json_views(out@) =~= expected.take(0));
    while k < all.len()
        invariant
            k <= all@.len(),
            whole == json_views(all@),
            whole.len() == all@.len(),
            expected == whole.map_values(
                |m: JsonView| without_orphans(m, result_ids(whole, whole.len())),
            ),
            views(ids@) == result_ids(whole, whole.len()),
            json_views(out@) == expected.take(k as int),
        decreases all@.len() - k,
    {
        assert(whole[k as int] == all@[k as int]@);
        let ghost before = out@;
        let message: Json = strip_orphaned_tool_calls(&all[k], &ids);
        out.push(message);
        assert(expected[k as int] == message@);
        assert(json_views(out@) =~= json_views(before).push(message@));
        assert(expected.take(k + 1) =~= expected.take(k as int).push(expected[k as int]));
        k += 1;
    }
    assert(expected.take(k as int) =~= expected);
    out
}

fn convert_tool(tool: &Json) -> (r: Json)
    ensures
        r@ == openai_tool(tool@),
{
    if tool.field_is("type", "function") {
        return tool.copy();
    }
    let none: Vec<JsonField> = Vec::new();
    assert(field_views(none@) =~= seq![]);
    let parameters: Json = match tool.get("input_schema") {
        Some(v) => v.copy(),
        None => copy_or(tool.get("parameters"), object(none)),
    };
    let function: Vec<JsonField> = vec![
        make_field("description", copy_or(tool.get("description"), Json::Text(String::new()))),
        make_field("name", copy_or(tool.get("name"), Json::Text(String::new()))),
        make_field("parameters", parameters),
    ];
    let fields: Vec<JsonField> = vec![
        make_field("function", object(function)),
        make_text("type", "function"),
    ];
    let r: Json = object(fields);
    proof {
        let expected = openai_tool(tool@)->Object_0;
        assert(field_views(function@) =~= expected[0].value->Object_0);
        assert(r@->Object_0 =~= expected);
    }
    r
}

/// The tools as the service wants them.
pub fn convert_tools_to_openai(tools: &Vec<Json>) -> (r: Vec<Json>)
    ensures
        json_views(r@) == json_views(tools@).map_values(|t: JsonView| openai_tool(t)),
{
    let ghost all = json_views(tools@);
    let ghost expected = all.map_values(|t: JsonView| openai_tool(t));
    let mut out: Vec<Json> = Vec::new();
    let mut i: usize = 0;
    assert(json_views(out@) =~= expected.take(0));
    while i < tools.len()
        invariant
            i <= tools@.len(),
            all == json_views(tools@),
            expected == all.map_values(|t: JsonView| openai_tool(t)),
            json_views(out@) == expected.take(i as int),
        decreases tools@.len() - i,
    {
        assert(all[i as int] == tools@[i as int]@);
        let ghost before = out@;
        let tool: Json = convert_tool(&tools[i]);
        out.push(tool);
        assert(expected[i as int] == tool@);
        assert(json_views(out@) =~= json_views(before).push(tool@));
        assert(expected.take(i + 1) =~= expected.take(i as int).push(expected[i as int]));
        i += 1;
    }
    assert(expected.take(i as int) =~= expected);
    out
}

pub(crate) fn compose_messages(messages: &Vec<Json>, system_prompt: &str) -> (r: Vec<Json>)
    ensures
        json_views(r@) == request_messages(json_views(messages@), system_prompt@),
{
    let mut converted: Vec<Json> = convert_messages_to_openai(messages);
    if system_prompt.is_empty() {
        return converted;
    }
    let fields: Vec<JsonField> = vec![
        make_text("content", system_prompt),
        make_text("role", "system"),
    ];
    let system: Json = object(fields);
    assert(system@->Object_0 =~= system_message(system_prompt@)->Object_0);
    let ghost rest = converted@;
    let mut out: Vec<Json> = vec![system];
    out.append(&mut converted);
    assert(json_views(out@) =~= seq![system@] + json_views(rest));
    out
}

/// Whether the library itself sets the field `name` of a request.
pub open spec fn reserved_key(name: Seq<char>) -> bool {
    name == "model"@ || name == "messages"@ || name == "stream"@ || name == "tools"@ || name
        == "tool_choice"@ || name == "max_tokens"@ || name == "max_completion_tokens"@
}

fn is_reserved_body_key(key: &str) -> (r: bool)
    ensures
        r == reserved_key(key@),
{
    same_text(key, "model") || same_text(key, "messages") || same_text(key, "stream") || same_text(
        key,
        "tools",
    ) || same_text(key, "tool_choice") || same_text(key, "max_tokens") || same_text(
        key,
        "max_completion_tokens",
    )
}

/// A number with its sign, in decimal.
pub open spec fn signed_decimal(n: int) -> Seq<char> {
    if n < 0 {
        "-"@ + decimal((-n) as nat)
    } else {
        decimal(n as nat)
    }
}

fn signed_decimal_of(n: i32) -> (r: String)
    ensures
        r@ == signed_decimal(n as int),
{
    if n < 0 {
        let wide: i64 = n as i64;
        "-".to_owned().concat(decimal_of((-wide) as u64).as_str())
    } else {
        decimal_of(n as u64)
    }
}

/// The name of the field that limits the tokens of an answer.
pub open spec fn token_field(kind: TokenParamKind) -> Seq<char> {
    match kind {
        TokenParamKind::MaxTokens => "max_tokens"@,
        TokenParamKind::MaxCompletionTokens => "max_completion_tokens"@,
    }
}

/// The fields that every request has.
pub open spec fn base_fields(
    model: Seq<char>,
    messages: Seq<JsonView>,
    max_tokens: int,
    kind: TokenParamKind,
) -> Seq<FieldView> {
    with_field(
        seq![
            field("messages"@, JsonView::Array(messages)),
            text_field("model"@, model),
            field("stream"@, JsonView::Bool(true)),
        ],
        token_field(kind),
        JsonView::Number(signed_decimal(max_tokens)),
    )
}

/// `fields` and those that the options ask for.
pub open spec fn with_options(fields: Seq<FieldView>, options: OptionsView) -> Seq<FieldView> {
    let a = if options.include_usage {
        with_field(
            fields,
            "stream_options"@,
            JsonView::Object(seq![field("include_usage"@, JsonView::Bool(true))]),
        )
    } else {
        fields
    };
    let b = match options.reasoning_effort {
        Some(effort) if options.send_reasoning_effort => with_field(
            a,
            "reasoning_effort"@,
            JsonView::Text(effort),
        ),
        _ => a,
    };
    match options.parallel_tool_calls {
        Some(parallel) => with_field(b, "parallel_tool_calls"@, JsonView::Bool(parallel)),
        None => b,
    }
}

/// `fields` with those of the first `n` of `extra` that the library does not set itself.
pub open spec fn with_extra(fields: Seq<FieldView>, extra: Seq<FieldView>, n: nat) -> Seq<FieldView>
    decreases n,
{
    if n == 0 {
        fields
    } else if reserved_key(extra[n - 1].name) {
        with_extra(fields, extra, (n - 1) as nat)
    } else {
        with_field(
            with_extra(fields, extra, (n - 1) as nat),
            extra[n - 1].name,
            extra[n - 1].value,
        )
    }
}

/// `fields` with the tools, where there are any, and then with the choice among them.
pub open spec fn with_tools(
    fields: Seq<FieldView>,
    tools: Seq<JsonView>,
    tool_choice: Option<JsonView>,
) -> Seq<FieldView> {
    if tools.len() == 0 {
        fields
    } else {
        let a = with_field(
            fields,
            "tools"@,
            JsonView::Array(tools.map_values(|t: JsonView| openai_tool(t))),
        );
        match tool_choice {
            Some(choice) => with_field(a, "tool_choice"@, choice),
            None => a,
        }
    }
}

/// What a request is made of.
pub struct RequestView {
    pub model: Seq<char>,
    pub messages: Seq<JsonView>,
    pub tools: Seq<JsonView>,
    pub system_prompt: Seq<char>,
    pub max_tokens: int,
    pub options: OptionsView,
    pub tool_choice: Option<JsonView>,
    pub extra: Seq<FieldView>,
}

/// The body of a request.
pub open spec fn request_body(request: RequestView) -> JsonView {
    let base = base_fields(
        request.model,
        request_messages(request.messages, request.system_prompt),
        request.max_tokens,
        request.options.token_param,
    );
    let optional = with_options(base, request.options);
    let extended = with_extra(optional, request.extra, request.extra.len());
    JsonView::Object(with_tools(extended, request.tools, request.tool_choice))
}

fn put_options(fields: &mut Vec<JsonField>, options: &OpenAiCompatibleOptions)
    ensures
        field_views(final(fields)@) == with_options(field_views(old(fields)@), options@),
{
    if options.include_usage {
        let usage: Vec<JsonField> = vec![make_field("include_usage", Json::Bool(true))];
        assert(field_views(usage@) =~= seq![field("include_usage"@, JsonView::Bool(true))]);
        set_field(fields, "stream_options", object(usage));
    }
    if options.send_reasoning_effort {
        match &options.reasoning_effort {
            Some(effort) => {
                set_field(fields, "reasoning_effort", Json::Text(effort.clone()));
            },
            None => {},
        }
    }
    match options.parallel_tool_calls {
        Some(parallel) => {
            set_field(fields, "parallel_tool_calls", Json::Bool(parallel));
        },
        None => {},
    }
}

fn put_extra(fields: &mut Vec<JsonField>, extra: &Vec<JsonField>)
    ensures
        field_views(final(fields)@) == with_extra(
            field_views(old(fields)@),
            field_views(extra@),
            extra@.len(),
        ),
{
    let ghost start = field_views(fields@);
    let ghost all = field_views(extra@);
    let mut i: usize = 0;
    while i < extra.len()
        invariant
            i <= extra@.len(),
            all == field_views(extra@),
            field_views(fields@) == with_extra(start, all, i as nat),
        decreases extra@.len() - i,
    {
        assert(all[i as int] == extra@[i as int]@);
        if !is_reserved_body_key(extra[i].name.as_str()) {
            set_field(fields, extra[i].name.as_str(), extra[i].value.copy());
        }
        i += 1;
    }
}

fn put_tools(fields: &mut Vec<JsonField>, tools: &Vec<Json>, tool_choice: Option<&Json>)
    ensures
        field_views(final(fields)@) == with_tools(
            field_views(old(fields)@),
            json_views(tools@),
            match tool_choice {
                Some(choice) => Some(choice@),
                None => None,
            },
        ),
{
    if tools.len() > 0 {
        set_field(fields, "tools", array(convert_tools_to_openai(tools)));
        match tool_choice {
            Some(choice) => {
                set_field(fields, "tool_choice", choice.copy());
            },
            None => {},
        }
    }
}

/// The body of a request, as JSON.
pub fn build_openai_value(
    model: &str,
    messages: &Vec<Json>,
    tools: &Vec<Json>,
    system_prompt: &str,
    max_tokens: i32,
    options: &OpenAiCompatibleOptions,
    tool_choice: Option<&Json>,
    extra_body: &Vec<JsonField>,
) -> (r: Json)
    ensures
        r@ == request_body(
            RequestView {
                model: model@,
                messages: json_views(messages@),
                tools: json_views(tools@),
                system_prompt: system_prompt@,
                max_tokens: max_tokens as int,
                options: options@,
                tool_choice: match tool_choice {
                    Some(choice) => Some(choice@),
                    None => None,
                },
                extra: field_views(extra_body@),
            },
        ),
{
    let composed: Vec<Json> = compose_messages(messages, system_prompt);
    let ghost sent = json_views(composed@);
    let mut fields: Vec<JsonField> = vec![
        make_field("messages", array(composed)),
        make_text("model", model),
        make_field("stream", Json::Bool(true)),
    ];
    assert(field_views(fields@) =~= seq![
        field("messages"@, JsonView::Array(sent)),
        text_field("model"@, model@),
        field("stream"@, JsonView::Bool(true)),
    ]);
    let limit: Json = Json::Number(signed_decimal_of(max_tokens));
    match options.token_param {
        TokenParamKind::MaxTokens => {
            set_field(&mut fields, "max_tokens", limit);
        },
        TokenParamKind::MaxCompletionTokens => {
            set_field(&mut fields, "max_completion_tokens", limit);
        },
    }
    put_options(&mut fields, options);
    put_extra(&mut fields, extra_body);
    put_tools(&mut fields, tools, tool_choice);
    object(fields)
}

/// The bytes of the body of a request that carries extra fields and a choice among the tools.
pub fn build_openai_body_with_options_and_extensions(
    model: &str,
    messages: &Vec<Json>,
    tools: &Vec<Json>,
    system_prompt: &str,
    max_tokens: i32,
    options: &OpenAiCompatibleOptions,
    tool_choice: Option<&Json>,
    extra_body: &Vec<JsonField>,
) -> (r: Vec<u8>)
    ensures
        r@ == encode_utf8(
            json_text(
                request_body(
                    RequestView {
                        model: model@,
                        messages: json_views(messages@),
                        tools: json_views(tools@),
                        system_prompt: system_prompt@,
                        max_tokens: max_tokens as int,
                        options: options@,
                        tool_choice: match tool_choice {
                            Some(choice) => Some(choice@),
                            None => None,
                        },
                        extra: field_views(extra_body@),
                    },
                ),
            ),
        ),
{
    let body: Json = build_openai_value(
        model,
        messages,
        tools,
        system_prompt,
        max_tokens,
        options,
        tool_choice,
        extra_body,
    );
    let text: String = body.to_text();
    text.as_str().as_bytes_vec()
}

/// The bytes of the body of a request.
pub fn build_openai_body_with_options(
    model: &str,
    messages: &Vec<Json>,
    tools: &Vec<Json>,
    system_prompt: &str,
    max_tokens: i32,
    options: &OpenAiCompatibleOptions,
) -> (r: Vec<u8>)
    ensures
        r@ == encode_utf8(
            json_text(
                request_body(
                    RequestView {
                        model: model@,
                        messages: json_views(messages@),
                        tools: json_views(tools@),
                        system_prompt: system_prompt@,
                        max_tokens: max_tokens as int,
                        options: options@,
                        tool_choice: None,
                        extra: seq![],
                    },
                ),
            ),
        ),
{
    let none: Vec<JsonField> = Vec::new();
    assert(field_views(none@) =~= seq![]);
    build_openai_body_with_options_and_extensions(
        model,
        messages,
        tools,
        system_prompt,
        max_tokens,
        options,
        None,
        &none,
    )
}

/// The bytes of the body of a request with the default options.
pub fn build_openai_body(
    model: &str,
    messages: &Vec<Json>,
    tools: &Vec<Json>,
    system_prompt: &str,
    max_tokens: i32,
) -> (r: Vec<u8>)
    ensures
        r@ == encode_utf8(
            json_text(
                request_body(
                    RequestView {
                        model: model@,
                        messages: json_views(messages@),
                        tools: json_views(tools@),
                        system_prompt: system_prompt@,
                        max_tokens: max_tokens as int,
                        options: default_options(),
                        tool_choice: None,
                        extra: seq![],
                    },
                ),
            ),
        ),
{
    let options: OpenAiCompatibleOptions = OpenAiCompatibleOptions::default();
    build_openai_body_with_options(model, messages, tools, system_prompt, max_tokens, &options)
}

} // verus!
