//! What the service is told of the conversation.

use crate::json::{
    field_is, field_of, field_text, json_text, lemma_field_place, remove_field_keeps_others,
    removed_field_is_gone, set_field_is_read, set_field_keeps_others, with_field, without_field,
    FieldView, JsonView,
};
use crate::llm::transport::{
    assistant_message, block_texts, converted, converted_all, field, matched_calls,
    openai_messages, openai_tool, request_body, request_messages, reserved_key, result_ids,
    text_field, tool_call, tool_calls, tool_message, tool_messages, with_extra, with_options,
    with_tools, without_internals, without_orphans, RequestView,
};
use vstd::prelude::*;

verus! {

/// How many messages are sent for the first `i` messages of a session: those for the next stand
/// behind them.
pub open spec fn sent_before(messages: Seq<JsonView>, i: int) -> int {
    converted_all(messages, i as nat).len() as int
}

/// The blocks of a message, where it is made of blocks.
pub open spec fn blocks_of(message: JsonView) -> Option<Seq<JsonView>> {
    match field_of(message, "content"@) {
        Some(JsonView::Array(blocks)) => Some(blocks),
        _ => None,
    }
}

/// The results of tools that a message of the user carries.
pub open spec fn results_in(message: JsonView) -> Seq<JsonView> {
    match blocks_of(message) {
        Some(blocks) if field_text(message, "role"@) == "user"@ => blocks.filter(
            |b: JsonView| field_is(b, "type"@, "tool_result"@),
        ),
        _ => seq![],
    }
}

/// The text that a value is, or the empty text where it is none.
pub open spec fn plain_text(value: Option<JsonView>) -> JsonView {
    match value {
        Some(JsonView::Text(t)) => JsonView::Text(t),
        _ => JsonView::Text(seq![]),
    }
}

/// Whether a result with this id is among what is sent.
pub open spec fn is_answered(sent: Seq<JsonView>, id: Seq<char>) -> bool {
    exists|j: int|
        0 <= j < sent.len() && field_is(#[trigger] sent[j], "role"@, "tool"@) && field_is(
            sent[j],
            "tool_call_id"@,
            id,
        )
}

proof fn lemma_names()
    ensures
        "content"@.len() == 7,
        "reasoning_content"@.len() == 17,
        "role"@.len() == 4,
        "tool_calls"@.len() == 10,
        "tool_call_id"@.len() == 12,
        "function"@.len() == 8,
        "id"@.len() == 2,
        "type"@ != "role"@,
        "name"@ != "arguments"@,
        "type"@ != "function"@,
        "type"@ != "id"@,
        "function"@ != "id"@,
        "description"@.len() == 11,
        "name"@.len() == 4,
        "parameters"@.len() == 10,
        "assistant"@ != "tool"@,
        "user"@ != "assistant"@,
        "_mink"@.len() == 5,
        "internal"@.len() == 8,
{
    reveal_strlit("content");
    reveal_strlit("reasoning_content");
    reveal_strlit("role");
    reveal_strlit("tool_calls");
    reveal_strlit("tool_call_id");
    reveal_strlit("function");
    reveal_strlit("id");
    reveal_strlit("type");
    reveal_strlit("name");
    reveal_strlit("arguments");
    reveal_strlit("description");
    reveal_strlit("parameters");
    reveal_strlit("assistant");
    reveal_strlit("tool");
    reveal_strlit("user");
    reveal_strlit("_mink");
    reveal_strlit("internal");
    assert("type"@[0] == 't' && "role"@[0] == 'r');
    assert("name"@.len() == 4 && "arguments"@.len() == 9);
    assert("type"@.len() == 4);
    assert("assistant"@.len() == 9 && "tool"@.len() == 4 && "user"@.len() == 4);
}

proof fn lemma_sent_grows(messages: Seq<JsonView>, i: int, n: int)
    requires
        0 <= i <= n <= messages.len(),
    ensures
        converted_all(messages, i as nat).is_prefix_of(converted_all(messages, n as nat)),
    decreases n - i,
{
    if i < n {
        lemma_sent_grows(messages, i, n - 1);
        let a = converted_all(messages, i as nat);
        let b = converted_all(messages, (n - 1) as nat);
        let c = converted_all(messages, n as nat);
        assert(c == b + converted(messages[n - 1]));
        assert(a =~= c.subrange(0, a.len() as int)) by {
            assert(a =~= b.subrange(0, a.len() as int));
        }
    }
}

proof fn lemma_sent_for(messages: Seq<JsonView>, i: int, k: int)
    requires
        0 <= i < messages.len(),
        0 <= k < converted(messages[i]).len(),
    ensures
        sent_before(messages, i + 1) == sent_before(messages, i) + converted(messages[i]).len(),
        sent_before(messages, i + 1) <= openai_messages(messages).len(),
        ({
            let all = converted_all(messages, messages.len());
            openai_messages(messages)[sent_before(messages, i) + k] == without_orphans(
                converted(messages[i])[k],
                result_ids(all, all.len()),
            )
        }),
{
    lemma_sent_grows(messages, i + 1, messages.len() as int);
    let next = converted_all(messages, (i + 1) as nat);
    let all = converted_all(messages, messages.len());
    let at = sent_before(messages, i) + k;
    assert(next == converted_all(messages, i as nat) + converted(messages[i]));
    assert(all[at] == all.subrange(0, next.len() as int)[at]);
    assert(next[at] == converted(messages[i])[k]);
}

proof fn lemma_result_messages(blocks: Seq<JsonView>, n: nat)
    requires
        n <= blocks.len(),
    ensures
        tool_messages(blocks, n) == blocks.take(n as int).filter(
            |b: JsonView| field_is(b, "type"@, "tool_result"@),
        ).map_values(|b: JsonView| tool_message(b)),
    decreases n,
{
    reveal(Seq::filter);
    let p = |b: JsonView| field_is(b, "type"@, "tool_result"@);
    let f = |b: JsonView| tool_message(b);
    let now = blocks.take(n as int);
    if n > 0 {
        lemma_result_messages(blocks, (n - 1) as nat);
        let before = blocks.take(n - 1);
        assert(now.drop_last() =~= before);
        assert(now.last() == blocks[n - 1]);
        if p(blocks[n - 1]) {
            assert(now.filter(p).map_values(f) =~= before.filter(p).map_values(f).push(
                f(blocks[n - 1]),
            ));
        }
    } else {
        assert(now.filter(p).map_values(f) =~= seq![]);
    }
}

/// Every result of a tool is sent: for each result that a message of the user carries there is, in
/// the same order, a message of the role `tool` that has the id of the call it answers and the text
/// of the result. No other message is sent for a message with results.
pub proof fn results_are_sent_with_their_text(messages: Seq<JsonView>, i: int, k: int)
    requires
        0 <= i < messages.len(),
        0 <= k < results_in(messages[i]).len(),
    ensures
        ({
            let sent = openai_messages(messages)[sent_before(messages, i) + k];
            let block = results_in(messages[i])[k];
            &&& sent_before(messages, i) + k < openai_messages(messages).len()
            &&& field_of(sent, "role"@) == Some(JsonView::Text("tool"@))
            &&& field_of(sent, "tool_call_id"@) == Some(
                plain_text(field_of(block, "tool_use_id"@)),
            )
            &&& field_of(sent, "content"@) == Some(plain_text(field_of(block, "content"@)))
        }),
        sent_before(messages, i + 1) == sent_before(messages, i) + results_in(messages[i]).len(),
{
    lemma_names();
    let blocks = blocks_of(messages[i])->Some_0;
    lemma_result_messages(blocks, blocks.len());
    assert(blocks.take(blocks.len() as int) =~= blocks);
    let made = tool_messages(blocks, blocks.len());
    assert(converted(messages[i]) == made);
    lemma_sent_for(messages, i, k);
    let block = results_in(messages[i])[k];
    let message = tool_message(block);
    assert(made[k] == message);
    let fields = message->Object_0;
    lemma_field_place(fields, "role"@);
    lemma_field_place(fields, "tool_call_id"@);
    lemma_field_place(fields, "content"@);
    assert(fields[0].name == "content"@ && fields[1].name == "role"@ && fields[2].name
        == "tool_call_id"@);
    let all = converted_all(messages, messages.len());
    assert(without_orphans(message, result_ids(all, all.len())) == message);
}

proof fn lemma_block_texts(blocks: Seq<JsonView>, kind: Seq<char>, name: Seq<char>, n: nat)
    requires
        n <= blocks.len(),
    ensures
        block_texts(blocks, kind, name, n) == blocks.take(n as int).filter(
            |b: JsonView| field_text(b, "type"@) == kind,
        ).map_values(|b: JsonView| field_text(b, name)).flatten(),
    decreases n,
{
    reveal(Seq::filter);
    let p = |b: JsonView| field_text(b, "type"@) == kind;
    let f = |b: JsonView| field_text(b, name);
    let now = blocks.take(n as int);
    if n > 0 {
        lemma_block_texts(blocks, kind, name, (n - 1) as nat);
        let before = blocks.take(n - 1);
        assert(now.drop_last() =~= before);
        assert(now.last() == blocks[n - 1]);
        if p(blocks[n - 1]) {
            let texts = before.filter(p).map_values(f);
            assert(now.filter(p).map_values(f) =~= texts.push(f(blocks[n - 1])));
            texts.lemma_flatten_push(f(blocks[n - 1]));
        }
    } else {
        assert(now.filter(p).map_values(f) =~= seq![]);
    }
}

/// What the assistant said is sent: for each of its messages there is one message of its role that
/// holds the texts of its blocks, one after the other, and apart from them what it thought.
pub proof fn said_text_is_sent(messages: Seq<JsonView>, i: int)
    requires
        0 <= i < messages.len(),
        field_text(messages[i], "role"@) == "assistant"@,
        blocks_of(messages[i]) is Some,
    ensures
        ({
            let sent = openai_messages(messages)[sent_before(messages, i)];
            let blocks = blocks_of(messages[i])->Some_0;
            &&& sent_before(messages, i) < openai_messages(messages).len()
            &&& field_of(sent, "role"@) == Some(JsonView::Text("assistant"@))
            &&& field_of(sent, "content"@) == Some(
                JsonView::Text(
                    blocks.filter(|b: JsonView| field_text(b, "type"@) == "text"@).map_values(
                        |b: JsonView| field_text(b, "text"@),
                    ).flatten(),
                ),
            )
            &&& field_of(sent, "reasoning_content"@) == Some(
                JsonView::Text(
                    blocks.filter(|b: JsonView| field_text(b, "type"@) == "thinking"@).map_values(
                        |b: JsonView| field_text(b, "thinking"@),
                    ).flatten(),
                ),
            )
        }),
        sent_before(messages, i + 1) == sent_before(messages, i) + 1,
{
    lemma_names();
    let blocks = blocks_of(messages[i])->Some_0;
    let message = assistant_message(blocks);
    assert(converted(messages[i]) == seq![message]);
    lemma_sent_for(messages, i, 0);
    lemma_block_texts(blocks, "text"@, "text"@, blocks.len());
    lemma_block_texts(blocks, "thinking"@, "thinking"@, blocks.len());
    assert(blocks.take(blocks.len() as int) =~= blocks);
    let fields = message->Object_0;
    lemma_field_place(fields, "role"@);
    lemma_field_place(fields, "content"@);
    lemma_field_place(fields, "reasoning_content"@);
    assert(fields[0].name == "content"@ && fields[1].name == "reasoning_content"@
        && fields[2].name == "role"@);
    let all = converted_all(messages, messages.len());
    let ids = result_ids(all, all.len());
    lemma_stripped_keeps(message, ids, "role"@);
    lemma_stripped_keeps(message, ids, "content"@);
    lemma_stripped_keeps(message, ids, "reasoning_content"@);
}

proof fn lemma_stripped_keeps(message: JsonView, ids: Seq<Seq<char>>, name: Seq<char>)
    requires
        name != "tool_calls"@,
    ensures
        field_of(without_orphans(message, ids), name) == field_of(message, name),
{
    if let Some(JsonView::Array(calls)) = field_of(message, "tool_calls"@) {
        let kept = matched_calls(calls, ids, calls.len());
        remove_field_keeps_others(message->Object_0, "tool_calls"@, name);
        set_field_keeps_others(message->Object_0, "tool_calls"@, JsonView::Array(kept), name);
    }
}

proof fn lemma_result_ids(all: Seq<JsonView>, n: nat, id: Seq<char>)
    requires
        n <= all.len(),
    ensures
        result_ids(all, n).contains(id) <==> exists|j: int|
            0 <= j < n && field_is(#[trigger] all[j], "role"@, "tool"@) && field_is(
                all[j],
                "tool_call_id"@,
                id,
            ),
    decreases n,
{
    if n > 0 {
        lemma_result_ids(all, (n - 1) as nat, id);
        let before = result_ids(all, (n - 1) as nat);
        let now = result_ids(all, n);
        if before.contains(id) {
            let k = choose|k: int| 0 <= k < before.len() && before[k] == id;
            assert(now[k] == id);
        }
        if now.contains(id) && !before.contains(id) {
            let k = choose|k: int| 0 <= k < now.len() && now[k] == id;
            assert(k == before.len()) by {
                if k < before.len() {
                    assert(before[k] == id);
                }
            }
        }
        if field_is(all[n - 1], "role"@, "tool"@) && field_is(all[n - 1], "tool_call_id"@, id) {
            assert(now[now.len() - 1] == id);
        }
    }
}

proof fn lemma_answered(messages: Seq<JsonView>, id: Seq<char>)
    ensures
        ({
            let all = converted_all(messages, messages.len());
            is_answered(openai_messages(messages), id) == result_ids(all, all.len()).contains(id)
        }),
{
    lemma_names();
    let all = converted_all(messages, messages.len());
    let ids = result_ids(all, all.len());
    let sent = openai_messages(messages);
    lemma_result_ids(all, all.len(), id);
    assert forall|j: int| 0 <= j < sent.len() implies {
        &&& field_is(#[trigger] sent[j], "role"@, "tool"@) == field_is(all[j], "role"@, "tool"@)
        &&& field_is(sent[j], "tool_call_id"@, id) == field_is(all[j], "tool_call_id"@, id)
    } by {
        lemma_stripped_keeps(all[j], ids, "role"@);
        lemma_stripped_keeps(all[j], ids, "tool_call_id"@);
    }
    if ids.contains(id) {
        let j = choose|j: int|
            0 <= j < all.len() && field_is(#[trigger] all[j], "role"@, "tool"@) && field_is(
                all[j],
                "tool_call_id"@,
                id,
            );
        assert(field_is(sent[j], "role"@, "tool"@));
    }
}

proof fn lemma_call_fields(block: JsonView)
    ensures
        field_text(tool_call(block), "id"@) == field_text(block, "id"@),
        field_of(tool_call(block), "id"@) == Some(plain_text(field_of(block, "id"@))),
        field_of(tool_call(block), "type"@) == Some(JsonView::Text("function"@)),
        ({
            let function = field_of(tool_call(block), "function"@);
            &&& function is Some
            &&& field_of(function->Some_0, "name"@) == Some(plain_text(field_of(block, "name"@)))
            &&& field_of(function->Some_0, "arguments"@) == Some(
                JsonView::Text(
                    json_text(
                        match field_of(block, "input"@) {
                            Some(input) => input,
                            None => JsonView::Object(seq![]),
                        },
                    ),
                ),
            )
        }),
{
    lemma_names();
    let fields = tool_call(block)->Object_0;
    lemma_field_place(fields, "id"@);
    lemma_field_place(fields, "type"@);
    lemma_field_place(fields, "function"@);
    assert(fields[0].name == "function"@ && fields[1].name == "id"@ && fields[2].name == "type"@);
    let inner = fields[0].value->Object_0;
    lemma_field_place(inner, "name"@);
    lemma_field_place(inner, "arguments"@);
    assert(inner[0].name == "arguments"@ && inner[1].name == "name"@);
}

proof fn lemma_kept_calls(blocks: Seq<JsonView>, ids: Seq<Seq<char>>, n: nat)
    requires
        n <= blocks.len(),
    ensures
        matched_calls(tool_calls(blocks, n), ids, tool_calls(blocks, n).len())
            == blocks.take(n as int).filter(
            |b: JsonView|
                field_text(b, "type"@) == "tool_use"@ && ids.contains(field_text(b, "id"@)),
        ).map_values(|b: JsonView| tool_call(b)),
    decreases n,
{
    reveal(Seq::filter);
    let p = |b: JsonView|
        field_text(b, "type"@) == "tool_use"@ && ids.contains(field_text(b, "id"@));
    let f = |b: JsonView| tool_call(b);
    let now = blocks.take(n as int);
    let calls = tool_calls(blocks, n);
    if n > 0 {
        lemma_kept_calls(blocks, ids, (n - 1) as nat);
        let before = blocks.take(n - 1);
        let block = blocks[n - 1];
        assert(now.drop_last() =~= before);
        assert(now.last() == block);
        if field_text(block, "type"@) == "tool_use"@ {
            let earlier = tool_calls(blocks, (n - 1) as nat);
            lemma_matched_of_more(earlier, tool_call(block), ids, earlier.len());
            lemma_call_fields(block);
            if p(block) {
                assert(now.filter(p).map_values(f) =~= before.filter(p).map_values(f).push(
                    f(block),
                ));
            }
        }
    } else {
        assert(now.filter(p).map_values(f) =~= seq![]);
    }
}

proof fn lemma_matched_of_more(
    calls: Seq<JsonView>,
    call: JsonView,
    ids: Seq<Seq<char>>,
    n: nat,
)
    requires
        n <= calls.len(),
    ensures
        matched_calls(calls.push(call), ids, n) == matched_calls(calls, ids, n),
    decreases n,
{
    if n > 0 {
        lemma_matched_of_more(calls, call, ids, (n - 1) as nat);
    }
}

proof fn lemma_all_matched(calls: Seq<JsonView>, ids: Seq<Seq<char>>, n: nat)
    requires
        n <= calls.len(),
    ensures
        matched_calls(calls, ids, n).len() <= n,
        matched_calls(calls, ids, n).len() == n ==> matched_calls(calls, ids, n) == calls.take(
            n as int,
        ),
    decreases n,
{
    if n > 0 {
        lemma_all_matched(calls, ids, (n - 1) as nat);
        if matched_calls(calls, ids, n).len() == n {
            assert(calls.take(n as int) =~= calls.take(n - 1).push(calls[n - 1]));
        }
    } else {
        assert(calls.take(0) =~= seq![]);
    }
}

/// The calls of the assistant that are answered are sent, in their order and no others, each with
/// its id, the name of the tool, and what the tool is called with. Where none is answered, there is
/// no field for them.
pub proof fn answered_calls_are_sent(messages: Seq<JsonView>, i: int)
    requires
        0 <= i < messages.len(),
        field_text(messages[i], "role"@) == "assistant"@,
        blocks_of(messages[i]) is Some,
    ensures
        ({
            let all = openai_messages(messages);
            let sent = field_of(all[sent_before(messages, i)], "tool_calls"@);
            let calls = blocks_of(messages[i])->Some_0.filter(
                |b: JsonView|
                    field_text(b, "type"@) == "tool_use"@ && is_answered(
                        all,
                        field_text(b, "id"@),
                    ),
            );
            if calls.len() == 0 {
                sent is None
            } else {
                &&& sent matches Some(JsonView::Array(made)) && made.len() == calls.len()
                &&& forall|k: int|
                    0 <= k < calls.len() ==> is_call_of(
                        #[trigger] sent->Some_0->Array_0[k],
                        calls[k],
                    )
            }
        }),
{
    lemma_names();
    let all = converted_all(messages, messages.len());
    let ids = result_ids(all, all.len());
    let sent = openai_messages(messages);
    let blocks = blocks_of(messages[i])->Some_0;
    let message = assistant_message(blocks);
    assert(converted(messages[i]) == seq![message]);
    lemma_sent_for(messages, i, 0);
    let p = |b: JsonView|
        field_text(b, "type"@) == "tool_use"@ && ids.contains(field_text(b, "id"@));
    let q = |b: JsonView|
        field_text(b, "type"@) == "tool_use"@ && is_answered(sent, field_text(b, "id"@));
    assert forall|b: JsonView| #[trigger] p(b) == q(b) by {
        lemma_answered(messages, field_text(b, "id"@));
    }
    lemma_same_filter(blocks, p, q);
    lemma_kept_calls(blocks, ids, blocks.len());
    assert(blocks.take(blocks.len() as int) =~= blocks);
    let made = tool_calls(blocks, blocks.len());
    let kept = matched_calls(made, ids, made.len());
    let calls = blocks.filter(q);
    assert(kept == calls.map_values(|b: JsonView| tool_call(b)));
    lemma_all_matched(made, ids, made.len());
    assert(made.take(made.len() as int) =~= made);
    let fields = message->Object_0;
    lemma_field_place(fields, "tool_calls"@);
    lemma_field_place(fields, "role"@);
    assert(fields[0].name == "content"@ && fields[1].name == "reasoning_content"@
        && fields[2].name == "role"@);
    if made.len() > 0 {
        assert(fields[3].name == "tool_calls"@);
        assert(field_of(message, "tool_calls"@) == Some(JsonView::Array(made)));
        assert forall|a: int, b: int| 0 <= a < b < fields.len() implies (#[trigger] fields[a]).name
            != (#[trigger] fields[b]).name by {}
        removed_field_is_gone(fields, "tool_calls"@);
        set_field_is_read(fields, "tool_calls"@, JsonView::Array(kept));
    }
    assert forall|k: int| 0 <= k < calls.len() implies is_call_of(
        #[trigger] kept[k],
        calls[k],
    ) by {
        lemma_call_fields(calls[k]);
    }
}

/// Whether `call` asks for what `block` asks for: under the same id, the same tool with the same
/// input.
pub open spec fn is_call_of(call: JsonView, block: JsonView) -> bool {
    &&& field_of(call, "id"@) == Some(plain_text(field_of(block, "id"@)))
    &&& field_of(call, "type"@) == Some(JsonView::Text("function"@))
    &&& field_of(call, "function"@) matches Some(function) && {
        &&& field_of(function, "name"@) == Some(plain_text(field_of(block, "name"@)))
        &&& field_of(function, "arguments"@) == Some(
            JsonView::Text(
                json_text(
                    match field_of(block, "input"@) {
                        Some(input) => input,
                        None => JsonView::Object(seq![]),
                    },
                ),
            ),
        )
    }
}

proof fn lemma_same_filter(
    items: Seq<JsonView>,
    p: spec_fn(JsonView) -> bool,
    q: spec_fn(JsonView) -> bool,
)
    requires
        forall|b: JsonView| #[trigger] p(b) == q(b),
    ensures
        items.filter(p) == items.filter(q),
    decreases items.len(),
{
    reveal(Seq::filter);
    if items.len() > 0 {
        lemma_same_filter(items.drop_last(), p, q);
        assert(p(items.last()) == q(items.last()));
    }
}

/// Every other message is sent as it is: all its fields but those that are kept only for the
/// session.
pub proof fn other_messages_are_sent_as_they_are(messages: Seq<JsonView>, i: int, name: Seq<char>)
    requires
        0 <= i < messages.len(),
        messages[i] is Object,
        results_in(messages[i]).len() == 0,
        blocks_of(messages[i]) is None || field_text(messages[i], "role"@) != "assistant"@,
        name != "_mink"@ && name != "internal"@ && name != "tool_calls"@,
    ensures
        sent_before(messages, i) < openai_messages(messages).len(),
        field_of(openai_messages(messages)[sent_before(messages, i)], name) == field_of(
            messages[i],
            name,
        ),
        sent_before(messages, i + 1) == sent_before(messages, i) + 1,
{
    lemma_names();
    let message = messages[i];
    if blocks_of(message) is Some {
        let blocks = blocks_of(message)->Some_0;
        lemma_result_messages(blocks, blocks.len());
        assert(blocks.take(blocks.len() as int) =~= blocks);
    }
    assert(converted(message) == seq![without_internals(message)]);
    lemma_sent_for(messages, i, 0);
    let fields = message->Object_0;
    let a = without_field(fields, "_mink"@);
    remove_field_keeps_others(fields, "_mink"@, name);
    remove_field_keeps_others(a, "internal"@, name);
    let all = converted_all(messages, messages.len());
    lemma_stripped_keeps(without_internals(message), result_ids(all, all.len()), name);
}

/// The messages for the first message of a session stand first, those for the others follow in
/// their order, and there are no more.
pub proof fn sent_messages_stand_in_order(messages: Seq<JsonView>, i: int)
    requires
        0 <= i < messages.len(),
    ensures
        sent_before(messages, 0) == 0,
        sent_before(messages, i) < sent_before(messages, i + 1),
        sent_before(messages, messages.len() as int) == openai_messages(messages).len(),
{
    assert(converted(messages[i]).len() > 0);
    assert(converted_all(messages, (i + 1) as nat) == converted_all(messages, i as nat)
        + converted(messages[i]));
}

/// The system prompt is the first message of a request, where there is one, and the messages of the
/// session follow.
pub proof fn system_prompt_comes_first(messages: Seq<JsonView>, prompt: Seq<char>)
    ensures
        ({
            let sent = request_messages(messages, prompt);
            if prompt.len() == 0 {
                sent == openai_messages(messages)
            } else {
                &&& sent.len() == openai_messages(messages).len() + 1
                &&& field_of(sent[0], "role"@) == Some(JsonView::Text("system"@))
                &&& field_of(sent[0], "content"@) == Some(JsonView::Text(prompt))
                &&& sent.skip(1) == openai_messages(messages)
            }
        }),
{
    lemma_names();
    let sent = request_messages(messages, prompt);
    if prompt.len() > 0 {
        let fields = sent[0]->Object_0;
        lemma_field_place(fields, "role"@);
        lemma_field_place(fields, "content"@);
        assert(fields[0].name == "content"@ && fields[1].name == "role"@);
        assert(sent.skip(1) =~= openai_messages(messages));
    }
}

/// A tool is sent under its name, with its description and what it is called with; one that is
/// already in the form of the service stays as it is.
pub proof fn tools_are_sent_under_their_names(tool: JsonView)
    ensures
        if field_is(tool, "type"@, "function"@) {
            openai_tool(tool) == tool
        } else {
            &&& field_of(openai_tool(tool), "type"@) == Some(JsonView::Text("function"@))
            &&& field_of(openai_tool(tool), "function"@) matches Some(function) && {
                &&& field_of(tool, "name"@) is Some ==> field_of(function, "name"@) == field_of(
                    tool,
                    "name"@,
                )
                &&& field_of(tool, "description"@) is Some ==> field_of(function, "description"@)
                    == field_of(tool, "description"@)
                &&& field_of(tool, "input_schema"@) is Some ==> field_of(function, "parameters"@)
                    == field_of(tool, "input_schema"@)
                &&& field_of(tool, "input_schema"@) is None && field_of(tool, "parameters"@)
                    is Some ==> field_of(function, "parameters"@) == field_of(tool, "parameters"@)
            }
        },
{
    lemma_names();
    if !field_is(tool, "type"@, "function"@) {
        let fields = openai_tool(tool)->Object_0;
        lemma_field_place(fields, "function"@);
        lemma_field_place(fields, "type"@);
        assert(fields[0].name == "function"@ && fields[1].name == "type"@);
        let inner = fields[0].value->Object_0;
        lemma_field_place(inner, "name"@);
        lemma_field_place(inner, "description"@);
        lemma_field_place(inner, "parameters"@);
        assert(inner[0].name == "description"@ && inner[1].name == "name"@ && inner[2].name
            == "parameters"@);
    }
}

proof fn lemma_extra_is_read(
    fields: Seq<FieldView>,
    extra: Seq<FieldView>,
    n: nat,
    i: int,
)
    requires
        0 <= i < n <= extra.len(),
        !reserved_key(extra[i].name),
        forall|j: int| i < j < n ==> (#[trigger] extra[j]).name != extra[i].name,
    ensures
        field_of(JsonView::Object(with_extra(fields, extra, n)), extra[i].name) == Some(
            extra[i].value,
        ),
    decreases n,
{
    let before = with_extra(fields, extra, (n - 1) as nat);
    if i == n - 1 {
        set_field_is_read(before, extra[i].name, extra[i].value);
    } else {
        lemma_extra_is_read(fields, extra, (n - 1) as nat, i);
        assert(extra[n - 1].name != extra[i].name);
        if !reserved_key(extra[n - 1].name) {
            set_field_keeps_others(
                before,
                extra[n - 1].name,
                extra[n - 1].value,
                extra[i].name,
            );
        }
    }
}

proof fn lemma_tools_keep(
    fields: Seq<FieldView>,
    tools: Seq<JsonView>,
    tool_choice: Option<JsonView>,
    name: Seq<char>,
)
    requires
        !reserved_key(name),
    ensures
        field_of(JsonView::Object(with_tools(fields, tools, tool_choice)), name) == field_of(
            JsonView::Object(fields),
            name,
        ),
{
    if tools.len() > 0 {
        let sent = JsonView::Array(tools.map_values(|t: JsonView| openai_tool(t)));
        set_field_keeps_others(fields, "tools"@, sent, name);
        if tool_choice is Some {
            set_field_keeps_others(
                with_field(fields, "tools"@, sent),
                "tool_choice"@,
                tool_choice->Some_0,
                name,
            );
        }
    }
}

/// An extra field that the library does not set itself is passed on: the request has it with its
/// value, the last one where it is given more than once.
pub proof fn extra_fields_are_passed_on(request: RequestView, i: int)
    requires
        0 <= i < request.extra.len(),
        !reserved_key(request.extra[i].name),
        forall|j: int|
            i < j < request.extra.len() ==> (#[trigger] request.extra[j]).name
                != request.extra[i].name,
    ensures
        field_of(request_body(request), request.extra[i].name) == Some(request.extra[i].value),
{
    let base = crate::llm::transport::base_fields(
        request.model,
        request_messages(request.messages, request.system_prompt),
        request.max_tokens,
        request.options.token_param,
    );
    let optional = with_options(base, request.options);
    let extended = with_extra(optional, request.extra, request.extra.len());
    lemma_extra_is_read(optional, request.extra, request.extra.len(), i);
    lemma_tools_keep(extended, request.tools, request.tool_choice, request.extra[i].name);
}

proof fn lemma_extra_keeps(
    fields: Seq<FieldView>,
    extra: Seq<FieldView>,
    n: nat,
    name: Seq<char>,
)
    requires
        n <= extra.len(),
        forall|j: int| 0 <= j < extra.len() ==> (#[trigger] extra[j]).name != name,
    ensures
        field_of(JsonView::Object(with_extra(fields, extra, n)), name) == field_of(
            JsonView::Object(fields),
            name,
        ),
    decreases n,
{
    if n > 0 {
        lemma_extra_keeps(fields, extra, (n - 1) as nat, name);
        assert(extra[n - 1].name != name);
        if !reserved_key(extra[n - 1].name) {
            set_field_keeps_others(
                with_extra(fields, extra, (n - 1) as nat),
                extra[n - 1].name,
                extra[n - 1].value,
                name,
            );
        }
    }
}

/// The reasoning effort that is asked for is sent just where it is to be sent, and so is whether
/// tools may run side by side, unless an extra field says otherwise.
pub proof fn options_are_sent(request: RequestView)
    requires
        forall|j: int|
            0 <= j < request.extra.len() ==> (#[trigger] request.extra[j]).name
                != "reasoning_effort"@ && request.extra[j].name != "parallel_tool_calls"@
                && request.extra[j].name != "stream_options"@,
    ensures
        ({
            let body = request_body(request);
            let options = request.options;
            &&& field_of(body, "reasoning_effort"@) == if options.send_reasoning_effort
                && options.reasoning_effort is Some {
                Some(JsonView::Text(options.reasoning_effort->Some_0))
            } else {
                None
            }
            &&& field_of(body, "parallel_tool_calls"@) == match options.parallel_tool_calls {
                Some(parallel) => Some(JsonView::Bool(parallel)),
                None => None,
            }
            &&& field_of(body, "stream_options"@) is Some == options.include_usage
            &&& options.include_usage ==> field_of(
                field_of(body, "stream_options"@)->Some_0,
                "include_usage"@,
            ) == Some(JsonView::Bool(true))
        }),
{
    lemma_option_names();
    let kind = request.options.token_param;
    let messages = request_messages(request.messages, request.system_prompt);
    let base = crate::llm::transport::base_fields(
        request.model,
        messages,
        request.max_tokens,
        kind,
    );
    let start = seq![
        field("messages"@, JsonView::Array(messages)),
        text_field("model"@, request.model),
        field("stream"@, JsonView::Bool(true)),
    ];
    assert(start[0].name == "messages"@ && start[1].name == "model"@ && start[2].name
        == "stream"@);
    let limit_name = crate::llm::transport::token_field(kind);
    let limit = JsonView::Number(crate::llm::transport::signed_decimal(request.max_tokens));
    let options = request.options;
    let usage = JsonView::Object(seq![field("include_usage"@, JsonView::Bool(true))]);
    lemma_field_place(usage->Object_0, "include_usage"@);
    assert(usage->Object_0[0].name == "include_usage"@);
    assert forall|name: Seq<char>|
        name == "reasoning_effort"@ || name == "parallel_tool_calls"@ || name
            == "stream_options"@ implies #[trigger] field_of(JsonView::Object(base), name)
        is None by {
        lemma_field_place(start, name);
        set_field_keeps_others(start, limit_name, limit, name);
    }
    let a = if options.include_usage {
        with_field(base, "stream_options"@, usage)
    } else {
        base
    };
    set_field_is_read(base, "stream_options"@, usage);
    set_field_keeps_others(base, "stream_options"@, usage, "reasoning_effort"@);
    set_field_keeps_others(base, "stream_options"@, usage, "parallel_tool_calls"@);
    let b = match options.reasoning_effort {
        Some(effort) if options.send_reasoning_effort => with_field(
            a,
            "reasoning_effort"@,
            JsonView::Text(effort),
        ),
        _ => a,
    };
    if options.reasoning_effort is Some {
        let effort = JsonView::Text(options.reasoning_effort->Some_0);
        set_field_is_read(a, "reasoning_effort"@, effort);
        set_field_keeps_others(a, "reasoning_effort"@, effort, "stream_options"@);
        set_field_keeps_others(a, "reasoning_effort"@, effort, "parallel_tool_calls"@);
    }
    if options.parallel_tool_calls is Some {
        let parallel = JsonView::Bool(options.parallel_tool_calls->Some_0);
        set_field_is_read(b, "parallel_tool_calls"@, parallel);
        set_field_keeps_others(b, "parallel_tool_calls"@, parallel, "stream_options"@);
        set_field_keeps_others(b, "parallel_tool_calls"@, parallel, "reasoning_effort"@);
    }
    let optional = with_options(base, options);
    let extended = with_extra(optional, request.extra, request.extra.len());
    assert forall|name: Seq<char>|
        name == "reasoning_effort"@ || name == "parallel_tool_calls"@ || name
            == "stream_options"@ implies #[trigger] field_of(request_body(request), name)
        == field_of(JsonView::Object(optional), name) by {
        lemma_extra_keeps(optional, request.extra, request.extra.len(), name);
        lemma_tools_keep(extended, request.tools, request.tool_choice, name);
    }
}

proof fn lemma_option_names()
    ensures
        !reserved_key("reasoning_effort"@),
        !reserved_key("parallel_tool_calls"@),
        !reserved_key("stream_options"@),
        "reasoning_effort"@ != "parallel_tool_calls"@,
        "reasoning_effort"@ != "stream_options"@,
        "parallel_tool_calls"@ != "stream_options"@,
{
    reveal_strlit("model");
    reveal_strlit("messages");
    reveal_strlit("stream");
    reveal_strlit("tools");
    reveal_strlit("tool_choice");
    reveal_strlit("max_tokens");
    reveal_strlit("max_completion_tokens");
    reveal_strlit("stream_options");
    reveal_strlit("reasoning_effort");
    reveal_strlit("parallel_tool_calls");
    assert("model"@.len() == 5);
    assert("messages"@.len() == 8);
    assert("stream"@.len() == 6);
    assert("tools"@.len() == 5);
    assert("tool_choice"@.len() == 11);
    assert("max_tokens"@.len() == 10);
    assert("max_completion_tokens"@.len() == 21);
    assert("stream_options"@.len() == 14);
    assert("reasoning_effort"@.len() == 16);
    assert("parallel_tool_calls"@.len() == 19);
}

} // verus!
