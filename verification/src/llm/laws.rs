//! What holds of every request.

use crate::json::{
    field_is, field_of, field_text, proper, remove_field_keeps_others, removed_field_is_gone,
    set_field_is_read, set_field_keeps_others, with_field, without_field, FieldView, JsonView,
};
use crate::llm::options::{OptionsView, TokenParamKind};
use crate::llm::transport::{
    assistant_message, base_fields, converted, converted_all, field, matched_calls, openai_messages,
    openai_tool, request_body, request_messages, reserved_key, result_ids, signed_decimal,
    text_field, token_field, tool_calls, tool_message, tool_messages, with_extra, with_options,
    with_tools, without_internals, without_orphans, RequestView,
};
use vstd::prelude::*;

verus! {

proof fn lemma_names_differ()
    ensures
        "model"@ != "messages"@,
        "model"@ != "stream"@,
        "model"@ != "tools"@,
        "model"@ != "tool_choice"@,
        "messages"@ != "stream"@,
        "messages"@ != "tools"@,
        "messages"@ != "tool_choice"@,
        "stream"@ != "tools"@,
        "stream"@ != "tool_choice"@,
        "tools"@ != "tool_choice"@,
        !reserved_key("stream_options"@),
        !reserved_key("reasoning_effort"@),
        !reserved_key("parallel_tool_calls"@),
{
    reveal_strlit("model");
    assert("model"@.len() == 5);
    reveal_strlit("messages");
    assert("messages"@.len() == 8);
    reveal_strlit("stream");
    assert("stream"@.len() == 6);
    reveal_strlit("tools");
    assert("tools"@.len() == 5);
    reveal_strlit("tool_choice");
    assert("tool_choice"@.len() == 11);
    reveal_strlit("max_tokens");
    assert("max_tokens"@.len() == 10);
    reveal_strlit("max_completion_tokens");
    assert("max_completion_tokens"@.len() == 21);
    reveal_strlit("stream_options");
    assert("stream_options"@.len() == 14);
    reveal_strlit("reasoning_effort");
    assert("reasoning_effort"@.len() == 16);
    reveal_strlit("parallel_tool_calls");
    assert("parallel_tool_calls"@.len() == 19);
    assert("model"@[0] != "tools"@[0]);
}

proof fn lemma_limit_names_differ()
    ensures
        "max_tokens"@ != "max_completion_tokens"@,
        "max_tokens"@ != "model"@,
        "max_tokens"@ != "messages"@,
        "max_tokens"@ != "stream"@,
        "max_tokens"@ != "tools"@,
        "max_tokens"@ != "tool_choice"@,
        "max_completion_tokens"@ != "model"@,
        "max_completion_tokens"@ != "messages"@,
        "max_completion_tokens"@ != "stream"@,
        "max_completion_tokens"@ != "tools"@,
        "max_completion_tokens"@ != "tool_choice"@,
{
    reveal_strlit("model");
    assert("model"@.len() == 5);
    reveal_strlit("messages");
    assert("messages"@.len() == 8);
    reveal_strlit("stream");
    assert("stream"@.len() == 6);
    reveal_strlit("tools");
    assert("tools"@.len() == 5);
    reveal_strlit("tool_choice");
    assert("tool_choice"@.len() == 11);
    reveal_strlit("max_tokens");
    assert("max_tokens"@.len() == 10);
    reveal_strlit("max_completion_tokens");
    assert("max_completion_tokens"@.len() == 21);
}

proof fn lemma_options_keep(fields: Seq<FieldView>, options: OptionsView, name: Seq<char>)
    requires
        reserved_key(name),
    ensures
        field_of(JsonView::Object(with_options(fields, options)), name) == field_of(
            JsonView::Object(fields),
            name,
        ),
{
    lemma_names_differ();
    let usage = JsonView::Object(seq![field("include_usage"@, JsonView::Bool(true))]);
    let a = if options.include_usage {
        with_field(fields, "stream_options"@, usage)
    } else {
        fields
    };
    set_field_keeps_others(fields, "stream_options"@, usage, name);
    let b = match options.reasoning_effort {
        Some(effort) if options.send_reasoning_effort => with_field(
            a,
            "reasoning_effort"@,
            JsonView::Text(effort),
        ),
        _ => a,
    };
    if options.reasoning_effort is Some {
        set_field_keeps_others(
            a,
            "reasoning_effort"@,
            JsonView::Text(options.reasoning_effort->Some_0),
            name,
        );
    }
    if options.parallel_tool_calls is Some {
        set_field_keeps_others(
            b,
            "parallel_tool_calls"@,
            JsonView::Bool(options.parallel_tool_calls->Some_0),
            name,
        );
    }
}

proof fn lemma_extra_keeps(
    fields: Seq<FieldView>,
    extra: Seq<FieldView>,
    n: nat,
    name: Seq<char>,
)
    requires
        reserved_key(name),
        n <= extra.len(),
    ensures
        field_of(JsonView::Object(with_extra(fields, extra, n)), name) == field_of(
            JsonView::Object(fields),
            name,
        ),
    decreases n,
{
    if n > 0 {
        lemma_extra_keeps(fields, extra, (n - 1) as nat, name);
        if !reserved_key(extra[n - 1].name) {
            set_field_keeps_others(
                with_extra(fields, extra, (n - 1) as nat),
                extra[n - 1].name,
                extra[n - 1].value,
                name,
            );
        }
    }
}

proof fn lemma_tools_keep(
    fields: Seq<FieldView>,
    tools: Seq<JsonView>,
    tool_choice: Option<JsonView>,
    name: Seq<char>,
)
    requires
        name != "tools"@,
        name != "tool_choice"@,
    ensures
        field_of(JsonView::Object(with_tools(fields, tools, tool_choice)), name) == field_of(
            JsonView::Object(fields),
            name,
        ),
{
    if tools.len() > 0 {
        let sent = JsonView::Array(tools.map_values(|t: JsonView| openai_tool(t)));
        set_field_keeps_others(fields, "tools"@, sent, name);
        if tool_choice is Some {
            set_field_keeps_others(
                with_field(fields, "tools"@, sent),
                "tool_choice"@,
                tool_choice->Some_0,
                name,
            );
        }
    }
}

proof fn lemma_base(
    model: Seq<char>,
    messages: Seq<JsonView>,
    max_tokens: int,
    kind: TokenParamKind,
)
    ensures
        ({
            let base = JsonView::Object(base_fields(model, messages, max_tokens, kind));
            &&& field_of(base, "model"@) == Some(JsonView::Text(model))
            &&& field_of(base, "messages"@) == Some(JsonView::Array(messages))
            &&& field_of(base, "stream"@) == Some(JsonView::Bool(true))
            &&& field_of(base, token_field(kind)) == Some(
                JsonView::Number(signed_decimal(max_tokens)),
            )
            &&& field_of(base, "tools"@) is None
            &&& field_of(base, "tool_choice"@) is None
        }),
{
    lemma_names_differ();
    lemma_limit_names_differ();
    let start = seq![
        field("messages"@, JsonView::Array(messages)),
        text_field("model"@, model),
        field("stream"@, JsonView::Bool(true)),
    ];
    let limit = JsonView::Number(signed_decimal(max_tokens));
    let name = token_field(kind);
    set_field_is_read(start, name, limit);
    set_field_keeps_others(start, name, limit, "model"@);
    set_field_keeps_others(start, name, limit, "messages"@);
    set_field_keeps_others(start, name, limit, "stream"@);
    set_field_keeps_others(start, name, limit, "tools"@);
    set_field_keeps_others(start, name, limit, "tool_choice"@);
    let value = JsonView::Object(start);
    crate::json::lemma_field_place(start, "model"@);
    crate::json::lemma_field_place(start, "messages"@);
    crate::json::lemma_field_place(start, "stream"@);
    crate::json::lemma_field_place(start, "tools"@);
    crate::json::lemma_field_place(start, "tool_choice"@);
    assert(start[0].name == "messages"@ && start[1].name == "model"@ && start[2].name
        == "stream"@);
}

/// The fields that the library sets are not overridden: whatever extra fields a request carries,
/// its model, its messages, the limit of its tokens and that it is streamed are those asked for.
pub proof fn extra_fields_do_not_override(request: RequestView)
    ensures
        ({
            let body = request_body(request);
            &&& field_of(body, "model"@) == Some(JsonView::Text(request.model))
            &&& field_of(body, "messages"@) == Some(
                JsonView::Array(request_messages(request.messages, request.system_prompt)),
            )
            &&& field_of(body, "stream"@) == Some(JsonView::Bool(true))
            &&& field_of(body, token_field(request.options.token_param)) == Some(
                JsonView::Number(signed_decimal(request.max_tokens)),
            )
        }),
{
    lemma_names_differ();
    lemma_limit_names_differ();
    let messages = request_messages(request.messages, request.system_prompt);
    let kind = request.options.token_param;
    lemma_base(request.model, messages, request.max_tokens, kind);
    lemma_kept(request, "model"@);
    lemma_kept(request, "messages"@);
    lemma_kept(request, "stream"@);
    lemma_kept(request, token_field(kind));
}

proof fn lemma_kept(request: RequestView, name: Seq<char>)
    requires
        reserved_key(name),
        name != "tools"@,
        name != "tool_choice"@,
    ensures
        field_of(request_body(request), name) == field_of(
            JsonView::Object(
                base_fields(
                    request.model,
                    request_messages(request.messages, request.system_prompt),
                    request.max_tokens,
                    request.options.token_param,
                ),
            ),
            name,
        ),
{
    let base = base_fields(
        request.model,
        request_messages(request.messages, request.system_prompt),
        request.max_tokens,
        request.options.token_param,
    );
    let optional = with_options(base, request.options);
    let extended = with_extra(optional, request.extra, request.extra.len());
    lemma_options_keep(base, request.options, name);
    lemma_extra_keeps(optional, request.extra, request.extra.len(), name);
    lemma_tools_keep(extended, request.tools, request.tool_choice, name);
}

/// A request without tools carries neither tools nor a choice among them; one with tools carries
/// the tools, and the choice that was asked for.
pub proof fn tool_choice_needs_tools(request: RequestView)
    ensures
        ({
            let body = request_body(request);
            if request.tools.len() == 0 {
                field_of(body, "tools"@) is None && field_of(body, "tool_choice"@) is None
            } else {
                &&& field_of(body, "tools"@) == Some(
                    JsonView::Array(request.tools.map_values(|t: JsonView| openai_tool(t))),
                )
                &&& field_of(body, "tool_choice"@) == request.tool_choice
            }
        }),
{
    lemma_names_differ();
    let messages = request_messages(request.messages, request.system_prompt);
    lemma_base(request.model, messages, request.max_tokens, request.options.token_param);
    let base = base_fields(
        request.model,
        messages,
        request.max_tokens,
        request.options.token_param,
    );
    let optional = with_options(base, request.options);
    let extended = with_extra(optional, request.extra, request.extra.len());
    lemma_options_keep(base, request.options, "tools"@);
    lemma_options_keep(base, request.options, "tool_choice"@);
    lemma_extra_keeps(optional, request.extra, request.extra.len(), "tools"@);
    lemma_extra_keeps(optional, request.extra, request.extra.len(), "tool_choice"@);
    if request.tools.len() > 0 {
        let sent = JsonView::Array(request.tools.map_values(|t: JsonView| openai_tool(t)));
        let tooled = with_field(extended, "tools"@, sent);
        set_field_is_read(extended, "tools"@, sent);
        set_field_keeps_others(extended, "tools"@, sent, "tool_choice"@);
        if request.tool_choice is Some {
            set_field_is_read(tooled, "tool_choice"@, request.tool_choice->Some_0);
            set_field_keeps_others(tooled, "tool_choice"@, request.tool_choice->Some_0, "tools"@);
        }
    }
}

/// Whether a message holds nothing that is kept only for the session.
pub open spec fn without_session_data(message: JsonView) -> bool {
    field_of(message, "_mink"@) is None && field_of(message, "internal"@) is None
}

proof fn lemma_message_names()
    ensures
        "_mink"@.len() == 5,
        "internal"@.len() == 8,
        "content"@.len() == 7,
        "reasoning_content"@.len() == 17,
        "role"@.len() == 4,
        "tool_calls"@.len() == 10,
        "tool_call_id"@.len() == 12,
{
    reveal_strlit("_mink");
    reveal_strlit("internal");
    reveal_strlit("content");
    reveal_strlit("reasoning_content");
    reveal_strlit("role");
    reveal_strlit("tool_calls");
    reveal_strlit("tool_call_id");
}

/// Whether a message may be sent.
spec fn sendable(message: JsonView) -> bool {
    without_session_data(message) && proper(message)
}

proof fn lemma_assistant_is_sendable(blocks: Seq<JsonView>)
    ensures
        sendable(assistant_message(blocks)),
{
    lemma_message_names();
    let fields = assistant_message(blocks)->Object_0;
    crate::json::lemma_field_place(fields, "_mink"@);
    crate::json::lemma_field_place(fields, "internal"@);
    assert(fields[0].name == "content"@);
    assert(fields[1].name == "reasoning_content"@);
    assert(fields[2].name == "role"@);
}

proof fn lemma_results_are_sendable(blocks: Seq<JsonView>, n: nat)
    requires
        n <= blocks.len(),
    ensures
        forall|i: int|
            0 <= i < tool_messages(blocks, n).len() ==> sendable(
                #[trigger] tool_messages(blocks, n)[i],
            ),
    decreases n,
{
    if n > 0 {
        lemma_results_are_sendable(blocks, (n - 1) as nat);
        lemma_message_names();
        let fields = tool_message(blocks[n - 1])->Object_0;
        crate::json::lemma_field_place(fields, "_mink"@);
        crate::json::lemma_field_place(fields, "internal"@);
        assert(fields[0].name == "content"@);
        assert(fields[1].name == "role"@);
        assert(fields[2].name == "tool_call_id"@);
        assert(sendable(tool_message(blocks[n - 1])));
        let before = tool_messages(blocks, (n - 1) as nat);
        assert forall|i: int| 0 <= i < tool_messages(blocks, n).len() implies sendable(
            #[trigger] tool_messages(blocks, n)[i],
        ) by {
            if i < before.len() {
                assert(tool_messages(blocks, n)[i] == before[i]);
            }
        }
    }
}

proof fn lemma_rest_is_sendable(message: JsonView)
    requires
        proper(message),
    ensures
        sendable(without_internals(message)),
{
    if message is Object {
        lemma_message_names();
        let fields = message->Object_0;
        let a = without_field(fields, "_mink"@);
        removed_field_is_gone(fields, "_mink"@);
        removed_field_is_gone(a, "internal"@);
        remove_field_keeps_others(a, "internal"@, "_mink"@);
    }
}

proof fn lemma_all_sendable(messages: Seq<JsonView>, n: nat)
    requires
        n <= messages.len(),
        forall|i: int| 0 <= i < messages.len() ==> proper(#[trigger] messages[i]),
    ensures
        forall|i: int|
            0 <= i < converted_all(messages, n).len() ==> sendable(
                #[trigger] converted_all(messages, n)[i],
            ),
    decreases n,
{
    if n > 0 {
        lemma_all_sendable(messages, (n - 1) as nat);
        let message = messages[n - 1];
        let more = converted(message);
        lemma_rest_is_sendable(message);
        if let Some(JsonView::Array(blocks)) = field_of(message, "content"@) {
            lemma_assistant_is_sendable(blocks);
            lemma_results_are_sendable(blocks, blocks.len());
        }
        let before = converted_all(messages, (n - 1) as nat);
        assert forall|i: int| 0 <= i < converted_all(messages, n).len() implies sendable(
            #[trigger] converted_all(messages, n)[i],
        ) by {
            if i < before.len() {
                assert(converted_all(messages, n)[i] == before[i]);
            } else {
                assert(converted_all(messages, n)[i] == more[i - before.len()]);
            }
        }
    }
}

proof fn lemma_stripped_keeps(message: JsonView, ids: Seq<Seq<char>>, name: Seq<char>)
    requires
        name != "tool_calls"@,
    ensures
        field_of(without_orphans(message, ids), name) == field_of(message, name),
{
    if let Some(JsonView::Array(calls)) = field_of(message, "tool_calls"@) {
        let kept = matched_calls(calls, ids, calls.len());
        remove_field_keeps_others(message->Object_0, "tool_calls"@, name);
        set_field_keeps_others(message->Object_0, "tool_calls"@, JsonView::Array(kept), name);
    }
}

/// What is kept only for the session is not sent: no message of a request has the fields that
/// hold it.
pub proof fn session_data_is_not_sent(messages: Seq<JsonView>)
    requires
        forall|i: int| 0 <= i < messages.len() ==> proper(#[trigger] messages[i]),
    ensures
        forall|i: int|
            0 <= i < openai_messages(messages).len() ==> without_session_data(
                #[trigger] openai_messages(messages)[i],
            ),
{
    lemma_message_names();
    lemma_all_sendable(messages, messages.len());
    let all = converted_all(messages, messages.len());
    let ids = result_ids(all, all.len());
    assert forall|i: int| 0 <= i < openai_messages(messages).len() implies without_session_data(
        #[trigger] openai_messages(messages)[i],
    ) by {
        assert(sendable(all[i]));
        lemma_stripped_keeps(all[i], ids, "_mink"@);
        lemma_stripped_keeps(all[i], ids, "internal"@);
    }
}

proof fn lemma_matched(calls: Seq<JsonView>, ids: Seq<Seq<char>>, n: nat)
    requires
        n <= calls.len(),
    ensures
        matched_calls(calls, ids, n).len() <= n,
        forall|k: int|
            0 <= k < matched_calls(calls, ids, n).len() ==> ids.contains(
                field_text(#[trigger] matched_calls(calls, ids, n)[k], "id"@),
            ),
        matched_calls(calls, ids, n).len() == n ==> forall|k: int|
            0 <= k < n ==> ids.contains(field_text(#[trigger] calls[k], "id"@)),
    decreases n,
{
    if n > 0 {
        lemma_matched(calls, ids, (n - 1) as nat);
    }
}

proof fn lemma_same_results(all: Seq<JsonView>, ids: Seq<Seq<char>>, n: nat)
    requires
        n <= all.len(),
    ensures
        result_ids(all.map_values(|m: JsonView| without_orphans(m, ids)), n) == result_ids(all, n),
    decreases n,
{
    if n > 0 {
        lemma_same_results(all, ids, (n - 1) as nat);
        lemma_message_names();
        lemma_stripped_keeps(all[n - 1], ids, "role"@);
        lemma_stripped_keeps(all[n - 1], ids, "tool_call_id"@);
    }
}

/// No call is sent without its result: every tool call in a message of the assistant that is sent
/// has the id of a result that is sent too.
pub proof fn sent_calls_have_results(messages: Seq<JsonView>, i: int, k: int)
    requires
        forall|j: int| 0 <= j < messages.len() ==> proper(#[trigger] messages[j]),
        0 <= i < openai_messages(messages).len(),
        field_is(openai_messages(messages)[i], "role"@, "assistant"@),
        field_of(openai_messages(messages)[i], "tool_calls"@) matches Some(JsonView::Array(calls))
            && 0 <= k < calls.len(),
    ensures
        ({
            let sent = openai_messages(messages);
            let calls = field_of(sent[i], "tool_calls"@)->Some_0->Array_0;
            result_ids(sent, sent.len()).contains(field_text(calls[k], "id"@))
        }),
{
    lemma_message_names();
    let all = converted_all(messages, messages.len());
    let ids = result_ids(all, all.len());
    lemma_all_sendable(messages, messages.len());
    lemma_same_results(all, ids, all.len());
    let sent = openai_messages(messages);
    assert(sent =~= all.map_values(|m: JsonView| without_orphans(m, ids)));
    assert(sendable(all[i]));
    lemma_stripped_keeps(all[i], ids, "role"@);
    if let Some(JsonView::Array(calls)) = field_of(all[i], "tool_calls"@) {
        lemma_matched(calls, ids, calls.len());
        let kept = matched_calls(calls, ids, calls.len());
        removed_field_is_gone(all[i]->Object_0, "tool_calls"@);
        set_field_is_read(all[i]->Object_0, "tool_calls"@, JsonView::Array(kept));
        if kept.len() == calls.len() {
            assert(ids.contains(field_text(calls[k], "id"@)));
        }
    }
}

} // verus!
