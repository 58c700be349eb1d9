//! What holds of requests on their way and of the answers that come back.

use crate::json::{field_is, field_of, json_views, JsonView};
use crate::llm::client::{backend_body, preview, preview_note, BackendView, LlmRequest, PREVIEW_CHARS};
use crate::llm::estimate::{
    block_image_tokens, context_tokens, image_tokens, json_bytes, message_image_tokens, tiles,
    IMAGE_BASE_TOKENS, IMAGE_TILE_SIDE, IMAGE_TILE_TOKENS,
};
use crate::llm::laws::{extra_fields_do_not_override, tool_choice_needs_tools};
use crate::llm::meter::{metered, MeterView, NoteView};
use crate::llm::options::{effort_of, is_off_word};
use crate::llm::retry::{
    delay_after, http_failure, retryable, unsigned_value, SendProgress, SendStep, MAX_RETRIES,
    RATE_LIMIT_DELAY_SECS, RETRY_DELAY_SECS, RETRY_MAX_NANOS,
};
use crate::llm::stream::{
    after_line, bytes_left, fatal_fault, first_text, line_end, lossy_text_of, part_line, read_line,
    stream_step, whole_lines, StepView, StreamInputView, LINE_END, MAX_STREAM_ERRORS,
};
use crate::llm::transport::{
    openai_tool, request_messages, signed_decimal, token_field, RequestView,
};
use crate::text::{decimal, digits_value, is_digits, trimmed};
use vstd::arithmetic::power::pow;
use vstd::prelude::*;

verus! {

proof fn lemma_line_end(bytes: Seq<u8>)
    ensures
        0 <= line_end(bytes) <= bytes.len(),
        forall|i: int| 0 <= i < line_end(bytes) ==> #[trigger] bytes[i] != LINE_END,
        line_end(bytes) < bytes.len() ==> bytes[line_end(bytes)] == LINE_END,
    decreases bytes.len(),
{
    if bytes.len() > 0 && bytes[0] != LINE_END {
        let rest = bytes.drop_first();
        lemma_line_end(rest);
        assert forall|i: int| 0 <= i < line_end(bytes) implies #[trigger] bytes[i] != LINE_END by {
            if i > 0 {
                assert(bytes[i] == rest[i - 1]);
            }
        }
    }
}

/// The lines of a stream, one after the other, with the part that has no end yet behind them, are
/// the bytes that came. Each line ends where the first line end in it stands, and the part behind
/// them holds none.
pub proof fn lines_are_the_bytes_that_came(bytes: Seq<u8>)
    ensures
        whole_lines(bytes).flatten() + part_line(bytes) == bytes,
        !part_line(bytes).contains(LINE_END),
        forall|i: int|
            0 <= i < whole_lines(bytes).len() ==> {
                let line = #[trigger] whole_lines(bytes)[i];
                &&& line.len() > 0
                &&& line.last() == LINE_END
                &&& !line.drop_last().contains(LINE_END)
            },
    decreases bytes.len(),
{
    lemma_line_end(bytes);
    let end = line_end(bytes);
    if end < bytes.len() {
        let rest = after_line(bytes);
        let first = bytes.take(end + 1);
        lines_are_the_bytes_that_came(rest);
        let lines = whole_lines(bytes);
        assert(lines == seq![first] + whole_lines(rest));
        assert(lines.first() == first);
        assert(lines.drop_first() =~= whole_lines(rest));
        assert(lines.flatten() + part_line(bytes) =~= first + (whole_lines(rest).flatten()
            + part_line(rest)));
        assert(first + rest =~= bytes);
        assert forall|i: int| 0 <= i < lines.len() implies {
            let line = #[trigger] lines[i];
            &&& line.len() > 0
            &&& line.last() == LINE_END
            &&& !line.drop_last().contains(LINE_END)
        } by {
            if i > 0 {
                assert(lines[i] == whole_lines(rest)[i - 1]);
            } else {
                let inner = first.drop_last();
                if inner.contains(LINE_END) {
                    let k = choose|k: int| 0 <= k < inner.len() && inner[k] == LINE_END;
                    assert(bytes[k] == LINE_END);
                }
            }
        }
    } else {
        assert(whole_lines(bytes).flatten() + part_line(bytes) =~= bytes);
        if bytes.contains(LINE_END) {
            let k = choose|k: int| 0 <= k < bytes.len() && bytes[k] == LINE_END;
            assert(bytes[k] != LINE_END);
        }
    }
}

/// The texts of the lines, without the lines that hold nothing but white space.
pub open spec fn line_texts(lines: Seq<Seq<u8>>) -> Seq<Seq<char>> {
    lines.filter_map(|l: Seq<u8>| read_line(lossy_text_of(l)))
}

proof fn lemma_texts_of_more(first: Seq<u8>, rest: Seq<Seq<u8>>)
    ensures
        line_texts(seq![first] + rest) == match read_line(lossy_text_of(first)) {
            Some(text) => seq![text] + line_texts(rest),
            None => line_texts(rest),
        },
    decreases rest.len(),
{
    let f = |l: Seq<u8>| read_line(lossy_text_of(l));
    let all = seq![first] + rest;
    if rest.len() == 0 {
        assert(all =~= seq![first]);
        assert(all.drop_last() =~= seq![]);
        reveal_with_fuel(Seq::filter_map, 2);
        assert(line_texts(all) =~= match f(first) {
            Some(text) => seq![text] + line_texts(rest),
            None => line_texts(rest),
        });
    } else {
        lemma_texts_of_more(first, rest.drop_last());
        assert(all.drop_last() =~= seq![first] + rest.drop_last());
        assert(all.last() == rest.last());
        assert(line_texts(all) =~= match f(first) {
            Some(text) => seq![text] + line_texts(rest),
            None => line_texts(rest),
        });
    }
}

proof fn lemma_reading(bytes: Seq<u8>)
    ensures
        ({
            let texts = line_texts(whole_lines(bytes));
            let left = bytes_left(bytes);
            &&& part_line(left) == part_line(bytes)
            &&& match first_text(whole_lines(bytes)) {
                Some(text) => texts.len() > 0 && texts[0] == text && line_texts(whole_lines(left))
                    == texts.drop_first(),
                None => texts.len() == 0 && line_texts(whole_lines(left)).len() == 0,
            }
        }),
    decreases bytes.len(),
{
    lemma_line_end(bytes);
    let end = line_end(bytes);
    if end < bytes.len() {
        let first = bytes.take(end + 1);
        let rest = after_line(bytes);
        lemma_reading(rest);
        lemma_texts_of_more(first, whole_lines(rest));
        let lines = whole_lines(bytes);
        assert(lines == seq![first] + whole_lines(rest));
        assert(lines[0] == first);
        assert(lines.drop_first() =~= whole_lines(rest));
        if read_line(lossy_text_of(first)) is Some {
            assert(line_texts(lines).drop_first() =~= line_texts(whole_lines(rest)));
        }
    } else {
        assert(whole_lines(bytes) =~= seq![]);
    }
}

/// Reading line by line gives the text of every line that says anything, in order: what is read is
/// the first of them, and what is left to be read are the others. Bytes without a line end wait for
/// more.
pub proof fn every_line_is_read_in_order(bytes: Seq<u8>)
    ensures
        ({
            let texts = line_texts(whole_lines(bytes));
            let left = bytes_left(bytes);
            &&& part_line(left) == part_line(bytes)
            &&& first_text(whole_lines(bytes)) == if texts.len() > 0 {
                Some(texts[0])
            } else {
                None
            }
            &&& line_texts(whole_lines(left)) == if texts.len() > 0 {
                texts.drop_first()
            } else {
                texts
            }
        }),
{
    lemma_reading(bytes);
    let texts = line_texts(whole_lines(bytes));
    if texts.len() == 0 {
        assert(line_texts(whole_lines(bytes_left(bytes))) =~= texts);
    }
}

/// A line is read without white space at its ends, with one line end, and not at all where there is
/// nothing else.
pub proof fn line_is_read_without_white_space(text: Seq<char>)
    ensures
        read_line(text) is Some == (trimmed(text).len() > 0),
        read_line(text) matches Some(line) ==> line.len() == trimmed(text).len() + 1
            && line.drop_last() == trimmed(text) && line.last() == '\n',
{
    reveal_strlit("\n");
    if let Some(line) = read_line(text) {
        assert(line.drop_last() =~= trimmed(text));
    }
}

/// A stream goes on until the answer is complete, the user interrupts it, its bytes are exhausted,
/// or a fault is one too many or fatal; the fault is then passed on.
pub proof fn stream_ends_for_a_reason(faults: nat, input: StreamInputView)
    requires
        faults <= MAX_STREAM_ERRORS,
    ensures
        ({
            let (step, after) = stream_step(faults, input);
            &&& input is Complete <==> step is End
            &&& input is Cancelled <==> step is Interrupted
            &&& input is Exhausted <==> step is EndEarly
            &&& input is More ==> step is GoOn && after == faults
            &&& input matches StreamInputView::Fault(m) ==> if fatal_fault(m) || faults
                == MAX_STREAM_ERRORS {
                step == StepView::Fail(m)
            } else {
                step is GoOn && after == faults + 1
            }
            &&& input matches StreamInputView::Broken(m) ==> if faults == MAX_STREAM_ERRORS {
                step == StepView::Fail("stream: "@ + m)
            } else {
                step is GoOn && after == faults + 1
            }
        }),
{
}

/// A request is answered, given up or sent again: an answer below the first error is taken; another
/// is tried again only where the service may recover, there are tries left and time is left.
pub proof fn only_passing_faults_are_retried(
    progress: SendProgress,
    code: u16,
    retry_after: Option<Seq<char>>,
    elapsed_nanos: nat,
)
    requires
        progress.valid(),
    ensures
        ({
            let step = progress.after_status(code, retry_after, elapsed_nanos);
            &&& step is Accept <==> code < 400
            &&& step is Wait <==> code >= 400 && retryable(code) && progress.attempt < MAX_RETRIES
                && elapsed_nanos <= RETRY_MAX_NANOS
            &&& step matches SendStep::Accept { attempt_count } ==> attempt_count
                == progress.attempt + 1
            &&& step matches SendStep::GiveUp { attempt_count } ==> attempt_count
                == progress.attempt + 1
            &&& step is Wait ==> progress.stepped(step).attempt == progress.attempt + 1
        }),
        ({
            let step = progress.after_fault(elapsed_nanos);
            &&& step is Wait <==> progress.attempt < MAX_RETRIES && elapsed_nanos
                <= RETRY_MAX_NANOS
            &&& step is Wait || step == SendStep::GiveUp {
                attempt_count: (progress.attempt + 1) as u32,
            }
            &&& step matches SendStep::Wait { seconds } ==> seconds == RETRY_DELAY_SECS
        }),
        ({
            let step = progress.after_status(code, retry_after, elapsed_nanos);
            step matches SendStep::Wait { seconds } ==> {
                &&& code == 429 && retry_after is None ==> seconds == RATE_LIMIT_DELAY_SECS
                &&& code != 429 && progress.attempt == 0 ==> seconds == RETRY_DELAY_SECS
            }
        }),
{
}

/// What may be tried again: where the service asks for it, was too busy, or failed itself.
pub proof fn faults_of_the_caller_are_not_retried(code: u16)
    ensures
        retryable(code) ==> code >= 400,
        code == 429 || code == 503 ==> retryable(code),
        code == 400 || code == 401 || code == 403 || code == 404 || code == 422 ==> !retryable(
            code,
        ),
        code < 400 ==> !retryable(code),
{
}

/// The service is given the time that it asks for; else the wait doubles with each try.
pub proof fn waits_double(code: u16, retry_after: Option<Seq<char>>, attempt: nat)
    ensures
        code == 429 ==> delay_after(code, retry_after, attempt) == match retry_after {
            Some(text) => match unsigned_value(text) {
                Some(n) => n as int,
                None => RATE_LIMIT_DELAY_SECS as int,
            },
            None => RATE_LIMIT_DELAY_SECS as int,
        },
        code != 429 ==> delay_after(code, retry_after, attempt) == RETRY_DELAY_SECS * pow(
            2,
            attempt,
        ),
    decreases attempt,
{
    reveal(pow);
    if code != 429 && attempt > 0 {
        waits_double(code, retry_after, (attempt - 1) as nat);
        assert(pow(2, attempt) == 2 * pow(2, (attempt - 1) as nat));
        assert(2 * (RETRY_DELAY_SECS * pow(2, (attempt - 1) as nat)) == RETRY_DELAY_SECS * (2 * pow(
            2,
            (attempt - 1) as nat,
        ))) by (nonlinear_arith);
    }
}

/// A failed request tells its status and what the service said.
pub proof fn failure_tells_the_answer(code: nat, body: Seq<char>)
    ensures
        trimmed(body).is_suffix_of(http_failure(code, body)),
        ("HTTP "@ + decimal(code)).is_prefix_of(http_failure(code, body)),
{
    let text = http_failure(code, body);
    let head = "HTTP "@ + decimal(code);
    assert(trimmed(body) =~= text.subrange(text.len() - trimmed(body).len(), text.len() as int));
    assert(head =~= text.subrange(0, head.len() as int));
}

/// The estimate of a request is a third of the bytes that are sent, rounded up, and the tokens of
/// its pictures.
pub proof fn estimate_counts_what_is_sent(
    messages: Seq<JsonView>,
    tools: Seq<JsonView>,
    system_prompt: Seq<char>,
)
    ensures
        ({
            let bytes = json_bytes(JsonView::Array(request_messages(messages, system_prompt)))
                + json_bytes(JsonView::Array(tools.map_values(|t: JsonView| openai_tool(t))));
            let pictures = image_tokens(messages, messages.len());
            let tokens = context_tokens(messages, tools, system_prompt);
            bytes <= usize::MAX && bytes + pictures <= usize::MAX ==> {
                &&& bytes <= 3 * (tokens - pictures)
                &&& 3 * (tokens - pictures) < bytes + 3
            }
        }),
{
}

/// A picture costs a share of its own, and one for each tile that it takes: as many as cover it.
pub proof fn tiles_cover_a_picture(side: nat)
    ensures
        tiles(side) * IMAGE_TILE_SIDE >= side,
        side > 0 ==> (tiles(side) - 1) * IMAGE_TILE_SIDE < side,
{
}

/// The pictures of a session are those of its messages, each counted once.
pub proof fn pictures_add_up(messages: Seq<JsonView>, n: nat)
    requires
        n <= messages.len(),
    ensures
        image_tokens(messages, n) == messages.take(n as int).fold_left(
            0nat,
            |sum: nat, m: JsonView| sum + message_image_tokens(m),
        ),
    decreases n,
{
    if n > 0 {
        pictures_add_up(messages, (n - 1) as nat);
        assert(messages.take(n as int).drop_last() =~= messages.take(n - 1));
        assert(messages.take(n as int).last() == messages[n - 1]);
    }
}

/// What the service says that a request took is written down as it is, and a stream that fails or
/// ends without it is written down as such; after that, nothing more is.
pub proof fn usage_is_written_down_as_told(event: MeterView)
    ensures
        metered(true, event) is None,
        event matches MeterView::Usage(u) ==> metered(false, event) == Some(NoteView::Reported(u)),
        event is Other ==> metered(false, event) is None,
        !(event is Other) && !(event is Usage) ==> metered(false, event) matches Some(
            NoteView::Unreported(_),
        ),
        event matches MeterView::Error(m) ==> metered(false, event) == Some(
            NoteView::Unreported("stream_error: "@ + m),
        ),
{
}

/// A request asks for what it was made for: its model, its messages behind its system prompt, its
/// tools, and the limit of tokens.
pub proof fn backend_asks_for_what_is_requested(backend: BackendView, request: LlmRequest)
    ensures
        ({
            let body = backend_body(backend, request);
            &&& field_of(body, "model"@) == Some(JsonView::Text(request.model@))
            &&& field_of(body, "messages"@) == Some(
                JsonView::Array(
                    request_messages(json_views(request.messages@), request.system_prompt@),
                ),
            )
            &&& field_of(body, token_field(backend.options.token_param)) == Some(
                JsonView::Number(signed_decimal(request.max_tokens as int)),
            )
            &&& request.tools@.len() > 0 ==> field_of(body, "tools"@) == Some(
                JsonView::Array(
                    json_views(request.tools@).map_values(|t: JsonView| openai_tool(t)),
                ),
            ) && field_of(body, "tool_choice"@) == backend.tool_choice
        }),
{
    let asked = RequestView {
        model: request.model@,
        messages: json_views(request.messages@),
        tools: json_views(request.tools@),
        system_prompt: request.system_prompt@,
        max_tokens: request.max_tokens as int,
        options: backend.options,
        tool_choice: backend.tool_choice,
        extra: backend.extra_body,
    };
    extra_fields_do_not_override(asked);
    tool_choice_needs_tools(asked);
    assert(json_views(request.tools@).len() == request.tools@.len());
}

/// The reasoning effort in the settings is asked for as it is written, without white space around
/// it, unless it is one of the words that turn it off.
pub proof fn effort_is_taken_as_written(setting: Seq<char>)
    ensures
        effort_of(None) is None,
        effort_of(Some(setting)) is Some <==> trimmed(setting).len() > 0 && !is_off_word(
            trimmed(setting),
        ),
        effort_of(Some(setting)) matches Some(effort) ==> effort == trimmed(setting),
{
}

/// What is shown of a body is its beginning.
pub proof fn preview_is_the_beginning(text: Seq<char>)
    ensures
        preview(text).is_prefix_of(text),
        text.len() <= PREVIEW_CHARS ==> preview(text) == text,
        preview(text).len() <= PREVIEW_CHARS,
        text.len() > PREVIEW_CHARS ==> preview(text).len() == PREVIEW_CHARS,
{
    assert(preview(text) =~= text.subrange(0, preview(text).len() as int));
}

/// What is noted of a body are its size in whole kilobytes and its beginning.
pub proof fn note_tells_size_and_beginning(bytes: nat, text: Seq<char>)
    ensures
        ({
            let size = "Request body ("@ + decimal(bytes / 1024) + "KB): "@;
            let note = preview_note(bytes, text);
            &&& size.is_prefix_of(note)
            &&& preview(text).is_prefix_of(note.skip(size.len() as int))
        }),
{
    let size = "Request body ("@ + decimal(bytes / 1024) + "KB): "@;
    let note = preview_note(bytes, text);
    assert(note.take(size.len() as int) =~= size);
    let rest = note.skip(size.len() as int);
    assert(rest =~= preview(text) + "..."@);
    assert(rest.take(preview(text).len() as int) =~= preview(text));
}

/// A picture of known width and height costs its own share and one for each tile, in each row as
/// many as cover its width, and as many rows as cover its height. What is no picture costs
/// nothing.
pub proof fn picture_counts_by_both_sides(block: JsonView, width: Seq<char>, height: Seq<char>)
    requires
        field_of(block, "width"@) == Some(JsonView::Number(width)),
        field_of(block, "height"@) == Some(JsonView::Number(height)),
        is_digits(width) && digits_value(width) <= u32::MAX,
        is_digits(height) && digits_value(height) <= u32::MAX,
    ensures
        field_is(block, "type"@, "tool_attachment"@) ==> block_image_tokens(block)
            == IMAGE_BASE_TOKENS + IMAGE_TILE_TOKENS * (tiles(digits_value(width)) * tiles(
            digits_value(height),
        )),
        !field_is(block, "type"@, "tool_attachment"@) ==> block_image_tokens(block) == 0,
{
}

} // verus!
