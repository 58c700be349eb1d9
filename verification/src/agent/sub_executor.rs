//! What a sub-agent hands back.

use crate::agent::turn::{DecisionView, TurnDecision};
use crate::json::{
    field_is, field_of, field_text, json_views, lemma_array_view, Json, JsonView,
};
use crate::text::{decimal, decimal_of};
use vstd::prelude::*;

verus! {

/// The first text that is not empty in the fields `name` of the blocks of type `kind`, or the
/// empty text.
pub open spec fn first_block_text(
    blocks: Seq<JsonView>,
    kind: Seq<char>,
    name: Seq<char>,
) -> Seq<char>
    decreases blocks.len(),
{
    if blocks.len() == 0 {
        seq![]
    } else if field_text(blocks[0], "type"@) == kind && field_text(blocks[0], name).len() > 0 {
        field_text(blocks[0], name)
    } else {
        first_block_text(blocks.drop_first(), kind, name)
    }
}

/// What a message of the assistant says: its reasoning and its text.
pub open spec fn said(message: JsonView) -> (Seq<char>, Seq<char>) {
    match field_of(message, "content"@) {
        Some(JsonView::Array(blocks)) => (
            first_block_text(blocks, "thinking"@, "thinking"@),
            first_block_text(blocks, "text"@, "text"@),
        ),
        _ => (seq![], seq![]),
    }
}

/// What the last message of the assistant says.
pub open spec fn last_said(messages: Seq<JsonView>) -> (Seq<char>, Seq<char>)
    decreases messages.len(),
{
    if messages.len() == 0 {
        (seq![], seq![])
    } else if field_is(messages.last(), "role"@, "assistant"@) {
        said(messages.last())
    } else {
        last_said(messages.drop_last())
    }
}

fn find_block_text(blocks: &Vec<Json>, kind: &str, name: &str) -> (r: String)
    ensures
        r@ == first_block_text(json_views(blocks@), kind@, name@),
{
    let ghost all = json_views(blocks@);
    let mut i: usize = 0;
    assert(all.skip(0) =~= all);
    while i < blocks.len()
        invariant
            i <= blocks@.len(),
            all == json_views(blocks@),
            first_block_text(all, kind@, name@) == first_block_text(
                all.skip(i as int),
                kind@,
                name@,
            ),
        decreases blocks@.len() - i,
    {
        assert(all.skip(i as int)[0] == blocks@[i as int]@);
        assert(all.skip(i as int).drop_first() =~= all.skip(i + 1));
        let text: String = blocks[i].field_text(name);
        if crate::text::same_text(blocks[i].field_text("type").as_str(), kind)
            && !text.as_str().is_empty() {
            return text;
        }
        i += 1;
    }
    assert(all.skip(i as int).len() == 0);
    String::new()
}

/// What the last message of the assistant says: its reasoning and its text.
pub fn last_assistant_output(messages: &Vec<Json>) -> (r: (String, String))
    ensures
        (r.0@, r.1@) == last_said(json_views(messages@)),
{
    let ghost all = json_views(messages@);
    let mut n: usize = messages.len();
    assert(all.take(n as int) =~= all);
    while n > 0
        invariant
            n <= messages@.len(),
            all == json_views(messages@),
            last_said(all) == last_said(all.take(n as int)),
        decreases n,
    {
        n -= 1;
        assert(all.take(n + 1).last() == messages@[n as int]@);
        assert(all.take(n + 1).drop_last() =~= all.take(n as int));
        if messages[n].field_is("role", "assistant") {
            return match messages[n].get("content") {
                Some(Json::Array(blocks)) => {
                    proof {
                        lemma_array_view(*blocks);
                    }
                    (
                        find_block_text(blocks, "thinking", "thinking"),
                        find_block_text(blocks, "text", "text"),
                    )
                },
                _ => (String::new(), String::new()),
            };
        }
    }
    assert(all.take(0) =~= seq![]);
    (String::new(), String::new())
}

/// What came of the turn of a sub-agent: what it said, or what went wrong.
pub open spec fn turn_output(decision: DecisionView, messages: Seq<JsonView>) -> Result<
    (Seq<char>, Seq<char>),
    Seq<char>,
> {
    match decision {
        DecisionView::Stop => Ok(last_said(messages)),
        DecisionView::Interrupted => Ok((seq![], "Sub-agent interrupted."@)),
        DecisionView::MaxTurnsExceeded => Err("sub-agent max_turns exhausted before end_turn"@),
        DecisionView::Failed(message) => Err(message),
    }
}

/// What came of the turn of a sub-agent: what it said, or what went wrong.
pub fn sub_agent_output(decision: &TurnDecision, messages: &Vec<Json>) -> (r: Result<
    (String, String),
    String,
>)
    ensures
        match r {
            Ok(o) => turn_output(decision@, json_views(messages@)) == Ok::<
                (Seq<char>, Seq<char>),
                Seq<char>,
            >((o.0@, o.1@)),
            Err(e) => turn_output(decision@, json_views(messages@)) == Err::<
                (Seq<char>, Seq<char>),
                Seq<char>,
            >(e@),
        },
{
    match decision {
        TurnDecision::Stop => Ok(last_assistant_output(messages)),
        TurnDecision::Interrupted => Ok((String::new(), "Sub-agent interrupted.".to_owned())),
        TurnDecision::MaxTurnsExceeded => Err(
            "sub-agent max_turns exhausted before end_turn".to_owned(),
        ),
        TurnDecision::Failed(message) => Err(message.clone()),
    }
}

/// How long a sub-agent may take, in seconds, given the settings.
pub fn sub_agent_timeout(seconds: i32) -> (r: u64)
    ensures
        r == if seconds >= 1 {
            seconds as u64
        } else {
            1
        },
{
    if seconds >= 1 {
        seconds as u64
    } else {
        1
    }
}

/// What is said of a sub-agent that took too long.
pub fn timeout_message(seconds: u64) -> (r: String)
    ensures
        r@ == "Sub-agent timed out after "@ + decimal(seconds as nat) + "s"@,
{
    "Sub-agent timed out after ".to_owned().concat(decimal_of(seconds).as_str()).concat("s")
}

/// What a sub-agent hands back.
#[derive(Debug)]
pub struct SubAgentReport {
    pub status: String,
    pub thinking: String,
    pub text: String,
}

/// What a [`SubAgentReport`] says.
pub struct ReportView {
    pub status: Seq<char>,
    pub thinking: Seq<char>,
    pub text: Seq<char>,
}

impl View for SubAgentReport {
    type V = ReportView;

    open spec fn view(&self) -> ReportView {
        ReportView { status: self.status@, thinking: self.thinking@, text: self.text@ }
    }
}

/// `text`, or `other` where it is empty.
pub open spec fn or_else(text: Seq<char>, other: Seq<char>) -> Seq<char> {
    if text.len() == 0 {
        other
    } else {
        text
    }
}

/// What a sub-agent hands back, given what came of it and what it showed meanwhile.
pub open spec fn report_of(
    output: Result<(Seq<char>, Seq<char>), Seq<char>>,
    shown_thinking: Seq<char>,
    shown_text: Seq<char>,
) -> ReportView {
    match output {
        Ok(o) => ReportView {
            status: "ok"@,
            thinking: or_else(o.0, shown_thinking),
            text: or_else(o.1, shown_text),
        },
        Err(e) => ReportView {
            status: "failed"@,
            thinking: shown_thinking,
            text: or_else(shown_text, "Sub-agent failed: "@ + e),
        },
    }
}

fn pick(text: String, other: String) -> (r: String)
    ensures
        r@ == or_else(text@, other@),
{
    if text.as_str().is_empty() {
        other
    } else {
        text
    }
}

/// What a sub-agent hands back, given what came of it and what it showed meanwhile.
pub fn sub_agent_report(
    output: Result<(String, String), String>,
    shown_thinking: String,
    shown_text: String,
) -> (r: SubAgentReport)
    ensures
        r@ == report_of(
            match output {
                Ok(o) => Ok((o.0@, o.1@)),
                Err(e) => Err(e@),
            },
            shown_thinking@,
            shown_text@,
        ),
{
    match output {
        Ok(o) => SubAgentReport {
            status: "ok".to_owned(),
            thinking: pick(o.0, shown_thinking),
            text: pick(o.1, shown_text),
        },
        Err(e) => {
            let message: String = "Sub-agent failed: ".to_owned().concat(e.as_str());
            SubAgentReport {
                status: "failed".to_owned(),
                thinking: shown_thinking,
                text: pick(shown_text, message),
            }
        },
    }
}

/// A sub-agent that failed always says something.
pub proof fn failed_report_says_something(
    error: Seq<char>,
    shown_thinking: Seq<char>,
    shown_text: Seq<char>,
)
    ensures
        report_of(Err(error), shown_thinking, shown_text).status == "failed"@,
        report_of(Err(error), shown_thinking, shown_text).text.len() > 0,
{
    reveal_strlit("Sub-agent failed: ");
}

} // verus!
