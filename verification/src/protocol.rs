//! What a language model streams back.

use crate::json::{Json, JsonView};
use crate::tool_args::ToolArgs;
use vstd::prelude::*;

verus! {

/// A part of an answer.
#[derive(Debug)]
pub enum Event {
    Text(TextEvent),
    Thinking(ThinkingEvent),
    ToolCall(ToolCallEvent),
    Usage(UsageEvent),
    UsageUnavailable,
    Stop(StopEvent),
    Error(ErrorEvent),
    Retry(RetryEvent),
}

/// Text of the answer.
#[derive(Clone, Debug)]
pub struct TextEvent {
    pub content: String,
}

/// Text of the reasoning before the answer.
#[derive(Clone, Debug)]
pub struct ThinkingEvent {
    pub content: String,
}

/// The end of the answer.
#[derive(Clone, Debug)]
pub struct StopEvent {
    pub reason: String,
}

/// A fault of the stream.
#[derive(Clone, Debug)]
pub struct ErrorEvent {
    pub message: String,
}

/// A new attempt.
#[derive(Clone, Copy, Debug)]
pub struct RetryEvent {}

/// The tokens that a request took.
#[derive(Clone, Copy, Debug, PartialEq, Eq, Structural)]
pub struct UsageEvent {
    pub input_tokens: i64,
    pub output_tokens: i64,
    pub cache_read_input_tokens: i64,
    pub cache_creation_input_tokens: i64,
}

/// A call of a tool.
#[derive(Debug)]
pub struct ToolCallEvent {
    pub name: String,
    pub id: String,
    pub input_json: Json,
    pub fields: ToolArgs,
}

/// What a [`ToolCallEvent`] says.
pub struct ToolCallView {
    pub name: Seq<char>,
    pub id: Seq<char>,
    pub input_json: JsonView,
    pub fields: Map<Seq<char>, Seq<char>>,
}

impl View for ToolCallEvent {
    type V = ToolCallView;

    open spec fn view(&self) -> ToolCallView {
        ToolCallView {
            name: self.name@,
            id: self.id@,
            input_json: self.input_json@,
            fields: self.fields@,
        }
    }
}

impl Clone for ToolCallEvent {
    fn clone(&self) -> (r: Self)
        ensures
            r@ == self@,
    {
        ToolCallEvent {
            name: self.name.clone(),
            id: self.id.clone(),
            input_json: self.input_json.copy(),
            fields: self.fields.clone(),
        }
    }
}

} // verus!
