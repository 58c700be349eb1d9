//! Requests to a language model.

use crate::config::resolved::ResolvedConfig;
use crate::json::{
    clone_fields, field_views, json_text, json_views, Json, JsonField, JsonView, FieldView,
};
use crate::llm::options::{default_options, effort_of, OpenAiCompatibleOptions, OptionsView};
use crate::llm::stream::{lossy_text, lossy_text_of};
use crate::llm::transport::{
    build_openai_body_with_options_and_extensions, request_body, RequestView,
};
use crate::text::{chars_of, decimal, decimal_of, opt_view, string_of};
use vstd::prelude::*;
use vstd::utf8::encode_utf8;

verus! {

/// A model and the short name it was chosen by.
#[derive(Clone, Copy, Debug)]
pub struct LlmModelTarget<'a> {
    pub model: &'a str,
    pub alias: Option<&'a str>,
}

impl<'a> LlmModelTarget<'a> {
    /// Puts the parts together.
    pub fn new(model: &'a str, alias: Option<&'a str>) -> (r: LlmModelTarget<'a>)
        ensures
            r == (LlmModelTarget { model, alias }),
    {
        LlmModelTarget { model, alias }
    }

    /// What the user calls the model: its short name, or its name where there is none.
    pub open spec fn label_spec(self) -> Seq<char> {
        match self.alias {
            Some(alias) => alias@,
            None => self.model@,
        }
    }

    /// What the user calls the model: its short name, or its name where there is none.
    pub fn label(&self) -> (r: &'a str)
        ensures
            r@ == self.label_spec(),
    {
        match self.alias {
            Some(alias) => alias,
            None => self.model,
        }
    }
}

/// What a request is for.
#[derive(Debug)]
pub enum LlmPurpose {
    Agent,
    SubAgent { session_id: String },
    Compaction,
}

/// What a [`LlmPurpose`] says.
pub enum PurposeView {
    Agent,
    SubAgent { session_id: Seq<char> },
    Compaction,
}

impl View for LlmPurpose {
    type V = PurposeView;

    open spec fn view(&self) -> PurposeView {
        match self {
            LlmPurpose::Agent => PurposeView::Agent,
            LlmPurpose::SubAgent { session_id } => PurposeView::SubAgent {
                session_id: session_id@,
            },
            LlmPurpose::Compaction => PurposeView::Compaction,
        }
    }
}

impl LlmPurpose {
    /// What a request of an agent is for.
    pub fn of_agent(is_sub_agent: bool, session_id: &str) -> (r: LlmPurpose)
        ensures
            r@ == if is_sub_agent {
                PurposeView::SubAgent { session_id: session_id@ }
            } else {
                PurposeView::Agent
            },
    {
        if is_sub_agent {
            LlmPurpose::SubAgent { session_id: session_id.to_owned() }
        } else {
            LlmPurpose::Agent
        }
    }
}

/// A request that failed.
#[derive(Debug)]
pub struct LlmRequestFailure {
    /// How often it was sent.
    pub attempt_count: u32,
    /// What is said of it.
    pub error: String,
}

impl LlmRequestFailure {
    /// What is said of the request.
    pub fn to_text(&self) -> (r: String)
        ensures
            r@ == self.error@,
    {
        self.error.clone()
    }
}

/// How often a request was sent that failed: once, where it is not known.
pub fn request_failure_attempt_count(failure: Option<&LlmRequestFailure>) -> (r: u32)
    ensures
        r == match failure {
            Some(f) => f.attempt_count,
            None => 1,
        },
{
    match failure {
        Some(f) => f.attempt_count,
        None => 1,
    }
}

/// A request.
#[derive(Debug)]
pub struct LlmRequest {
    pub purpose: LlmPurpose,
    pub model: String,
    pub model_alias: Option<String>,
    pub api_url: String,
    pub api_key: String,
    pub system_prompt: String,
    pub messages: Vec<Json>,
    pub tools: Vec<Json>,
    pub max_tokens: i32,
    pub verbose: bool,
}

/// A service that is compatible with that of OpenAI.
#[derive(Debug)]
pub struct OpenAiCompatibleBackend {
    pub options: OpenAiCompatibleOptions,
    pub tool_choice: Option<Json>,
    pub extra_body: Vec<JsonField>,
}

/// What a choice among tools says.
pub open spec fn choice_view(choice: Option<Json>) -> Option<JsonView> {
    match choice {
        Some(c) => Some(c@),
        None => None,
    }
}

/// What an [`OpenAiCompatibleBackend`] says.
pub struct BackendView {
    pub options: OptionsView,
    pub tool_choice: Option<JsonView>,
    pub extra_body: Seq<FieldView>,
}

impl View for OpenAiCompatibleBackend {
    type V = BackendView;

    open spec fn view(&self) -> BackendView {
        BackendView {
            options: self.options@,
            tool_choice: choice_view(self.tool_choice),
            extra_body: field_views(self.extra_body@),
        }
    }
}

/// The body of the request `request` to `backend`.
pub open spec fn backend_body(backend: BackendView, request: LlmRequest) -> JsonView {
    request_body(
        RequestView {
            model: request.model@,
            messages: json_views(request.messages@),
            tools: json_views(request.tools@),
            system_prompt: request.system_prompt@,
            max_tokens: request.max_tokens as int,
            options: backend.options,
            tool_choice: backend.tool_choice,
            extra: backend.extra_body,
        },
    )
}

impl OpenAiCompatibleBackend {
    /// A service with these options.
    pub fn new(options: OpenAiCompatibleOptions) -> (r: OpenAiCompatibleBackend)
        ensures
            r@ == (BackendView { options: options@, tool_choice: None, extra_body: seq![] }),
    {
        let r: OpenAiCompatibleBackend = OpenAiCompatibleBackend {
            options,
            tool_choice: None,
            extra_body: Vec::new(),
        };
        assert(r@.extra_body =~= seq![]);
        r
    }

    /// The same, with a choice among the tools.
    pub fn with_tool_choice(self, tool_choice: Json) -> (r: OpenAiCompatibleBackend)
        ensures
            r@ == (BackendView { tool_choice: Some(tool_choice@), ..self@ }),
    {
        OpenAiCompatibleBackend {
            options: self.options,
            tool_choice: Some(tool_choice),
            extra_body: self.extra_body,
        }
    }

    /// The same, with extra fields in each request.
    pub fn with_extra_body(self, extra_body: Vec<JsonField>) -> (r: OpenAiCompatibleBackend)
        ensures
            r@ == (BackendView { extra_body: field_views(extra_body@), ..self@ }),
    {
        OpenAiCompatibleBackend {
            options: self.options,
            tool_choice: self.tool_choice,
            extra_body,
        }
    }

    /// The service that the settings ask for.
    pub fn from_config(config: &ResolvedConfig) -> (r: OpenAiCompatibleBackend)
        ensures
            r@ == (BackendView {
                options: OptionsView {
                    send_reasoning_effort: effort_of(
                        opt_view(config.openai_reasoning_effort),
                    ) is Some,
                    reasoning_effort: effort_of(opt_view(config.openai_reasoning_effort)),
                    include_usage: config.openai_include_usage,
                    token_param: config.openai_token_param,
                    parallel_tool_calls: None,
                },
                tool_choice: choice_view(config.openai_tool_choice),
                extra_body: field_views(config.openai_extra_body@),
            }),
    {
        let options: OpenAiCompatibleOptions = OpenAiCompatibleOptions::from_settings(
            &config.openai_reasoning_effort,
            config.openai_include_usage,
            config.openai_token_param,
        );
        let tool_choice: Option<Json> = match &config.openai_tool_choice {
            Some(choice) => Some(choice.copy()),
            None => None,
        };
        OpenAiCompatibleBackend {
            options,
            tool_choice,
            extra_body: clone_fields(&config.openai_extra_body),
        }
    }

    /// The service with the options of which nothing else is known.
    pub fn deepseek_defaults() -> (r: OpenAiCompatibleBackend)
        ensures
            r@ == (BackendView {
                options: default_options(),
                tool_choice: None,
                extra_body: seq![],
            }),
    {
        OpenAiCompatibleBackend::new(OpenAiCompatibleOptions::default())
    }

    /// The name of this kind of service.
    pub fn name(&self) -> (r: &'static str)
        ensures
            r@ == "openai-compatible"@,
    {
        "openai-compatible"
    }

    /// The bytes that are sent for a request.
    pub fn body(&self, request: &LlmRequest) -> (r: Vec<u8>)
        ensures
            r@ == encode_utf8(json_text(backend_body(self@, *request))),
    {
        build_openai_body_with_options_and_extensions(
            request.model.as_str(),
            &request.messages,
            &request.tools,
            request.system_prompt.as_str(),
            request.max_tokens,
            &self.options,
            match &self.tool_choice {
                Some(choice) => Some(choice),
                None => None,
            },
            &self.extra_body,
        )
    }
}

/// How many characters of a request are shown.
pub const PREVIEW_CHARS: usize = 200;

/// The first characters of a text, as many as are shown.
pub open spec fn preview(text: Seq<char>) -> Seq<char> {
    if text.len() <= PREVIEW_CHARS {
        text
    } else {
        text.take(PREVIEW_CHARS as int)
    }
}

/// What is shown of a request of so many bytes, given their text.
pub open spec fn preview_note(bytes: nat, text: Seq<char>) -> Seq<char> {
    "Request body ("@ + decimal(bytes / 1024) + "KB): "@ + preview(text) + "..."@
}

/// What is shown of a request of so many bytes, given their text.
pub fn preview_of_text(bytes: usize, text: &str) -> (r: String)
    ensures
        r@ == preview_note(bytes as nat, text@),
{
    let chars: Vec<char> = chars_of(text);
    let shown: usize = if chars.len() <= PREVIEW_CHARS {
        chars.len()
    } else {
        PREVIEW_CHARS
    };
    let first: String = string_of(&chars, 0, shown);
    assert(first@ =~= preview(text@));
    "Request body (".to_owned().concat(decimal_of((bytes / 1024) as u64).as_str()).concat(
        "KB): ",
    ).concat(first.as_str()).concat("...")
}

/// What is shown of the bytes of a request.
pub fn body_preview(body: &Vec<u8>) -> (r: String)
    ensures
        r@ == preview_note(body@.len(), lossy_text_of(body@)),
{
    let text: String = lossy_text(body);
    preview_of_text(body.len(), text.as_str())
}

/// The header that says who sends a request.
pub fn authorization(api_key: &str) -> (r: String)
    ensures
        r@ == "Bearer "@ + api_key@,
{
    "Bearer ".to_owned().concat(api_key)
}

} // verus!
