//! Options of an OpenAI-compatible service.

use crate::text::{opt_view, same_text, to_ascii_lower, trim, trimmed};
use vstd::prelude::*;

verus! {

/// Which field limits the tokens of an answer.
#[derive(Clone, Copy, Debug, PartialEq, Eq, Structural)]
pub enum TokenParamKind {
    MaxTokens,
    MaxCompletionTokens,
}

/// Options of a service.
#[derive(Debug)]
pub struct OpenAiCompatibleOptions {
    pub send_reasoning_effort: bool,
    pub reasoning_effort: Option<String>,
    pub include_usage: bool,
    pub token_param: TokenParamKind,
    pub parallel_tool_calls: Option<bool>,
}

/// What an [`OpenAiCompatibleOptions`] says.
pub struct OptionsView {
    pub send_reasoning_effort: bool,
    pub reasoning_effort: Option<Seq<char>>,
    pub include_usage: bool,
    pub token_param: TokenParamKind,
    pub parallel_tool_calls: Option<bool>,
}

impl View for OpenAiCompatibleOptions {
    type V = OptionsView;

    open spec fn view(&self) -> OptionsView {
        OptionsView {
            send_reasoning_effort: self.send_reasoning_effort,
            reasoning_effort: opt_view(self.reasoning_effort),
            include_usage: self.include_usage,
            token_param: self.token_param,
            parallel_tool_calls: self.parallel_tool_calls,
        }
    }
}

/// The options of a service of which nothing else is known.
pub open spec fn default_options() -> OptionsView {
    OptionsView {
        send_reasoning_effort: true,
        reasoning_effort: Some("max"@),
        include_usage: true,
        token_param: TokenParamKind::MaxTokens,
        parallel_tool_calls: None,
    }
}

impl Default for OpenAiCompatibleOptions {
    fn default() -> (r: Self)
        ensures
            r@ == default_options(),
    {
        OpenAiCompatibleOptions {
            send_reasoning_effort: true,
            reasoning_effort: Some("max".to_owned()),
            include_usage: true,
            token_param: TokenParamKind::MaxTokens,
            parallel_tool_calls: None,
        }
    }
}

/// Whether a setting turns the reasoning effort off.
pub open spec fn is_off_word(value: Seq<char>) -> bool {
    let word = crate::text::ascii_lower(value);
    word == "off"@ || word == "none"@ || word == "false"@ || word == "disabled"@
}

/// The reasoning effort that a setting asks for.
pub open spec fn effort_of(setting: Option<Seq<char>>) -> Option<Seq<char>> {
    match setting {
        Some(s) if trimmed(s).len() > 0 && !is_off_word(trimmed(s)) => Some(trimmed(s)),
        _ => None,
    }
}

impl OpenAiCompatibleOptions {
    /// The options that the settings of a session ask for.
    pub fn from_settings(
        reasoning_effort: &Option<String>,
        include_usage: bool,
        token_param: TokenParamKind,
    ) -> (r: OpenAiCompatibleOptions)
        ensures
            r@ == (OptionsView {
                send_reasoning_effort: effort_of(opt_view(*reasoning_effort)) is Some,
                reasoning_effort: effort_of(opt_view(*reasoning_effort)),
                include_usage,
                token_param,
                parallel_tool_calls: None,
            }),
    {
        let effort: Option<String> = match reasoning_effort {
            Some(setting) => {
                let value: String = trim(setting.as_str());
                let word: String = to_ascii_lower(value.as_str());
                let off: bool = same_text(word.as_str(), "off") || same_text(
                    word.as_str(),
                    "none",
                ) || same_text(word.as_str(), "false") || same_text(word.as_str(), "disabled");
                if value.as_str().is_empty() || off {
                    None
                } else {
                    Some(value)
                }
            },
            None => None,
        };
        OpenAiCompatibleOptions {
            send_reasoning_effort: effort.is_some(),
            reasoning_effort: effort,
            include_usage,
            token_param,
            parallel_tool_calls: None,
        }
    }
}

} // verus!
