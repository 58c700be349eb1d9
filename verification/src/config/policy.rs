//! Settings that are chosen from a list of words.

use crate::text::{
    ascii_lower, debug_text, debug_text_of, same_text, to_ascii_lower, trim, trimmed,
};
use vstd::prelude::*;

verus! {

/// What is written to the standard output.
#[derive(Clone, Copy, Debug, PartialEq, Eq, Structural)]
pub enum OutputFormat {
    Human,
    StreamJson,
}

/// How the `Edit` tool finds what it changes.
#[derive(Clone, Copy, Debug, PartialEq, Eq, Structural)]
pub enum EditMode {
    Hashline,
    Replace,
}

impl Default for EditMode {
    fn default() -> (r: Self)
        ensures
            r == EditMode::Hashline,
    {
        EditMode::Hashline
    }
}

/// The word in a setting, without the space around it and in lower case.
pub open spec fn setting_word(value: Seq<char>) -> Seq<char> {
    ascii_lower(trimmed(value))
}

fn word_of(value: &str) -> (r: String)
    ensures
        r@ == setting_word(value@),
{
    let bare: String = trim(value);
    to_ascii_lower(bare.as_str())
}

/// The edit mode that a setting names.
pub open spec fn edit_mode_of(value: Seq<char>) -> Result<EditMode, Seq<char>> {
    if setting_word(value) == "hashline"@ {
        Ok(EditMode::Hashline)
    } else if setting_word(value) == "replace"@ {
        Ok(EditMode::Replace)
    } else {
        Err(
            "invalid edit_mode "@ + debug_text_of(value)
                + "; expected 'hashline' or 'replace'"@,
        )
    }
}

impl EditMode {
    /// The edit mode that a setting names, or what is wrong with the setting.
    pub fn parse(value: &str) -> (r: Result<EditMode, String>)
        ensures
            match r {
                Ok(m) => edit_mode_of(value@) == Ok::<EditMode, Seq<char>>(m),
                Err(e) => edit_mode_of(value@) == Err::<EditMode, Seq<char>>(e@),
            },
    {
        let word: String = word_of(value);
        if same_text(word.as_str(), "hashline") {
            Ok(EditMode::Hashline)
        } else if same_text(word.as_str(), "replace") {
            Ok(EditMode::Replace)
        } else {
            let shown: String = debug_text(value);
            Err(
                "invalid edit_mode ".to_owned().concat(shown.as_str()).concat(
                    "; expected 'hashline' or 'replace'",
                ),
            )
        }
    }

    /// The name of the mode.
    pub open spec fn name(self) -> Seq<char> {
        match self {
            EditMode::Hashline => "hashline"@,
            EditMode::Replace => "replace"@,
        }
    }

    /// The name of the mode.
    pub fn as_str(self) -> (r: &'static str)
        ensures
            r@ == self.name(),
    {
        match self {
            EditMode::Hashline => "hashline",
            EditMode::Replace => "replace",
        }
    }
}

/// How far the library goes when signals say that a turn has gone astray.
#[derive(Clone, Copy, Debug, PartialEq, Eq, Structural)]
pub enum SignalPolicy {
    Off,
    Evidence,
    StateOps,
    Restart,
    Full,
}

impl Default for SignalPolicy {
    fn default() -> (r: Self)
        ensures
            r == SignalPolicy::Full,
    {
        SignalPolicy::Full
    }
}

/// The signal policy that a setting names.
pub open spec fn signal_policy_of(value: Seq<char>) -> Result<SignalPolicy, Seq<char>> {
    let word = setting_word(value);
    if word == "off"@ {
        Ok(SignalPolicy::Off)
    } else if word == "evidence"@ {
        Ok(SignalPolicy::Evidence)
    } else if word == "state_ops"@ || word == "state-ops"@ {
        Ok(SignalPolicy::StateOps)
    } else if word == "restart"@ {
        Ok(SignalPolicy::Restart)
    } else if word == "full"@ {
        Ok(SignalPolicy::Full)
    } else {
        Err(
            "invalid signal policy "@ + debug_text_of(value)
                + "; expected off, evidence, state_ops, restart, or full"@,
        )
    }
}

impl SignalPolicy {
    /// The signal policy that a setting names, or what is wrong with the setting.
    pub fn parse(value: &str) -> (r: Result<SignalPolicy, String>)
        ensures
            match r {
                Ok(p) => signal_policy_of(value@) == Ok::<SignalPolicy, Seq<char>>(p),
                Err(e) => signal_policy_of(value@) == Err::<SignalPolicy, Seq<char>>(e@),
            },
    {
        let word: String = word_of(value);
        if same_text(word.as_str(), "off") {
            Ok(SignalPolicy::Off)
        } else if same_text(word.as_str(), "evidence") {
            Ok(SignalPolicy::Evidence)
        } else if same_text(word.as_str(), "state_ops") || same_text(word.as_str(), "state-ops") {
            Ok(SignalPolicy::StateOps)
        } else if same_text(word.as_str(), "restart") {
            Ok(SignalPolicy::Restart)
        } else if same_text(word.as_str(), "full") {
            Ok(SignalPolicy::Full)
        } else {
            let shown: String = debug_text(value);
            Err(
                "invalid signal policy ".to_owned().concat(shown.as_str()).concat(
                    "; expected off, evidence, state_ops, restart, or full",
                ),
            )
        }
    }

    /// How far the policy goes: each next one allows what the ones before it allow.
    pub open spec fn reach(self) -> nat {
        match self {
            SignalPolicy::Off => 0,
            SignalPolicy::Evidence => 1,
            SignalPolicy::StateOps => 2,
            SignalPolicy::Restart => 3,
            SignalPolicy::Full => 4,
        }
    }

    /// Whether signals are heeded at all.
    pub fn enabled(self) -> (r: bool)
        ensures
            r == (self != SignalPolicy::Off),
    {
        match self {
            SignalPolicy::Off => false,
            _ => true,
        }
    }

    /// Whether the state of the session may be changed.
    pub fn allows_state_ops(self) -> (r: bool)
        ensures
            r == (self.reach() >= SignalPolicy::StateOps.reach()),
    {
        matches!(self, SignalPolicy::StateOps | SignalPolicy::Restart | SignalPolicy::Full)
    }

    /// Whether the turn may be planned anew.
    pub fn allows_restart(self) -> (r: bool)
        ensures
            r == (self.reach() >= SignalPolicy::Restart.reach()),
    {
        matches!(self, SignalPolicy::Restart | SignalPolicy::Full)
    }

    /// Whether the turn may be handed over to the user.
    pub fn allows_handover(self) -> (r: bool)
        ensures
            r == (self.reach() >= SignalPolicy::Full.reach()),
    {
        matches!(self, SignalPolicy::Full)
    }
}

/// When a tool needs the consent of the user.
#[derive(Clone, Copy, Debug, PartialEq, Eq, Structural)]
pub enum ToolApprovalMode {
    AlwaysAsk,
    Write,
    Yolo,
}

/// The approval mode that a setting names.
pub open spec fn approval_mode_of(raw: Seq<char>) -> Result<ToolApprovalMode, Seq<char>> {
    if raw == "always-ask"@ {
        Ok(ToolApprovalMode::AlwaysAsk)
    } else if raw == "write"@ {
        Ok(ToolApprovalMode::Write)
    } else if raw == "yolo"@ {
        Ok(ToolApprovalMode::Yolo)
    } else {
        Err("unknown approval mode: "@ + raw + ". Use always-ask, write, or yolo"@)
    }
}

impl ToolApprovalMode {
    /// The approval mode that a setting names, or what is wrong with the setting.
    pub fn parse(raw: &str) -> (r: Result<ToolApprovalMode, String>)
        ensures
            match r {
                Ok(m) => approval_mode_of(raw@) == Ok::<ToolApprovalMode, Seq<char>>(m),
                Err(e) => approval_mode_of(raw@) == Err::<ToolApprovalMode, Seq<char>>(e@),
            },
    {
        if same_text(raw, "always-ask") {
            Ok(ToolApprovalMode::AlwaysAsk)
        } else if same_text(raw, "write") {
            Ok(ToolApprovalMode::Write)
        } else if same_text(raw, "yolo") {
            Ok(ToolApprovalMode::Yolo)
        } else {
            Err(
                "unknown approval mode: ".to_owned().concat(raw).concat(
                    ". Use always-ask, write, or yolo",
                ),
            )
        }
    }
}

/// Whether one tool needs the consent of the user.
#[derive(Clone, Copy, Debug, PartialEq, Eq, Structural)]
pub enum ToolApprovalPolicy {
    Allow,
    Deny,
    Prompt,
}

} // verus!
