//! How a tool call ended.

use vstd::prelude::*;

verus! {

/// Why a tool failed.
#[derive(Clone, Copy, Debug, PartialEq, Eq, Structural)]
pub enum ToolFailureKind {
    SafetyBlocked,
    ArgumentInvalid,
    StaleTag,
    AmbiguousMatch,
    PathOutOfScope,
    Timeout,
    ProcessFailed,
    Aborted,
    Unknown,
}

/// What kept a tool from running.
#[derive(Clone, Copy, Debug, PartialEq, Eq, Structural)]
pub enum ToolBlocker {
    RecoveryGuard,
    ToolSurface,
    StormBreaker,
}

/// How a tool call ended.
#[derive(Clone, Copy, Debug, PartialEq, Eq, Structural)]
pub enum ToolStatus {
    Succeeded,
    Failed(ToolFailureKind),
    Blocked(ToolBlocker),
    Interrupted,
}

impl ToolFailureKind {
    /// The failure in one word.
    pub open spec fn label_spec(self) -> Seq<char> {
        match self {
            ToolFailureKind::SafetyBlocked => "SafetyBlocked"@,
            ToolFailureKind::ArgumentInvalid => "ArgumentInvalid"@,
            ToolFailureKind::StaleTag => "StaleTag"@,
            ToolFailureKind::AmbiguousMatch => "AmbiguousMatch"@,
            ToolFailureKind::PathOutOfScope => "PathOutOfScope"@,
            ToolFailureKind::Timeout => "Timeout"@,
            ToolFailureKind::ProcessFailed => "ProcessFailed"@,
            ToolFailureKind::Aborted => "Aborted"@,
            ToolFailureKind::Unknown => "Unknown"@,
        }
    }

    /// The failure in one word.
    pub fn label(self) -> (r: &'static str)
        ensures
            r@ == self.label_spec(),
    {
        match self {
            ToolFailureKind::SafetyBlocked => "SafetyBlocked",
            ToolFailureKind::ArgumentInvalid => "ArgumentInvalid",
            ToolFailureKind::StaleTag => "StaleTag",
            ToolFailureKind::AmbiguousMatch => "AmbiguousMatch",
            ToolFailureKind::PathOutOfScope => "PathOutOfScope",
            ToolFailureKind::Timeout => "Timeout",
            ToolFailureKind::ProcessFailed => "ProcessFailed",
            ToolFailureKind::Aborted => "Aborted",
            ToolFailureKind::Unknown => "Unknown",
        }
    }
}

impl ToolFailureKind {
    /// Whether the failure is certain: the tool ran and failed, or was not safe to run.
    pub open spec fn is_hard_spec(self) -> bool {
        match self {
            ToolFailureKind::SafetyBlocked => true,
            ToolFailureKind::Timeout => true,
            ToolFailureKind::ProcessFailed => true,
            ToolFailureKind::Aborted => true,
            ToolFailureKind::Unknown => true,
            _ => false,
        }
    }

    /// Whether the failure is certain.
    pub fn is_hard(self) -> (r: bool)
        ensures
            r == self.is_hard_spec(),
    {
        match self {
            ToolFailureKind::SafetyBlocked => true,
            ToolFailureKind::Timeout => true,
            ToolFailureKind::ProcessFailed => true,
            ToolFailureKind::Aborted => true,
            ToolFailureKind::Unknown => true,
            _ => false,
        }
    }
}

impl ToolStatus {
    /// Why the tool failed, where it did.
    pub open spec fn failure_spec(self) -> Option<ToolFailureKind> {
        match self {
            ToolStatus::Failed(kind) => Some(kind),
            _ => None,
        }
    }

    /// Why the tool failed, where it did.
    pub fn failure_kind(self) -> (r: Option<ToolFailureKind>)
        ensures
            r == self.failure_spec(),
    {
        match self {
            ToolStatus::Failed(kind) => Some(kind),
            _ => None,
        }
    }
}

/// What the output of a tool is.
#[derive(Clone, Copy, Debug, PartialEq, Eq, Structural)]
pub enum ToolResultKind {
    Command,
    FileRead,
    Control,
    Other,
}

/// What a tool asks of the plan.
#[derive(Clone, Copy, Debug, PartialEq, Eq, Structural)]
pub enum PlanCommand {
    SetDraft,
    Confirm,
    Clear,
}

impl ToolBlocker {
    /// The name of the blocker.
    pub open spec fn name_spec(self) -> Seq<char> {
        match self {
            ToolBlocker::RecoveryGuard => "RecoveryGuard"@,
            ToolBlocker::ToolSurface => "ToolSurface"@,
            ToolBlocker::StormBreaker => "StormBreaker"@,
        }
    }

    /// The name of the blocker.
    pub fn name(self) -> (r: &'static str)
        ensures
            r@ == self.name_spec(),
    {
        match self {
            ToolBlocker::RecoveryGuard => "RecoveryGuard",
            ToolBlocker::ToolSurface => "ToolSurface",
            ToolBlocker::StormBreaker => "StormBreaker",
        }
    }
}

} // verus!
