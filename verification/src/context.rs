//! What the tools are told of the settings, and when the log is flushed.

use crate::config::policy::{ToolApprovalMode, ToolApprovalPolicy};
use crate::config::resolved::{ResolvedConfig, ToolApproval};
use crate::config::sandbox::{SandboxPythonConfig, SandboxPythonView};
use crate::json::{field_text, Json};
use crate::text::{clone_strings, same_text, views};
use vstd::prelude::*;

verus! {

/// The settings of the tools.
#[derive(Debug)]
pub struct ToolConfig {
    pub tool_timeout_secs: i32,
    pub sub_agent_timeout_secs: i32,
    pub tool_result_max_bytes: usize,
    pub file_write_max_bytes: usize,
    pub max_search_files: usize,
    pub max_search_results: usize,
    /// The tools that may be used: the usual ones where this is `None`.
    pub enabled_tools: Option<Vec<String>>,
    pub tool_approval_mode: ToolApprovalMode,
    pub tool_approval: Vec<ToolApproval>,
    pub sandbox_python: SandboxPythonConfig,
}

/// What a [`ToolConfig`] says.
pub struct ToolConfigView {
    pub tool_timeout_secs: i32,
    pub sub_agent_timeout_secs: i32,
    pub tool_result_max_bytes: usize,
    pub file_write_max_bytes: usize,
    pub max_search_files: usize,
    pub max_search_results: usize,
    pub enabled_tools: Option<Seq<Seq<char>>>,
    pub tool_approval_mode: ToolApprovalMode,
    pub tool_approval: Seq<(Seq<char>, ToolApprovalPolicy)>,
    pub sandbox_python: SandboxPythonView,
}

/// The names of tools, where there are any.
pub open spec fn tool_names(tools: Option<Vec<String>>) -> Option<Seq<Seq<char>>> {
    match tools {
        Some(t) => Some(views(t@)),
        None => None,
    }
}

/// Which tools need consent.
pub open spec fn approval_views(approvals: Seq<ToolApproval>) -> Seq<
    (Seq<char>, ToolApprovalPolicy),
> {
    approvals.map_values(|a: ToolApproval| (a.tool@, a.policy))
}

impl View for ToolConfig {
    type V = ToolConfigView;

    open spec fn view(&self) -> ToolConfigView {
        ToolConfigView {
            tool_timeout_secs: self.tool_timeout_secs,
            sub_agent_timeout_secs: self.sub_agent_timeout_secs,
            tool_result_max_bytes: self.tool_result_max_bytes,
            file_write_max_bytes: self.file_write_max_bytes,
            max_search_files: self.max_search_files,
            max_search_results: self.max_search_results,
            enabled_tools: tool_names(self.enabled_tools),
            tool_approval_mode: self.tool_approval_mode,
            tool_approval: approval_views(self.tool_approval@),
            sandbox_python: self.sandbox_python@,
        }
    }
}

/// The settings of the tools among all settings.
pub open spec fn tool_config_of(cfg: ResolvedConfig) -> ToolConfigView {
    ToolConfigView {
        tool_timeout_secs: cfg.tool_timeout_secs,
        sub_agent_timeout_secs: cfg.sub_agent_timeout_secs,
        tool_result_max_bytes: cfg.tool_result_max_bytes,
        file_write_max_bytes: cfg.file_write_max_bytes,
        max_search_files: cfg.max_search_files,
        max_search_results: cfg.max_search_results,
        enabled_tools: tool_names(cfg.enabled_tools),
        tool_approval_mode: cfg.tool_approval_mode,
        tool_approval: approval_views(cfg.tool_approval@),
        sandbox_python: cfg.sandbox_python@,
    }
}

fn clone_approvals(approvals: &Vec<ToolApproval>) -> (r: Vec<ToolApproval>)
    ensures
        approval_views(r@) == approval_views(approvals@),
{
    let ghost all = approval_views(approvals@);
    let mut out: Vec<ToolApproval> = Vec::new();
    let mut i: usize = 0;
    assert(approval_views(out@) =~= all.take(0));
    while i < approvals.len()
        invariant
            i <= approvals@.len(),
            all == approval_views(approvals@),
            approval_views(out@) == all.take(i as int),
        decreases approvals@.len() - i,
    {
        let ghost before = out@;
        let copy: ToolApproval = ToolApproval {
            tool: approvals[i].tool.clone(),
            policy: approvals[i].policy,
        };
        out.push(copy);
        proof {
            assert(all[i as int] == (copy.tool@, copy.policy));
            assert(approval_views(out@) =~= approval_views(before).push((copy.tool@, copy.policy)));
            assert(all.take(i + 1) =~= all.take(i as int).push(all[i as int]));
        }
        i += 1;
    }
    assert(all.take(i as int) =~= all);
    out
}

impl ToolConfig {
    /// The settings of the tools among all settings.
    pub fn from_config(cfg: &ResolvedConfig) -> (r: ToolConfig)
        ensures
            r@ == tool_config_of(*cfg),
    {
        ToolConfig {
            tool_timeout_secs: cfg.tool_timeout_secs,
            sub_agent_timeout_secs: cfg.sub_agent_timeout_secs,
            tool_result_max_bytes: cfg.tool_result_max_bytes,
            file_write_max_bytes: cfg.file_write_max_bytes,
            max_search_files: cfg.max_search_files,
            max_search_results: cfg.max_search_results,
            enabled_tools: match &cfg.enabled_tools {
                Some(tools) => Some(clone_strings(tools)),
                None => None,
            },
            tool_approval_mode: cfg.tool_approval_mode,
            tool_approval: clone_approvals(&cfg.tool_approval),
            sandbox_python: cfg.sandbox_python.clone(),
        }
    }
}

/// How long text may wait until it is flushed, in nanoseconds.
pub const FLUSH_INTERVAL_NANOS: u128 = 80_000_000;

/// Whether an entry of this kind is flushed at once.
pub open spec fn flushed_at_once(kind: Seq<char>) -> bool {
    kind == "final"@ || kind == "tool_call"@ || kind == "tool_result"@ || kind == "stop"@ || kind
        == "error"@ || kind == "retry"@ || kind == "turn_error"@ || kind == "llm_wait"@
}

/// Whether an entry of this kind is flushed at the time `now`, the last one having been flushed
/// at the time `last`.
pub open spec fn flush_due(last: Option<u128>, kind: Seq<char>, now: u128) -> bool {
    flushed_at_once(kind) || (kind == "text"@ && match last {
        Some(before) => now - before >= FLUSH_INTERVAL_NANOS,
        None => true,
    })
}

/// When an entry was flushed last, in nanoseconds after some time.
#[derive(Clone, Copy, Debug, PartialEq, Eq, Structural)]
pub struct FlushClock {
    pub last: Option<u128>,
}

impl FlushClock {
    /// No entry was flushed yet.
    pub fn new() -> (r: FlushClock)
        ensures
            r.last is None,
    {
        FlushClock { last: None }
    }

    /// Whether an entry is flushed at the time `now`.
    pub fn should_flush_stream_event(&mut self, event: &Json, now: u128) -> (r: bool)
        ensures
            r == flush_due(old(self).last, field_text(event@, "type"@), now),
            final(self).last == if r {
                Some(now)
            } else {
                old(self).last
            },
    {
        let text: String = event.field_text("type");
        let kind: &str = text.as_str();
        let at_once: bool = same_text(kind, "final") || same_text(kind, "tool_call") || same_text(
            kind,
            "tool_result",
        ) || same_text(kind, "stop") || same_text(kind, "error") || same_text(kind, "retry")
            || same_text(kind, "turn_error") || same_text(kind, "llm_wait");
        let due: bool = match self.last {
            Some(before) => now >= before && now - before >= FLUSH_INTERVAL_NANOS,
            None => true,
        };
        if at_once || (same_text(kind, "text") && due) {
            self.last = Some(now);
            true
        } else {
            false
        }
    }
}

/// What is written to the user is let out at once, except for text that follows text: that waits
/// until the time is over. What nobody waits for is never let out by itself.
pub proof fn text_waits_for_its_time(last: Option<u128>, kind: Seq<char>, now: u128)
    ensures
        kind == "text"@ ==> {
            &&& last is None ==> flush_due(last, kind, now)
            &&& last is Some && now >= last->Some_0 + FLUSH_INTERVAL_NANOS ==> flush_due(
                last,
                kind,
                now,
            )
            &&& last is Some && now < last->Some_0 + FLUSH_INTERVAL_NANOS ==> !flush_due(
                last,
                kind,
                now,
            )
        },
        kind == "tool_call"@ || kind == "tool_result"@ || kind == "final"@ || kind == "error"@
            || kind == "stop"@ ==> flush_due(last, kind, now),
        kind == "thinking"@ ==> !flush_due(last, kind, now),
{
    reveal_strlit("text");
    reveal_strlit("thinking");
    reveal_strlit("final");
    reveal_strlit("tool_call");
    reveal_strlit("tool_result");
    reveal_strlit("stop");
    reveal_strlit("error");
    reveal_strlit("retry");
    reveal_strlit("turn_error");
    reveal_strlit("llm_wait");
    assert("text"@[0] == 't' && "text"@.len() == 4 && "thinking"@.len() == 8);
    assert("llm_wait"@[0] == 'l' && "thinking"@[0] == 't');
    assert("stop"@[0] == 's');
    assert("final"@.len() == 5 && "error"@.len() == 5 && "retry"@.len() == 5);
    assert("tool_call"@.len() == 9 && "tool_result"@.len() == 11 && "turn_error"@.len() == 10);
}

/// The tools get each setting from the field of its name.
pub proof fn tools_get_their_settings(cfg: ResolvedConfig, tools: ToolConfig)
    requires
        tools@ == tool_config_of(cfg),
    ensures
        tools.tool_timeout_secs == cfg.tool_timeout_secs,
        tools.sub_agent_timeout_secs == cfg.sub_agent_timeout_secs,
        tools.tool_result_max_bytes == cfg.tool_result_max_bytes,
        tools.file_write_max_bytes == cfg.file_write_max_bytes,
        tools.max_search_files == cfg.max_search_files,
        tools.max_search_results == cfg.max_search_results,
        tools.tool_approval_mode == cfg.tool_approval_mode,
        tools.enabled_tools is Some <==> cfg.enabled_tools is Some,
        tools.enabled_tools is Some ==> views(tools.enabled_tools->Some_0@) == views(
            cfg.enabled_tools->Some_0@,
        ),
        tools.tool_approval@.len() == cfg.tool_approval@.len(),
        forall|i: int|
            0 <= i < cfg.tool_approval@.len() ==> (#[trigger] tools.tool_approval@[i]).tool@
                == cfg.tool_approval@[i].tool@ && tools.tool_approval@[i].policy
                == cfg.tool_approval@[i].policy,
{
    let a = approval_views(tools.tool_approval@);
    let b = approval_views(cfg.tool_approval@);
    assert(a == b);
    assert(a.len() == tools.tool_approval@.len());
    assert forall|i: int| 0 <= i < cfg.tool_approval@.len() implies (
    #[trigger] tools.tool_approval@[i]).tool@ == cfg.tool_approval@[i].tool@
        && tools.tool_approval@[i].policy == cfg.tool_approval@[i].policy by {
        assert(a[i] == b[i]);
    }
}

} // verus!
