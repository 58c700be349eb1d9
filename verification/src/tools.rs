//! The tools that a session offers and the semantic capabilities that they provide.

use crate::text::{holds, views};
use vstd::prelude::*;

verus! {

/// What a tool can be used for, independent of its name.
#[derive(Clone, Copy, Debug, PartialEq, Eq, Structural)]
pub enum ToolSemanticCapability {
    PathRead,
    ContentSearch,
    PathDiscovery,
    ResourceRead,
    ResourceSearch,
    FocusedVerificationExec,
    EditableSnapshotRead,
    AnchoredEdit,
    ShellExec,
    FileCreate,
    FileOverwrite,
    HostPythonExec,
    SandboxedPythonExec,
    PlanDraft,
    PlanConfirm,
    PlanClear,
    TodoState,
}

impl ToolSemanticCapability {
    /// The place of the capability in the order of capabilities.
    pub open spec fn rank_spec(self) -> u8 {
        match self {
            ToolSemanticCapability::PathRead => 0,
            ToolSemanticCapability::ContentSearch => 1,
            ToolSemanticCapability::PathDiscovery => 2,
            ToolSemanticCapability::ResourceRead => 3,
            ToolSemanticCapability::ResourceSearch => 4,
            ToolSemanticCapability::FocusedVerificationExec => 5,
            ToolSemanticCapability::EditableSnapshotRead => 6,
            ToolSemanticCapability::AnchoredEdit => 7,
            ToolSemanticCapability::ShellExec => 8,
            ToolSemanticCapability::FileCreate => 9,
            ToolSemanticCapability::FileOverwrite => 10,
            ToolSemanticCapability::HostPythonExec => 11,
            ToolSemanticCapability::SandboxedPythonExec => 12,
            ToolSemanticCapability::PlanDraft => 13,
            ToolSemanticCapability::PlanConfirm => 14,
            ToolSemanticCapability::PlanClear => 15,
            ToolSemanticCapability::TodoState => 16,
        }
    }

    /// The place of the capability in the order of capabilities.
    pub fn rank(self) -> (r: u8)
        ensures
            r == self.rank_spec(),
            r < 17,
    {
        match self {
            ToolSemanticCapability::PathRead => 0,
            ToolSemanticCapability::ContentSearch => 1,
            ToolSemanticCapability::PathDiscovery => 2,
            ToolSemanticCapability::ResourceRead => 3,
            ToolSemanticCapability::ResourceSearch => 4,
            ToolSemanticCapability::FocusedVerificationExec => 5,
            ToolSemanticCapability::EditableSnapshotRead => 6,
            ToolSemanticCapability::AnchoredEdit => 7,
            ToolSemanticCapability::ShellExec => 8,
            ToolSemanticCapability::FileCreate => 9,
            ToolSemanticCapability::FileOverwrite => 10,
            ToolSemanticCapability::HostPythonExec => 11,
            ToolSemanticCapability::SandboxedPythonExec => 12,
            ToolSemanticCapability::PlanDraft => 13,
            ToolSemanticCapability::PlanConfirm => 14,
            ToolSemanticCapability::PlanClear => 15,
            ToolSemanticCapability::TodoState => 16,
        }
    }

    /// The name of the capability.
    pub open spec fn name_spec(self) -> Seq<char> {
        match self {
            ToolSemanticCapability::PathRead => "PathRead"@,
            ToolSemanticCapability::ContentSearch => "ContentSearch"@,
            ToolSemanticCapability::PathDiscovery => "PathDiscovery"@,
            ToolSemanticCapability::ResourceRead => "ResourceRead"@,
            ToolSemanticCapability::ResourceSearch => "ResourceSearch"@,
            ToolSemanticCapability::FocusedVerificationExec => "FocusedVerificationExec"@,
            ToolSemanticCapability::EditableSnapshotRead => "EditableSnapshotRead"@,
            ToolSemanticCapability::AnchoredEdit => "AnchoredEdit"@,
            ToolSemanticCapability::ShellExec => "ShellExec"@,
            ToolSemanticCapability::FileCreate => "FileCreate"@,
            ToolSemanticCapability::FileOverwrite => "FileOverwrite"@,
            ToolSemanticCapability::HostPythonExec => "HostPythonExec"@,
            ToolSemanticCapability::SandboxedPythonExec => "SandboxedPythonExec"@,
            ToolSemanticCapability::PlanDraft => "PlanDraft"@,
            ToolSemanticCapability::PlanConfirm => "PlanConfirm"@,
            ToolSemanticCapability::PlanClear => "PlanClear"@,
            ToolSemanticCapability::TodoState => "TodoState"@,
        }
    }

    /// The name of the capability.
    pub fn name(self) -> (r: &'static str)
        ensures
            r@ == self.name_spec(),
    {
        match self {
            ToolSemanticCapability::PathRead => "PathRead",
            ToolSemanticCapability::ContentSearch => "ContentSearch",
            ToolSemanticCapability::PathDiscovery => "PathDiscovery",
            ToolSemanticCapability::ResourceRead => "ResourceRead",
            ToolSemanticCapability::ResourceSearch => "ResourceSearch",
            ToolSemanticCapability::FocusedVerificationExec => "FocusedVerificationExec",
            ToolSemanticCapability::EditableSnapshotRead => "EditableSnapshotRead",
            ToolSemanticCapability::AnchoredEdit => "AnchoredEdit",
            ToolSemanticCapability::ShellExec => "ShellExec",
            ToolSemanticCapability::FileCreate => "FileCreate",
            ToolSemanticCapability::FileOverwrite => "FileOverwrite",
            ToolSemanticCapability::HostPythonExec => "HostPythonExec",
            ToolSemanticCapability::SandboxedPythonExec => "SandboxedPythonExec",
            ToolSemanticCapability::PlanDraft => "PlanDraft",
            ToolSemanticCapability::PlanConfirm => "PlanConfirm",
            ToolSemanticCapability::PlanClear => "PlanClear",
            ToolSemanticCapability::TodoState => "TodoState",
        }
    }
}

/// How specific a tool is to a capability that it provides.
#[derive(Clone, Copy, Debug, PartialEq, Eq, Structural)]
pub enum ProviderTier {
    Specialized,
    General,
    Fallback,
}

/// A tool as the provider of a capability.
pub struct ToolProvider {
    pub tool: String,
    pub tier: ProviderTier,
}

/// The tools that provide one capability.
pub struct ToolBinding {
    pub primary: ToolProvider,
    pub alternatives: Vec<ToolProvider>,
}

impl ToolBinding {
    /// Whether some alternative is a fallback.
    pub open spec fn has_fallback_spec(self) -> bool {
        exists|i: int|
            0 <= i < self.alternatives@.len() && (#[trigger] self.alternatives@[i]).tier
                == ProviderTier::Fallback
    }

    /// Whether a specialized tool stands before a fallback.
    pub open spec fn routable_spec(self) -> bool {
        self.primary.tier == ProviderTier::Specialized && self.has_fallback_spec()
    }

    /// Whether a specialized tool stands before a fallback.
    pub fn routable(&self) -> (r: bool)
        ensures
            r == self.routable_spec(),
    {
        if self.primary.tier != ProviderTier::Specialized {
            return false;
        }
        let mut i: usize = 0;
        while i < self.alternatives.len()
            invariant
                i <= self.alternatives@.len(),
                self.primary.tier == ProviderTier::Specialized,
                forall|j: int|
                    0 <= j < i ==> (#[trigger] self.alternatives@[j]).tier
                        != ProviderTier::Fallback,
            decreases self.alternatives@.len() - i,
        {
            if self.alternatives[i].tier == ProviderTier::Fallback {
                return true;
            }
            i += 1;
        }
        false
    }
}

/// The capabilities that the tools of a session provide, each with its binding.
pub struct ResolvedToolCapabilities {
    entries: Vec<(ToolSemanticCapability, ToolBinding)>,
}

impl View for ResolvedToolCapabilities {
    type V = Map<ToolSemanticCapability, ToolBinding>;

    closed spec fn view(&self) -> Map<ToolSemanticCapability, ToolBinding> {
        entry_map(self.entries@)
    }
}

spec fn entry_map(
    entries: Seq<(ToolSemanticCapability, ToolBinding)>,
) -> Map<ToolSemanticCapability, ToolBinding>
    decreases entries.len(),
{
    if entries.len() == 0 {
        Map::empty()
    } else {
        entry_map(entries.drop_last()).insert(entries.last().0, entries.last().1)
    }
}

proof fn lemma_entry_map(entries: Seq<(ToolSemanticCapability, ToolBinding)>)
    requires
        forall|i: int, j: int| 0 <= i < j < entries.len() ==> entries[i].0 != entries[j].0,
    ensures
        forall|i: int|
            0 <= i < entries.len() ==> entry_map(entries).contains_key(#[trigger] entries[i].0)
                && entry_map(entries)[entries[i].0] == entries[i].1,
        forall|c: ToolSemanticCapability|
            entry_map(entries).contains_key(c) ==> exists|i: int|
                0 <= i < entries.len() && #[trigger] entries[i].0 == c,
    decreases entries.len(),
{
    if entries.len() > 0 {
        let front = entries.drop_last();
        lemma_entry_map(front);
        assert forall|i: int| 0 <= i < entries.len() implies entry_map(entries).contains_key(
            #[trigger] entries[i].0,
        ) && entry_map(entries)[entries[i].0] == entries[i].1 by {
            if i < front.len() {
                assert(front[i] == entries[i]);
                assert(entry_map(front).contains_key(front[i].0));
            }
        }
        assert forall|c: ToolSemanticCapability| entry_map(entries).contains_key(c) implies exists|
            i: int,
        | 0 <= i < entries.len() && #[trigger] entries[i].0 == c by {
            if c == entries.last().0 {
                assert(entries[entries.len() - 1].0 == c);
            } else {
                assert(entry_map(front).contains_key(c));
                let i = choose|i: int| 0 <= i < front.len() && #[trigger] front[i].0 == c;
                assert(entries[i].0 == c);
            }
        }
    }
}

impl ResolvedToolCapabilities {
    #[verifier::type_invariant]
    spec fn distinct(&self) -> bool {
        forall|i: int, j: int|
            0 <= i < j < self.entries@.len() ==> self.entries@[i].0 != self.entries@[j].0
    }

    /// No capability.
    pub fn new() -> (r: ResolvedToolCapabilities)
        ensures
            r@ == Map::<ToolSemanticCapability, ToolBinding>::empty(),
    {
        ResolvedToolCapabilities { entries: Vec::new() }
    }

    /// These capabilities and `capability`, bound to `binding`, where it is not bound yet.
    pub fn with(self, capability: ToolSemanticCapability, binding: ToolBinding) -> (r: Self)
        ensures
            r@ == if self@.contains_key(capability) {
                self@
            } else {
                self@.insert(capability, binding)
            },
    {
        proof {
            use_type_invariant(&self);
            lemma_entry_map(self.entries@);
        }
        if self.has(capability) {
            return self;
        }
        let ghost before = self.entries@;
        let mut entries: Vec<(ToolSemanticCapability, ToolBinding)> = self.entries;
        entries.push((capability, binding));
        assert(entries@.drop_last() =~= before);
        assert(entries@.last() == (capability, binding));
        ResolvedToolCapabilities { entries }
    }

    /// The tools that provide `capability`.
    pub fn binding(&self, capability: ToolSemanticCapability) -> (r: Option<&ToolBinding>)
        ensures
            match r {
                Some(b) => self@.contains_key(capability) && *b == self@[capability],
                None => !self@.contains_key(capability),
            },
    {
        proof {
            use_type_invariant(&*self);
            lemma_entry_map(self.entries@);
        }
        let mut i: usize = 0;
        while i < self.entries.len()
            invariant
                i <= self.entries@.len(),
                self@ == entry_map(self.entries@),
                forall|k: int|
                    0 <= k < self.entries@.len() ==> entry_map(self.entries@).contains_key(
                        #[trigger] self.entries@[k].0,
                    ) && entry_map(self.entries@)[self.entries@[k].0] == self.entries@[k].1,
                forall|j: int| 0 <= j < i ==> (#[trigger] self.entries@[j]).0 != capability,
            decreases self.entries@.len() - i,
        {
            if self.entries[i].0 == capability {
                return Some(&self.entries[i].1);
            }
            i += 1;
        }
        None
    }

    /// Whether some tool provides `capability`.
    pub fn has(&self, capability: ToolSemanticCapability) -> (r: bool)
        ensures
            r == self@.contains_key(capability),
    {
        self.binding(capability).is_some()
    }

    /// The tool that is used first for `capability`.
    pub fn primary_provider(&self, capability: ToolSemanticCapability) -> (r: Option<&ToolProvider>)
        ensures
            match r {
                Some(p) => self@.contains_key(capability) && *p == self@[capability].primary,
                None => !self@.contains_key(capability),
            },
    {
        match self.binding(capability) {
            Some(b) => Some(&b.primary),
            None => None,
        }
    }

    /// The capabilities that are provided.
    pub fn capabilities(&self) -> (r: Vec<ToolSemanticCapability>)
        ensures
            forall|c: ToolSemanticCapability| #[trigger] r@.contains(c) <==> self@.contains_key(c),
    {
        proof {
            use_type_invariant(&*self);
            lemma_entry_map(self.entries@);
        }
        let mut out: Vec<ToolSemanticCapability> = Vec::new();
        let mut i: usize = 0;
        while i < self.entries.len()
            invariant
                i <= self.entries@.len(),
                out@ == self.entries@.take(i as int).map_values(
                    |e: (ToolSemanticCapability, ToolBinding)| e.0,
                ),
            decreases self.entries@.len() - i,
        {
            assert(self.entries@.take(i + 1) =~= self.entries@.take(i as int).push(
                self.entries@[i as int],
            ));
            out.push(self.entries[i].0);
            i += 1;
        }
        assert(self.entries@.take(i as int) =~= self.entries@);
        assert forall|c: ToolSemanticCapability| #[trigger]
            out@.contains(c) <==> self@.contains_key(c) by {
            if out@.contains(c) {
                let k = choose|k: int| 0 <= k < out@.len() && out@[k] == c;
                assert(self.entries@[k].0 == c);
            }
            if self@.contains_key(c) {
                let k = choose|k: int|
                    0 <= k < self.entries@.len() && #[trigger] self.entries@[k].0 == c;
                assert(out@[k] == c);
            }
        }
        out
    }
}

/// The tools that the model can call.
pub struct ModelToolSurface {
    pub names: Vec<String>,
}

impl View for ModelToolSurface {
    type V = Seq<Seq<char>>;

    open spec fn view(&self) -> Seq<Seq<char>> {
        views(self.names@)
    }
}

impl ModelToolSurface {
    /// Whether the model can call `tool`.
    pub fn has(&self, tool: &str) -> (r: bool)
        ensures
            r == self@.contains(tool@),
    {
        holds(&self.names, tool)
    }
}

} // verus!
