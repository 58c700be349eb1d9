//! Which tool may be called first after a reliability signal.

use crate::sets::{ascending, NameSet};
use crate::text::{join, joined, same_text, views};
use crate::tools::{ResolvedToolCapabilities, ToolBinding, ToolSemanticCapability};
use vstd::prelude::*;

verus! {

/// What is known of a tool before it is called.
#[derive(Debug)]
pub struct CatalogEntry {
    pub name: String,
    pub compiled: bool,
    pub mutating: bool,
}

/// The tools that the program knows.
#[derive(Debug)]
pub struct ToolCatalog {
    pub entries: Vec<CatalogEntry>,
}

/// Whether the first entry of `name` is compiled in, and whether it changes anything.
pub open spec fn compiled_entry(entries: Seq<CatalogEntry>, name: Seq<char>) -> Option<bool>
    decreases entries.len(),
{
    if entries.len() == 0 {
        None
    } else if entries[0].name@ == name {
        if entries[0].compiled {
            Some(entries[0].mutating)
        } else {
            None
        }
    } else {
        compiled_entry(entries.drop_first(), name)
    }
}

impl ToolCatalog {
    /// Whether `name` is compiled in, and whether it changes anything.
    pub fn compiled(&self, name: &str) -> (r: Option<bool>)
        ensures
            r == compiled_entry(self.entries@, name@),
    {
        let mut i: usize = 0;
        assert(self.entries@.skip(0) =~= self.entries@);
        while i < self.entries.len()
            invariant
                i <= self.entries@.len(),
                compiled_entry(self.entries@, name@) == compiled_entry(
                    self.entries@.skip(i as int),
                    name@,
                ),
            decreases self.entries@.len() - i,
        {
            assert(self.entries@.skip(i as int)[0] == self.entries@[i as int]);
            assert(self.entries@.skip(i as int).drop_first() =~= self.entries@.skip(i + 1));
            if same_text(self.entries[i].name.as_str(), name) {
                if self.entries[i].compiled {
                    return Some(self.entries[i].mutating);
                } else {
                    return None;
                }
            }
            i += 1;
        }
        None
    }
}

/// A way to look at the state of things.
#[derive(Debug)]
pub struct InspectionAction {
    pub capability: ToolSemanticCapability,
    pub tool: String,
}

/// What an [`InspectionAction`] says.
pub struct ActionView {
    pub capability: ToolSemanticCapability,
    pub tool: Seq<char>,
}

impl View for InspectionAction {
    type V = ActionView;

    open spec fn view(&self) -> ActionView {
        ActionView { capability: self.capability, tool: self.tool@ }
    }
}

/// The views of a sequence of ways to look.
pub open spec fn action_views(actions: Seq<InspectionAction>) -> Seq<ActionView> {
    actions.map_values(|a: InspectionAction| a@)
}

/// Guidance for the model, and the tools that it names.
pub struct RenderedRuntimeGuidance {
    pub content: String,
    pub referenced_tools: NameSet,
}

/// Whether the first call after a signal may run.
pub enum RecoveryFirstCallDecision {
    Allowed,
    Blocked(RenderedRuntimeGuidance),
}

/// The capabilities by which the state of things can be looked at, in the order of their
/// precedence.
pub open spec fn inspection_capabilities() -> Seq<ToolSemanticCapability> {
    seq![
        ToolSemanticCapability::PathRead,
        ToolSemanticCapability::ContentSearch,
        ToolSemanticCapability::PathDiscovery,
        ToolSemanticCapability::ResourceRead,
        ToolSemanticCapability::ResourceSearch,
        ToolSemanticCapability::FocusedVerificationExec,
    ]
}

/// The way to look that a capability gives: its first provider, where that is compiled in and
/// changes nothing, or verifies.
pub open spec fn inspection(
    tools: Map<ToolSemanticCapability, ToolBinding>,
    catalog: Seq<CatalogEntry>,
    c: ToolSemanticCapability,
) -> Option<ActionView> {
    if !tools.contains_key(c) {
        None
    } else {
        let tool = tools[c].primary.tool@;
        match compiled_entry(catalog, tool) {
            None => None,
            Some(mutating) => if mutating && !(c is FocusedVerificationExec) {
                None
            } else {
                Some(ActionView { capability: c, tool })
            },
        }
    }
}

/// The ways to look that the first `n` of `capabilities` give.
pub open spec fn inspections(
    tools: Map<ToolSemanticCapability, ToolBinding>,
    catalog: Seq<CatalogEntry>,
    capabilities: Seq<ToolSemanticCapability>,
    n: nat,
) -> Seq<ActionView>
    decreases n,
{
    if n == 0 {
        seq![]
    } else {
        let before = inspections(tools, catalog, capabilities, (n - 1) as nat);
        match inspection(tools, catalog, capabilities[n - 1]) {
            Some(a) => before.push(a),
            None => before,
        }
    }
}

/// The tools of the ways to look.
pub open spec fn action_tools(actions: Seq<ActionView>) -> Set<Seq<char>> {
    actions.map_values(|a: ActionView| a.tool).to_set()
}

/// What is said of a call that may not run: `tools` are the tools that may, in order.
pub open spec fn guard_text(tools: Seq<Seq<char>>) -> Seq<char> {
    if tools.len() == 0 {
        "SIGNAL_RECOVERY guard: no tool call is allowed because no active inspection provider is available. Report the limitation and stop the turn."@
    } else {
        "SIGNAL_RECOVERY guard: this call was not executed because it does not satisfy an approved first-step inspection. Use one of: "@
            + joined(tools, ", "@) + "."@
    }
}

/// Allows the first call after a signal only where it looks at the state of things.
#[derive(Debug)]
pub struct RecoveryPolicy {
    pub inspection_actions: Vec<InspectionAction>,
}

impl RecoveryPolicy {
    /// The policy for the tools of a session.
    pub fn from_resolved(resolved: &ResolvedToolCapabilities, catalog: &ToolCatalog) -> (r:
        RecoveryPolicy)
        ensures
            action_views(r.inspection_actions@) == inspections(
                resolved@,
                catalog.entries@,
                inspection_capabilities(),
                6,
            ),
    {
        let capabilities: Vec<ToolSemanticCapability> = vec![
            ToolSemanticCapability::PathRead,
            ToolSemanticCapability::ContentSearch,
            ToolSemanticCapability::PathDiscovery,
            ToolSemanticCapability::ResourceRead,
            ToolSemanticCapability::ResourceSearch,
            ToolSemanticCapability::FocusedVerificationExec,
        ];
        assert(capabilities@ =~= inspection_capabilities());
        let mut actions: Vec<InspectionAction> = Vec::new();
        let mut i: usize = 0;
        assert(action_views(actions@) =~= seq![]);
        while i < capabilities.len()
            invariant
                i <= capabilities@.len(),
                capabilities@ == inspection_capabilities(),
                action_views(actions@) == inspections(
                    resolved@,
                    catalog.entries@,
                    capabilities@,
                    i as nat,
                ),
            decreases capabilities@.len() - i,
        {
            let c: ToolSemanticCapability = capabilities[i];
            match resolved.primary_provider(c) {
                Some(provider) => match catalog.compiled(provider.tool.as_str()) {
                    Some(mutating) => {
                        if !(mutating && c != ToolSemanticCapability::FocusedVerificationExec) {
                            let ghost before = actions@;
                            let action: InspectionAction = InspectionAction {
                                capability: c,
                                tool: provider.tool.clone(),
                            };
                            actions.push(action);
                            assert(action_views(actions@) =~= action_views(before).push(action@));
                        }
                    },
                    None => {},
                },
                None => {},
            }
            i += 1;
        }
        RecoveryPolicy { inspection_actions: actions }
    }

    fn tools(&self) -> (r: NameSet)
        ensures
            r@ == action_tools(action_views(self.inspection_actions@)),
    {
        let ghost all = action_views(self.inspection_actions@).map_values(|a: ActionView| a.tool);
        let mut tools: NameSet = NameSet::new();
        let mut i: usize = 0;
        while i < self.inspection_actions.len()
            invariant
                i <= self.inspection_actions@.len(),
                all == action_views(self.inspection_actions@).map_values(|a: ActionView| a.tool),
                forall|t: Seq<char>| #[trigger]
                    tools@.contains(t) <==> exists|j: int| 0 <= j < i && #[trigger] all[j] == t,
            decreases self.inspection_actions@.len() - i,
        {
            assert(all[i as int] == self.inspection_actions@[i as int].tool@);
            tools.insert(self.inspection_actions[i].tool.as_str());
            i += 1;
        }
        proof {
            assert forall|t: Seq<char>| #[trigger] tools@.contains(t) <==> all.to_set().contains(t) by {
                if tools@.contains(t) {
                    let j = choose|j: int| 0 <= j < i && #[trigger] all[j] == t;
                    assert(all.contains(t));
                }
                if all.contains(t) {
                    let j = choose|j: int| 0 <= j < all.len() && all[j] == t;
                    assert(all[j] == t);
                }
            }
            assert(tools@ =~= all.to_set());
        }
        tools
    }

    /// Whether the first call after a signal may run: `satisfied` says of each way to look
    /// whether the call is one.
    pub fn classify_first_call(&self, satisfied: &Vec<bool>) -> (r: RecoveryFirstCallDecision)
        requires
            satisfied@.len() == self.inspection_actions@.len(),
        ensures
            match r {
                RecoveryFirstCallDecision::Allowed => exists|i: int|
                    0 <= i < satisfied@.len() && #[trigger] satisfied@[i],
                RecoveryFirstCallDecision::Blocked(g) => {
                    &&& forall|i: int| 0 <= i < satisfied@.len() ==> !(#[trigger] satisfied@[i])
                    &&& g.referenced_tools@ == action_tools(
                        action_views(self.inspection_actions@),
                    )
                    &&& exists|tools: Seq<Seq<char>>|
                        ascending(tools) && tools.to_set() == g.referenced_tools@ && g.content@
                            == #[trigger] guard_text(tools)
                },
            },
    {
        let mut i: usize = 0;
        while i < satisfied.len()
            invariant
                i <= satisfied@.len(),
                forall|j: int| 0 <= j < i ==> !(#[trigger] satisfied@[j]),
            decreases satisfied@.len() - i,
        {
            if satisfied[i] {
                return RecoveryFirstCallDecision::Allowed;
            }
            i += 1;
        }
        let referenced_tools: NameSet = self.tools();
        let names: &Vec<String> = referenced_tools.names();
        let ghost all = views(names@);
        assert(all.len() == names@.len());
        let content: String = if names.len() == 0 {
            "SIGNAL_RECOVERY guard: no tool call is allowed because no active inspection provider is available. Report the limitation and stop the turn.".to_owned()
        } else {
            "SIGNAL_RECOVERY guard: this call was not executed because it does not satisfy an approved first-step inspection. Use one of: ".to_owned().concat(
            join(names, ", ").as_str()).concat(".")
        };
        assert(content@ == guard_text(all));
        RecoveryFirstCallDecision::Blocked(RenderedRuntimeGuidance { content, referenced_tools })
    }
}

/// No tool that changes something is a way to look, but for verification.
pub proof fn inspections_do_not_mutate(
    tools: Map<ToolSemanticCapability, ToolBinding>,
    catalog: Seq<CatalogEntry>,
    capabilities: Seq<ToolSemanticCapability>,
    n: nat,
    i: int,
)
    requires
        n <= capabilities.len(),
        0 <= i < inspections(tools, catalog, capabilities, n).len(),
    ensures
        ({
            let a = inspections(tools, catalog, capabilities, n)[i];
            compiled_entry(catalog, a.tool) == Some(false) || a.capability
                is FocusedVerificationExec
        }),
    decreases n,
{
    if n > 0 {
        let before = inspections(tools, catalog, capabilities, (n - 1) as nat);
        if i < before.len() {
            inspections_do_not_mutate(tools, catalog, capabilities, (n - 1) as nat, i);
        }
    }
}

} // verus!
