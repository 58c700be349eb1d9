//! What holds of the advice that a prompt gives for its workflows.

use crate::prompt::builtin::builtin_workflows;
use crate::prompt::facts::FactView;
use crate::prompt::render::{
    advice_pack, fallback_tools, mutation_advice, primary, python_advice, rendered, routing_advice,
    with_mutation, with_provider, with_route, AdviceView, Capabilities, PromptTemplates,
    RenderFault,
};
use crate::prompt::workflows::{base_facts, WorkflowRender};
use crate::text::{joined, occurs_at, text_replaced, trimmed};
use crate::text_laws::{is_part_of, joined_holds_each_part, middle_is_part, part_of_part};
use crate::tools::{ProviderTier, ToolProvider, ToolSemanticCapability};
use vstd::prelude::*;

verus! {

/// Whether a text has two braces in front and no other opening brace.
spec fn is_place(text: Seq<char>) -> bool {
    text.len() > 2 && text[0] == '{' && text[1] == '{' && forall|i: int|
        2 <= i < text.len() ==> #[trigger] text[i] != '{'
}

proof fn lemma_plain_stays(before: Seq<char>, rest: Seq<char>, pat: Seq<char>, with: Seq<char>)
    requires
        is_place(pat),
        !before.contains('{'),
    ensures
        text_replaced(before + rest, pat, with) == before + text_replaced(rest, pat, with),
    decreases before.len(),
{
    let s = before + rest;
    if before.len() > 0 {
        let less = before.drop_first();
        assert forall|i: int| 0 <= i < less.len() implies less[i] != '{' by {
            assert(less[i] == before[i + 1]);
            assert(before.contains(before[i + 1]));
        }
        assert(!less.contains('{'));
        lemma_plain_stays(less, rest, pat, with);
        assert(s.drop_first() =~= less + rest);
        assert(before.contains(before[0]));
        if occurs_at(s, pat, 0) {
            assert(s.subrange(0, pat.len() as int)[0] == s[0]);
        }
        if s.len() < pat.len() {
            assert(s =~= before + text_replaced(rest, pat, with));
        } else {
            assert(seq![s[0]] + (less + text_replaced(rest, pat, with)) =~= before + text_replaced(
                rest,
                pat,
                with,
            ));
        }
    } else {
        assert(s =~= rest);
        assert(before + text_replaced(rest, pat, with) =~= text_replaced(rest, pat, with));
    }
}

proof fn lemma_place_is_filled(rest: Seq<char>, pat: Seq<char>, with: Seq<char>)
    requires
        is_place(pat),
    ensures
        text_replaced(pat + rest, pat, with) == with + text_replaced(rest, pat, with),
{
    let s = pat + rest;
    assert(s.subrange(0, pat.len() as int) =~= pat);
    assert(s.skip(pat.len() as int) =~= rest);
}

proof fn lemma_other_place_stays(
    other: Seq<char>,
    rest: Seq<char>,
    pat: Seq<char>,
    with: Seq<char>,
    k: int,
)
    requires
        is_place(pat),
        is_place(other),
        0 <= k < pat.len(),
        k < other.len(),
        pat[k] != other[k],
    ensures
        text_replaced(other + rest, pat, with) == other + text_replaced(rest, pat, with),
{
    let s = other + rest;
    let t = s.drop_first();
    let u = t.drop_first();
    let plain = other.skip(2);
    assert(!plain.contains('{'));
    assert(u =~= plain + rest);
    lemma_plain_stays(plain, rest, pat, with);
    let end = text_replaced(rest, pat, with);
    if occurs_at(s, pat, 0) {
        assert(s.subrange(0, pat.len() as int)[k] == s[k]);
    }
    if occurs_at(t, pat, 0) {
        assert(t.subrange(0, pat.len() as int)[1] == t[1]);
        assert(t[1] == other[2]);
    }
    if s.len() >= pat.len() {
        assert(text_replaced(s, pat, with) == seq![s[0]] + text_replaced(t, pat, with));
        if t.len() >= pat.len() {
            assert(text_replaced(t, pat, with) == seq![t[0]] + text_replaced(u, pat, with));
        } else {
            assert(text_replaced(u, pat, with) == u);
            assert(t =~= seq![t[0]] + u);
        }
        assert(seq![s[0]] + (seq![t[0]] + (plain + end)) =~= other + end);
    } else {
        assert(s =~= other + end);
    }
}

proof fn lemma_nothing_is_left(rest: Seq<char>, pat: Seq<char>, with: Seq<char>)
    requires
        is_place(pat),
        !rest.contains('{'),
    ensures
        text_replaced(rest, pat, with) == rest,
{
    lemma_plain_stays(rest, seq![], pat, with);
    assert(rest + seq![] =~= rest);
    assert(rest + text_replaced(seq![], pat, with) =~= rest);
}

proof fn lemma_two_places(
    a: Seq<char>,
    first: Seq<char>,
    b: Seq<char>,
    second: Seq<char>,
    c: Seq<char>,
    x: Seq<char>,
    y: Seq<char>,
    k: int,
)
    requires
        is_place(first),
        is_place(second),
        0 <= k < first.len(),
        k < second.len(),
        first[k] != second[k],
        !a.contains('{'),
        !b.contains('{'),
        !c.contains('{'),
        !x.contains('{'),
    ensures
        text_replaced(text_replaced(a + first + b + second + c, first, x), second, y) == a + x + b + y
            + c,
{
    assert(a + first + b + second + c =~= a + (first + (b + (second + c))));
    lemma_plain_stays(a, first + (b + (second + c)), first, x);
    lemma_place_is_filled(b + (second + c), first, x);
    lemma_plain_stays(b, second + c, first, x);
    lemma_other_place_stays(second, c, first, x, k);
    lemma_nothing_is_left(c, first, x);
    lemma_plain_stays(a, x + (b + (second + c)), second, y);
    lemma_plain_stays(x, b + (second + c), second, y);
    lemma_plain_stays(b, second + c, second, y);
    lemma_place_is_filled(c, second, y);
    lemma_nothing_is_left(c, second, y);
    assert(a + (x + (b + (y + c))) =~= a + x + b + y + c);
}

/// The advice on how to search names the tool that searches where the template has the place for
/// it, and the tool that reads where it has the place for that.
pub proof fn search_and_read_are_named(
    templates: PromptTemplates,
    tools: Capabilities,
    a: Seq<char>,
    b: Seq<char>,
    c: Seq<char>,
)
    requires
        templates.search_then_inspect@ == a + "{{SEARCH_PROVIDER}}"@ + b + "{{READ_PROVIDER}}"@ + c,
        !a.contains('{'),
        !b.contains('{'),
        !c.contains('{'),
        !primary(tools, ToolSemanticCapability::ContentSearch).contains('{'),
    ensures
        rendered(WorkflowRender::SearchThenInspect, templates, tools) matches Ok(pack) && ({
            let search = tools[ToolSemanticCapability::ContentSearch].primary.tool@;
            let read = tools[ToolSemanticCapability::PathRead].primary.tool@;
            &&& pack.content == trimmed(a + search + b + read + c)
            &&& pack.referenced_tools == set![search, read]
            &&& pack.consumed_facts == set![
                FactView::ToolCapability(ToolSemanticCapability::ContentSearch),
                FactView::ToolCapability(ToolSemanticCapability::PathRead),
            ]
        }),
{
    reveal_strlit("{{SEARCH_PROVIDER}}");
    reveal_strlit("{{READ_PROVIDER}}");
    lemma_two_places(
        a,
        "{{SEARCH_PROVIDER}}"@,
        b,
        "{{READ_PROVIDER}}"@,
        c,
        primary(tools, ToolSemanticCapability::ContentSearch),
        primary(tools, ToolSemanticCapability::PathRead),
        2,
    );
}

/// The advice on how to edit names the tool that reads what is to be edited and the tool that
/// edits, each in its place, and where a tool replaces whole files it says what that does.
pub proof fn reader_and_editor_are_named(
    templates: PromptTemplates,
    tools: Capabilities,
    a: Seq<char>,
    b: Seq<char>,
    c: Seq<char>,
)
    requires
        templates.anchored_edit@ == a + "{{SNAPSHOT_PROVIDER}}"@ + b + "{{EDIT_PROVIDER}}"@ + c,
        !a.contains('{'),
        !b.contains('{'),
        !c.contains('{'),
        !primary(tools, ToolSemanticCapability::EditableSnapshotRead).contains('{'),
    ensures
        rendered(WorkflowRender::AnchoredEdit, templates, tools) matches Ok(pack) && ({
            let read = tools[ToolSemanticCapability::EditableSnapshotRead].primary.tool@;
            let edit = tools[ToolSemanticCapability::AnchoredEdit].primary.tool@;
            let write = tools[ToolSemanticCapability::FileOverwrite].primary.tool@;
            let writes = tools.contains_key(ToolSemanticCapability::FileOverwrite);
            &&& pack.content == trimmed(
                a + read + b + edit + c + if writes {
                    "\nA successful "@ + write
                        + " overwrite invalidates older snapshot headers for that file."@
                } else {
                    seq![]
                },
            )
            &&& pack.referenced_tools.contains(read) && pack.referenced_tools.contains(edit)
            &&& writes ==> pack.referenced_tools.contains(write)
            &&& pack.consumed_facts.contains(
                FactView::ToolCapability(ToolSemanticCapability::FileOverwrite),
            ) == writes
        }),
{
    reveal_strlit("{{SNAPSHOT_PROVIDER}}");
    reveal_strlit("{{EDIT_PROVIDER}}");
    let read = primary(tools, ToolSemanticCapability::EditableSnapshotRead);
    let edit = primary(tools, ToolSemanticCapability::AnchoredEdit);
    lemma_two_places(
        a,
        "{{SNAPSHOT_PROVIDER}}"@,
        b,
        "{{EDIT_PROVIDER}}"@,
        c,
        read,
        edit,
        2,
    );
    let filled = a + read + b + edit + c;
    let write = primary(tools, ToolSemanticCapability::FileOverwrite);
    let more = "\nA successful "@ + write
        + " overwrite invalidates older snapshot headers for that file."@;
    assert(filled + "\nA successful "@ + write
        + " overwrite invalidates older snapshot headers for that file."@ =~= filled + more);
    assert(filled + seq![] =~= filled);
}

/// The advice on plans names the tools that draft, confirm and clear a plan, each in its place,
/// and behind that, where there is one, the tool that keeps the list of what is to do.
pub proof fn planning_tools_are_named(
    templates: PromptTemplates,
    tools: Capabilities,
    a: Seq<char>,
    b: Seq<char>,
    c: Seq<char>,
    d: Seq<char>,
)
    requires
        templates.plan_lifecycle@ == a + "{{DRAFT_PROVIDER}}"@ + b + "{{CONFIRM_PROVIDER}}"@ + c
            + "{{CLEAR_PROVIDER}}"@ + d,
        !a.contains('{'),
        !b.contains('{'),
        !c.contains('{'),
        !d.contains('{'),
        !primary(tools, ToolSemanticCapability::PlanDraft).contains('{'),
        !primary(tools, ToolSemanticCapability::PlanConfirm).contains('{'),
    ensures
        rendered(WorkflowRender::PlanLifecycle, templates, tools) matches Ok(pack) && ({
            let draft = tools[ToolSemanticCapability::PlanDraft].primary.tool@;
            let confirm = tools[ToolSemanticCapability::PlanConfirm].primary.tool@;
            let clear = tools[ToolSemanticCapability::PlanClear].primary.tool@;
            let todo = tools[ToolSemanticCapability::TodoState].primary.tool@;
            let lists = tools.contains_key(ToolSemanticCapability::TodoState);
            &&& pack.content == trimmed(a + draft + b + confirm + c + clear + d) + if lists {
                "\nAfter confirmation, use "@ + todo + " to track execution progress."@
            } else {
                seq![]
            }
            &&& pack.referenced_tools.contains(draft) && pack.referenced_tools.contains(confirm)
                && pack.referenced_tools.contains(clear)
            &&& lists ==> pack.referenced_tools.contains(todo)
            &&& pack.consumed_facts.contains(
                FactView::ToolCapability(ToolSemanticCapability::TodoState),
            ) == lists
        }),
{
    reveal_strlit("{{DRAFT_PROVIDER}}");
    reveal_strlit("{{CONFIRM_PROVIDER}}");
    reveal_strlit("{{CLEAR_PROVIDER}}");
    let p1 = "{{DRAFT_PROVIDER}}"@;
    let p2 = "{{CONFIRM_PROVIDER}}"@;
    let p3 = "{{CLEAR_PROVIDER}}"@;
    let x = primary(tools, ToolSemanticCapability::PlanDraft);
    let y = primary(tools, ToolSemanticCapability::PlanConfirm);
    let z = primary(tools, ToolSemanticCapability::PlanClear);
    let tail = c + (p3 + d);
    assert(a + p1 + b + p2 + c + p3 + d =~= a + (p1 + (b + (p2 + tail))));
    lemma_plain_stays(a, p1 + (b + (p2 + tail)), p1, x);
    lemma_place_is_filled(b + (p2 + tail), p1, x);
    lemma_plain_stays(b, p2 + tail, p1, x);
    lemma_other_place_stays(p2, tail, p1, x, 2);
    lemma_plain_stays(c, p3 + d, p1, x);
    lemma_other_place_stays(p3, d, p1, x, 2);
    lemma_nothing_is_left(d, p1, x);
    lemma_plain_stays(a, x + (b + (p2 + tail)), p2, y);
    lemma_plain_stays(x, b + (p2 + tail), p2, y);
    lemma_plain_stays(b, p2 + tail, p2, y);
    lemma_place_is_filled(tail, p2, y);
    lemma_plain_stays(c, p3 + d, p2, y);
    lemma_other_place_stays(p3, d, p2, y, 3);
    lemma_nothing_is_left(d, p2, y);
    lemma_plain_stays(a, x + (b + (y + tail)), p3, z);
    lemma_plain_stays(x, b + (y + tail), p3, z);
    lemma_plain_stays(b, y + tail, p3, z);
    lemma_plain_stays(y, tail, p3, z);
    lemma_plain_stays(c, p3 + d, p3, z);
    lemma_place_is_filled(d, p3, z);
    lemma_nothing_is_left(d, p3, z);
    let filled = a + x + b + y + c + z + d;
    assert(a + (x + (b + (y + (c + (z + d))))) =~= filled);
    assert(trimmed(filled) + seq![] =~= trimmed(filled));
}

/// The tools to fall back on are those of that tier among the providers, each one and in their
/// order.
pub proof fn fallbacks_are_those_of_their_tier(providers: Seq<ToolProvider>)
    ensures
        fallback_tools(providers, providers.len()) == providers.filter(
            |p: ToolProvider| p.tier == ProviderTier::Fallback,
        ).map_values(|p: ToolProvider| p.tool@),
    decreases providers.len(),
{
    reveal(Seq::filter);
    let last_resort = |p: ToolProvider| p.tier == ProviderTier::Fallback;
    let name = |p: ToolProvider| p.tool@;
    if providers.len() > 0 {
        let less = providers.drop_last();
        fallbacks_are_those_of_their_tier(less);
        lemma_fallbacks_of_prefix(providers, less.len());
        if last_resort(providers.last()) {
            assert(less.filter(last_resort).push(providers.last()).map_values(name)
                =~= less.filter(last_resort).map_values(name).push(providers.last().tool@));
        }
    } else {
        assert(providers.filter(last_resort).map_values(name) =~= seq![]);
    }
}

proof fn lemma_fallbacks_of_prefix(providers: Seq<ToolProvider>, n: nat)
    requires
        n < providers.len(),
    ensures
        fallback_tools(providers, n) == fallback_tools(providers.drop_last(), n),
    decreases n,
{
    if n > 0 {
        lemma_fallbacks_of_prefix(providers, (n - 1) as nat);
    }
}

/// What a line of advice on `c` says: the tool that comes first and every tool behind it that
/// serves only where it does not.
spec fn tells_route(line: Seq<char>, tools: Capabilities, c: ToolSemanticCapability) -> bool {
    let names = fallback_tools(tools[c].alternatives@, tools[c].alternatives@.len());
    &&& is_part_of(tools[c].primary.tool@, line)
    &&& is_part_of(joined(names, ", "@), line)
}

/// Whether `more` has all that `less` has, with its lines in front.
spec fn adds_to(more: AdviceView, less: AdviceView) -> bool {
    &&& less.lines.is_prefix_of(more.lines)
    &&& less.tools.subset_of(more.tools)
    &&& less.facts.subset_of(more.facts)
}

/// Whether the advice has a line on `c`, and counts its tools and the fact among its own.
spec fn has_route(advice: AdviceView, tools: Capabilities, c: ToolSemanticCapability) -> bool {
    let names = fallback_tools(tools[c].alternatives@, tools[c].alternatives@.len());
    &&& exists|i: int|
        0 <= i < advice.lines.len() && tells_route(#[trigger] advice.lines[i], tools, c)
    &&& advice.tools.contains(tools[c].primary.tool@)
    &&& names.to_set().subset_of(advice.tools)
    &&& advice.facts.contains(FactView::SpecializedWithFallback(c))
}

proof fn lemma_route_is_kept(
    more: AdviceView,
    less: AdviceView,
    tools: Capabilities,
    c: ToolSemanticCapability,
)
    requires
        adds_to(more, less),
        has_route(less, tools, c),
    ensures
        has_route(more, tools, c),
{
    let i = choose|i: int|
        0 <= i < less.lines.len() && tells_route(#[trigger] less.lines[i], tools, c);
    assert(more.lines[i] == less.lines[i]);
}

proof fn lemma_route_is_added(
    advice: AdviceView,
    tools: Capabilities,
    c: ToolSemanticCapability,
    label: Seq<char>,
)
    ensures
        ({
            let after = with_route(advice, tools, c, label);
            let routed = tools.contains_key(c) && tools[c].routable_spec();
            &&& adds_to(after, advice)
            &&& routed ==> has_route(after, tools, c)
            &&& after.lines.len() == advice.lines.len() + if routed {
                1int
            } else {
                0
            }
            &&& forall|f: FactView| #[trigger]
                after.facts.contains(f) ==> advice.facts.contains(f) || (routed && f
                    == FactView::SpecializedWithFallback(c))
        }),
{
    let after = with_route(advice, tools, c, label);
    if tools.contains_key(c) && tools[c].routable_spec() {
        let names = fallback_tools(tools[c].alternatives@, tools[c].alternatives@.len());
        let tool = tools[c].primary.tool@;
        let end = " only when shell semantics are genuinely required."@;
        let rest = joined(names, ", "@);
        let line = after.lines.last();
        let head = "- For "@ + label + ", prefer "@;
        middle_is_part(head, tool, ". Use "@ + rest + end);
        assert(line =~= head + tool + (". Use "@ + rest + end));
        middle_is_part(head + tool + ". Use "@, rest, end);
        assert(tells_route(after.lines[advice.lines.len() as int], tools, c));
    }
}

proof fn lemma_lines_are_told(head: Seq<char>, advice: AdviceView, i: int, part: Seq<char>)
    requires
        0 <= i < advice.lines.len(),
        is_part_of(part, advice.lines[i]),
    ensures
        is_part_of(part, advice_pack(head, advice).content),
{
    joined_holds_each_part(advice.lines, "\n"@, i);
    let lines = joined(advice.lines, "\n"@);
    part_of_part(part, advice.lines[i], lines);
    middle_is_part(trimmed(head) + "\n"@, lines, seq![]);
    assert(trimmed(head) + "\n"@ + lines + seq![] =~= advice_pack(head, advice).content);
    part_of_part(part, lines, advice_pack(head, advice).content);
}

/// Whether tools of `c` are routed: a special one first and one to fall back on.
pub open spec fn is_routed(tools: Capabilities, c: ToolSemanticCapability) -> bool {
    tools.contains_key(c) && tools[c].routable_spec()
}

/// The advice on which tool to take names, for each way of reading and searching that has a
/// special tool and one to fall back on, the special one and all those to fall back on. Without
/// any of them there is no such advice.
pub proof fn routes_are_told(
    templates: PromptTemplates,
    tools: Capabilities,
    c: ToolSemanticCapability,
)
    requires
        c == ToolSemanticCapability::PathRead || c == ToolSemanticCapability::ContentSearch || c
            == ToolSemanticCapability::PathDiscovery,
    ensures
        rendered(WorkflowRender::SpecializedRouting, templates, tools) is Err <==> !is_routed(
            tools,
            ToolSemanticCapability::PathRead,
        ) && !is_routed(tools, ToolSemanticCapability::ContentSearch) && !is_routed(
            tools,
            ToolSemanticCapability::PathDiscovery,
        ),
        rendered(WorkflowRender::SpecializedRouting, templates, tools) matches Err(f) ==> f
            == RenderFault::NoRoutableBinding,
        rendered(WorkflowRender::SpecializedRouting, templates, tools) matches Ok(pack) ==> {
            let names = fallback_tools(tools[c].alternatives@, tools[c].alternatives@.len());
            &&& trimmed(templates.specialized_provider_routing@).is_prefix_of(pack.content)
            &&& pack.consumed_facts.contains(FactView::SpecializedWithFallback(c)) == is_routed(
                tools,
                c,
            )
            &&& is_routed(tools, c) ==> {
                &&& is_part_of(tools[c].primary.tool@, pack.content)
                &&& is_part_of(joined(names, ", "@), pack.content)
                &&& pack.referenced_tools.contains(tools[c].primary.tool@)
                &&& names.to_set().subset_of(pack.referenced_tools)
            }
        },
{
    let none = AdviceView { lines: seq![], tools: Set::empty(), facts: Set::empty() };
    let c1 = ToolSemanticCapability::PathRead;
    let c2 = ToolSemanticCapability::ContentSearch;
    let c3 = ToolSemanticCapability::PathDiscovery;
    let one = with_route(none, tools, c1, "path reading"@);
    let two = with_route(one, tools, c2, "content search"@);
    let all = with_route(two, tools, c3, "path discovery"@);
    lemma_route_is_added(none, tools, c1, "path reading"@);
    lemma_route_is_added(one, tools, c2, "content search"@);
    lemma_route_is_added(two, tools, c3, "path discovery"@);
    assert(all == routing_advice(tools));
    if is_routed(tools, c1) {
        lemma_route_is_kept(two, one, tools, c1);
        lemma_route_is_kept(all, two, tools, c1);
    }
    if is_routed(tools, c2) {
        lemma_route_is_kept(all, two, tools, c2);
    }
    let head = templates.specialized_provider_routing@;
    if is_routed(tools, c) {
        let names = fallback_tools(tools[c].alternatives@, tools[c].alternatives@.len());
        assert(has_route(all, tools, c));
        let i = choose|i: int|
            0 <= i < all.lines.len() && tells_route(#[trigger] all.lines[i], tools, c);
        lemma_lines_are_told(head, all, i, tools[c].primary.tool@);
        lemma_lines_are_told(head, all, i, joined(names, ", "@));
    }
}

proof fn lemma_mutation_is_added(
    advice: AdviceView,
    tools: Capabilities,
    c: ToolSemanticCapability,
    before: Seq<char>,
    between: Seq<char>,
    after: Seq<char>,
)
    ensures
        ({
            let more = with_mutation(advice, tools, c, before, between, after);
            let shell = tools[ToolSemanticCapability::ShellExec].primary.tool@;
            let distinct = tools.contains_key(c) && tools[c].primary.tool@ != shell;
            &&& adds_to(more, advice)
            &&& distinct ==> {
                &&& more.lines.len() == advice.lines.len() + 1
                &&& is_part_of(tools[c].primary.tool@ + between + shell, more.lines.last())
                &&& more.tools.contains(tools[c].primary.tool@)
                &&& more.facts.contains(FactView::ToolCapability(c))
            }
            &&& !distinct ==> more == advice
        }),
{
    let more = with_mutation(advice, tools, c, before, between, after);
    let shell = tools[ToolSemanticCapability::ShellExec].primary.tool@;
    if tools.contains_key(c) && tools[c].primary.tool@ != shell {
        let middle = tools[c].primary.tool@ + between + shell;
        middle_is_part(before, middle, after);
        assert(more.lines.last() =~= before + middle + after);
    }
}

/// Whether the tool that comes first for `c` is another than the shell.
pub open spec fn is_beside_shell(tools: Capabilities, c: ToolSemanticCapability) -> bool {
    tools.contains_key(c) && tools[c].primary.tool@
        != tools[ToolSemanticCapability::ShellExec].primary.tool@
}

/// The advice on how to change files names, for each way of changing them that has a tool other
/// than the shell, that tool and behind it the shell. Without any of them there is no such advice.
pub proof fn changing_tools_are_told(
    templates: PromptTemplates,
    tools: Capabilities,
    c: ToolSemanticCapability,
)
    requires
        c == ToolSemanticCapability::FileCreate || c == ToolSemanticCapability::FileOverwrite || c
            == ToolSemanticCapability::AnchoredEdit,
    ensures
        rendered(WorkflowRender::SpecializedMutationRouting, templates, tools) is Err
            <==> !is_beside_shell(tools, ToolSemanticCapability::FileCreate) && !is_beside_shell(
            tools,
            ToolSemanticCapability::FileOverwrite,
        ) && !is_beside_shell(tools, ToolSemanticCapability::AnchoredEdit),
        rendered(WorkflowRender::SpecializedMutationRouting, templates, tools) matches Err(f) ==> f
            == RenderFault::NoDistinctProvider,
        rendered(WorkflowRender::SpecializedMutationRouting, templates, tools) matches Ok(pack) ==> {
            let shell = tools[ToolSemanticCapability::ShellExec].primary.tool@;
            let between = if c == ToolSemanticCapability::AnchoredEdit {
                " with its anchored protocol rather than mutation commands through "@
            } else {
                " rather than "@
            };
            &&& trimmed(templates.specialized_mutation_routing@).is_prefix_of(pack.content)
            &&& pack.referenced_tools.contains(shell)
            &&& pack.consumed_facts.contains(FactView::ToolCapability(c)) == is_beside_shell(
                tools,
                c,
            )
            &&& is_beside_shell(tools, c) ==> {
                &&& is_part_of(tools[c].primary.tool@ + between + shell, pack.content)
                &&& pack.referenced_tools.contains(tools[c].primary.tool@)
            }
        },
{
    let none = AdviceView {
        lines: seq![],
        tools: set![primary(tools, ToolSemanticCapability::ShellExec)],
        facts: set![FactView::ToolCapability(ToolSemanticCapability::ShellExec)],
    };
    let c1 = ToolSemanticCapability::FileCreate;
    let c2 = ToolSemanticCapability::FileOverwrite;
    let c3 = ToolSemanticCapability::AnchoredEdit;
    let than = " rather than "@;
    let through = " with its anchored protocol rather than mutation commands through "@;
    let b1 = "- For file creation, use "@;
    let b2 = "- For full-file replacement, use "@;
    let b3 = "- For changes to existing file content, use "@;
    let heredoc = " redirection or heredocs."@;
    let sed = " such as sed or awk."@;
    let one = with_mutation(none, tools, c1, b1, than, heredoc);
    let two = with_mutation(one, tools, c2, b2, than, heredoc);
    let all = with_mutation(two, tools, c3, b3, through, sed);
    lemma_mutation_is_added(none, tools, c1, b1, than, heredoc);
    lemma_mutation_is_added(one, tools, c2, b2, than, heredoc);
    lemma_mutation_is_added(two, tools, c3, b3, through, sed);
    assert(all == mutation_advice(tools));
    let head = templates.specialized_mutation_routing@;
    if is_beside_shell(tools, c) {
        let shell = tools[ToolSemanticCapability::ShellExec].primary.tool@;
        let then = if c == c1 {
            one
        } else if c == c2 {
            two
        } else {
            all
        };
        let i = then.lines.len() - 1;
        assert(all.lines[i] == then.lines[i]);
        let between = if c == c3 {
            through
        } else {
            than
        };
        lemma_lines_are_told(head, all, i, tools[c].primary.tool@ + between + shell);
    }
}

/// The advice on running Python names the tool of the host and the one of the sandbox, each
/// where there is one and for what it is.
pub proof fn python_tools_are_told(templates: PromptTemplates, tools: Capabilities)
    ensures
        rendered(WorkflowRender::PythonRouting, templates, tools) matches Ok(pack) && ({
            let c1 = ToolSemanticCapability::HostPythonExec;
            let c2 = ToolSemanticCapability::SandboxedPythonExec;
            &&& trimmed(templates.python_execution_routing@).is_prefix_of(pack.content)
            &&& tools.contains_key(c1) ==> is_part_of(
                tools[c1].primary.tool@ + " provides host execution."@,
                pack.content,
            ) && pack.referenced_tools.contains(tools[c1].primary.tool@)
            &&& tools.contains_key(c2) ==> is_part_of(
                tools[c2].primary.tool@ + " provides sandboxed execution."@,
                pack.content,
            ) && pack.referenced_tools.contains(tools[c2].primary.tool@)
            &&& pack.consumed_facts.contains(FactView::ToolCapability(c1)) == tools.contains_key(c1)
            &&& pack.consumed_facts.contains(FactView::ToolCapability(c2)) == tools.contains_key(c2)
        }),
{
    let c1 = ToolSemanticCapability::HostPythonExec;
    let c2 = ToolSemanticCapability::SandboxedPythonExec;
    let none = AdviceView { lines: seq![], tools: Set::empty(), facts: Set::empty() };
    let one = with_provider(none, tools, c1, "host execution"@);
    let all = with_provider(one, tools, c2, "sandboxed execution"@);
    assert(all == python_advice(tools));
    let head = templates.python_execution_routing@;
    let none_left = Seq::<char>::empty();
    reveal_strlit(" provides ");
    reveal_strlit(".");
    reveal_strlit("host execution");
    reveal_strlit("sandboxed execution");
    reveal_strlit(" provides host execution.");
    reveal_strlit(" provides sandboxed execution.");
    assert(" provides "@ + "host execution"@ + "."@ =~= " provides host execution."@);
    assert(" provides "@ + "sandboxed execution"@ + "."@ =~= " provides sandboxed execution."@);
    if tools.contains_key(c1) {
        let part = tools[c1].primary.tool@ + " provides host execution."@;
        assert(all.lines[0] == one.lines[0]);
        assert(all.lines[0] =~= "- "@ + part + none_left);
        lemma_lines_are_told(head, all, 0, part);
    }
    if tools.contains_key(c2) {
        let part = tools[c2].primary.tool@ + " provides sandboxed execution."@;
        assert(all.lines.last() =~= "- "@ + part + none_left);
        lemma_lines_are_told(head, all, all.lines.len() - 1, part);
    }
}

/// A workflow that comes with the library asks for what its advice is about: where it is met
/// there is advice, which uses the facts that were asked for, and for reading and searching there
/// is advice only where it is met.
pub proof fn builtin_asks_for_what_it_uses(templates: PromptTemplates, tools: Capabilities, i: int)
    requires
        0 <= i < builtin_workflows().len(),
    ensures
        ({
            let workflow = builtin_workflows()[i];
            let met = workflow.requirement.satisfied(base_facts(tools));
            let advice = rendered(workflow.render, templates, tools);
            &&& workflow.render == WorkflowRender::SpecializedRouting ==> (met <==> advice is Ok)
            &&& workflow.render == WorkflowRender::PythonRouting ==> (met <==> advice->Ok_0.consumed_facts
                != Set::<FactView>::empty())
            &&& workflow.render == WorkflowRender::SpecializedMutationRouting && tools.contains_key(
                ToolSemanticCapability::ShellExec,
            ) && advice is Ok ==> met
            &&& workflow.render == WorkflowRender::SpecializedMutationRouting && met
                ==> tools.contains_key(ToolSemanticCapability::ShellExec)
            &&& met && (workflow.render == WorkflowRender::SearchThenInspect || workflow.render
                == WorkflowRender::AnchoredEdit || workflow.render == WorkflowRender::PlanLifecycle)
                ==> workflow.requirement.named().to_set().subset_of(advice->Ok_0.consumed_facts)
        }),
        builtin_workflows()[i].tag == builtin_workflows()[i].id,
        builtin_workflows()[i].group is None,
{
    let workflow = builtin_workflows()[i];
    let named = workflow.requirement.named();
    let base = base_facts(tools);
    if workflow.render == WorkflowRender::SpecializedRouting {
        routes_are_told(templates, tools, ToolSemanticCapability::PathRead);
        assert(base.contains(named[0]) == is_routed(tools, ToolSemanticCapability::PathRead));
        assert(base.contains(named[1]) == is_routed(tools, ToolSemanticCapability::ContentSearch));
        assert(base.contains(named[2]) == is_routed(tools, ToolSemanticCapability::PathDiscovery));
    }
    if workflow.render == WorkflowRender::PythonRouting {
        python_tools_are_told(templates, tools);
        let used = rendered(workflow.render, templates, tools)->Ok_0.consumed_facts;
        assert(base.contains(named[0]) == used.contains(named[0]));
        assert(base.contains(named[1]) == used.contains(named[1]));
        if !base.contains(named[0]) && !base.contains(named[1]) {
            assert(used =~= Set::<FactView>::empty());
        }
    }
    if workflow.render == WorkflowRender::SpecializedMutationRouting {
        changing_tools_are_told(templates, tools, ToolSemanticCapability::FileCreate);
        let all = workflow.requirement->all;
        let any = workflow.requirement->AllWithAny_any;
        assert(base.contains(all[0]) == tools.contains_key(ToolSemanticCapability::ShellExec));
        assert(base.contains(any[0]) == tools.contains_key(ToolSemanticCapability::FileCreate));
        assert(base.contains(any[1]) == tools.contains_key(ToolSemanticCapability::FileOverwrite));
        assert(base.contains(any[2]) == tools.contains_key(ToolSemanticCapability::AnchoredEdit));
    }
    if workflow.render == WorkflowRender::SearchThenInspect || workflow.render
        == WorkflowRender::AnchoredEdit || workflow.render == WorkflowRender::PlanLifecycle {
        let used = rendered(workflow.render, templates, tools)->Ok_0.consumed_facts;
        assert forall|f: FactView| named.to_set().contains(f) implies used.contains(f) by {
            let k = named.index_of(f);
            assert(named[k] == f);
            assert(k == 0 || k == 1 || k == 2);
        }
    }
}

} // verus!
