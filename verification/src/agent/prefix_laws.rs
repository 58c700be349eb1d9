//! What holds of the part of a request that stays the same.

use crate::agent::prefix::{
    build_events, dependencies_of, fresh_prefix, prefix_fingerprint, recorded_prefix,
    workflows_fingerprint, PrefixSource,
};
use crate::hash::text_digest;
use crate::json::{field_is, field_of, json_text, json_views, JsonView};
use crate::prompt::builder::{built, session_workflows};
use crate::prompt::document::document_text;
use crate::prompt::workflows::{ids_of, WorkflowView};
use crate::text::has_text;
use crate::text_laws::is_part_of;
use vstd::prelude::*;

verus! {

/// The fingerprint is that of one text, which begins with the system prompt, ends with what it
/// was built from and holds the tools between the two.
pub proof fn fingerprint_is_of_all_parts(
    system_prompt: Seq<char>,
    tools_json: Seq<JsonView>,
    dependencies: Seq<char>,
)
    ensures
        exists|whole: Seq<char>|
            {
                &&& prefix_fingerprint(system_prompt, tools_json, dependencies)
                    == #[trigger] text_digest(whole)
                &&& system_prompt.is_prefix_of(whole)
                &&& dependencies.is_suffix_of(whole)
                &&& is_part_of(
                    "\0"@ + json_text(JsonView::Array(tools_json)) + "\0"@,
                    whole,
                )
                &&& whole.len() == system_prompt.len() + json_text(
                    JsonView::Array(tools_json),
                ).len() + dependencies.len() + 2
            },
{
    let tools = json_text(JsonView::Array(tools_json));
    let whole = system_prompt + "\0"@ + tools + "\0"@ + dependencies;
    reveal_strlit("\0");
    let middle = "\0"@ + tools + "\0"@;
    assert(whole =~= system_prompt + middle + dependencies);
    assert(whole.take(system_prompt.len() as int) =~= system_prompt);
    assert(whole.skip(whole.len() - dependencies.len()) =~= dependencies);
    assert(prefix_fingerprint(system_prompt, tools_json, dependencies) == text_digest(whole));
}

/// What a prefix was built from is written down with the four fingerprints in their order.
pub proof fn dependencies_hold_all_fingerprints(
    capabilities: Seq<char>,
    surface: Seq<char>,
    tools: Seq<char>,
    workflows: Seq<char>,
)
    ensures
        ({
            let all = dependencies_of(capabilities, surface, tools, workflows);
            let first = "mink-prefix-dependencies-v2\0"@.len() as int;
            let second = first + capabilities.len() + 1;
            let third = second + surface.len() + 1;
            let fourth = third + tools.len() + 1;
            &&& all.subrange(first, first + capabilities.len()) == capabilities
            &&& all.subrange(second, second + surface.len()) == surface
            &&& all.subrange(third, third + tools.len()) == tools
            &&& all.skip(fourth) == workflows
        }),
{
    reveal_strlit("\0");
    let all = dependencies_of(capabilities, surface, tools, workflows);
    let first = "mink-prefix-dependencies-v2\0"@.len() as int;
    let second = first + capabilities.len() + 1;
    let third = second + surface.len() + 1;
    let fourth = third + tools.len() + 1;
    assert(all.subrange(first, first + capabilities.len()) =~= capabilities);
    assert(all.subrange(second, second + surface.len()) =~= surface);
    assert(all.subrange(third, third + tools.len()) =~= tools);
    assert(all.skip(fourth) =~= workflows);
}

/// A prefix has the system prompt that was built and the tools as they were given, and depends on
/// the fingerprints of its source.
pub proof fn prefix_is_made_of_its_source(source: PrefixSource)
    ensures
        ({
            let prefix = fresh_prefix(source);
            let before = "mink-prefix-dependencies-v2\0"@.len() as int;
            &&& built(source.builder) matches Ok(document) ==> prefix.system_prompt
                == document_text(document)
            &&& prefix.tools_json == json_views(source.tools_json@)
            &&& prefix.dependency_fingerprint.subrange(
                before,
                before + source.capability_fingerprint@.len(),
            ) == source.capability_fingerprint@
            &&& is_part_of(source.surface_fingerprint@, prefix.dependency_fingerprint)
            &&& is_part_of(source.tool_fingerprint@, prefix.dependency_fingerprint)
        }),
{
    let prefix = fresh_prefix(source);
    let all = prefix.dependency_fingerprint;
    let a = source.capability_fingerprint@;
    let b = source.surface_fingerprint@;
    let c = source.tool_fingerprint@;
    let d = workflows_fingerprint(source.builder);
    dependencies_hold_all_fingerprints(a, b, c, d);
    let head = "mink-prefix-dependencies-v2\0"@;
    assert(all =~= (head + a + "\0"@) + b + ("\0"@ + c + "\0"@ + d));
    assert(all =~= (head + a + "\0"@ + b + "\0"@) + c + ("\0"@ + d));
}

/// What is logged of a prefix are first the names of the workflows that take part and then the
/// prefix itself.
pub proof fn prefix_is_logged(source: PrefixSource)
    ensures
        ({
            let log = build_events(source);
            let prefix = fresh_prefix(source);
            &&& log.len() == 2
            &&& log[0] is PromptWorkflowResolution
            &&& log[0]->active_workflows == session_workflows(
                source.builder.tool_capabilities@,
            ).0.map_values(|w: WorkflowView| w.id)
            &&& log[1] is PrefixSnapshot
            &&& log[1]->system_prompt == prefix.system_prompt
            &&& log[1]->tools_json == prefix.tools_json
            &&& log[1]->fingerprint == prefix.fingerprint
            &&& log[1]->dependency_fingerprint == prefix.dependency_fingerprint
        }),
{
    let workflows = session_workflows(source.builder.tool_capabilities@).0;
    assert(ids_of(workflows) =~= workflows.map_values(
        |w: WorkflowView| w.id,
    ));
}

/// Whether an entry records a prefix with the prompt and the tools.
pub open spec fn records(event: JsonView, prompt: Seq<char>, tools: Seq<JsonView>) -> bool {
    &&& field_is(event, "type"@, "prefix_snapshot"@)
    &&& field_of(event, "system_prompt"@) == Some(JsonView::Text(prompt))
    &&& field_of(event, "tools_json"@) == Some(JsonView::Array(tools))
}

/// Whether an entry is passed over: it records no prefix, or one with a prompt of an older kind.
pub open spec fn is_passed_over(event: JsonView) -> bool {
    !field_is(event, "type"@, "prefix_snapshot"@) || exists|prompt: Seq<char>, tools: Seq<JsonView>|
        #[trigger] records(event, prompt, tools) && has_text(prompt, "<system-conventions>"@)
}

/// The prefix that is found in a log is the first one in it that is not of an older kind, with
/// the prompt and the tools that were recorded.
pub proof fn first_recorded_prefix_is_found(
    events: Seq<JsonView>,
    i: int,
    prompt: Seq<char>,
    tools: Seq<JsonView>,
)
    requires
        0 <= i < events.len(),
        records(events[i], prompt, tools),
        !has_text(prompt, "<system-conventions>"@),
        forall|j: int| 0 <= j < i ==> is_passed_over(#[trigger] events[j]),
    ensures
        recorded_prefix(events) == Some((prompt, tools)),
    decreases events.len(),
{
    if i > 0 {
        assert(is_passed_over(events[0]));
        let rest = events.drop_first();
        assert forall|j: int| 0 <= j < i - 1 implies is_passed_over(#[trigger] rest[j]) by {
            assert(rest[j] == events[j + 1]);
        }
        first_recorded_prefix_is_found(rest, i - 1, prompt, tools);
    }
}

/// In a log in which every entry is passed over no prefix is found.
pub proof fn no_prefix_is_made_up(events: Seq<JsonView>)
    requires
        forall|j: int| 0 <= j < events.len() ==> is_passed_over(#[trigger] events[j]),
    ensures
        recorded_prefix(events) is None,
    decreases events.len(),
{
    if events.len() > 0 {
        assert(is_passed_over(events[0]));
        let rest = events.drop_first();
        assert forall|j: int| 0 <= j < rest.len() implies is_passed_over(#[trigger] rest[j]) by {
            assert(rest[j] == events[j + 1]);
        }
        no_prefix_is_made_up(rest);
    }
}

} // verus!
