//! The part of a request that stays the same from one to the next.

use crate::events::entry::{EventLog, EventView};
use crate::events::laws::log_is_read_back;
use crate::events::model::{event_json, event_of};
use crate::hash::{digest_text, text_digest};
use crate::json::{
    clone_items, field_is, field_of, json_text, json_views, lemma_array_view, Json, JsonView,
};
use crate::json_parse::{parse_lines, parsed_lines};
use crate::prompt::builder::{built, session_workflows, Build, BuildFault, Builder};
use crate::prompt::builtin::builtin_is_valid;
use crate::prompt::document::document_text;
use crate::prompt::workflows::{
    fingerprint_text, ids_of, reference_views, PromptWorkflowResolver, PromptWorkflowSpec,
    ResolvedPromptWorkflows,
};
use crate::text::{contains, has_text, lines, lines_of, same_text, views};
use vstd::prelude::*;

verus! {

/// What stays the same: the system prompt and the tools.
pub struct PrefixView {
    pub system_prompt: Seq<char>,
    pub tools_json: Seq<JsonView>,
    pub dependency_fingerprint: Seq<char>,
    pub fingerprint: Seq<char>,
}

/// The fingerprint of what stays the same.
pub open spec fn prefix_fingerprint(
    system_prompt: Seq<char>,
    tools_json: Seq<JsonView>,
    dependency_fingerprint: Seq<char>,
) -> Seq<char> {
    text_digest(
        system_prompt + "\0"@ + json_text(JsonView::Array(tools_json)) + "\0"@
            + dependency_fingerprint,
    )
}

fn fingerprint_of(
    system_prompt: &str,
    tools_json: &Vec<Json>,
    dependency_fingerprint: &str,
) -> (r: String)
    ensures
        r@ == prefix_fingerprint(system_prompt@, json_views(tools_json@), dependency_fingerprint@),
{
    let copies: Vec<Json> = clone_items(tools_json);
    proof {
        lemma_array_view(copies);
    }
    let tools: String = Json::Array(copies).to_text();
    let text: String = system_prompt.to_owned().concat("\0").concat(tools.as_str()).concat(
        "\0",
    ).concat(dependency_fingerprint);
    digest_text(text.as_str())
}

/// What stays the same, with its fingerprint.
#[derive(Debug)]
pub struct ImmutablePrefix {
    pub system_prompt: String,
    pub tools_json: Vec<Json>,
    pub dependency_fingerprint: String,
    pub fingerprint: String,
}

impl View for ImmutablePrefix {
    type V = PrefixView;

    open spec fn view(&self) -> PrefixView {
        PrefixView {
            system_prompt: self.system_prompt@,
            tools_json: json_views(self.tools_json@),
            dependency_fingerprint: self.dependency_fingerprint@,
            fingerprint: self.fingerprint@,
        }
    }
}

impl PrefixView {
    /// Whether the fingerprint is that of what it stands beside.
    pub open spec fn sound(self) -> bool {
        self.fingerprint == prefix_fingerprint(
            self.system_prompt,
            self.tools_json,
            self.dependency_fingerprint,
        )
    }
}

impl ImmutablePrefix {
    /// What stays the same, with its own fingerprint.
    pub fn new(system_prompt: String, tools_json: Vec<Json>, dependency_fingerprint: String) -> (r:
        ImmutablePrefix)
        ensures
            r@ == (PrefixView {
                system_prompt: system_prompt@,
                tools_json: json_views(tools_json@),
                dependency_fingerprint: dependency_fingerprint@,
                fingerprint: prefix_fingerprint(
                    system_prompt@,
                    json_views(tools_json@),
                    dependency_fingerprint@,
                ),
            }),
            r@.sound(),
    {
        let fingerprint: String = fingerprint_of(
            system_prompt.as_str(),
            &tools_json,
            dependency_fingerprint.as_str(),
        );
        ImmutablePrefix { system_prompt, tools_json, dependency_fingerprint, fingerprint }
    }

    /// What stays the same, with a fingerprint that was written down.
    pub fn new_with_fingerprint(
        system_prompt: String,
        tools_json: Vec<Json>,
        dependency_fingerprint: String,
        fingerprint: String,
    ) -> (r: ImmutablePrefix)
        ensures
            r@ == (PrefixView {
                system_prompt: system_prompt@,
                tools_json: json_views(tools_json@),
                dependency_fingerprint: dependency_fingerprint@,
                fingerprint: fingerprint@,
            }),
    {
        ImmutablePrefix { system_prompt, tools_json, dependency_fingerprint, fingerprint }
    }

    /// Whether the fingerprint is that of what it stands beside.
    pub fn verify_fingerprint(&self) -> (r: bool)
        ensures
            r == self@.sound(),
    {
        let expected: String = fingerprint_of(
            self.system_prompt.as_str(),
            &self.tools_json,
            self.dependency_fingerprint.as_str(),
        );
        same_text(self.fingerprint.as_str(), expected.as_str())
    }
}

/// The fingerprint of all that the system prompt and the tools depend on.
pub open spec fn dependencies_of(
    capabilities: Seq<char>,
    surface: Seq<char>,
    tools: Seq<char>,
    workflows: Seq<char>,
) -> Seq<char> {
    "mink-prefix-dependencies-v2\0"@ + capabilities + "\0"@ + surface + "\0"@ + tools + "\0"@
        + workflows
}

/// What the prefix of a session is built from.
pub struct PrefixSource {
    pub builder: Builder,
    pub tools_json: Vec<Json>,
    pub capability_fingerprint: String,
    pub surface_fingerprint: String,
    pub tool_fingerprint: String,
}

/// The fingerprint of the workflows of a session.
pub open spec fn workflows_fingerprint(builder: Builder) -> Seq<char> {
    let workflows = session_workflows(builder.tool_capabilities@);
    text_digest(fingerprint_text(ids_of(workflows.0), workflows.1))
}

/// The prefix that is built anew.
pub open spec fn fresh_prefix(source: PrefixSource) -> PrefixView {
    let system_prompt = document_text(built(source.builder)->Ok_0);
    let dependencies = dependencies_of(
        source.capability_fingerprint@,
        source.surface_fingerprint@,
        source.tool_fingerprint@,
        workflows_fingerprint(source.builder),
    );
    PrefixView {
        system_prompt,
        tools_json: json_views(source.tools_json@),
        dependency_fingerprint: dependencies,
        fingerprint: prefix_fingerprint(
            system_prompt,
            json_views(source.tools_json@),
            dependencies,
        ),
    }
}

/// The entries of the log for a prefix that was built anew.
pub open spec fn build_events(source: PrefixSource) -> Seq<EventView> {
    let prefix = fresh_prefix(source);
    seq![
        EventView::PromptWorkflowResolution {
            active_workflows: ids_of(session_workflows(source.builder.tool_capabilities@).0),
            workflow_fingerprint: workflows_fingerprint(source.builder),
        },
        EventView::PrefixSnapshot {
            version: Some(1),
            fingerprint: prefix.fingerprint,
            dependency_fingerprint: prefix.dependency_fingerprint,
            system_prompt: prefix.system_prompt,
            tools_json: prefix.tools_json,
        },
    ]
}

/// The views of a sequence of entries.
pub open spec fn log_views(events: Seq<EventLog>) -> Seq<EventView> {
    events.map_values(|e: EventLog| e@)
}

/// What a request begins with, and what is to be written to the log.
pub struct EnsuredPrefix {
    pub system_prompt: String,
    pub tools_json: Vec<Json>,
    pub events: Vec<EventLog>,
}

/// Keeps what stays the same from one request to the next.
pub struct PrefixManager {
    pub cached: Option<ImmutablePrefix>,
}

impl PrefixManager {
    /// What is kept, where it is fit for use.
    pub open spec fn kept(self) -> Option<PrefixView> {
        match self.cached {
            Some(p) if p@.sound() => Some(p@),
            _ => None,
        }
    }

    /// Keeps nothing yet.
    pub fn new() -> (r: PrefixManager)
        ensures
            r.cached is None,
    {
        PrefixManager { cached: None }
    }

    /// Gives up what is kept.
    pub fn invalidate(&mut self)
        ensures
            final(self).cached is None,
    {
        self.cached = None;
    }

    /// What a request begins with: what is kept, where it is fit for use, or else what is built
    /// anew, which is kept from then on.
    pub fn ensure(&mut self, source: &PrefixSource) -> (r: Result<EnsuredPrefix, BuildFault>)
        ensures
            match r {
                Ok(e) => match old(self).kept() {
                    Some(p) => {
                        &&& e.system_prompt@ == p.system_prompt
                        &&& json_views(e.tools_json@) == p.tools_json
                        &&& e.events@.len() == 0
                        &&& final(self).kept() == Some(p)
                    },
                    None => {
                        &&& built(source.builder) is Ok
                        &&& e.system_prompt@ == fresh_prefix(*source).system_prompt
                        &&& json_views(e.tools_json@) == fresh_prefix(*source).tools_json
                        &&& log_views(e.events@) == build_events(*source)
                        &&& final(self).kept() == Some(fresh_prefix(*source))
                    },
                },
                Err(f) => {
                    &&& old(self).kept() is None
                    &&& built(source.builder) == Build::Err(f@)
                    &&& final(self).cached is None
                },
            },
    {
        match &self.cached {
            Some(prefix) => {
                if prefix.verify_fingerprint() {
                    return Ok(
                        EnsuredPrefix {
                            system_prompt: prefix.system_prompt.clone(),
                            tools_json: clone_items(&prefix.tools_json),
                            events: Vec::new(),
                        },
                    );
                }
            },
            None => {},
        }
        self.cached = None;
        let system_prompt: String = match source.builder.build_system_prompt() {
            Ok(text) => text,
            Err(f) => {
                return Err(f);
            },
        };
        proof {
            builtin_is_valid();
        }
        let resolver: PromptWorkflowResolver = PromptWorkflowResolver::builtin();
        let workflows: ResolvedPromptWorkflows<'_> = match resolver.resolve(
            &source.builder.tool_capabilities,
        ) {
            Ok(w) => w,
            Err(f) => {
                return Err(BuildFault::Workflow(f));
            },
        };
        let active_workflows: Vec<String> = workflow_ids(&workflows.ordered);
        let dependencies: String = "mink-prefix-dependencies-v2\0".to_owned().concat(
            source.capability_fingerprint.as_str(),
        ).concat("\0").concat(source.surface_fingerprint.as_str()).concat("\0").concat(
            source.tool_fingerprint.as_str(),
        ).concat("\0").concat(workflows.fingerprint.as_str());
        let prefix: ImmutablePrefix = ImmutablePrefix::new(
            system_prompt.clone(),
            clone_items(&source.tools_json),
            dependencies.clone(),
        );
        let resolution: EventLog = EventLog::PromptWorkflowResolution {
            active_workflows,
            workflow_fingerprint: workflows.fingerprint.clone(),
        };
        let snapshot: EventLog = EventLog::PrefixSnapshot {
            version: Some(1),
            fingerprint: prefix.fingerprint.clone(),
            dependency_fingerprint: dependencies,
            system_prompt: system_prompt.clone(),
            tools_json: clone_items(&source.tools_json),
        };
        let events: Vec<EventLog> = vec![resolution, snapshot];
        assert(log_views(events@) =~= build_events(*source));
        self.cached = Some(prefix);
        Ok(
            EnsuredPrefix {
                system_prompt,
                tools_json: clone_items(&source.tools_json),
                events,
            },
        )
    }
}

fn workflow_ids(ordered: &Vec<&PromptWorkflowSpec>) -> (r: Vec<String>)
    ensures
        views(r@) == ids_of(reference_views(ordered@)),
{
    let ghost ids = ids_of(reference_views(ordered@));
    let mut out: Vec<String> = Vec::new();
    let mut i: usize = 0;
    assert(views(out@) =~= ids.take(0));
    while i < ordered.len()
        invariant
            i <= ordered@.len(),
            ids == ids_of(reference_views(ordered@)),
            views(out@) == ids.take(i as int),
        decreases ordered@.len() - i,
    {
        let ghost before = out@;
        let id: String = ordered[i].id.clone();
        out.push(id);
        proof {
            assert(ids[i as int] == id@);
            assert(views(out@) =~= views(before).push(id@));
            assert(ids.take(i + 1) =~= ids.take(i as int).push(ids[i as int]));
        }
        i += 1;
    }
    assert(ids.take(i as int) =~= ids);
    out
}

/// What a session that was recorded begins each request with: the first snapshot among its
/// entries whose prompt is not one of this library.
pub open spec fn recorded_prefix(events: Seq<JsonView>) -> Option<(Seq<char>, Seq<JsonView>)>
    decreases events.len(),
{
    if events.len() == 0 {
        None
    } else if !field_is(events[0], "type"@, "prefix_snapshot"@) {
        recorded_prefix(events.drop_first())
    } else {
        match (field_of(events[0], "system_prompt"@), field_of(events[0], "tools_json"@)) {
            (Some(JsonView::Text(prompt)), Some(JsonView::Array(tools))) => if has_text(
                prompt,
                "<system-conventions>"@,
            ) {
                recorded_prefix(events.drop_first())
            } else {
                Some((prompt, tools))
            },
            _ => None,
        }
    }
}

/// What a session that was recorded begins each request with.
pub fn prefab_prefix_from_session(events: &Vec<Json>) -> (r: Option<(String, Vec<Json>)>)
    ensures
        match r {
            Some(p) => recorded_prefix(json_views(events@)) == Some((p.0@, json_views(p.1@))),
            None => recorded_prefix(json_views(events@)) is None,
        },
{
    let ghost all = json_views(events@);
    let mut i: usize = 0;
    assert(all.skip(0) =~= all);
    while i < events.len()
        invariant
            i <= events@.len(),
            all == json_views(events@),
            recorded_prefix(all) == recorded_prefix(all.skip(i as int)),
        decreases events@.len() - i,
    {
        assert(all.skip(i as int)[0] == events@[i as int]@);
        assert(all.skip(i as int).drop_first() =~= all.skip(i + 1));
        let event: &Json = &events[i];
        if event.field_is("type", "prefix_snapshot") {
            let prompt: String = match event.get("system_prompt") {
                Some(Json::Text(text)) => text.clone(),
                _ => {
                    return None;
                },
            };
            let tools: Vec<Json> = match event.get("tools_json") {
                Some(Json::Array(items)) => {
                    proof {
                        lemma_array_view(*items);
                    }
                    clone_items(items)
                },
                _ => {
                    return None;
                },
            };
            if !contains(prompt.as_str(), "<system-conventions>") {
                return Some((prompt, tools));
            }
        }
        i += 1;
    }
    assert(all.skip(i as int).len() == 0);
    None
}

/// What a session begins each request with whose log is `text`: each line of the log is an entry,
/// and a line that is no JSON text is passed over.
pub fn prefab_prefix_from_text(text: &str) -> (r: Option<(String, Vec<Json>)>)
    ensures
        ({
            let entries = parsed_lines(lines_of(text@), lines_of(text@).len());
            match r {
                Some(p) => recorded_prefix(entries) == Some((p.0@, json_views(p.1@))),
                None => recorded_prefix(entries) is None,
            }
        }),
{
    let log: Vec<String> = lines(text);
    assert(views(log@).len() == log@.len());
    let entries: Vec<Json> = parse_lines(&log);
    prefab_prefix_from_session(&entries)
}

/// What was built anew is fit for use, and can be built again from the log: the entry that is read
/// back holds the same prompt, the same tools and the same fingerprint.
pub proof fn logged_prefix_is_read_back(source: PrefixSource)
    ensures
        fresh_prefix(source).sound(),
        event_of(event_json(build_events(source)[1])) == Some(
            EventView::PrefixSnapshot {
                version: Some(1),
                fingerprint: fresh_prefix(source).fingerprint,
                dependency_fingerprint: fresh_prefix(source).dependency_fingerprint,
                system_prompt: fresh_prefix(source).system_prompt,
                tools_json: fresh_prefix(source).tools_json,
            },
        ),
{
    log_is_read_back(build_events(source)[1]);
}

} // verus!
