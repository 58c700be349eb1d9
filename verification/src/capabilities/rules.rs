//! Rules that every session follows.

use crate::capabilities::source::{CapabilityExposure, SourceLevel, SourceMeta, SourceView};
use crate::capabilities::warning::{warning_views, CapabilityWarning, WarningView};
use crate::hash::{digest_text, text_digest};
use crate::text::same_text;
use vstd::prelude::*;

verus! {

/// A rule.
#[derive(Debug)]
pub struct RuleCapability {
    pub name: String,
    pub description: String,
    pub content: String,
    pub always_apply: bool,
}

/// A rule and where it comes from.
#[derive(Debug)]
pub struct LoadedRule {
    pub rule: RuleCapability,
    pub source: SourceMeta,
    pub exposure: CapabilityExposure,
    pub revision: String,
}

impl Clone for LoadedRule {
    fn clone(&self) -> (r: Self)
        ensures
            r == *self,
    {
        LoadedRule {
            rule: RuleCapability {
                name: self.rule.name.clone(),
                description: self.rule.description.clone(),
                content: self.rule.content.clone(),
                always_apply: self.rule.always_apply,
            },
            source: self.source.clone(),
            exposure: self.exposure,
            revision: self.revision.clone(),
        }
    }
}

/// What a [`LoadedRule`] says.
pub struct RuleView {
    pub name: Seq<char>,
    pub description: Seq<char>,
    pub content: Seq<char>,
    pub always_apply: bool,
    pub source: SourceView,
    pub exposure: CapabilityExposure,
    pub revision: Seq<char>,
}

impl View for LoadedRule {
    type V = RuleView;

    open spec fn view(&self) -> RuleView {
        RuleView {
            name: self.rule.name@,
            description: self.rule.description@,
            content: self.rule.content@,
            always_apply: self.rule.always_apply,
            source: self.source@,
            exposure: self.exposure,
            revision: self.revision@,
        }
    }
}

/// The views of a sequence of rules.
pub open spec fn rule_views(rules: Seq<LoadedRule>) -> Seq<RuleView> {
    rules.map_values(|r: LoadedRule| r@)
}

/// The rules of a session by their names.
#[derive(Debug)]
pub struct RuleIndex {
    pub rules: Vec<LoadedRule>,
}

/// Whether a rule has `name`.
pub open spec fn has_rule(rules: Seq<RuleView>, name: Seq<char>) -> bool {
    exists|i: int| 0 <= i < rules.len() && (#[trigger] rules[i]).name == name
}

impl RuleIndex {
    /// Whether there is a rule with `name`.
    pub fn contains_key(&self, name: &str) -> (r: bool)
        ensures
            r == has_rule(rule_views(self.rules@), name@),
    {
        let ghost all = rule_views(self.rules@);
        let mut i: usize = 0;
        while i < self.rules.len()
            invariant
                i <= self.rules@.len(),
                all == rule_views(self.rules@),
                forall|j: int| 0 <= j < i ==> (#[trigger] all[j]).name != name@,
            decreases self.rules@.len() - i,
        {
            assert(all[i as int] == self.rules@[i as int]@);
            if same_text(self.rules[i].rule.name.as_str(), name) {
                return true;
            }
            i += 1;
        }
        false
    }
}

/// The rules of a session.
#[derive(Debug)]
pub struct RuleSnapshot {
    pub all: Vec<LoadedRule>,
    pub discoverable: Vec<LoadedRule>,
    pub always_apply: Vec<LoadedRule>,
    pub by_name: RuleIndex,
    pub warnings: Vec<CapabilityWarning>,
    pub dependency_fingerprint: String,
}

/// What a [`RuleSnapshot`] says.
pub struct RuleSnapshotView {
    pub all: Seq<RuleView>,
    pub discoverable: Seq<RuleView>,
    pub always_apply: Seq<RuleView>,
    pub by_name: Seq<RuleView>,
    pub warnings: Seq<WarningView>,
    pub dependency_fingerprint: Seq<char>,
}

impl View for RuleSnapshot {
    type V = RuleSnapshotView;

    open spec fn view(&self) -> RuleSnapshotView {
        RuleSnapshotView {
            all: rule_views(self.all@),
            discoverable: rule_views(self.discoverable@),
            always_apply: rule_views(self.always_apply@),
            by_name: rule_views(self.by_name.rules@),
            warnings: warning_views(self.warnings@),
            dependency_fingerprint: self.dependency_fingerprint@,
        }
    }
}

/// The text of the rule that comes with the program.
pub open spec fn default_rule_text() -> Seq<char> {
    "- Be concise and concrete. No pleasantries, no explanations unless asked. Raw results only.\n- Prefer safe, exact edits.\n- Report failures clearly."@
}

/// The rule that comes with the program.
pub open spec fn default_rule() -> RuleView {
    RuleView {
        name: "default-agent-rules"@,
        description: "Default response and edit discipline"@,
        content: default_rule_text(),
        always_apply: true,
        source: SourceView {
            provider_id: "built-in-rules"@,
            provider_name: "built-in rules"@,
            level: SourceLevel::BuiltIn,
            source_path: None,
            real_path: None,
            display_label: Some("built-in"@),
        },
        exposure: CapabilityExposure::ModelDiscoverable,
        revision: text_digest(default_rule_text()),
    }
}

/// What the fingerprint takes in of the first `n` rules in the index.
pub open spec fn index_marks(rules: Seq<RuleView>, n: nat) -> Seq<char>
    decreases n,
{
    if n == 0 {
        seq![]
    } else {
        let r = rules[n - 1];
        index_marks(rules, (n - 1) as nat) + ("rule:index\0"@ + r.name + "\0"@ + r.description
            + "\0"@ + r.source.provider_id + "\0"@ + r.revision + "\0"@)
    }
}

/// What the fingerprint takes in of the first `n` rules that always apply.
pub open spec fn always_marks(rules: Seq<RuleView>, n: nat) -> Seq<char>
    decreases n,
{
    if n == 0 {
        seq![]
    } else {
        let r = rules[n - 1];
        always_marks(rules, (n - 1) as nat) + ("rule:always\0"@ + r.name + "\0"@ + r.revision
            + "\0"@)
    }
}

/// The digest that changes with what the model is told of the rules.
pub open spec fn rule_fingerprint(discoverable: Seq<RuleView>, always: Seq<RuleView>) -> Seq<char> {
    text_digest(index_marks(discoverable, discoverable.len()) + always_marks(always, always.len()))
}

/// The rules that every session has.
pub open spec fn default_rules() -> RuleSnapshotView {
    RuleSnapshotView {
        all: seq![default_rule()],
        discoverable: seq![default_rule()],
        always_apply: seq![default_rule()],
        by_name: seq![default_rule()],
        warnings: seq![],
        dependency_fingerprint: rule_fingerprint(seq![default_rule()], seq![default_rule()]),
    }
}

fn compute_dependency_fingerprint(
    discoverable: &Vec<LoadedRule>,
    always_apply: &Vec<LoadedRule>,
) -> (r: String)
    ensures
        r@ == rule_fingerprint(rule_views(discoverable@), rule_views(always_apply@)),
{
    let ghost found = rule_views(discoverable@);
    let ghost always = rule_views(always_apply@);
    let mut input: String = String::new();
    let mut i: usize = 0;
    while i < discoverable.len()
        invariant
            i <= discoverable@.len(),
            found == rule_views(discoverable@),
            input@ == index_marks(found, i as nat),
        decreases discoverable@.len() - i,
    {
        let rule: &LoadedRule = &discoverable[i];
        assert(found[i as int] == rule@);
        let mark: String = "rule:index\0".to_owned().concat(rule.rule.name.as_str()).concat(
            "\0",
        ).concat(rule.rule.description.as_str()).concat("\0").concat(
            rule.source.provider_id.as_str(),
        ).concat("\0").concat(rule.revision.as_str()).concat("\0");
        input.append(mark.as_str());
        i += 1;
    }
    let ghost head = input@;
    let mut k: usize = 0;
    assert(head + always_marks(always, 0) =~= head);
    while k < always_apply.len()
        invariant
            k <= always_apply@.len(),
            always == rule_views(always_apply@),
            input@ == head + always_marks(always, k as nat),
        decreases always_apply@.len() - k,
    {
        let rule: &LoadedRule = &always_apply[k];
        assert(always[k as int] == rule@);
        let mark: String = "rule:always\0".to_owned().concat(rule.rule.name.as_str()).concat(
            "\0",
        ).concat(rule.revision.as_str()).concat("\0");
        input.append(mark.as_str());
        assert(input@ =~= head + always_marks(always, (k + 1) as nat));
        k += 1;
    }
    digest_text(input.as_str())
}

/// The rules that every session has, wherever it runs.
pub fn build_default_rule_snapshot(
    _cwd: &str,
    _home: &str,
    _session_id: &str,
    _resource_session_id: &str,
) -> (r: Result<RuleSnapshot, String>)
    ensures
        r matches Ok(s) && s@ == default_rules(),
{
    let content: &str =
        "- Be concise and concrete. No pleasantries, no explanations unless asked. Raw results only.\n- Prefer safe, exact edits.\n- Report failures clearly.";
    let rule: LoadedRule = LoadedRule {
        revision: digest_text(content),
        rule: RuleCapability {
            name: "default-agent-rules".to_owned(),
            description: "Default response and edit discipline".to_owned(),
            content: content.to_owned(),
            always_apply: true,
        },
        source: SourceMeta {
            provider_id: "built-in-rules".to_owned(),
            provider_name: "built-in rules".to_owned(),
            level: SourceLevel::BuiltIn,
            source_path: None,
            real_path: None,
            display_label: Some("built-in".to_owned()),
        },
        exposure: CapabilityExposure::ModelDiscoverable,
    };
    assert(rule@ == default_rule());
    let all: Vec<LoadedRule> = vec![rule.clone()];
    let discoverable: Vec<LoadedRule> = vec![rule.clone()];
    let always_apply: Vec<LoadedRule> = vec![rule.clone()];
    let by_name: RuleIndex = RuleIndex { rules: vec![rule] };
    assert(rule_views(all@) =~= seq![default_rule()]);
    assert(rule_views(discoverable@) =~= seq![default_rule()]);
    assert(rule_views(always_apply@) =~= seq![default_rule()]);
    assert(rule_views(by_name.rules@) =~= seq![default_rule()]);
    let dependency_fingerprint: String = compute_dependency_fingerprint(
        &discoverable,
        &always_apply,
    );
    let warnings: Vec<CapabilityWarning> = Vec::new();
    assert(warning_views(warnings@) =~= seq![]);
    Ok(RuleSnapshot { all, discoverable, always_apply, by_name, warnings, dependency_fingerprint })
}

} // verus!
