//! Skills: texts that the model can load for a task.

use crate::capabilities::source::{
    exposure_label, CapabilityExposure, SourceLevel, SourceMeta, SourceView,
};
use crate::capabilities::warning::{warning_views, CapabilityWarning, WarningView};
use crate::hash::{digest_text, text_digest};
use crate::sets::NameSet;
use crate::text::{less, same_text, text_less, trim, trimmed, views};
use vstd::prelude::*;

verus! {

/// Where a session runs.
pub struct LoadContext<'a> {
    pub cwd: &'a str,
    pub home: &'a str,
    /// The name of another assistant, whose skills are used too.
    pub assistant: &'a str,
}

/// A skill.
#[derive(Debug)]
pub struct SkillCapability {
    pub name: String,
    pub description: String,
    pub content: String,
    pub base_dir: String,
    pub disable_model_invocation: bool,
}

impl Clone for SkillCapability {
    fn clone(&self) -> (r: Self)
        ensures
            r == *self,
    {
        SkillCapability {
            name: self.name.clone(),
            description: self.description.clone(),
            content: self.content.clone(),
            base_dir: self.base_dir.clone(),
            disable_model_invocation: self.disable_model_invocation,
        }
    }
}

/// A skill and where it comes from.
#[derive(Debug)]
pub struct LoadedSkill {
    pub skill: SkillCapability,
    pub source: SourceMeta,
    pub exposure: CapabilityExposure,
    pub revision: String,
}

impl Clone for LoadedSkill {
    fn clone(&self) -> (r: Self)
        ensures
            r == *self,
    {
        LoadedSkill {
            skill: self.skill.clone(),
            source: self.source.clone(),
            exposure: self.exposure,
            revision: self.revision.clone(),
        }
    }
}

/// What a [`LoadedSkill`] says.
pub struct SkillView {
    pub name: Seq<char>,
    pub description: Seq<char>,
    pub content: Seq<char>,
    pub base_dir: Seq<char>,
    pub disable_model_invocation: bool,
    pub source: SourceView,
    pub exposure: CapabilityExposure,
    pub revision: Seq<char>,
}

impl View for LoadedSkill {
    type V = SkillView;

    open spec fn view(&self) -> SkillView {
        SkillView {
            name: self.skill.name@,
            description: self.skill.description@,
            content: self.skill.content@,
            base_dir: self.skill.base_dir@,
            disable_model_invocation: self.skill.disable_model_invocation,
            source: self.source@,
            exposure: self.exposure,
            revision: self.revision@,
        }
    }
}

/// The views of a sequence of skills.
pub open spec fn skill_views(skills: Seq<LoadedSkill>) -> Seq<SkillView> {
    skills.map_values(|s: LoadedSkill| s@)
}

/// Whether a skill is kept with the project or comes with the program.
#[derive(Clone, Copy, Debug, PartialEq, Eq, Structural)]
pub enum SkillSource {
    BuiltIn,
    FileSystem,
}

/// What is told of a skill beside its text.
#[derive(Debug)]
pub struct SkillInfo {
    pub name: String,
    pub description: String,
    pub source: SkillSource,
    pub base_dir: String,
}

/// A skill that was selected for a session.
#[derive(Debug)]
pub struct ResolvedSkill {
    pub info: SkillInfo,
    pub content: String,
}

/// What a [`ResolvedSkill`] says.
pub struct ResolvedView {
    pub name: Seq<char>,
    pub description: Seq<char>,
    pub source: SkillSource,
    pub base_dir: Seq<char>,
    pub content: Seq<char>,
}

impl View for ResolvedSkill {
    type V = ResolvedView;

    open spec fn view(&self) -> ResolvedView {
        ResolvedView {
            name: self.info.name@,
            description: self.info.description@,
            source: self.info.source,
            base_dir: self.info.base_dir@,
            content: self.content@,
        }
    }
}

/// The views of a sequence of selected skills.
pub open spec fn resolved_views(skills: Seq<ResolvedSkill>) -> Seq<ResolvedView> {
    skills.map_values(|s: ResolvedSkill| s@)
}

/// The skills that one provider gave.
pub struct SkillBatch {
    pub provider_id: String,
    pub skills: Vec<LoadedSkill>,
}

/// What a [`SkillBatch`] says.
pub struct BatchView {
    pub provider_id: Seq<char>,
    pub skills: Seq<SkillView>,
}

impl View for SkillBatch {
    type V = BatchView;

    open spec fn view(&self) -> BatchView {
        BatchView { provider_id: self.provider_id@, skills: skill_views(self.skills@) }
    }
}

/// The views of a sequence of batches.
pub open spec fn batch_views(batches: Seq<SkillBatch>) -> Seq<BatchView> {
    batches.map_values(|b: SkillBatch| b@)
}

/// Why no snapshot of the skills can be taken.
#[derive(Debug)]
pub enum SkillFault {
    Provider { id: String, error: String },
    InvalidSelected(String),
    NotFound(String),
    HostOnly(String),
    InvalidRuntime(String),
}

/// What a [`SkillFault`] says.
pub enum SkillFaultView {
    Provider { id: Seq<char>, error: Seq<char> },
    InvalidSelected(Seq<char>),
    NotFound(Seq<char>),
    HostOnly(Seq<char>),
    InvalidRuntime(Seq<char>),
}

impl View for SkillFault {
    type V = SkillFaultView;

    open spec fn view(&self) -> SkillFaultView {
        match *self {
            SkillFault::Provider { id, error } => SkillFaultView::Provider {
                id: id@,
                error: error@,
            },
            SkillFault::InvalidSelected(n) => SkillFaultView::InvalidSelected(n@),
            SkillFault::NotFound(n) => SkillFaultView::NotFound(n@),
            SkillFault::HostOnly(n) => SkillFaultView::HostOnly(n@),
            SkillFault::InvalidRuntime(n) => SkillFaultView::InvalidRuntime(n@),
        }
    }
}

impl SkillFaultView {
    /// The fault in words.
    pub open spec fn message(self) -> Seq<char> {
        match self {
            SkillFaultView::Provider { id, error } => "Error: skill provider "@ + id
                + " failed to load skills: "@ + error,
            SkillFaultView::InvalidSelected(n) => "Error: invalid selected skill name: "@ + n,
            SkillFaultView::NotFound(n) => "Error: skill not found: "@ + n,
            SkillFaultView::HostOnly(n) => "Error: skill is host-only and cannot be selected: "@
                + n,
            SkillFaultView::InvalidRuntime(n) => "invalid runtime skill name: "@ + n,
        }
    }
}

impl SkillFault {
    /// The fault in words.
    pub fn message(&self) -> (r: String)
        ensures
            r@ == self@.message(),
    {
        match self {
            SkillFault::Provider { id, error } => "Error: skill provider ".to_owned().concat(
                id.as_str(),
            ).concat(" failed to load skills: ").concat(error.as_str()),
            SkillFault::InvalidSelected(n) => "Error: invalid selected skill name: ".to_owned().concat(
            n.as_str()),
            SkillFault::NotFound(n) => "Error: skill not found: ".to_owned().concat(n.as_str()),
            SkillFault::HostOnly(n) => "Error: skill is host-only and cannot be selected: ".to_owned().concat(
            n.as_str()),
            SkillFault::InvalidRuntime(n) => "invalid runtime skill name: ".to_owned().concat(
                n.as_str(),
            ),
        }
    }
}

/// `skill` put behind the skills of `sorted` whose names do not come after its own.
pub open spec fn with_by_name(sorted: Seq<SkillView>, skill: SkillView) -> Seq<SkillView>
    decreases sorted.len(),
{
    if sorted.len() > 0 && text_less(skill.name, sorted.last().name) {
        with_by_name(sorted.drop_last(), skill).push(sorted.last())
    } else {
        sorted.push(skill)
    }
}

/// The skills in the order of their names; those with the same name keep their order.
pub open spec fn by_name_order(skills: Seq<SkillView>) -> Seq<SkillView>
    decreases skills.len(),
{
    if skills.len() == 0 {
        seq![]
    } else {
        with_by_name(by_name_order(skills.drop_last()), skills.last())
    }
}

proof fn lemma_with_by_name(sorted: Seq<SkillView>, skill: SkillView, at: int)
    requires
        0 <= at <= sorted.len(),
        forall|k: int| at <= k < sorted.len() ==> text_less(skill.name, (#[trigger] sorted[k]).name),
        at > 0 ==> !text_less(skill.name, sorted[at - 1].name),
    ensures
        with_by_name(sorted, skill) == sorted.insert(at, skill),
    decreases sorted.len(),
{
    if at < sorted.len() {
        assert(text_less(skill.name, sorted[sorted.len() - 1].name));
        let front = sorted.drop_last();
        assert forall|k: int| at <= k < front.len() implies text_less(
            skill.name,
            (#[trigger] front[k]).name,
        ) by {
            assert(front[k] == sorted[k]);
        }
        lemma_with_by_name(front, skill, at);
        assert(front.insert(at, skill).push(sorted.last()) =~= sorted.insert(at, skill));
    } else {
        assert(sorted.push(skill) =~= sorted.insert(at, skill));
    }
}

/// Ordering by name keeps every skill and adds none.
pub proof fn by_name_order_keeps_skills(skills: Seq<SkillView>)
    ensures
        by_name_order(skills).to_multiset() == skills.to_multiset(),
        by_name_order(skills).len() == skills.len(),
    decreases skills.len(),
{
    broadcast use vstd::seq_lib::group_to_multiset_ensures;

    if skills.len() > 0 {
        by_name_order_keeps_skills(skills.drop_last());
        lemma_with_by_name_keeps(by_name_order(skills.drop_last()), skills.last());
        assert(skills =~= skills.drop_last().push(skills.last()));
    }
}

proof fn lemma_with_by_name_keeps(sorted: Seq<SkillView>, skill: SkillView)
    ensures
        with_by_name(sorted, skill).to_multiset() == sorted.to_multiset().insert(skill),
        with_by_name(sorted, skill).len() == sorted.len() + 1,
    decreases sorted.len(),
{
    broadcast use vstd::seq_lib::group_to_multiset_ensures;

    if sorted.len() > 0 && text_less(skill.name, sorted.last().name) {
        lemma_with_by_name_keeps(sorted.drop_last(), skill);
        assert(sorted =~= sorted.drop_last().push(sorted.last()));
        assert(with_by_name(sorted, skill).to_multiset()
            =~= sorted.to_multiset().insert(skill));
    }
}

/// The place of the first skill with `name`, or the number of skills where there is none.
pub open spec fn place_of_name(skills: Seq<SkillView>, name: Seq<char>) -> int
    decreases skills.len(),
{
    if skills.len() == 0 || skills[0].name == name {
        0
    } else {
        1 + place_of_name(skills.drop_first(), name)
    }
}

proof fn lemma_place_of_name(skills: Seq<SkillView>, name: Seq<char>)
    ensures
        0 <= place_of_name(skills, name) <= skills.len(),
        forall|i: int| 0 <= i < place_of_name(skills, name) ==> (#[trigger] skills[i]).name != name,
        place_of_name(skills, name) < skills.len() ==> skills[place_of_name(skills, name)].name
            == name,
    decreases skills.len(),
{
    if skills.len() > 0 && skills[0].name != name {
        lemma_place_of_name(skills.drop_first(), name);
        assert forall|i: int| 0 <= i < place_of_name(skills, name) implies (
        #[trigger] skills[i]).name != name by {
            if i > 0 {
                assert(skills.drop_first()[i - 1] == skills[i]);
            }
        }
    }
}

/// What has been taken from the providers so far.
pub struct TakenView {
    pub all: Seq<SkillView>,
    pub seen: Set<Seq<char>>,
    pub warnings: Seq<WarningView>,
}

/// Nothing taken yet.
pub open spec fn none_taken() -> TakenView {
    TakenView { all: seq![], seen: Set::empty(), warnings: seq![] }
}

/// The warning that `skill` of a provider is not used because `winner` has its name.
pub open spec fn shadow_warning(
    provider_id: Seq<char>,
    skill: SkillView,
    winner: SkillView,
) -> WarningView {
    WarningView {
        provider_id,
        message: "skill '"@ + skill.name + "' from "@ + skill.source.label() + " is shadowed by "@
            + winner.source.label(),
    }
}

/// The warning that `skill` is kept from the model.
pub open spec fn hidden_warning(provider_id: Seq<char>, skill: SkillView) -> WarningView {
    WarningView { provider_id, message: "host-only skill '"@ + skill.name + "' is hidden"@ }
}

/// What has been taken after one more skill. A file that was seen before is passed over; of
/// two skills with the same name the first is kept.
pub open spec fn taken(state: TakenView, provider_id: Seq<char>, skill: SkillView) -> TakenView {
    if skill.source.real_path is Some && state.seen.contains(skill.source.real_path->0) {
        state
    } else {
        let seen = match skill.source.real_path {
            Some(p) => state.seen.insert(p),
            None => state.seen,
        };
        let at = place_of_name(state.all, skill.name);
        if at < state.all.len() {
            TakenView {
                all: state.all,
                seen,
                warnings: state.warnings.push(
                    shadow_warning(provider_id, skill, state.all[at]),
                ),
            }
        } else {
            TakenView {
                all: state.all.push(skill),
                seen,
                warnings: if skill.exposure is HostOnly {
                    state.warnings.push(hidden_warning(provider_id, skill))
                } else {
                    state.warnings
                },
            }
        }
    }
}

/// What has been taken after the first `n` of `skills`.
pub open spec fn taken_skills(
    state: TakenView,
    provider_id: Seq<char>,
    skills: Seq<SkillView>,
    n: nat,
) -> TakenView
    decreases n,
{
    if n == 0 {
        state
    } else {
        taken(
            taken_skills(state, provider_id, skills, (n - 1) as nat),
            provider_id,
            skills[n - 1],
        )
    }
}

/// What has been taken after the first `n` of `batches`, each in the order of its names.
pub open spec fn taken_batches(batches: Seq<BatchView>, n: nat) -> TakenView
    decreases n,
{
    if n == 0 {
        none_taken()
    } else {
        let b = batches[n - 1];
        let sorted = by_name_order(b.skills);
        taken_skills(taken_batches(batches, (n - 1) as nat), b.provider_id, sorted, sorted.len())
    }
}

/// The skills among the first `n` that the model finds in the index.
pub open spec fn discoverable_skills(all: Seq<SkillView>, n: nat) -> Seq<SkillView>
    decreases n,
{
    if n == 0 {
        seq![]
    } else if all[n - 1].exposure is ModelDiscoverable {
        discoverable_skills(all, (n - 1) as nat).push(all[n - 1])
    } else {
        discoverable_skills(all, (n - 1) as nat)
    }
}

/// A skill as it is selected.
pub open spec fn resolved_skill(skill: SkillView) -> ResolvedView {
    ResolvedView {
        name: skill.name,
        description: skill.description,
        source: if skill.source.level is BuiltIn {
            SkillSource::BuiltIn
        } else {
            SkillSource::FileSystem
        },
        base_dir: skill.base_dir,
        content: skill.content,
    }
}

/// The skill with `name`, or why it cannot be selected.
pub open spec fn selectable(all: Seq<SkillView>, name: Seq<char>) -> Result<
    ResolvedView,
    SkillFaultView,
> {
    let at = place_of_name(all, name);
    if trimmed(name) != name {
        Err(SkillFaultView::InvalidSelected(name))
    } else if at >= all.len() {
        Err(SkillFaultView::NotFound(name))
    } else if all[at].exposure is HostOnly {
        Err(SkillFaultView::HostOnly(name))
    } else {
        Ok(resolved_skill(all[at]))
    }
}

/// The skills with the first `n` of `names`, or why the first that cannot be selected cannot.
pub open spec fn selection(all: Seq<SkillView>, names: Seq<Seq<char>>, n: nat) -> Result<
    Seq<ResolvedView>,
    SkillFaultView,
>
    decreases n,
{
    if n == 0 {
        Ok(seq![])
    } else {
        match selection(all, names, (n - 1) as nat) {
            Err(f) => Err(f),
            Ok(s) => match selectable(all, names[n - 1]) {
                Err(f) => Err(f),
                Ok(r) => Ok(s.push(r)),
            },
        }
    }
}

/// What the fingerprint takes in of a discoverable skill.
pub open spec fn discoverable_mark(skill: SkillView) -> Seq<char> {
    "discoverable\0"@ + skill.name + "\0"@ + skill.description + "\0"@
        + skill.exposure.label_spec() + "\0"@ + skill.source.provider_id + "\0"@ + skill.revision
        + "\0"@
}

/// What the fingerprint takes in of a selected skill.
pub open spec fn selected_mark(all: Seq<SkillView>, skill: ResolvedView) -> Seq<char> {
    let at = place_of_name(all, skill.name);
    let revision = if at < all.len() {
        all[at].revision
    } else {
        seq![]
    };
    "selected\0"@ + skill.name + "\0"@ + revision + "\0"@ + text_digest(skill.content) + "\0"@
}

/// The marks of the first `n` discoverable skills.
pub open spec fn discoverable_marks(skills: Seq<SkillView>, n: nat) -> Seq<char>
    decreases n,
{
    if n == 0 {
        seq![]
    } else {
        discoverable_marks(skills, (n - 1) as nat) + discoverable_mark(skills[n - 1])
    }
}

/// The marks of the first `n` selected skills.
pub open spec fn selected_marks(
    all: Seq<SkillView>,
    skills: Seq<ResolvedView>,
    n: nat,
) -> Seq<char>
    decreases n,
{
    if n == 0 {
        seq![]
    } else {
        selected_marks(all, skills, (n - 1) as nat) + selected_mark(all, skills[n - 1])
    }
}

/// The digest that changes with what the model is told of the skills.
pub open spec fn skill_fingerprint(
    all: Seq<SkillView>,
    discoverable: Seq<SkillView>,
    selected: Seq<ResolvedView>,
) -> Seq<char> {
    text_digest(
        discoverable_marks(discoverable, discoverable.len()) + selected_marks(
            all,
            selected,
            selected.len(),
        ),
    )
}

/// The skills of a session by their names.
#[derive(Debug)]
pub struct SkillIndex {
    pub skills: Vec<LoadedSkill>,
}

impl SkillIndex {
    fn position(&self, name: &str) -> (r: usize)
        ensures
            r == place_of_name(skill_views(self.skills@), name@),
            r <= self.skills@.len(),
    {
        let ghost all = skill_views(self.skills@);
        proof {
            lemma_place_of_name(all, name@);
        }
        let mut i: usize = 0;
        while i < self.skills.len()
            invariant
                i <= self.skills@.len(),
                all == skill_views(self.skills@),
                forall|j: int| 0 <= j < i ==> (#[trigger] all[j]).name != name@,
                0 <= place_of_name(all, name@) <= all.len(),
                forall|j: int| 0 <= j < place_of_name(all, name@) ==> (#[trigger] all[j]).name != name@,
                place_of_name(all, name@) < all.len() ==> all[place_of_name(all, name@)].name
                    == name@,
            decreases self.skills@.len() - i,
        {
            assert(all[i as int] == self.skills@[i as int]@);
            if same_text(self.skills[i].skill.name.as_str(), name) {
                return i;
            }
            i += 1;
        }
        i
    }

    /// The skill with `name`.
    pub fn get(&self, name: &str) -> (r: Option<&LoadedSkill>)
        ensures
            ({
                let all = skill_views(self.skills@);
                let at = place_of_name(all, name@);
                match r {
                    Some(s) => 0 <= at < all.len() && *s == self.skills@[at],
                    None => at == all.len(),
                }
            }),
    {
        let i: usize = self.position(name);
        if i < self.skills.len() {
            Some(&self.skills[i])
        } else {
            None
        }
    }

    /// Whether there is a skill with `name`.
    pub fn contains_key(&self, name: &str) -> (r: bool)
        ensures
            r == (place_of_name(skill_views(self.skills@), name@) < self.skills@.len()),
    {
        self.position(name) < self.skills.len()
    }
}

/// The skills of a session.
#[derive(Debug)]
pub struct SkillSnapshot {
    pub all: Vec<LoadedSkill>,
    pub discoverable: Vec<LoadedSkill>,
    pub selected: Vec<ResolvedSkill>,
    pub by_name: SkillIndex,
    pub warnings: Vec<CapabilityWarning>,
    pub dependency_fingerprint: String,
}

/// What a [`SkillSnapshot`] says.
pub struct SkillSnapshotView {
    pub all: Seq<SkillView>,
    pub discoverable: Seq<SkillView>,
    pub selected: Seq<ResolvedView>,
    pub by_name: Seq<SkillView>,
    pub warnings: Seq<WarningView>,
    pub dependency_fingerprint: Seq<char>,
}

impl View for SkillSnapshot {
    type V = SkillSnapshotView;

    open spec fn view(&self) -> SkillSnapshotView {
        SkillSnapshotView {
            all: skill_views(self.all@),
            discoverable: skill_views(self.discoverable@),
            selected: resolved_views(self.selected@),
            by_name: skill_views(self.by_name.skills@),
            warnings: warning_views(self.warnings@),
            dependency_fingerprint: self.dependency_fingerprint@,
        }
    }
}

/// The snapshot of the skills that the providers gave, in the order of their precedence, with
/// the skills of `names` selected, or why one cannot be selected.
#[verifier::opaque]
pub open spec fn snapshot_of(batches: Seq<BatchView>, names: Seq<Seq<char>>) -> Result<
    SkillSnapshotView,
    SkillFaultView,
> {
    let end = taken_batches(batches, batches.len());
    let found = discoverable_skills(end.all, end.all.len());
    match selection(end.all, names, names.len()) {
        Err(f) => Err(f),
        Ok(selected) => Ok(
            SkillSnapshotView {
                all: end.all,
                discoverable: found,
                selected,
                by_name: end.all,
                warnings: end.warnings,
                dependency_fingerprint: skill_fingerprint(end.all, found, selected),
            },
        ),
    }
}

fn sort_by_name(skills: &Vec<LoadedSkill>) -> (r: Vec<LoadedSkill>)
    ensures
        skill_views(r@) == by_name_order(skill_views(skills@)),
{
    let ghost input = skill_views(skills@);
    let mut out: Vec<LoadedSkill> = Vec::new();
    let mut n: usize = 0;
    assert(skill_views(out@) =~= by_name_order(input.take(0)));
    while n < skills.len()
        invariant
            n <= skills@.len(),
            input == skill_views(skills@),
            skill_views(out@) == by_name_order(input.take(n as int)),
        decreases skills@.len() - n,
    {
        let skill: LoadedSkill = skills[n].clone();
        let ghost sorted = skill_views(out@);
        let mut at: usize = out.len();
        while at > 0 && less(skill.skill.name.as_str(), out[at - 1].skill.name.as_str())
            invariant
                at <= out@.len(),
                sorted == skill_views(out@),
                forall|k: int|
                    at <= k < sorted.len() ==> text_less(skill@.name, (#[trigger] sorted[k]).name),
            decreases at,
        {
            assert(sorted[at - 1] == out@[at - 1]@);
            at -= 1;
        }
        proof {
            if at > 0 {
                assert(sorted[at - 1] == out@[at - 1]@);
            }
            lemma_with_by_name(sorted, skill@, at as int);
            assert(input.take(n + 1).drop_last() =~= input.take(n as int));
            assert(input.take(n + 1).last() == skill@);
        }
        let ghost before = out@;
        out.insert(at, skill);
        assert(skill_views(out@) =~= sorted.insert(at as int, skill@));
        n += 1;
    }
    assert(input.take(n as int) =~= input);
    out
}

struct Taken {
    index: SkillIndex,
    seen: NameSet,
    warnings: Vec<CapabilityWarning>,
}

impl View for Taken {
    type V = TakenView;

    closed spec fn view(&self) -> TakenView {
        TakenView {
            all: skill_views(self.index.skills@),
            seen: self.seen@,
            warnings: warning_views(self.warnings@),
        }
    }
}

impl Taken {
    fn warn(&mut self, provider_id: &str, message: String)
        ensures
            final(self)@ == (TakenView {
                warnings: old(self)@.warnings.push(
                    WarningView { provider_id: provider_id@, message: message@ },
                ),
                ..old(self)@
            }),
    {
        let ghost before = self.warnings@;
        let w: CapabilityWarning = CapabilityWarning { provider_id: provider_id.to_owned(), message };
        self.warnings.push(w);
        assert(warning_views(self.warnings@) =~= warning_views(before).push(w@));
    }

    fn take(&mut self, provider_id: &str, skill: &LoadedSkill)
        ensures
            final(self)@ == taken(old(self)@, provider_id@, skill@),
    {
        let ghost start = self@;
        match &skill.source.real_path {
            Some(path) => {
                if !self.seen.insert(path.as_str()) {
                    assert(start.seen.insert(path@) =~= start.seen);
                    return;
                }
            },
            None => {},
        }
        let ghost all = skill_views(self.index.skills@);
        let found: Option<String> = match self.index.get(skill.skill.name.as_str()) {
            Some(winner) => {
                let message: String = "skill '".to_owned().concat(skill.skill.name.as_str()).concat(
                    "' from ",
                ).concat(skill.source.model_display_label()).concat(" is shadowed by ").concat(
                    winner.source.model_display_label(),
                );
                assert(all[place_of_name(all, skill@.name)] == winner@);
                Some(message)
            },
            None => None,
        };
        match found {
            Some(message) => {
                self.warn(provider_id, message);
                return;
            },
            None => {},
        }
        if skill.exposure == CapabilityExposure::HostOnly {
            let message: String = "host-only skill '".to_owned().concat(
                skill.skill.name.as_str(),
            ).concat("' is hidden");
            self.warn(provider_id, message);
        }
        let ghost before = self.index.skills@;
        let copy: LoadedSkill = skill.clone();
        self.index.skills.push(copy);
        assert(skill_views(self.index.skills@) =~= skill_views(before).push(skill@));
    }

    fn take_batch(&mut self, batch: &SkillBatch)
        ensures
            ({
                let sorted = by_name_order(batch@.skills);
                final(self)@ == taken_skills(
                    old(self)@,
                    batch@.provider_id,
                    sorted,
                    sorted.len(),
                )
            }),
    {
        let ghost start = self@;
        let skills: Vec<LoadedSkill> = sort_by_name(&batch.skills);
        let ghost sorted = skill_views(skills@);
        let mut i: usize = 0;
        while i < skills.len()
            invariant
                i <= skills@.len(),
                sorted == skill_views(skills@),
                self@ == taken_skills(start, batch@.provider_id, sorted, i as nat),
            decreases skills@.len() - i,
        {
            assert(sorted[i as int] == skills@[i as int]@);
            self.take(batch.provider_id.as_str(), &skills[i]);
            i += 1;
        }
    }
}

fn clone_skills(skills: &Vec<LoadedSkill>) -> (r: Vec<LoadedSkill>)
    ensures
        r@ == skills@,
{
    let mut out: Vec<LoadedSkill> = Vec::new();
    let mut i: usize = 0;
    while i < skills.len()
        invariant
            i <= skills@.len(),
            out@ == skills@.take(i as int),
        decreases skills@.len() - i,
    {
        out.push(skills[i].clone());
        i += 1;
    }
    assert(skills@.take(i as int) =~= skills@);
    out
}

fn discoverable_of(skills: &Vec<LoadedSkill>) -> (r: Vec<LoadedSkill>)
    ensures
        skill_views(r@) == discoverable_skills(skill_views(skills@), skills@.len()),
{
    let ghost all = skill_views(skills@);
    let mut out: Vec<LoadedSkill> = Vec::new();
    let mut i: usize = 0;
    assert(skill_views(out@) =~= discoverable_skills(all, 0));
    while i < skills.len()
        invariant
            i <= skills@.len(),
            all == skill_views(skills@),
            skill_views(out@) == discoverable_skills(all, i as nat),
        decreases skills@.len() - i,
    {
        assert(all[i as int] == skills@[i as int]@);
        if skills[i].exposure == CapabilityExposure::ModelDiscoverable {
            let ghost before = out@;
            out.push(skills[i].clone());
            assert(skill_views(out@) =~= skill_views(before).push(all[i as int]));
        }
        i += 1;
    }
    out
}

fn to_resolved_skill(loaded: &LoadedSkill) -> (r: ResolvedSkill)
    ensures
        r@ == resolved_skill(loaded@),
{
    ResolvedSkill {
        info: SkillInfo {
            name: loaded.skill.name.clone(),
            description: loaded.skill.description.clone(),
            source: match loaded.source.level {
                SourceLevel::BuiltIn => SkillSource::BuiltIn,
                _ => SkillSource::FileSystem,
            },
            base_dir: loaded.skill.base_dir.clone(),
        },
        content: loaded.skill.content.clone(),
    }
}

fn select_skill(index: &SkillIndex, name: &str) -> (r: Result<ResolvedSkill, SkillFault>)
    ensures
        match r {
            Ok(s) => selectable(skill_views(index.skills@), name@) == Ok::<
                ResolvedView,
                SkillFaultView,
            >(s@),
            Err(f) => selectable(skill_views(index.skills@), name@) == Err::<
                ResolvedView,
                SkillFaultView,
            >(f@),
        },
{
    let bare: String = trim(name);
    if !same_text(bare.as_str(), name) {
        return Err(SkillFault::InvalidSelected(name.to_owned()));
    }
    match index.get(name) {
        None => Err(SkillFault::NotFound(name.to_owned())),
        Some(loaded) => {
            assert(skill_views(index.skills@)[place_of_name(skill_views(index.skills@), name@)]
                == loaded@);
            if loaded.exposure == CapabilityExposure::HostOnly {
                Err(SkillFault::HostOnly(name.to_owned()))
            } else {
                Ok(to_resolved_skill(loaded))
            }
        },
    }
}

proof fn lemma_selection_fault(all: Seq<SkillView>, names: Seq<Seq<char>>, n: nat, m: nat)
    requires
        n <= m,
        selection(all, names, n) is Err,
    ensures
        selection(all, names, m) == selection(all, names, n),
    decreases m - n,
{
    if n < m {
        lemma_selection_fault(all, names, n, (m - 1) as nat);
    }
}

fn select_skills(index: &SkillIndex, names: &Vec<String>) -> (r: Result<
    Vec<ResolvedSkill>,
    SkillFault,
>)
    ensures
        match r {
            Ok(s) => selection(skill_views(index.skills@), views(names@), names@.len()) == Ok::<
                Seq<ResolvedView>,
                SkillFaultView,
            >(resolved_views(s@)),
            Err(f) => selection(skill_views(index.skills@), views(names@), names@.len()) == Err::<
                Seq<ResolvedView>,
                SkillFaultView,
            >(f@),
        },
{
    let ghost all = skill_views(index.skills@);
    let ghost wanted = views(names@);
    let mut out: Vec<ResolvedSkill> = Vec::new();
    let mut i: usize = 0;
    assert(resolved_views(out@) =~= seq![]);
    while i < names.len()
        invariant
            i <= names@.len(),
            all == skill_views(index.skills@),
            wanted == views(names@),
            selection(all, wanted, i as nat) == Ok::<Seq<ResolvedView>, SkillFaultView>(
                resolved_views(out@),
            ),
        decreases names@.len() - i,
    {
        assert(wanted[i as int] == names@[i as int]@);
        match select_skill(index, names[i].as_str()) {
            Ok(s) => {
                let ghost before = out@;
                out.push(s);
                assert(resolved_views(out@) =~= resolved_views(before).push(s@));
            },
            Err(f) => {
                proof {
                    lemma_selection_fault(all, wanted, (i + 1) as nat, names@.len());
                }
                return Err(f);
            },
        }
        i += 1;
    }
    Ok(out)
}

fn compute_dependency_fingerprint(
    discoverable: &Vec<LoadedSkill>,
    selected: &Vec<ResolvedSkill>,
    by_name: &SkillIndex,
) -> (r: String)
    ensures
        r@ == skill_fingerprint(
            skill_views(by_name.skills@),
            skill_views(discoverable@),
            resolved_views(selected@),
        ),
{
    let ghost all = skill_views(by_name.skills@);
    let ghost found = skill_views(discoverable@);
    let ghost chosen = resolved_views(selected@);
    let mut input: String = String::new();
    let mut i: usize = 0;
    while i < discoverable.len()
        invariant
            i <= discoverable@.len(),
            found == skill_views(discoverable@),
            input@ == discoverable_marks(found, i as nat),
        decreases discoverable@.len() - i,
    {
        let skill: &LoadedSkill = &discoverable[i];
        assert(found[i as int] == skill@);
        let mark: String = "discoverable\0".to_owned().concat(skill.skill.name.as_str()).concat(
            "\0",
        ).concat(skill.skill.description.as_str()).concat("\0").concat(
            exposure_label(skill.exposure),
        ).concat("\0").concat(skill.source.provider_id.as_str()).concat("\0").concat(
            skill.revision.as_str(),
        ).concat("\0");
        input.append(mark.as_str());
        i += 1;
    }
    let ghost head = input@;
    let mut k: usize = 0;
    assert(head + selected_marks(all, chosen, 0) =~= head);
    while k < selected.len()
        invariant
            k <= selected@.len(),
            all == skill_views(by_name.skills@),
            chosen == resolved_views(selected@),
            input@ == head + selected_marks(all, chosen, k as nat),
        decreases selected@.len() - k,
    {
        let skill: &ResolvedSkill = &selected[k];
        assert(chosen[k as int] == skill@);
        let revision: String = match by_name.get(skill.info.name.as_str()) {
            Some(loaded) => {
                assert(all[place_of_name(all, skill@.name)] == loaded@);
                loaded.revision.clone()
            },
            None => String::new(),
        };
        let mark: String = "selected\0".to_owned().concat(skill.info.name.as_str()).concat(
            "\0",
        ).concat(revision.as_str()).concat("\0").concat(
            digest_text(skill.content.as_str()).as_str(),
        ).concat("\0");
        assert(mark@ == selected_mark(all, skill@));
        input.append(mark.as_str());
        assert(input@ =~= head + selected_marks(all, chosen, (k + 1) as nat));
        k += 1;
    }
    digest_text(input.as_str())
}

/// What a provider may give: its skills, or what went wrong.
pub type Given = Result<Seq<SkillView>, Seq<char>>;

/// What the result of a provider says.
pub open spec fn given_view(result: Result<Vec<LoadedSkill>, String>) -> Given {
    match result {
        Ok(skills) => Ok(skill_views(skills@)),
        Err(error) => Err(error@),
    }
}

/// Gives skills to a session.
pub trait SkillProvider {
    /// Whether this may be the name of the provider: any text, unless the provider says more.
    open spec fn may_have_id(&self, id: Seq<char>) -> bool {
        true
    }

    /// Whether this may be the precedence of the provider: any, unless the provider says more.
    open spec fn may_have_priority(&self, priority: i32) -> bool {
        true
    }

    /// Whether the provider may give this in a session: anything, unless the provider says more.
    /// One that looks at files may give different things at different times.
    open spec fn may_give(
        &self,
        cwd: Seq<char>,
        home: Seq<char>,
        assistant: Seq<char>,
        given: Given,
    ) -> bool {
        true
    }

    /// The name of the provider in warnings and errors.
    fn id(&self) -> (r: &str)
        ensures
            self.may_have_id(r@),
    ;

    /// The name of the provider for users.
    fn display_name(&self) -> &str;

    /// The precedence of the provider: the highest comes first.
    fn priority(&self) -> (r: i32)
        ensures
            self.may_have_priority(r),
    ;

    /// The skills of the provider, or what went wrong.
    fn load_skills(&self, ctx: &LoadContext<'_>) -> (r: Result<Vec<LoadedSkill>, String>)
        ensures
            self.may_give(ctx.cwd@, ctx.home@, ctx.assistant@, given_view(r)),
    ;
}

/// A provider of any kind: a session can have providers of several kinds side by side.
impl SkillProvider for Box<dyn SkillProvider> {
    open spec fn may_have_id(&self, id: Seq<char>) -> bool {
        (**self).may_have_id(id)
    }

    open spec fn may_have_priority(&self, priority: i32) -> bool {
        (**self).may_have_priority(priority)
    }

    open spec fn may_give(
        &self,
        cwd: Seq<char>,
        home: Seq<char>,
        assistant: Seq<char>,
        given: Given,
    ) -> bool {
        (**self).may_give(cwd, home, assistant, given)
    }

    fn id(&self) -> &str {
        (**self).id()
    }

    fn display_name(&self) -> &str {
        (**self).display_name()
    }

    fn priority(&self) -> i32 {
        (**self).priority()
    }

    fn load_skills(&self, ctx: &LoadContext<'_>) -> Result<Vec<LoadedSkill>, String> {
        (**self).load_skills(ctx)
    }
}

/// Whether these may be the precedences of the providers.
pub open spec fn may_have_priorities<P: SkillProvider>(providers: Seq<P>, priorities: Seq<i32>) -> bool {
    &&& priorities.len() == providers.len()
    &&& forall|i: int|
        0 <= i < providers.len() ==> providers[i].may_have_priority(#[trigger] priorities[i])
}

/// Whether the first of the providers that are asked, in the given order, may have given
/// `batches`.
pub open spec fn may_have_given<P: SkillProvider>(
    providers: Seq<P>,
    order: Seq<int>,
    ctx: LoadContext<'_>,
    batches: Seq<BatchView>,
) -> bool {
    forall|k: int|
        0 <= k < batches.len() ==> {
            &&& providers[order[k]].may_have_id((#[trigger] batches[k]).provider_id)
            &&& providers[order[k]].may_give(
                ctx.cwd@,
                ctx.home@,
                ctx.assistant@,
                Ok(batches[k].skills),
            )
        }
}

/// Whether the provider that is asked after `n` others may have failed with `error`.
pub open spec fn may_have_failed<P: SkillProvider>(
    providers: Seq<P>,
    order: Seq<int>,
    ctx: LoadContext<'_>,
    n: nat,
    id: Seq<char>,
    error: Seq<char>,
) -> bool {
    &&& n < providers.len()
    &&& providers[order[n as int]].may_have_id(id)
    &&& providers[order[n as int]].may_give(ctx.cwd@, ctx.home@, ctx.assistant@, Err(error))
}

/// What a snapshot says, or what went wrong.
pub type Outcome = Result<SkillSnapshotView, SkillFaultView>;

/// Whether this may come of asking the providers, with these precedences: they are asked in the
/// order of them, up to the first that fails, and what they give is put together.
pub open spec fn may_load_with<P: SkillProvider>(
    providers: Seq<P>,
    priorities: Seq<i32>,
    ctx: LoadContext<'_>,
    names: Seq<Seq<char>>,
    outcome: Outcome,
) -> bool {
    let order = priority_order(priorities, priorities.len());
    ||| exists|given: Seq<BatchView>|
        given.len() == providers.len() && may_have_given(providers, order, ctx, given) && outcome
            == #[trigger] snapshot_of(given, names)
    ||| exists|given: Seq<BatchView>, id: Seq<char>, error: Seq<char>|
        #[trigger] may_have_given(providers, order, ctx, given) && #[trigger] may_have_failed(
            providers,
            order,
            ctx,
            given.len(),
            id,
            error,
        ) && outcome == Outcome::Err(SkillFaultView::Provider { id, error })
}

/// Whether this may come of asking the providers.
pub open spec fn may_load<P: SkillProvider>(
    providers: Seq<P>,
    ctx: LoadContext<'_>,
    names: Seq<Seq<char>>,
    outcome: Outcome,
) -> bool {
    exists|priorities: Seq<i32>|
        #[trigger] may_have_priorities(providers, priorities) && may_load_with(
            providers,
            priorities,
            ctx,
            names,
            outcome,
        )
}

/// What the result of loading skills says.
pub open spec fn outcome_view(result: Result<SkillSnapshot, SkillFault>) -> Outcome {
    match result {
        Ok(s) => Ok(s@),
        Err(f) => Err(f@),
    }
}

/// `index` put behind those of `order` whose priorities are not lower than its own.
pub open spec fn with_by_priority(order: Seq<int>, priorities: Seq<i32>, index: int) -> Seq<int>
    decreases order.len(),
{
    if order.len() > 0 && priorities[order.last()] < priorities[index] {
        with_by_priority(order.drop_last(), priorities, index).push(order.last())
    } else {
        order.push(index)
    }
}

/// The first `n` places in the order of their priorities, the highest first; places with the
/// same priority keep their order.
pub open spec fn priority_order(priorities: Seq<i32>, n: nat) -> Seq<int>
    decreases n,
{
    if n == 0 {
        seq![]
    } else {
        with_by_priority(priority_order(priorities, (n - 1) as nat), priorities, n - 1)
    }
}

proof fn lemma_with_by_priority(order: Seq<int>, priorities: Seq<i32>, index: int, at: int)
    requires
        0 <= at <= order.len(),
        forall|k: int|
            at <= k < order.len() ==> priorities[#[trigger] order[k]] < priorities[index],
        at > 0 ==> priorities[order[at - 1]] >= priorities[index],
    ensures
        with_by_priority(order, priorities, index) == order.insert(at, index),
    decreases order.len(),
{
    if at < order.len() {
        assert(priorities[order[order.len() - 1]] < priorities[index]);
        let front = order.drop_last();
        assert forall|k: int| at <= k < front.len() implies priorities[#[trigger] front[k]]
            < priorities[index] by {
            assert(front[k] == order[k]);
        }
        lemma_with_by_priority(front, priorities, index, at);
        assert(front.insert(at, index).push(order.last()) =~= order.insert(at, index));
    } else {
        assert(order.push(index) =~= order.insert(at, index));
    }
}

/// The places in the order of their priorities, the highest first.
pub fn provider_order(priorities: &Vec<i32>) -> (r: Vec<usize>)
    ensures
        r@.map_values(|i: usize| i as int) == priority_order(priorities@, priorities@.len()),
        forall|i: int| 0 <= i < r@.len() ==> (#[trigger] r@[i]) < priorities@.len(),
{
    let mut order: Vec<usize> = Vec::new();
    let mut n: usize = 0;
    assert(order@.map_values(|i: usize| i as int) =~= priority_order(priorities@, 0));
    while n < priorities.len()
        invariant
            n <= priorities@.len(),
            order@.map_values(|i: usize| i as int) == priority_order(priorities@, n as nat),
            forall|i: int| 0 <= i < order@.len() ==> (#[trigger] order@[i]) < n,
        decreases priorities@.len() - n,
    {
        let ghost places = order@.map_values(|i: usize| i as int);
        let mut at: usize = order.len();
        while at > 0 && priorities[order[at - 1]] < priorities[n]
            invariant
                at <= order@.len(),
                n < priorities@.len(),
                places == order@.map_values(|i: usize| i as int),
                forall|i: int| 0 <= i < order@.len() ==> (#[trigger] order@[i]) < n,
                forall|k: int|
                    at <= k < places.len() ==> priorities@[#[trigger] places[k]]
                        < priorities@[n as int],
            decreases at,
        {
            assert(places[at - 1] == order@[at - 1] as int);
            at -= 1;
        }
        proof {
            if at > 0 {
                assert(places[at - 1] == order@[at - 1] as int);
            }
            lemma_with_by_priority(places, priorities@, n as int, at as int);
        }
        let ghost before = order@;
        order.insert(at, n);
        proof {
            assert(order@.map_values(|i: usize| i as int) =~= places.insert(at as int, n as int));
            assert forall|i: int| 0 <= i < order@.len() implies (#[trigger] order@[i]) < n + 1 by {
                if i < at {
                    assert(order@[i] == before[i]);
                } else if i > at {
                    assert(order@[i] == before[i - 1]);
                }
            }
        }
        n += 1;
    }
    order
}

impl SkillSnapshot {
    /// Puts the skills together that providers gave in the order of their precedence, and
    /// selects those named in `selected_skills`.
    pub fn assemble(batches: &Vec<SkillBatch>, selected_skills: &Vec<String>) -> (r: Result<
        SkillSnapshot,
        SkillFault,
    >)
        ensures
            match r {
                Ok(s) => snapshot_of(batch_views(batches@), views(selected_skills@)) == Ok::<
                    SkillSnapshotView,
                    SkillFaultView,
                >(s@),
                Err(f) => snapshot_of(batch_views(batches@), views(selected_skills@)) == Err::<
                    SkillSnapshotView,
                    SkillFaultView,
                >(f@),
            },
    {
        reveal(snapshot_of);
        let ghost given = batch_views(batches@);
        let mut state: Taken = Taken {
            index: SkillIndex { skills: Vec::new() },
            seen: NameSet::new(),
            warnings: Vec::new(),
        };
        assert(state@.all =~= seq![]);
        assert(state@.warnings =~= seq![]);
        let mut i: usize = 0;
        while i < batches.len()
            invariant
                i <= batches@.len(),
                given == batch_views(batches@),
                state@ == taken_batches(given, i as nat),
            decreases batches@.len() - i,
        {
            assert(given[i as int] == batches@[i as int]@);
            state.take_batch(&batches[i]);
            i += 1;
        }
        let by_name: SkillIndex = state.index;
        let warnings: Vec<CapabilityWarning> = state.warnings;
        let selected: Vec<ResolvedSkill> = match select_skills(&by_name, selected_skills) {
            Ok(s) => s,
            Err(f) => {
                return Err(f);
            },
        };
        let all: Vec<LoadedSkill> = clone_skills(&by_name.skills);
        let discoverable: Vec<LoadedSkill> = discoverable_of(&all);
        let dependency_fingerprint: String = compute_dependency_fingerprint(
            &discoverable,
            &selected,
            &by_name,
        );
        Ok(
            SkillSnapshot {
                all,
                discoverable,
                selected,
                by_name,
                warnings,
                dependency_fingerprint,
            },
        )
    }

    /// Loads the skills of `providers` and puts them together. The providers are asked in the
    /// order of their priorities, up to the first that fails.
    pub fn load<P: SkillProvider>(
        providers: &Vec<P>,
        ctx: &LoadContext<'_>,
        selected_skills: &Vec<String>,
    ) -> (r: Result<SkillSnapshot, SkillFault>)
        ensures
            may_load(providers@, *ctx, views(selected_skills@), outcome_view(r)),
    {
        let mut priorities: Vec<i32> = Vec::new();
        let mut n: usize = 0;
        while n < providers.len()
            invariant
                n <= providers@.len(),
                priorities@.len() == n,
                forall|k: int|
                    0 <= k < n ==> providers@[k].may_have_priority(#[trigger] priorities@[k]),
            decreases providers@.len() - n,
        {
            priorities.push(providers[n].priority());
            n += 1;
        }
        assert(may_have_priorities(providers@, priorities@));
        let order: Vec<usize> = provider_order(&priorities);
        let ghost places = priority_order(priorities@, priorities@.len());
        proof {
            lemma_priority_order_len(priorities@, priorities@.len());
            assert(order@.map_values(|i: usize| i as int).len() == order@.len());
            assert forall|k: int| 0 <= k < order@.len() implies #[trigger] order@[k]
                == places[k] by {
                assert(order@.map_values(|i: usize| i as int)[k] == order@[k] as int);
            }
        }
        let mut batches: Vec<SkillBatch> = Vec::new();
        let mut i: usize = 0;
        assert(batch_views(batches@) =~= seq![]);
        while i < order.len()
            invariant
                i <= order@.len(),
                batches@.len() == i,
                order@.len() == providers@.len(),
                places == priority_order(priorities@, priorities@.len()),
                may_have_priorities(providers@, priorities@),
                forall|k: int| 0 <= k < order@.len() ==> (#[trigger] order@[k]) < providers@.len(),
                forall|k: int| 0 <= k < order@.len() ==> #[trigger] order@[k] == places[k],
                may_have_given(providers@, places, *ctx, batch_views(batches@)),
            decreases order@.len() - i,
        {
            let provider: &P = &providers[order[i]];
            let ghost before = batch_views(batches@);
            match provider.load_skills(ctx) {
                Ok(skills) => {
                    let batch: SkillBatch = SkillBatch {
                        provider_id: provider.id().to_owned(),
                        skills,
                    };
                    batches.push(batch);
                    assert(batch_views(batches@) =~= before.push(batch@));
                },
                Err(error) => {
                    let id: String = provider.id().to_owned();
                    assert(may_have_failed(providers@, places, *ctx, before.len(), id@, error@));
                    assert(may_load_with(
                        providers@,
                        priorities@,
                        *ctx,
                        views(selected_skills@),
                        Outcome::Err(SkillFaultView::Provider { id: id@, error: error@ }),
                    ));
                    return Err(SkillFault::Provider { id, error });
                },
            }
            i += 1;
        }
        let r: Result<SkillSnapshot, SkillFault> = SkillSnapshot::assemble(
            &batches,
            selected_skills,
        );
        assert(outcome_view(r) == snapshot_of(batch_views(batches@), views(selected_skills@)));
        assert(may_load_with(
            providers@,
            priorities@,
            *ctx,
            views(selected_skills@),
            outcome_view(r),
        ));
        r
    }
}

proof fn lemma_priority_order_len(priorities: Seq<i32>, n: nat)
    ensures
        priority_order(priorities, n).len() == n,
    decreases n,
{
    if n > 0 {
        lemma_priority_order_len(priorities, (n - 1) as nat);
        lemma_with_by_priority_len(priority_order(priorities, (n - 1) as nat), priorities, n - 1);
    }
}

proof fn lemma_with_by_priority_len(order: Seq<int>, priorities: Seq<i32>, index: int)
    ensures
        with_by_priority(order, priorities, index).len() == order.len() + 1,
    decreases order.len(),
{
    if order.len() > 0 && priorities[order.last()] < priorities[index] {
        lemma_with_by_priority_len(order.drop_last(), priorities, index);
    }
}

/// Whether no two skills have the same name.
pub open spec fn names_distinct(skills: Seq<SkillView>) -> bool {
    forall|i: int, j: int|
        0 <= i < j < skills.len() ==> (#[trigger] skills[i]).name != (#[trigger] skills[j]).name
}

proof fn lemma_taken_skills(
    state: TakenView,
    provider_id: Seq<char>,
    skills: Seq<SkillView>,
    n: nat,
)
    requires
        names_distinct(state.all),
    ensures
        names_distinct(taken_skills(state, provider_id, skills, n).all),
        state.all.is_prefix_of(taken_skills(state, provider_id, skills, n).all),
    decreases n,
{
    if n > 0 {
        lemma_taken_skills(state, provider_id, skills, (n - 1) as nat);
        let before = taken_skills(state, provider_id, skills, (n - 1) as nat);
        let after = taken_skills(state, provider_id, skills, n);
        lemma_place_of_name(before.all, skills[n - 1].name);
        assert(before.all.is_prefix_of(after.all));
        assert(state.all =~= after.all.subrange(0, state.all.len() as int));
    }
}

/// No two skills of a session have the same name.
pub proof fn session_names_are_distinct(batches: Seq<BatchView>, n: nat)
    requires
        n <= batches.len(),
    ensures
        names_distinct(taken_batches(batches, n).all),
    decreases n,
{
    if n > 0 {
        session_names_are_distinct(batches, (n - 1) as nat);
        let sorted = by_name_order(batches[n - 1].skills);
        lemma_taken_skills(
            taken_batches(batches, (n - 1) as nat),
            batches[n - 1].provider_id,
            sorted,
            sorted.len(),
        );
    }
}

/// A provider of lower precedence never replaces or hides a skill of one of higher precedence.
pub proof fn earlier_skills_stay(batches: Seq<BatchView>, n: nat, m: nat)
    requires
        n <= m <= batches.len(),
    ensures
        taken_batches(batches, n).all.is_prefix_of(taken_batches(batches, m).all),
    decreases m,
{
    if n < m {
        earlier_skills_stay(batches, n, (m - 1) as nat);
        session_names_are_distinct(batches, (m - 1) as nat);
        let sorted = by_name_order(batches[m - 1].skills);
        let before = taken_batches(batches, (m - 1) as nat);
        lemma_taken_skills(before, batches[m - 1].provider_id, sorted, sorted.len());
        let a = taken_batches(batches, n).all;
        assert(a =~= taken_batches(batches, m).all.subrange(0, a.len() as int));
    } else {
        let a = taken_batches(batches, n).all;
        assert(a =~= a.subrange(0, a.len() as int));
    }
}

/// Each name that is selected is valid and names a skill that is not kept from the model, and
/// the skills are selected in the order of the names.
pub proof fn selection_follows_names(all: Seq<SkillView>, names: Seq<Seq<char>>, n: nat, i: int)
    requires
        selection(all, names, n) is Ok,
        0 <= i < n <= names.len(),
    ensures
        selection(all, names, n)->Ok_0.len() == n,
        selectable(all, names[i]) == Ok::<ResolvedView, SkillFaultView>(
            selection(all, names, n)->Ok_0[i],
        ),
    decreases n,
{
    if n > 1 {
        if i < n - 1 {
            selection_follows_names(all, names, (n - 1) as nat, i);
        } else {
            selection_follows_names(all, names, (n - 1) as nat, 0);
        }
    } else {
        assert(selection(all, names, 0)->Ok_0.len() == 0);
    }
}

} // verus!
