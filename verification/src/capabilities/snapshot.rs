//! Everything that a session offers the model beside its tools.

use crate::capabilities::context_files::{
    build_default_context_file_snapshot, context_fingerprint, visible_files, ContextFileSnapshot,
    InstructionRead,
};
use crate::capabilities::providers::{build_default_skill_snapshot, default_batches, SkillListings};
use crate::capabilities::rules::{build_default_rule_snapshot, default_rules, RuleSnapshot};
use crate::capabilities::skills::{
    may_load, snapshot_of, LoadContext, Outcome, SkillFault, SkillFaultView, SkillProvider,
    SkillSnapshot, SkillSnapshotView,
};
use crate::capabilities::warning::{
    extend_warnings, warning_views, CapabilityWarning, WarningView,
};
use crate::hash::{digest_text, text_digest};
use crate::text::views;
use vstd::prelude::*;

verus! {

/// Why no snapshot can be taken.
#[derive(Debug)]
pub enum CapabilityFault {
    Skill(SkillFault),
    ContextFile(String),
    Rule(String),
}

/// Everything that a session offers the model beside its tools.
#[derive(Debug)]
pub struct CapabilitySnapshot {
    pub skills: SkillSnapshot,
    pub context_files: ContextFileSnapshot,
    pub rules: RuleSnapshot,
    pub warnings: Vec<CapabilityWarning>,
    pub dependency_fingerprint: String,
}

impl CapabilitySnapshot {
    /// Whether the warnings and the digest of the whole follow from its parts.
    pub open spec fn composed(&self) -> bool {
        &&& warning_views(self.warnings@) == self.skills@.warnings + self.context_files@.warnings
            + self.rules@.warnings
        &&& self.dependency_fingerprint@ == text_digest(
            self.skills@.dependency_fingerprint + "\0"@
                + self.context_files@.dependency_fingerprint + "\0"@
                + self.rules@.dependency_fingerprint + "\0"@,
        )
    }

    /// The whole that `skills`, `context_files` and `rules` make up.
    pub fn compose(
        skills: SkillSnapshot,
        context_files: ContextFileSnapshot,
        rules: RuleSnapshot,
    ) -> (r: CapabilitySnapshot)
        ensures
            r.composed(),
            r.skills == skills,
            r.context_files == context_files,
            r.rules == rules,
    {
        let mut warnings: Vec<CapabilityWarning> = Vec::new();
        assert(warning_views(warnings@) =~= seq![]);
        extend_warnings(&mut warnings, &skills.warnings);
        extend_warnings(&mut warnings, &context_files.warnings);
        extend_warnings(&mut warnings, &rules.warnings);
        assert(warning_views(warnings@) =~= skills@.warnings + context_files@.warnings
            + rules@.warnings);
        let input: String = skills.dependency_fingerprint.clone().concat("\0").concat(
            context_files.dependency_fingerprint.as_str(),
        ).concat("\0").concat(rules.dependency_fingerprint.as_str()).concat("\0");
        let dependency_fingerprint: String = digest_text(input.as_str());
        CapabilitySnapshot { skills, context_files, rules, warnings, dependency_fingerprint }
    }

    /// What every session offers, from the files that were read.
    pub fn load_default(
        cwd: &str,
        home: &str,
        assistant: &str,
        listings: SkillListings,
        global: Option<InstructionRead>,
        project: Option<InstructionRead>,
        selected_skills: &Vec<String>,
    ) -> (r: Result<CapabilitySnapshot, CapabilityFault>)
        ensures
            ({
                let expected = snapshot_of(
                    default_batches(listings, cwd@, home@, assistant@),
                    views(selected_skills@),
                );
                let files = crate::capabilities::context_files::instruction_files(
                    cwd@,
                    home@,
                    global,
                    project,
                );
                match r {
                    Ok(s) => {
                        &&& s.composed()
                        &&& expected == Ok::<SkillSnapshotView, SkillFaultView>(s.skills@)
                        &&& s.rules@ == default_rules()
                        &&& files is Ok
                        &&& s.context_files@.all == files->Ok_0
                        &&& s.context_files@.always_apply == visible_files(files->Ok_0, files->Ok_0.len())
                        &&& s.context_files@.warnings == Seq::<WarningView>::empty()
                        &&& s.context_files@.dependency_fingerprint == context_fingerprint(
                            s.context_files@.always_apply,
                        )
                    },
                    Err(CapabilityFault::Skill(f)) => expected == Err::<
                        SkillSnapshotView,
                        SkillFaultView,
                    >(f@),
                    Err(CapabilityFault::ContextFile(e)) => expected is Ok && files is Err && e@
                        == files->Err_0,
                    Err(CapabilityFault::Rule(_)) => false,
                }
            }),
    {
        let ctx: LoadContext<'_> = LoadContext { cwd, home, assistant };
        let skills: SkillSnapshot = match build_default_skill_snapshot(
            &ctx,
            listings,
            selected_skills,
        ) {
            Ok(s) => s,
            Err(f) => {
                return Err(CapabilityFault::Skill(f));
            },
        };
        CapabilitySnapshot::with_skills(skills, cwd, home, global, project)
    }

    /// What a session with its own skill providers offers.
    pub fn load_from_skill_providers<P: SkillProvider>(
        providers: &Vec<P>,
        cwd: &str,
        home: &str,
        assistant: &str,
        global: Option<InstructionRead>,
        project: Option<InstructionRead>,
        selected_skills: &Vec<String>,
    ) -> (r: Result<CapabilitySnapshot, CapabilityFault>)
        ensures
            ({
                let files = crate::capabilities::context_files::instruction_files(
                    cwd@,
                    home@,
                    global,
                    project,
                );
                let ctx = LoadContext { cwd, home, assistant };
                let names = views(selected_skills@);
                match r {
                    Ok(s) => {
                        &&& s.composed()
                        &&& s.rules@ == default_rules()
                        &&& files is Ok
                        &&& s.context_files@.all == files->Ok_0
                        &&& s.context_files@.always_apply == visible_files(files->Ok_0, files->Ok_0.len())
                        &&& s.context_files@.warnings == Seq::<WarningView>::empty()
                        &&& s.context_files@.dependency_fingerprint == context_fingerprint(
                            s.context_files@.always_apply,
                        )
                        &&& may_load(providers@, ctx, names, Outcome::Ok(s.skills@))
                    },
                    Err(CapabilityFault::Skill(f)) => may_load(
                        providers@,
                        ctx,
                        names,
                        Outcome::Err(f@),
                    ),
                    Err(CapabilityFault::ContextFile(e)) => files is Err && e@ == files->Err_0
                        && exists|skills: SkillSnapshotView|
                        #[trigger] may_load(providers@, ctx, names, Outcome::Ok(skills)),
                    Err(CapabilityFault::Rule(_)) => false,
                }
            }),
    {
        let ctx: LoadContext<'_> = LoadContext { cwd, home, assistant };
        let skills: SkillSnapshot = match SkillSnapshot::load(providers, &ctx, selected_skills) {
            Ok(s) => s,
            Err(f) => {
                return Err(CapabilityFault::Skill(f));
            },
        };
        CapabilitySnapshot::with_skills(skills, cwd, home, global, project)
    }

    /// What a session with these skills offers.
    pub fn with_skills(
        skills: SkillSnapshot,
        cwd: &str,
        home: &str,
        global: Option<InstructionRead>,
        project: Option<InstructionRead>,
    ) -> (r: Result<CapabilitySnapshot, CapabilityFault>)
        ensures
            ({
                let files = crate::capabilities::context_files::instruction_files(
                    cwd@,
                    home@,
                    global,
                    project,
                );
                match r {
                    Ok(s) => {
                        &&& s.composed()
                        &&& s.skills == skills
                        &&& s.rules@ == default_rules()
                        &&& files is Ok
                        &&& s.context_files@.all == files->Ok_0
                        &&& s.context_files@.always_apply == visible_files(files->Ok_0, files->Ok_0.len())
                        &&& s.context_files@.warnings == Seq::<WarningView>::empty()
                        &&& s.context_files@.dependency_fingerprint == context_fingerprint(
                            s.context_files@.always_apply,
                        )
                    },
                    Err(CapabilityFault::ContextFile(e)) => files is Err && e@ == files->Err_0,
                    Err(_) => false,
                }
            }),
    {
        let context_files: ContextFileSnapshot = match build_default_context_file_snapshot(
            cwd,
            home,
            global,
            project,
        ) {
            Ok(s) => s,
            Err(e) => {
                return Err(CapabilityFault::ContextFile(e));
            },
        };
        let rules: RuleSnapshot = match build_default_rule_snapshot(cwd, home, "", "") {
            Ok(s) => s,
            Err(e) => {
                return Err(CapabilityFault::Rule(e));
            },
        };
        Ok(CapabilitySnapshot::compose(skills, context_files, rules))
    }
}

} // verus!
