//! What holds of where skills, rules and instruction files come from.

use crate::capabilities::context_files::{
    candidate_paths, context_marks, instruction_files, shared_file, ContextFileView,
    InstructionRead,
};
use crate::capabilities::providers::{
    default_batches, directory_batch, embedded_views, file_skills, file_views, project_local_batch,
    project_shared_batch, shared_dir, user_shared_batch, SkillFileView, SkillListings,
};
use crate::capabilities::rules::default_rules;
use crate::capabilities::snapshot::CapabilitySnapshot;
use crate::capabilities::source::SourceLevel;
use crate::capabilities::warning::warning_views;
use crate::hash::text_digest;
use crate::path_laws::{is_plain, way_below_is_found_again};
use crate::paths::{is_within, label_of, path_below, path_from};
use crate::text::{ascii_upper, index_of, joined, lemma_index_of, split_at_char};
use crate::text_laws::is_part_of;
use vstd::prelude::*;

verus! {

/// In capital letters a text keeps its length and every character that is no small letter, and
/// has no small letter any more.
pub proof fn capitals_keep_the_rest(s: Seq<char>, i: int)
    requires
        0 <= i < s.len(),
    ensures
        ascii_upper(s).len() == s.len(),
        s[i] < 'a' || s[i] > 'z' ==> ascii_upper(s)[i] == s[i],
        ascii_upper(s)[i] < 'a' || ascii_upper(s)[i] > 'z',
        'a' <= s[i] <= 'z' ==> ascii_upper(s)[i] as int + 32 == s[i] as int,
{
}

/// An instruction file is looked for in the directory itself, under the common names before that
/// of the assistant, and last in the directory of the assistant.
pub proof fn common_names_are_looked_for_first(dir: Seq<char>, assistant: Seq<char>)
    requires
        dir.len() > 0,
    ensures
        ({
            let paths = candidate_paths(dir, assistant);
            &&& paths.len() == 4
            &&& path_from(paths[0], dir) == "AGENTS.md"@ && is_within(paths[0], dir)
            &&& path_from(paths[1], dir) == "AGENT.md"@ && is_within(paths[1], dir)
            &&& paths[2] == path_below(dir, ascii_upper(assistant) + ".md"@)
            &&& paths[3] == path_below(dir, "."@ + assistant + "/"@ + ascii_upper(assistant) + ".md"@)
        }),
{
    reveal_strlit("AGENTS.md");
    reveal_strlit("AGENT.md");
    reveal_strlit(".");
    lemma_single("AGENTS.md"@);
    lemma_single("AGENT.md"@);
    way_below_is_found_again(dir, "AGENTS.md"@);
    way_below_is_found_again(dir, "AGENT.md"@);
    assert("."@ + assistant + "/"@ + shared_file(assistant) =~= "."@ + assistant + "/"@
        + ascii_upper(assistant) + ".md"@);
}

proof fn lemma_single(name: Seq<char>)
    requires
        name.len() > 1,
        forall|i: int| 0 <= i < name.len() ==> name[i] != '/',
    ensures
        is_plain(name),
{
    lemma_index_of(name, '/');
    assert(index_of(name, '/') == name.len());
    assert(split_at_char(name, '/') =~= seq![name]);
    reveal_strlit(".");
    assert("."@.len() == 1);
}

/// A file takes part in the fingerprint of the instruction files with its name, where it comes
/// from and its revision, behind those before it.
pub proof fn instruction_file_takes_part(files: Seq<ContextFileView>, n: nat)
    requires
        n < files.len(),
    ensures
        context_marks(files, n + 1) == context_marks(files, n) + joined(
            seq![
                "context-file"@,
                files[n as int].name,
                files[n as int].source.provider_id,
                files[n as int].revision,
                seq![],
            ],
            "\0"@,
        ),
{
    reveal_with_fuel(joined, 6);
    reveal_strlit("context-file\0");
    reveal_strlit("context-file");
    reveal_strlit("\0");
    let f = files[n as int];
    let none = Seq::<char>::empty();
    assert("context-file\0"@ =~= "context-file"@ + "\0"@);
    let p1 = seq!["context-file"@];
    let p2 = seq!["context-file"@, f.name];
    let p3 = seq!["context-file"@, f.name, f.source.provider_id];
    let p4 = seq!["context-file"@, f.name, f.source.provider_id, f.revision];
    let p5 = seq!["context-file"@, f.name, f.source.provider_id, f.revision, none];
    assert(p2.drop_last() =~= p1);
    assert(p3.drop_last() =~= p2);
    assert(p4.drop_last() =~= p3);
    assert(p5.drop_last() =~= p4);
    assert(joined(p5, "\0"@) =~= "context-file\0"@ + f.name + "\0"@ + f.source.provider_id + "\0"@
        + f.revision + "\0"@);
}

/// What a session loaded warns of all that its skills, its instruction files and its rules warn
/// of, and its fingerprint is that of a text that holds all three fingerprints.
pub proof fn snapshot_is_made_of_its_parts(snapshot: CapabilitySnapshot)
    requires
        snapshot.composed(),
    ensures
        warning_views(snapshot.warnings@).len() == snapshot.skills@.warnings.len()
            + snapshot.context_files@.warnings.len() + snapshot.rules@.warnings.len(),
        snapshot.skills@.warnings.is_prefix_of(warning_views(snapshot.warnings@)),
        snapshot.rules@.warnings.is_suffix_of(warning_views(snapshot.warnings@)),
        exists|whole: Seq<char>|
            {
                &&& snapshot.dependency_fingerprint@ == #[trigger] text_digest(whole)
                &&& snapshot.skills@.dependency_fingerprint.is_prefix_of(whole)
                &&& is_part_of(snapshot.context_files@.dependency_fingerprint, whole)
                &&& (snapshot.rules@.dependency_fingerprint + "\0"@).is_suffix_of(whole)
            },
{
    let a = snapshot.skills@;
    let b = snapshot.context_files@;
    let c = snapshot.rules@;
    let all = warning_views(snapshot.warnings@);
    assert(all.take(a.warnings.len() as int) =~= a.warnings);
    assert(all.skip(all.len() - c.warnings.len()) =~= c.warnings);
    let whole = a.dependency_fingerprint + "\0"@ + b.dependency_fingerprint + "\0"@
        + c.dependency_fingerprint + "\0"@;
    assert(whole.take(a.dependency_fingerprint.len() as int) =~= a.dependency_fingerprint);
    assert(whole =~= (a.dependency_fingerprint + "\0"@) + b.dependency_fingerprint + ("\0"@
        + c.dependency_fingerprint + "\0"@));
    let tail = c.dependency_fingerprint + "\0"@;
    assert(whole.skip(whole.len() - tail.len()) =~= tail);
}

/// Without rules of its own a session has one, which always applies, can be found, and is known
/// by the digest of its text.
pub proof fn one_rule_always_applies()
    ensures
        default_rules().all.len() == 1,
        default_rules().discoverable == default_rules().all,
        default_rules().always_apply == default_rules().all,
        default_rules().by_name == default_rules().all,
        default_rules().all[0].always_apply,
        default_rules().all[0].revision == text_digest(default_rules().all[0].content),
        default_rules().all[0].source.level is BuiltIn,
        default_rules().warnings.len() == 0,
{
}

proof fn lemma_skills_of_directory(
    id: Seq<char>,
    name: Seq<char>,
    level: SourceLevel,
    base: Seq<char>,
    label: Seq<char>,
    files: Seq<SkillFileView>,
    n: nat,
    k: int,
)
    requires
        n <= files.len(),
        0 <= k < file_skills(
            id,
            name,
            level,
            base,
            label,
            files,
            n,
        ).len(),
    ensures
        ({
            let skill = file_skills(
                id,
                name,
                level,
                base,
                label,
                files,
                n,
            )[k];
            &&& skill.source.level == level
            &&& skill.source.provider_id == id
            &&& skill.base_dir == path_below(base, skill.name)
        }),
    decreases n,
{
    let before = file_skills(
        id,
        name,
        level,
        base,
        label,
        files,
        (n - 1) as nat,
    );
    if k < before.len() {
        lemma_skills_of_directory(id, name, level, base, label, files, (n - 1) as nat, k);
    }
}

/// Each skill of a directory lies below it, at its level and from its provider.
pub proof fn skill_lies_in_its_directory(
    id: Seq<char>,
    name: Seq<char>,
    level: SourceLevel,
    base: Seq<char>,
    files: Seq<SkillFileView>,
    cwd: Seq<char>,
    home: Seq<char>,
    k: int,
)
    requires
        0 <= k < directory_batch(id, name, level, base, files, cwd, home).skills.len(),
    ensures
        ({
            let batch = directory_batch(id, name, level, base, files, cwd, home);
            let skill = batch.skills[k];
            &&& skill.source.level == level
            &&& skill.source.provider_id == batch.provider_id
            &&& skill.base_dir == path_below(base, skill.name)
        }),
{
    let label = label_of(base, cwd, home);
    lemma_skills_of_directory(id, name, level, base, label, files, files.len(), k);
}

/// The skills that a project shares are those below its directory of the assistant.
pub proof fn shared_skills_are_those_of_the_project(
    files: Seq<SkillFileView>,
    cwd: Seq<char>,
    home: Seq<char>,
    assistant: Seq<char>,
)
    ensures
        project_shared_batch(files, cwd, home, assistant) == directory_batch(
            "project-"@ + assistant + "-skills"@,
            "project "@ + shared_dir(assistant),
            SourceLevel::Project,
            path_below(cwd, "."@ + assistant + "/skills"@),
            files,
            cwd,
            home,
        ),
{
    reveal(project_shared_batch);
}

/// The skills of a project alone are those below its directory of skills.
pub proof fn own_skills_are_those_of_the_project(
    files: Seq<SkillFileView>,
    cwd: Seq<char>,
    home: Seq<char>,
)
    ensures
        project_local_batch(files, cwd, home) == directory_batch(
            "project-local-skills"@,
            "project skills"@,
            SourceLevel::Project,
            path_below(cwd, "skills"@),
            files,
            cwd,
            home,
        ),
{
    reveal(project_local_batch);
}

/// The skills of a user are those below the directory of the assistant in the home of the user.
pub proof fn skills_of_the_user_are_those_at_home(
    files: Seq<SkillFileView>,
    cwd: Seq<char>,
    home: Seq<char>,
    assistant: Seq<char>,
)
    ensures
        user_shared_batch(files, cwd, home, assistant) == directory_batch(
            "user-"@ + assistant + "-skills"@,
            "user "@ + shared_dir(assistant),
            SourceLevel::User,
            path_below(home, "."@ + assistant + "/skills"@),
            files,
            cwd,
            home,
        ),
{
    reveal(user_shared_batch);
}

/// Without providers of its own a session asks for skills in the project before those of the
/// user, and last for those that come with the library, each with the files that were found
/// there.
pub proof fn project_is_asked_before_the_user(
    listings: SkillListings,
    cwd: Seq<char>,
    home: Seq<char>,
    assistant: Seq<char>,
)
    ensures
        ({
            let batches = default_batches(listings, cwd, home, assistant);
            &&& batches.len() == 5
            &&& batches[0].skills.len() == 0
            &&& batches[1] == project_shared_batch(
                file_views(listings.project_shared@),
                cwd,
                home,
                assistant,
            )
            &&& batches[2] == project_local_batch(file_views(listings.project_local@), cwd, home)
            &&& batches[3] == user_shared_batch(
                file_views(listings.user_shared@),
                cwd,
                home,
                assistant,
            )
            &&& batches[4].skills.len() == listings.embedded@.len()
            &&& forall|k: int|
                0 <= k < batches[4].skills.len() ==> (#[trigger] batches[4].skills[k]).name
                    == embedded_views(listings.embedded@)[k].name
        }),
{
}

/// An instruction file is known by the path at which it was found and by the digest of its text,
/// and the one of the user comes before the one of the project.
pub proof fn instruction_file_is_known_by_path_and_text(
    cwd: Seq<char>,
    home: Seq<char>,
    global: Option<InstructionRead>,
    project: Option<InstructionRead>,
    i: int,
)
    requires
        instruction_files(cwd, home, global, project) is Ok,
        0 <= i < instruction_files(cwd, home, global, project)->Ok_0.len(),
    ensures
        ({
            let files = instruction_files(cwd, home, global, project)->Ok_0;
            &&& files.len() <= 2
            &&& files[i].revision == text_digest(files[i].content)
            &&& files[i].source.level is User ==> i == 0 && global is Some
                && files[i].source.source_path == Some(global->Some_0.path@)
            &&& files[i].source.level is Project ==> i == files.len() - 1 && project is Some
                && files[i].source.source_path == Some(project->Some_0.path@)
            &&& files[i].source.level is User || files[i].source.level is Project
            &&& files[i].source.level is User <==> files[i].name == "global"@
        }),
{
    reveal_strlit("global");
    reveal_strlit("project");
    assert("global"@.len() == 6 && "project"@.len() == 7);
}

} // verus!
