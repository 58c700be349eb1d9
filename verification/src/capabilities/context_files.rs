//! Instruction files of the user and of the project.

use crate::capabilities::source::{CapabilityExposure, SourceLevel, SourceMeta, SourceView};
use crate::capabilities::warning::{warning_views, CapabilityWarning, WarningView};
use crate::hash::{digest_text, text_digest};
use crate::paths::{display_label, join_path, label_of, path_below};
use crate::text::{ascii_upper, blank, to_ascii_upper, trimmed, trimmed_empty_iff_blank, views};
use vstd::prelude::*;

verus! {

/// An instruction file.
#[derive(Debug)]
pub struct ContextFileCapability {
    pub name: String,
    pub content: String,
}

/// An instruction file and where it comes from.
#[derive(Debug)]
pub struct LoadedContextFile {
    pub context_file: ContextFileCapability,
    pub source: SourceMeta,
    pub exposure: CapabilityExposure,
    pub revision: String,
}

impl Clone for LoadedContextFile {
    fn clone(&self) -> (r: Self)
        ensures
            r == *self,
    {
        LoadedContextFile {
            context_file: ContextFileCapability {
                name: self.context_file.name.clone(),
                content: self.context_file.content.clone(),
            },
            source: self.source.clone(),
            exposure: self.exposure,
            revision: self.revision.clone(),
        }
    }
}

/// What a [`LoadedContextFile`] says.
pub struct ContextFileView {
    pub name: Seq<char>,
    pub content: Seq<char>,
    pub source: SourceView,
    pub exposure: CapabilityExposure,
    pub revision: Seq<char>,
}

impl View for LoadedContextFile {
    type V = ContextFileView;

    open spec fn view(&self) -> ContextFileView {
        ContextFileView {
            name: self.context_file.name@,
            content: self.context_file.content@,
            source: self.source@,
            exposure: self.exposure,
            revision: self.revision@,
        }
    }
}

/// The views of a sequence of instruction files.
pub open spec fn context_views(files: Seq<LoadedContextFile>) -> Seq<ContextFileView> {
    files.map_values(|f: LoadedContextFile| f@)
}

/// The instruction files of a session.
#[derive(Debug)]
pub struct ContextFileSnapshot {
    pub all: Vec<LoadedContextFile>,
    pub always_apply: Vec<LoadedContextFile>,
    pub warnings: Vec<CapabilityWarning>,
    pub dependency_fingerprint: String,
}

/// What a [`ContextFileSnapshot`] says.
pub struct ContextSnapshotView {
    pub all: Seq<ContextFileView>,
    pub always_apply: Seq<ContextFileView>,
    pub warnings: Seq<WarningView>,
    pub dependency_fingerprint: Seq<char>,
}

impl View for ContextFileSnapshot {
    type V = ContextSnapshotView;

    open spec fn view(&self) -> ContextSnapshotView {
        ContextSnapshotView {
            all: context_views(self.all@),
            always_apply: context_views(self.always_apply@),
            warnings: warning_views(self.warnings@),
            dependency_fingerprint: self.dependency_fingerprint@,
        }
    }
}

/// An instruction file that was found: its path, and its text or why it could not be read.
#[derive(Debug)]
pub struct InstructionRead {
    pub path: String,
    pub content: Result<String, String>,
}

/// The name of the instruction file of another assistant.
pub open spec fn shared_file(assistant: Seq<char>) -> Seq<char> {
    ascii_upper(assistant) + ".md"@
}

/// The paths at which an instruction file of `dir` may stand, in the order of their precedence:
/// first those of its own, then those of another assistant.
pub open spec fn candidate_paths(dir: Seq<char>, assistant: Seq<char>) -> Seq<Seq<char>> {
    seq![
        path_below(dir, "AGENTS.md"@),
        path_below(dir, "AGENT.md"@),
        path_below(dir, shared_file(assistant)),
        path_below(dir, "."@ + assistant + "/"@ + shared_file(assistant)),
    ]
}

/// The paths at which an instruction file of `dir` may stand, in the order of their precedence.
pub fn instruction_candidates(dir: &str, assistant: &str) -> (r: Vec<String>)
    ensures
        views(r@) == candidate_paths(dir@, assistant@),
{
    let shared: String = to_ascii_upper(assistant).concat(".md");
    let below: String = ".".to_owned().concat(assistant).concat("/").concat(shared.as_str());
    let r: Vec<String> = vec![
        join_path(dir, "AGENTS.md"),
        join_path(dir, "AGENT.md"),
        join_path(dir, shared.as_str()),
        join_path(dir, below.as_str()),
    ];
    assert(views(r@) =~= candidate_paths(dir@, assistant@));
    r
}

/// The first candidate of `dir` that is a file, as `is_file` says of each.
pub fn find_instruction_file_in_dir(dir: &str, assistant: &str, is_file: &Vec<bool>) -> (r:
    Option<String>)
    requires
        is_file@.len() == 4,
    ensures
        match r {
            Some(p) => exists|i: int|
                0 <= i < 4 && #[trigger] is_file@[i] && p@ == candidate_paths(dir@, assistant@)[i] && forall|
                    j: int,
                |
                    0 <= j < i ==> !(#[trigger] is_file@[j]),
            None => forall|i: int| 0 <= i < 4 ==> !(#[trigger] is_file@[i]),
        },
{
    let candidates: Vec<String> = instruction_candidates(dir, assistant);
    let ghost all = views(candidates@);
    let mut i: usize = 0;
    assert(all.len() == candidates@.len());
    while i < 4
        invariant
            i <= 4,
            candidates@.len() == 4,
            is_file@.len() == 4,
            all == views(candidates@),
            all == candidate_paths(dir@, assistant@),
            forall|j: int| 0 <= j < i ==> !(#[trigger] is_file@[j]),
        decreases 4 - i,
    {
        if is_file[i] {
            assert(all[i as int] == candidates@[i as int]@);
            return Some(candidates[i].clone());
        }
        i += 1;
    }
    None
}

/// An instruction file of `base` as it is loaded.
pub open spec fn instruction_file(
    name: Seq<char>,
    provider_id: Seq<char>,
    provider_name: Seq<char>,
    level: SourceLevel,
    path: Seq<char>,
    label: Seq<char>,
    content: Seq<char>,
) -> ContextFileView {
    ContextFileView {
        name,
        content,
        source: SourceView {
            provider_id,
            provider_name,
            level,
            source_path: Some(path),
            real_path: None,
            display_label: Some(label),
        },
        exposure: CapabilityExposure::ModelDiscoverable,
        revision: text_digest(content),
    }
}

/// `all` and what was read at one place. Nothing is added where no file was found or the file
/// holds no text; a file that could not be read is an error.
pub open spec fn with_instructions(
    all: Seq<ContextFileView>,
    read: Option<InstructionRead>,
    name: Seq<char>,
    provider_id: Seq<char>,
    provider_name: Seq<char>,
    level: SourceLevel,
    label: Seq<char>,
) -> Result<Seq<ContextFileView>, Seq<char>> {
    match read {
        None => Ok(all),
        Some(found) => match found.content {
            Err(e) => Err(e@),
            Ok(text) => if trimmed(text@).len() == 0 {
                Ok(all)
            } else {
                Ok(
                    all.push(
                        instruction_file(
                            name,
                            provider_id,
                            provider_name,
                            level,
                            found.path@,
                            label,
                            text@,
                        ),
                    ),
                )
            },
        },
    }
}

/// The instruction files of a session: those of the user, then those of the project.
pub open spec fn instruction_files(
    cwd: Seq<char>,
    home: Seq<char>,
    global: Option<InstructionRead>,
    project: Option<InstructionRead>,
) -> Result<Seq<ContextFileView>, Seq<char>> {
    match with_instructions(
        seq![],
        global,
        "global"@,
        "user-instructions"@,
        "user instructions"@,
        SourceLevel::User,
        label_of(path_below(home, ".mink"@), cwd, home),
    ) {
        Err(e) => Err(e),
        Ok(all) => with_instructions(
            all,
            project,
            "project"@,
            "project-instructions"@,
            "project instructions"@,
            SourceLevel::Project,
            label_of(cwd, cwd, home),
        ),
    }
}

/// What the fingerprint takes in of the first `n` instruction files.
pub open spec fn context_marks(files: Seq<ContextFileView>, n: nat) -> Seq<char>
    decreases n,
{
    if n == 0 {
        seq![]
    } else {
        let f = files[n - 1];
        context_marks(files, (n - 1) as nat) + ("context-file\0"@ + f.name + "\0"@
            + f.source.provider_id + "\0"@ + f.revision + "\0"@)
    }
}

/// The digest that changes with the instruction files.
pub open spec fn context_fingerprint(files: Seq<ContextFileView>) -> Seq<char> {
    text_digest(context_marks(files, files.len()))
}

/// The files among the first `n` that are not kept from the model.
pub open spec fn visible_files(files: Seq<ContextFileView>, n: nat) -> Seq<ContextFileView>
    decreases n,
{
    if n == 0 {
        seq![]
    } else if files[n - 1].exposure is HostOnly {
        visible_files(files, (n - 1) as nat)
    } else {
        visible_files(files, (n - 1) as nat).push(files[n - 1])
    }
}

fn push_instructions(
    all: &mut Vec<LoadedContextFile>,
    read: Option<InstructionRead>,
    name: &str,
    provider_id: &str,
    provider_name: &str,
    level: SourceLevel,
    label: &str,
) -> (r: Result<(), String>)
    ensures
        ({
            let expected = with_instructions(
                context_views(old(all)@),
                read,
                name@,
                provider_id@,
                provider_name@,
                level,
                label@,
            );
            match r {
                Ok(()) => expected == Ok::<Seq<ContextFileView>, Seq<char>>(
                    context_views(final(all)@),
                ),
                Err(e) => expected == Err::<Seq<ContextFileView>, Seq<char>>(e@),
            }
        }),
{
    let found: InstructionRead = match read {
        Some(found) => found,
        None => {
            return Ok(());
        },
    };
    let content: String = match found.content {
        Ok(text) => text,
        Err(e) => {
            return Err(e);
        },
    };
    proof {
        trimmed_empty_iff_blank(content@);
    }
    if blank(content.as_str()) {
        return Ok(());
    }
    let file: LoadedContextFile = LoadedContextFile {
        revision: digest_text(content.as_str()),
        context_file: ContextFileCapability { name: name.to_owned(), content },
        source: SourceMeta {
            provider_id: provider_id.to_owned(),
            provider_name: provider_name.to_owned(),
            level,
            source_path: Some(found.path),
            real_path: None,
            display_label: Some(label.to_owned()),
        },
        exposure: CapabilityExposure::ModelDiscoverable,
    };
    all.push(file);
    assert(context_views(all@) =~= context_views(old(all)@).push(file@));
    Ok(())
}

fn visible_of(files: &Vec<LoadedContextFile>) -> (r: Vec<LoadedContextFile>)
    ensures
        context_views(r@) == visible_files(context_views(files@), files@.len()),
{
    let ghost all = context_views(files@);
    let mut out: Vec<LoadedContextFile> = Vec::new();
    let mut i: usize = 0;
    assert(context_views(out@) =~= visible_files(all, 0));
    while i < files.len()
        invariant
            i <= files@.len(),
            all == context_views(files@),
            context_views(out@) == visible_files(all, i as nat),
        decreases files@.len() - i,
    {
        assert(all[i as int] == files@[i as int]@);
        if files[i].exposure != CapabilityExposure::HostOnly {
            let ghost before = out@;
            out.push(files[i].clone());
            assert(context_views(out@) =~= context_views(before).push(all[i as int]));
        }
        i += 1;
    }
    out
}

fn compute_dependency_fingerprint(files: &Vec<LoadedContextFile>) -> (r: String)
    ensures
        r@ == context_fingerprint(context_views(files@)),
{
    let ghost all = context_views(files@);
    let mut input: String = String::new();
    let mut i: usize = 0;
    while i < files.len()
        invariant
            i <= files@.len(),
            all == context_views(files@),
            input@ == context_marks(all, i as nat),
        decreases files@.len() - i,
    {
        let file: &LoadedContextFile = &files[i];
        assert(all[i as int] == file@);
        let mark: String = "context-file\0".to_owned().concat(
            file.context_file.name.as_str(),
        ).concat("\0").concat(file.source.provider_id.as_str()).concat("\0").concat(
            file.revision.as_str(),
        ).concat("\0");
        input.append(mark.as_str());
        i += 1;
    }
    digest_text(input.as_str())
}

/// The instruction files of a session from what was read in the user's directory and in the
/// project's.
pub fn build_default_context_file_snapshot(
    cwd: &str,
    home: &str,
    global: Option<InstructionRead>,
    project: Option<InstructionRead>,
) -> (r: Result<ContextFileSnapshot, String>)
    ensures
        match r {
            Ok(s) => {
                let files = instruction_files(cwd@, home@, global, project);
                &&& files == Ok::<Seq<ContextFileView>, Seq<char>>(s@.all)
                &&& s@.always_apply == visible_files(s@.all, s@.all.len())
                &&& s@.warnings == Seq::<WarningView>::empty()
                &&& s@.dependency_fingerprint == context_fingerprint(s@.always_apply)
            },
            Err(e) => instruction_files(cwd@, home@, global, project) == Err::<
                Seq<ContextFileView>,
                Seq<char>,
            >(e@),
        },
{
    let mut all: Vec<LoadedContextFile> = Vec::new();
    assert(context_views(all@) =~= seq![]);
    let global_label: String = display_label(join_path(home, ".mink").as_str(), cwd, home);
    match push_instructions(
        &mut all,
        global,
        "global",
        "user-instructions",
        "user instructions",
        SourceLevel::User,
        global_label.as_str(),
    ) {
        Ok(()) => {},
        Err(e) => {
            return Err(e);
        },
    }
    let project_label: String = display_label(cwd, cwd, home);
    match push_instructions(
        &mut all,
        project,
        "project",
        "project-instructions",
        "project instructions",
        SourceLevel::Project,
        project_label.as_str(),
    ) {
        Ok(()) => {},
        Err(e) => {
            return Err(e);
        },
    }
    let always_apply: Vec<LoadedContextFile> = visible_of(&all);
    let dependency_fingerprint: String = compute_dependency_fingerprint(&always_apply);
    let warnings: Vec<CapabilityWarning> = Vec::new();
    assert(warning_views(warnings@) =~= seq![]);
    Ok(ContextFileSnapshot { all, always_apply, warnings, dependency_fingerprint })
}

} // verus!
