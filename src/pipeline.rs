use vstd::prelude::*;
use crate::classify::action_of;
use crate::classify::classify_for_build;
use crate::classify::renders;
use crate::classify::Action;
use crate::paths::extension;
use crate::paths::extension_of;
use crate::paths::html_path;
use crate::paths::join;
use crate::paths::join_path;
use crate::paths::lemma_join_keeps_extension;
use crate::paths::with_html_extension;

verus! {

/// The failures a build can meet, per file or for the whole run.
#[derive(Clone, Copy, Debug, PartialEq, Eq, Structural)]
pub enum PipelineError {
    /// The content tree or a file in it could not be read, or a file written.
    IoFailure,
    /// A file without an extension was met in build mode.
    MissingExtension,
    /// A destination's parent exists and is not a directory.
    DestinationConflict,
    /// The custom-markup renderer failed on a file.
    RenderError,
    /// A fragment opens an `<h1>` that is never closed.
    MalformedFragment,
}

/// Whether a failure ends the whole run; the others end only the file's work.
/// A fatal failure stops the run at the file where it is met: outputs already
/// written for earlier files stay, and no later file is looked at. A file
/// without an extension in build mode is such a failure.
pub open spec fn fatal(e: PipelineError) -> bool {
    e == PipelineError::IoFailure || e == PipelineError::MissingExtension || e
        == PipelineError::DestinationConflict
}

/// Decides whether a failure aborts the run (`true`) or is reported for its
/// file while the run goes on (`false`).
pub fn is_fatal(e: PipelineError) -> (r: bool)
    ensures
        r == fatal(e),
{
    match e {
        PipelineError::IoFailure => true,
        PipelineError::MissingExtension => true,
        PipelineError::DestinationConflict => true,
        PipelineError::RenderError => false,
        PipelineError::MalformedFragment => false,
    }
}

/// What to do about a destination's parent directory before writing.
#[derive(Clone, Copy, Debug, PartialEq, Eq, Structural)]
pub enum DirStep {
    /// It exists as a directory: write into it.
    UseExisting,
    /// It does not exist: create it with all missing ancestors.
    CreateAll,
}

pub open spec fn dir_step_of(exists: bool, is_dir: bool) -> Result<DirStep, PipelineError> {
    if !exists {
        Ok(DirStep::CreateAll)
    } else if is_dir {
        Ok(DirStep::UseExisting)
    } else {
        Err(PipelineError::DestinationConflict)
    }
}

/// Decides from what is at a destination's parent path whether to use it,
/// create it, or fail with `DestinationConflict` (it is not a directory).
pub fn parent_dir_step(exists: bool, is_dir: bool) -> (r: Result<DirStep, PipelineError>)
    ensures
        r == dir_step_of(exists, is_dir),
{
    if !exists {
        Ok(DirStep::CreateAll)
    } else if is_dir {
        Ok(DirStep::UseExisting)
    } else {
        Err(PipelineError::DestinationConflict)
    }
}

/// What the pipeline will do with one file, and where its output goes.
#[derive(Debug)]
pub struct Plan {
    pub action: Action,
    /// The output path; empty for a skipped file.
    pub destination: String,
}

/// The output path of a file under the output root: mirrored for a copy,
/// mirrored with the extension turned into `html` for a rendered page.
pub open spec fn destination_of(out_root: Seq<char>, rel: Seq<char>, a: Action) -> Seq<char> {
    match a {
        Action::Copy => join_path(out_root, rel),
        Action::RenderMarkdown => join_path(out_root, html_path(rel)),
        Action::RenderCustom => join_path(out_root, html_path(rel)),
        Action::Skip => Seq::empty(),
    }
}

/// Plans a file met in build mode, given its path relative to the content
/// root: its action by extension, and its destination under `out_root`. A
/// file without an extension fails with `MissingExtension`.
pub fn plan_entry(out_root: &str, rel: &str) -> (r: Result<Plan, PipelineError>)
    ensures
        match r {
            Ok(p) => {
                &&& extension(rel@) is Some
                &&& p.action == action_of(extension(rel@))
                &&& p.destination@ == destination_of(out_root@, rel@, p.action)
            },
            Err(e) => extension(rel@) is None && e == PipelineError::MissingExtension,
        },
{
    let ext = extension_of(rel);
    let action = classify_for_build(ext)?;
    let destination = match action {
        Action::Copy => join(out_root, rel),
        Action::RenderMarkdown => join(out_root, with_html_extension(rel).as_str()),
        Action::RenderCustom => join(out_root, with_html_extension(rel).as_str()),
        Action::Skip => String::new(),
    };
    Ok(Plan { action, destination })
}

/// A copied file keeps its relative path, so its name and extension, under
/// the output root; a rendered one keeps its path with `html` as extension.
pub proof fn lemma_destination_mirrors(out_root: Seq<char>, rel: Seq<char>)
    ensures
        action_of(extension(rel)) == Action::Copy ==> {
            &&& destination_of(out_root, rel, Action::Copy) == join_path(out_root, rel)
            &&& extension(destination_of(out_root, rel, Action::Copy)) == extension(rel)
        },
        renders(action_of(extension(rel))) ==> destination_of(
            out_root,
            rel,
            action_of(extension(rel)),
        ) == join_path(out_root, html_path(rel)),
{
    lemma_join_keeps_extension(out_root, rel);
}

/// A second run into an output tree that the first one built finds every
/// parent directory in place: the directory step is then the silent one, never
/// a failure, so each file is planned and written as the first time.
pub proof fn lemma_rebuild_is_silent()
    ensures
        dir_step_of(true, true) == Ok::<DirStep, PipelineError>(DirStep::UseExisting),
        forall|exists: bool, is_dir: bool|
            #![auto]
            dir_step_of(exists, is_dir) is Err ==> exists && !is_dir,
{
}

/// Enumerates the files under a content root, one path at a time, as paths
/// relative to the root (the root itself is the empty path). The caller looks
/// at each path that comes out: a directory's entries go back in through
/// `expand`, a regular file is a source entry.
pub struct Walker {
    pending: Vec<String>,
}

impl View for Walker {
    type V = Seq<Seq<char>>;

    /// The paths still to look at; the last one comes out first.
    closed spec fn view(&self) -> Seq<Seq<char>> {
        self.pending@.map_values(|s: String| s@)
    }
}

impl Walker {
    /// A walk that starts at the root.
    pub fn new() -> (w: Walker)
        ensures
            w@ == seq![Seq::<char>::empty()],
    {
        let mut pending: Vec<String> = Vec::new();
        pending.push(String::new());
        let w = Walker { pending };
        assert(w@ =~= seq![Seq::<char>::empty()]);
        w
    }

    /// Whether no path is left to look at.
    pub fn is_done(&self) -> (r: bool)
        ensures
            r == (self@.len() == 0),
    {
        self.pending.len() == 0
    }

    /// Takes the next path to look at, if any is left.
    pub fn next_path(&mut self) -> (r: Option<String>)
        ensures
            old(self)@.len() == 0 ==> r is None && final(self)@ == old(self)@,
            old(self)@.len() > 0 ==> r is Some && r->0@ == old(self)@.last() && final(self)@
                == old(self)@.drop_last(),
    {
        let r = self.pending.pop();
        proof {
            assert(self@ =~= old(self)@.take(self.pending@.len() as int));
        }
        r
    }

    /// Queues the entries of the directory `dir` (a relative path), given by
    /// their names, to be looked at in turn.
    pub fn expand(&mut self, dir: &str, names: &Vec<String>)
        ensures
            final(self)@ == old(self)@ + names@.map_values(|n: String| join_path(dir@, n@)),
    {
        let mut i: usize = 0;
        while i < names.len()
            invariant
                i <= names@.len(),
                self@ == old(self)@ + names@.take(i as int).map_values(
                    |n: String| join_path(dir@, n@),
                ),
            decreases names@.len() - i,
        {
            let p = join(dir, names[i].as_str());
            let ghost prev = self@;
            let ghost prev_pending = self.pending@;
            self.pending.push(p);
            proof {
                assert(self.pending@ == prev_pending.push(p));
                assert(self@ =~= prev.push(p@));
                assert(names@.take(i + 1) =~= names@.take(i as int).push(names@[i as int]));
                assert(names@.take(i + 1).map_values(|n: String| join_path(dir@, n@)) =~= names@.take(
                    i as int,
                ).map_values(|n: String| join_path(dir@, n@)).push(join_path(dir@, names@[i as int]@)));
                assert(self@ =~= old(self)@ + names@.take(i + 1).map_values(
                    |n: String| join_path(dir@, n@),
                ));
            }
            i = i + 1;
        }
        assert(names@.take(names@.len() as int) =~= names@);
    }
}

} // verus!
