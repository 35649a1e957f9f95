use vstd::prelude::*;
use crate::pipeline::PipelineError;

verus! {

/// What the pipeline does with a file, decided by its extension alone.
#[derive(Clone, Copy, Debug, PartialEq, Eq, Structural)]
pub enum Action {
    /// Copy the file verbatim under its own name.
    Copy,
    /// Render it as markdown into an `.html` page.
    RenderMarkdown,
    /// Render it as custom markup into an `.html` page.
    RenderCustom,
    /// Leave it out of the output.
    Skip,
}

/// Two characters that are equal once ASCII letters are lowercased.
pub open spec fn same_ignoring_ascii_case(a: char, b: char) -> bool {
    a == b || ('A' <= a <= 'Z' && b as u32 == a as u32 + 32) || ('A' <= b <= 'Z' && a as u32
        == b as u32 + 32)
}

/// Two texts that are equal once ASCII letters are lowercased.
pub open spec fn eq_ignoring_ascii_case(a: Seq<char>, b: Seq<char>) -> bool {
    a.len() == b.len() && forall|i: int| 0 <= i < a.len() ==> same_ignoring_ascii_case(a[i], b[i])
}

/// The fixed lookup from an extension to an action; extensions are compared
/// after ASCII lowercasing, and an absent or unknown one is skipped.
pub open spec fn action_of(ext: Option<Seq<char>>) -> Action {
    match ext {
        Some(e) => if eq_ignoring_ascii_case(e, "html"@) || eq_ignoring_ascii_case(e, "png"@)
            || eq_ignoring_ascii_case(e, "jpg"@) {
            Action::Copy
        } else if eq_ignoring_ascii_case(e, "md"@) {
            Action::RenderMarkdown
        } else if eq_ignoring_ascii_case(e, "wd"@) {
            Action::RenderCustom
        } else {
            Action::Skip
        },
        None => Action::Skip,
    }
}

/// Classification in build mode, where a file without an extension is an
/// authoring error.
pub open spec fn build_action_of(ext: Option<Seq<char>>) -> Result<Action, PipelineError> {
    match ext {
        Some(e) => Ok(action_of(Some(e))),
        None => Err(PipelineError::MissingExtension),
    }
}

/// Whether the action turns the file into an `.html` page.
pub open spec fn renders(a: Action) -> bool {
    a == Action::RenderMarkdown || a == Action::RenderCustom
}

fn same_char_ignoring_ascii_case(a: char, b: char) -> (r: bool)
    ensures
        r == same_ignoring_ascii_case(a, b),
{
    let x = a as u32;
    let y = b as u32;
    x == y || ('A' <= a && a <= 'Z' && y == x + 32) || ('A' <= b && b <= 'Z' && x == y + 32)
}

/// Compares two strings with ASCII letters taken case-insensitively.
pub fn eq_ignore_ascii_case(a: &str, b: &str) -> (r: bool)
    ensures
        r == eq_ignoring_ascii_case(a@, b@),
{
    let n = a.unicode_len();
    if n != b.unicode_len() {
        return false;
    }
    let mut i: usize = 0;
    while i < n
        invariant
            n == a@.len() == b@.len(),
            i <= n,
            forall|j: int| 0 <= j < i ==> same_ignoring_ascii_case(a@[j], b@[j]),
        decreases n - i,
    {
        if !same_char_ignoring_ascii_case(a.get_char(i), b.get_char(i)) {
            return false;
        }
        i = i + 1;
    }
    true
}

/// Maps an extension to the pipeline action; total, and never fails.
pub fn classify(ext: Option<&str>) -> (r: Action)
    ensures
        r == action_of(
            match ext {
                Some(e) => Some(e@),
                None => None,
            },
        ),
{
    match ext {
        Some(e) => {
            if eq_ignore_ascii_case(e, "html") || eq_ignore_ascii_case(e, "png")
                || eq_ignore_ascii_case(e, "jpg") {
                Action::Copy
            } else if eq_ignore_ascii_case(e, "md") {
                Action::RenderMarkdown
            } else if eq_ignore_ascii_case(e, "wd") {
                Action::RenderCustom
            } else {
                Action::Skip
            }
        },
        None => Action::Skip,
    }
}

/// Classification in build mode: a missing extension fails with
/// `MissingExtension`; any present extension classifies as `classify` does.
pub fn classify_for_build(ext: Option<&str>) -> (r: Result<Action, PipelineError>)
    ensures
        r == build_action_of(
            match ext {
                Some(e) => Some(e@),
                None => None,
            },
        ),
{
    match ext {
        Some(e) => Ok(classify(Some(e))),
        None => Err(PipelineError::MissingExtension),
    }
}

/// Classification is a total function of the extension: every extension gets
/// exactly one of the four actions, the same one each time, and build mode
/// fails exactly on a missing extension.
pub proof fn lemma_classify_total(ext: Option<Seq<char>>)
    ensures
        action_of(ext) == Action::Copy || action_of(ext) == Action::RenderMarkdown
            || action_of(ext) == Action::RenderCustom || action_of(ext) == Action::Skip,
        build_action_of(ext) is Err <==> ext is None,
        ext is Some ==> build_action_of(ext) == Ok::<Action, PipelineError>(action_of(ext)),
{
}

} // verus!
