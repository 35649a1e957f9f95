use vstd::prelude::*;
use crate::pipeline::PipelineError;

verus! {

/// Start of the document shell, up to where the optional title goes.
pub const DOC_HEAD: &'static str = "<!DOCTYPE html>\n<html>\n<head>\n  <meta charset=\"UTF-8\">\n  <meta name=\"viewport\" content=\"width=device-width, initial-scale=1\">\n";

/// Closes the head of the document shell.
pub const HEAD_END: &'static str = "</head>\n";

/// Opens the body around the fragment.
pub const BODY_OPEN: &'static str = "<body>\n";

/// Closes the body and the document.
pub const DOC_END: &'static str = "\n</body>\n</html>";

/// Opens the title element.
pub const TITLE_OPEN: &'static str = "  <title>";

/// Closes the title element.
pub const TITLE_CLOSE: &'static str = "</title>\n";

/// The title of a page whose fragment does not open with a heading.
pub const DEFAULT_TITLE: &'static str = "default title";

/// Marks that open an already complete document.
pub const DOCTYPE_MARK: &'static str = "<!DOCTYPE>";

pub const HTML_OPEN: &'static str = "<html>";

/// The heading tags that title inference reads.
pub const H1_OPEN: &'static str = "<h1>";

pub const H1_CLOSE: &'static str = "</h1>";

pub open spec fn starts_with(s: Seq<char>, p: Seq<char>) -> bool {
    p.len() <= s.len() && s.take(p.len() as int) == p
}

/// `p` stands in `s` at position `k`.
pub open spec fn occurs_at(s: Seq<char>, p: Seq<char>, k: int) -> bool {
    0 <= k && k + p.len() <= s.len() && s.subrange(k, k + p.len()) == p
}

pub open spec fn is_first_occurrence(s: Seq<char>, p: Seq<char>, k: int) -> bool {
    occurs_at(s, p, k) && forall|j: int| 0 <= j < k ==> !occurs_at(s, p, j)
}

/// The position of the first occurrence of `p` in `s`, if there is one.
pub open spec fn first_occurrence(s: Seq<char>, p: Seq<char>) -> Option<int> {
    if exists|k: int| is_first_occurrence(s, p, k) {
        Some(choose|k: int| is_first_occurrence(s, p, k))
    } else {
        None
    }
}

/// A fragment that already is a complete document.
pub open spec fn is_complete_document(f: Seq<char>) -> bool {
    starts_with(f, DOCTYPE_MARK@) || starts_with(f, HTML_OPEN@)
}

/// The title inferred from a fragment: the text of a leading `<h1>` up to
/// the first `</h1>` (`None` when that closing tag is missing), or the
/// default title when the fragment does not open with `<h1>`.
pub open spec fn inferred_title(f: Seq<char>) -> Option<Seq<char>> {
    if starts_with(f, H1_OPEN@) {
        let body = f.skip(H1_OPEN@.len() as int);
        match first_occurrence(body, H1_CLOSE@) {
            Some(k) => Some(body.take(k)),
            None => None,
        }
    } else {
        Some(DEFAULT_TITLE@)
    }
}

/// The title element for a title; an empty title gets none at all.
pub open spec fn title_element_of(t: Seq<char>) -> Seq<char> {
    if t.len() == 0 {
        Seq::empty()
    } else {
        TITLE_OPEN@ + t + TITLE_CLOSE@
    }
}

/// The document shell around a fragment, with the given title.
pub open spec fn shell(title: Seq<char>, f: Seq<char>) -> Seq<char> {
    DOC_HEAD@ + title_element_of(title) + HEAD_END@ + BODY_OPEN@ + f + DOC_END@
}

/// What the document wrapper makes of a fragment: the fragment itself when it
/// is complete, else the shell around it; `None` for a malformed fragment.
pub open spec fn wrapped(f: Seq<char>) -> Option<Seq<char>> {
    if is_complete_document(f) {
        Some(f)
    } else {
        match inferred_title(f) {
            Some(t) => Some(shell(t, f)),
            None => None,
        }
    }
}

/// The characters of `s`, in order.
pub fn chars_of(s: &str) -> (r: Vec<char>)
    ensures
        r@ == s@,
{
    broadcast use vstd::string::axiom_spec_iter;

    let mut r: Vec<char> = Vec::new();
    for c in it: s.chars()
        invariant
            it.seq() == s@,
            r@ == it.seq().take(it.index() as int),
    {
        r.push(c);
    }
    r
}

/// Whether `p` stands in `v` at position `k`.
fn matches_at(v: &Vec<char>, k: usize, p: &Vec<char>) -> (r: bool)
    requires
        k <= v@.len(),
    ensures
        r == occurs_at(v@, p@, k as int),
{
    if p.len() > v.len() - k {
        return false;
    }
    let m = v.len();
    let mut j: usize = 0;
    while j < p.len()
        invariant
            m == v@.len(),
            k + p@.len() <= v@.len(),
            j <= p@.len(),
            forall|i: int| 0 <= i < j ==> v@[k + i] == p@[i],
        decreases p@.len() - j,
    {
        if v[k + j] != p[j] {
            assert(v@.subrange(k as int, k + p@.len())[j as int] != p@[j as int]);
            return false;
        }
        j = j + 1;
    }
    assert(v@.subrange(k as int, k + p@.len()) =~= p@);
    true
}

/// Whether `s` starts with `p`.
pub fn has_prefix(s: &Vec<char>, p: &str) -> (r: bool)
    ensures
        r == starts_with(s@, p@),
{
    let pv = chars_of(p);
    let b = matches_at(s, 0, &pv);
    assert(s@.subrange(0, p@.len() as int) == s@.take(p@.len() as int));
    b
}

/// The position of the first occurrence of `p` in `v`.
fn find_first(v: &Vec<char>, p: &Vec<char>) -> (r: Option<usize>)
    ensures
        match r {
            Some(k) => first_occurrence(v@, p@) == Some(k as int) && k + p@.len() <= v@.len(),
            None => first_occurrence(v@, p@) is None,
        },
{
    let m = v.len();
    let mut k: usize = 0;
    loop
        invariant
            m == v@.len(),
            k <= m,
            forall|j: int| 0 <= j < k ==> !occurs_at(v@, p@, j),
        ensures
            forall|j: int| 0 <= j <= m ==> !occurs_at(v@, p@, j),
        decreases m - k,
    {
        if matches_at(v, k, p) {
            assert(is_first_occurrence(v@, p@, k as int));
            proof {
                let c = choose|c: int| is_first_occurrence(v@, p@, c);
                assert(c == k) by {
                    if c < k {
                        assert(!occurs_at(v@, p@, c));
                    } else if c > k {
                        assert(!occurs_at(v@, p@, k as int));
                    }
                }
            }
            return Some(k);
        }
        if k == m {
            break;
        }
        k = k + 1;
    }
    assert(forall|j: int| !is_first_occurrence(v@, p@, j)) by {
        assert forall|j: int| !is_first_occurrence(v@, p@, j) by {
            if 0 <= j <= m {
            } else if j > m {
                assert(!occurs_at(v@, p@, j));
            }
        }
    }
    None
}

/// Infers a page title from a fragment: the text of a leading `<h1>`
/// element, or the default title when there is none. A leading `<h1>`
/// without a closing tag is a `MalformedFragment`.
pub fn infer_title(fragment: &str) -> (r: Result<String, PipelineError>)
    ensures
        match r {
            Ok(t) => inferred_title(fragment@) == Some(t@),
            Err(e) => inferred_title(fragment@) is None && e == PipelineError::MalformedFragment,
        },
{
    let f = chars_of(fragment);
    if has_prefix(&f, H1_OPEN) {
        let h = H1_OPEN.unicode_len();
        let n = fragment.unicode_len();
        let body_str = fragment.substring_char(h, n);
        let body = chars_of(body_str);
        let close = chars_of(H1_CLOSE);
        match find_first(&body, &close) {
            Some(k) => {
                let t = body_str.substring_char(0, k);
                assert(t@ =~= body@.take(k as int));
                Ok(String::from_str(t))
            },
            None => Err(PipelineError::MalformedFragment),
        }
    } else {
        Ok(String::from_str(DEFAULT_TITLE))
    }
}

/// Wraps a rendered fragment into a complete document: a fragment that
/// already is one passes through unchanged; any other gets the fixed shell
/// with the inferred title (no title element when that title is empty).
pub fn wrap_document(fragment: &str) -> (r: Result<String, PipelineError>)
    ensures
        match r {
            Ok(d) => wrapped(fragment@) == Some(d@),
            Err(e) => wrapped(fragment@) is None && e == PipelineError::MalformedFragment,
        },
{
    let f = chars_of(fragment);
    if has_prefix(&f, DOCTYPE_MARK) || has_prefix(&f, HTML_OPEN) {
        return Ok(String::from_str(fragment));
    }
    let title = infer_title(fragment)?;
    let mut d = String::from_str(DOC_HEAD);
    if title.unicode_len() > 0 {
        d.append(TITLE_OPEN);
        d.append(title.as_str());
        d.append(TITLE_CLOSE);
    }
    d.append(HEAD_END);
    d.append(BODY_OPEN);
    d.append(fragment);
    d.append(DOC_END);
    assert(d@ =~= shell(title@, fragment@));
    Ok(d)
}

/// A fragment that opens with `<html>` is a complete document: the wrapper
/// hands it back unchanged, with no header or footer.
pub proof fn lemma_html_passes_through(f: Seq<char>)
    requires
        starts_with(f, HTML_OPEN@),
    ensures
        wrapped(f) == Some(f),
{
}

/// A wrapped fragment stands whole in the body of its document, and the
/// title element appears exactly when the inferred title is not empty.
pub proof fn lemma_shell_holds_fragment(f: Seq<char>, t: Seq<char>)
    requires
        !is_complete_document(f),
        inferred_title(f) == Some(t),
    ensures
        wrapped(f) == Some(shell(t, f)),
        shell(t, f).subrange(
            (DOC_HEAD@.len() + title_element_of(t).len() + HEAD_END@.len() + BODY_OPEN@.len()) as int,
            (DOC_HEAD@.len() + title_element_of(t).len() + HEAD_END@.len() + BODY_OPEN@.len()
                + f.len()) as int,
        ) == f,
        (title_element_of(t).len() == 0) <==> (t.len() == 0),
{
    let pre = DOC_HEAD@ + title_element_of(t) + HEAD_END@ + BODY_OPEN@;
    assert(shell(t, f) == pre + f + DOC_END@);
    assert((pre + f + DOC_END@).subrange(pre.len() as int, (pre.len() + f.len()) as int) =~= f);
}

} // verus!
