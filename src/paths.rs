use vstd::prelude::*;

verus! {

/// Position of the last occurrence of `c` in `s`, if any.
pub open spec fn last_index_of(s: Seq<char>, c: char) -> Option<int>
    decreases s.len(),
{
    if s.len() == 0 {
        None
    } else if s.last() == c {
        Some(s.len() - 1)
    } else {
        last_index_of(s.drop_last(), c)
    }
}

/// The last component of a `/`-separated path.
pub open spec fn file_name(p: Seq<char>) -> Seq<char> {
    match last_index_of(p, '/') {
        Some(i) => p.skip(i + 1),
        None => p,
    }
}

/// Where the extension's dot stands in the file name: the last `.`, provided
/// it is not the name's first character (a leading dot marks a hidden file).
pub open spec fn extension_dot(name: Seq<char>) -> Option<int> {
    match last_index_of(name, '.') {
        Some(d) => if d > 0 { Some(d) } else { None },
        None => None,
    }
}

/// The extension of a path: what follows the extension's dot in its file name.
pub open spec fn extension(p: Seq<char>) -> Option<Seq<char>> {
    match extension_dot(file_name(p)) {
        Some(d) => Some(file_name(p).skip(d + 1)),
        None => None,
    }
}

pub proof fn lemma_last_index_bounds(s: Seq<char>, c: char)
    ensures
        match last_index_of(s, c) {
            Some(i) => 0 <= i < s.len() && s[i] == c && forall|j: int|
                i < j < s.len() ==> s[j] != c,
            None => forall|j: int| 0 <= j < s.len() ==> s[j] != c,
        },
    decreases s.len(),
{
    if s.len() > 0 && s.last() != c {
        lemma_last_index_bounds(s.drop_last(), c);
        assert forall|j: int| 0 <= j < s.len() - 1 implies s.drop_last()[j] == s[j] by {}
    }
}

/// Finds the last occurrence of `c` among the characters of `s`.
fn find_last(s: &str, c: char) -> (r: Option<usize>)
    ensures
        match r {
            Some(i) => last_index_of(s@, c) == Some(i as int) && i < s@.len(),
            None => last_index_of(s@, c) is None,
        },
{
    let n = s.unicode_len();
    let mut i: usize = n;
    assert(s@.take(n as int) =~= s@);
    while i > 0
        invariant
            i <= n == s@.len(),
            last_index_of(s@, c) == last_index_of(s@.take(i as int), c),
        decreases i,
    {
        let ch = s.get_char(i - 1);
        if ch == c {
            assert(s@.take(i as int).last() == c);
            return Some(i - 1);
        }
        assert(s@.take(i as int).drop_last() =~= s@.take(i - 1));
        i = i - 1;
    }
    assert(s@.take(0) =~= Seq::<char>::empty());
    None
}

/// The extension of `path`: the text after the last `.` of its file name,
/// or `None` where the file name has no such dot (or only a leading one).
pub fn extension_of(path: &str) -> (r: Option<&str>)
    ensures
        match r {
            Some(e) => extension(path@) == Some(e@),
            None => extension(path@) is None,
        },
{
    let n = path.unicode_len();
    let start: usize = match find_last(path, '/') {
        Some(i) => i + 1,
        None => 0,
    };
    proof {
        lemma_last_index_bounds(path@, '/');
    }
    let name = path.substring_char(start, n);
    assert(name@ == file_name(path@)) by {
        assert(path@.skip(0) =~= path@);
    }
    match find_last(name, '.') {
        Some(d) => {
            proof {
                lemma_last_index_bounds(name@, '.');
            }
            if d > 0 {
                let e = name.substring_char(d + 1, n - start);
                assert(e@ =~= name@.skip(d + 1));
                Some(e)
            } else {
                None
            }
        },
        None => None,
    }
}

/// `b` is `a` with an ASCII upper-case letter turned into lower case; any
/// other character stays as it is.
pub open spec fn lowers_to(a: char, b: char) -> bool {
    if 'A' <= a <= 'Z' {
        b as u32 == a as u32 + 32
    } else {
        b == a
    }
}

/// `t` is `s` with its ASCII letters lowercased.
pub open spec fn is_ascii_lowering(s: Seq<char>, t: Seq<char>) -> bool {
    s.len() == t.len() && forall|i: int| 0 <= i < s.len() ==> lowers_to(s[i], t[i])
}

fn lowers_char(a: char, b: char) -> (r: bool)
    ensures
        r == lowers_to(a, b),
{
    if 'A' <= a && a <= 'Z' {
        b as u32 == a as u32 + 32
    } else {
        b == a
    }
}

/// Whether `path`'s extension, with its ASCII letters lowercased, is `ext`
/// (so `a/B.MD` has the extension `md`).
pub fn is_extension(path: &str, ext: &str) -> (r: bool)
    ensures
        r == match extension(path@) {
            Some(e) => is_ascii_lowering(e, ext@),
            None => false,
        },
{
    match extension_of(path) {
        Some(e) => {
            let n = e.unicode_len();
            if n != ext.unicode_len() {
                return false;
            }
            let mut i: usize = 0;
            while i < n
                invariant
                    extension(path@) == Some(e@),
                    n == e@.len() == ext@.len(),
                    i <= n,
                    forall|j: int| 0 <= j < i ==> lowers_to(e@[j], ext@[j]),
                decreases n - i,
            {
                if !lowers_char(e.get_char(i), ext.get_char(i)) {
                    return false;
                }
                i = i + 1;
            }
            true
        },
        None => false,
    }
}

/// `rel` placed under the directory `dir`, with one `/` between them.
pub open spec fn join_path(dir: Seq<char>, rel: Seq<char>) -> Seq<char> {
    if dir.len() == 0 {
        rel
    } else if dir.last() == '/' {
        dir + rel
    } else {
        dir.push('/') + rel
    }
}

/// The path with its extension replaced by `html` (added, where it has none).
pub open spec fn html_path(p: Seq<char>) -> Seq<char> {
    match extension(p) {
        Some(e) => p.take(p.len() - e.len()) + seq!['h', 't', 'm', 'l'],
        None => p + seq!['.', 'h', 't', 'm', 'l'],
    }
}

/// The extension is a suffix of the path.
pub proof fn lemma_extension_is_suffix(p: Seq<char>)
    ensures
        match extension(p) {
            Some(e) => e.len() < p.len() && p.skip(p.len() - e.len()) == e,
            None => true,
        },
{
    lemma_last_index_bounds(p, '/');
    let n = file_name(p);
    lemma_last_index_bounds(n, '.');
    if let Some(e) = extension(p) {
        assert(p.skip(p.len() - e.len()) =~= e);
    }
}

/// Where the last occurrence of a character in a concatenation stands.
pub proof fn lemma_last_index_concat(a: Seq<char>, b: Seq<char>, c: char)
    ensures
        last_index_of(a + b, c) == match last_index_of(b, c) {
            Some(i) => Some(a.len() + i),
            None => last_index_of(a, c),
        },
    decreases b.len(),
{
    if b.len() == 0 {
        assert(a + b =~= a);
    } else if b.last() != c {
        assert((a + b).drop_last() =~= a + b.drop_last());
        lemma_last_index_concat(a, b.drop_last(), c);
    }
}

/// Placing a path under a directory keeps its file name, hence its extension.
pub proof fn lemma_join_keeps_extension(dir: Seq<char>, rel: Seq<char>)
    ensures
        file_name(join_path(dir, rel)) == file_name(rel),
        extension(join_path(dir, rel)) == extension(rel),
{
    if dir.len() > 0 {
        let x = if dir.last() == '/' {
            dir
        } else {
            dir.push('/')
        };
        assert(x.last() == '/');
        assert(join_path(dir, rel) == x + rel);
        lemma_last_index_concat(x, rel, '/');
        assert(x.drop_last() + seq!['/'] =~= x);
        lemma_last_index_concat(x.drop_last(), seq!['/'], '/');
        assert(last_index_of(seq!['/'], '/') == Some(0int));
        lemma_last_index_bounds(rel, '/');
        match last_index_of(rel, '/') {
            Some(i) => {
                assert((x + rel).skip(x.len() + i + 1) =~= rel.skip(i + 1));
            },
            None => {
                assert((x + rel).skip(x.len() as int) =~= rel);
            },
        }
    }
}

/// Places `rel` under the directory `dir`.
pub fn join(dir: &str, rel: &str) -> (r: String)
    ensures
        r@ == join_path(dir@, rel@),
{
    let n = dir.unicode_len();
    let mut r = String::from_str(dir);
    if n > 0 && dir.get_char(n - 1) != '/' {
        proof {
            reveal_strlit("/");
        }
        r.append("/");
    }
    r.append(rel);
    r
}

/// The path with its extension replaced by `html`, as a rendered page's name.
pub fn with_html_extension(p: &str) -> (r: String)
    ensures
        r@ == html_path(p@),
{
    proof {
        reveal_strlit("html");
        reveal_strlit(".html");
        lemma_extension_is_suffix(p@);
    }
    match extension_of(p) {
        Some(e) => {
            let n = p.unicode_len();
            let k = e.unicode_len();
            let mut r = String::from_str(p.substring_char(0, n - k));
            r.append("html");
            r
        },
        None => {
            let mut r = String::from_str(p);
            r.append(".html");
            r
        },
    }
}

} // verus!
