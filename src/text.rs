//! Character-level text helpers with exact specifications.
use vstd::prelude::*;

verus! {

/// `n` occurs in `h` starting at index `i`.
pub open spec fn occurs_at(h: Seq<char>, n: Seq<char>, i: int) -> bool {
    0 <= i && i + n.len() <= h.len() && h.subrange(i, i + n.len()) == n
}

/// `n` occurs somewhere in `h`.
pub open spec fn seq_contains(h: Seq<char>, n: Seq<char>) -> bool {
    exists|i: int| occurs_at(h, n, i)
}

/// `h` begins with `n`.
pub open spec fn seq_starts_with(h: Seq<char>, n: Seq<char>) -> bool {
    occurs_at(h, n, 0)
}

/// `h` ends with `n`.
pub open spec fn seq_ends_with(h: Seq<char>, n: Seq<char>) -> bool {
    n.len() <= h.len() && occurs_at(h, n, h.len() - n.len())
}

/// The views of a sequence of strings.
pub open spec fn views(s: Seq<String>) -> Seq<Seq<char>> {
    s.map_values(|x: String| x@)
}

/// The characters of `s`, one per element.
pub fn chars_of(s: &str) -> (r: Vec<char>)
    ensures
        r@ == s@,
{
    let n = s.unicode_len();
    let mut r: Vec<char> = Vec::new();
    let mut i: usize = 0;
    while i < n
        invariant
            n == s@.len(),
            i <= n,
            r@ == s@.subrange(0, i as int),
        decreases n - i,
    {
        r.push(s.get_char(i));
        i = i + 1;
    }
    assert(r@ =~= s@);
    r
}

/// Whether `n` occurs in `h` at index `i`.
pub fn occurs_at_exec(h: &Vec<char>, n: &Vec<char>, i: usize) -> (r: bool)
    ensures
        r == occurs_at(h@, n@, i as int),
{
    if i > h.len() || n.len() > h.len() - i {
        return false;
    }
    let hl = h.len();
    let mut j: usize = 0;
    while j < n.len()
        invariant
            hl == h@.len(),
            i + n@.len() <= h@.len(),
            j <= n@.len(),
            forall|k: int| 0 <= k < j ==> h@[i + k] == n@[k],
        decreases n.len() - j,
    {
        assert(i + j < hl);
        if h[i + j] != n[j] {
            assert(h@.subrange(i as int, i + n@.len())[j as int] != n@[j as int]);
            return false;
        }
        j = j + 1;
    }
    assert(h@.subrange(i as int, i + n@.len()) =~= n@);
    true
}

/// The first index at which `n` occurs in `h`, if any.
pub fn find_exec(h: &Vec<char>, n: &Vec<char>) -> (r: Option<usize>)
    ensures
        match r {
            Some(i) => occurs_at(h@, n@, i as int) && forall|k: int|
                0 <= k < i ==> !occurs_at(h@, n@, k),
            None => !seq_contains(h@, n@),
        },
{
    let mut i: usize = 0;
    loop
        invariant
            i <= h@.len(),
            forall|k: int| 0 <= k < i ==> !occurs_at(h@, n@, k),
        ensures
            forall|k: int| 0 <= k <= h@.len() ==> !occurs_at(h@, n@, k),
        decreases h@.len() - i,
    {
        if occurs_at_exec(h, n, i) {
            return Some(i);
        }
        if i == h.len() {
            break;
        }
        i = i + 1;
    }
    assert forall|k: int| !occurs_at(h@, n@, k) by {
        if 0 <= k <= h@.len() {
        } else if k < 0 {
        } else {
            assert(k + n@.len() > h@.len());
        }
    }
    None
}

/// Whether `n` occurs anywhere in `h`.
pub fn contains_exec(h: &Vec<char>, n: &Vec<char>) -> (r: bool)
    ensures
        r == seq_contains(h@, n@),
{
    find_exec(h, n).is_some()
}

/// Whether the text `h` contains the text `n`.
pub fn str_contains(h: &str, n: &str) -> (r: bool)
    ensures
        r == seq_contains(h@, n@),
{
    let hc = chars_of(h);
    let nc = chars_of(n);
    contains_exec(&hc, &nc)
}

/// Whether the text `h` ends with the text `n`.
pub fn str_ends_with(h: &str, n: &str) -> (r: bool)
    ensures
        r == seq_ends_with(h@, n@),
{
    let hc = chars_of(h);
    let nc = chars_of(n);
    if nc.len() > hc.len() {
        false
    } else {
        occurs_at_exec(&hc, &nc, hc.len() - nc.len())
    }
}

/// A fresh string holding `a` followed by `b`.
pub fn concat2(a: &str, b: &str) -> (r: String)
    ensures
        r@ == a@ + b@,
{
    let mut s = String::from_str(a);
    s.append(b);
    s
}

/// A fresh string holding `a`, `b` and `c` in that order.
pub fn concat3(a: &str, b: &str, c: &str) -> (r: String)
    ensures
        r@ == a@ + b@ + c@,
{
    let mut s = String::from_str(a);
    s.append(b);
    s.append(c);
    s
}

/// `base` joined with `rel`: an absolute `rel` replaces `base`; otherwise a
/// single `/` separates them unless `base` is empty or already ends with one.
pub open spec fn path_join(base: Seq<char>, rel: Seq<char>) -> Seq<char> {
    if rel.len() > 0 && rel[0] == '/' {
        rel
    } else if base.len() == 0 || base.last() == '/' {
        base + rel
    } else {
        base + seq!['/'] + rel
    }
}

/// Joins a path and a relative or absolute path.
pub fn join_path(base: &str, rel: &str) -> (r: String)
    ensures
        r@ == path_join(base@, rel@),
{
    let rl = rel.unicode_len();
    if rl > 0 && rel.get_char(0) == '/' {
        return String::from_str(rel);
    }
    let bl = base.unicode_len();
    if bl == 0 || base.get_char(bl - 1) == '/' {
        concat2(base, rel)
    } else {
        let r = concat3(base, "/", rel);
        proof {
            reveal_strlit("/");
        }
        r
    }
}

/// Index just after the last `/` of `p` (zero when there is none).
pub open spec fn last_slash_end(p: Seq<char>) -> int
    decreases p.len(),
{
    if p.len() == 0 {
        0
    } else if p.last() == '/' {
        p.len() as int
    } else {
        last_slash_end(p.drop_last())
    }
}

/// The last component of `p`: what follows its last `/`.
pub open spec fn file_name_of(p: Seq<char>) -> Seq<char> {
    p.subrange(last_slash_end(p), p.len() as int)
}

/// `p` names an entry: its last component is neither empty nor `.` or `..`.
pub open spec fn has_file_name(p: Seq<char>) -> bool {
    let f = file_name_of(p);
    f.len() > 0 && f != seq!['.'] && f != seq!['.', '.']
}

/// The last component of a path.
pub fn file_name(p: &str) -> (r: String)
    ensures
        r@ == file_name_of(p@),
{
    let n = p.unicode_len();
    let mut i: usize = n;
    assert(p@.subrange(0, n as int) =~= p@);
    while i > 0 && p.get_char(i - 1) != '/'
        invariant
            n == p@.len(),
            i <= n,
            forall|k: int| i <= k < n ==> p@[k] != '/',
            last_slash_end(p@) == last_slash_end(p@.subrange(0, i as int)),
        decreases i,
    {
        proof {
            let q = p@.subrange(0, i as int);
            assert(q.drop_last() =~= p@.subrange(0, i - 1));
        }
        i = i - 1;
    }
    proof {
        let q = p@.subrange(0, i as int);
        if i > 0 {
            assert(q.last() == '/');
        }
    }
    String::from_str(p.substring_char(i, n))
}

/// `path` relative to `base`, when `base` is a leading run of whole components of it.
pub open spec fn relative_to(path: Seq<char>, base: Seq<char>) -> Option<Seq<char>> {
    if path == base {
        Some(Seq::empty())
    } else if base.len() > 0 && base.last() == '/' && seq_starts_with(path, base) {
        Some(path.subrange(base.len() as int, path.len() as int))
    } else if seq_starts_with(path, base + seq!['/']) {
        Some(path.subrange(base.len() as int + 1, path.len() as int))
    } else {
        None
    }
}

/// Strips `base` from the front of `path`, component-wise.
pub fn strip_path_prefix(path: &str, base: &str) -> (r: Option<String>)
    ensures
        r matches Some(s) ==> relative_to(path@, base@) == Some(s@),
        r is None ==> relative_to(path@, base@) is None,
{
    let pc = chars_of(path);
    let bc = chars_of(base);
    let pl = pc.len();
    let bl = bc.len();
    if pl == bl && occurs_at_exec(&pc, &bc, 0) {
        proof {
            assert(path@.subrange(0, bl as int) =~= path@);
        }
        return Some(String::new());
    }
    if bl > 0 && bc[bl - 1] == '/' && occurs_at_exec(&pc, &bc, 0) {
        proof {
            if path@ == base@ {
                assert(path@.subrange(0, bl as int) =~= path@);
            }
        }
        return Some(String::from_str(path.substring_char(bl, pl)));
    }
    let mut bs = bc.clone();
    bs.push('/');
    if occurs_at_exec(&pc, &bs, 0) {
        proof {
            assert(bs@ =~= base@ + seq!['/']);
            if path@ == base@ {
                assert(path@.subrange(0, bl as int) =~= path@);
            }
        }
        return Some(String::from_str(path.substring_char(bl + 1, pl)));
    }
    proof {
        assert(bs@ =~= base@ + seq!['/']);
        if path@ == base@ {
            assert(path@.subrange(0, bl as int) =~= path@);
        }
    }
    None
}

/// Whether two texts are equal.
pub fn str_eq(a: &str, b: &str) -> (r: bool)
    ensures
        r == (a@ == b@),
{
    let ac = chars_of(a);
    let bc = chars_of(b);
    if ac.len() != bc.len() {
        return false;
    }
    let r = occurs_at_exec(&ac, &bc, 0);
    proof {
        assert(a@.subrange(0, b@.len() as int) =~= a@);
    }
    r
}

/// The list `s` holds no value twice.
pub open spec fn no_duplicates(s: Seq<String>) -> bool {
    forall|i: int, j: int| 0 <= i < j < s.len() ==> s[i]@ != s[j]@
}

/// Whether `s` holds a string equal to `x`.
pub open spec fn holds(s: Seq<String>, x: Seq<char>) -> bool {
    exists|i: int| 0 <= i < s.len() && s[i]@ == x
}

/// Whether `v` holds a string equal to `x`.
pub fn vec_holds(v: &Vec<String>, x: &str) -> (r: bool)
    ensures
        r == holds(v@, x@),
{
    let mut i: usize = 0;
    while i < v.len()
        invariant
            i <= v@.len(),
            forall|k: int| 0 <= k < i ==> v@[k]@ != x@,
        decreases v@.len() - i,
    {
        if str_eq(v[i].as_str(), x) {
            return true;
        }
        i = i + 1;
    }
    false
}

/// The first index at which `n` occurs in `h`.
pub open spec fn first_index(h: Seq<char>, n: Seq<char>) -> int {
    choose|i: int| occurs_at(h, n, i) && forall|k: int| 0 <= k < i ==> !occurs_at(h, n, k)
}

/// The first occurrence of `n` at `i` makes `i` the first index.
pub proof fn lemma_first_index_is_found(h: Seq<char>, n: Seq<char>, i: int)
    requires
        occurs_at(h, n, i),
        forall|k: int| 0 <= k < i ==> !occurs_at(h, n, k),
    ensures
        first_index(h, n) == i,
{
    let j = first_index(h, n);
    if j < i {
        assert(!occurs_at(h, n, j));
    } else if i < j {
        assert(!occurs_at(h, n, i));
    }
}

/// The first index of `n` in the text `h`, if any.
pub fn find_in(h: &str, n: &str) -> (r: Option<usize>)
    ensures
        match r {
            Some(i) => seq_contains(h@, n@) && i == first_index(h@, n@) && i + n@.len() <= h@.len(),
            None => !seq_contains(h@, n@),
        },
{
    let hc = chars_of(h);
    let nc = chars_of(n);
    let r = find_exec(&hc, &nc);
    proof {
        if let Some(i) = r {
            lemma_first_index_is_found(h@, n@, i as int);
        }
    }
    r
}

/// What `str::lines` makes of a text.
pub uninterp spec fn lines_of(s: Seq<char>) -> Seq<Seq<char>>;

/// Relies on `str::lines`: the lines of a text, without their line
/// endings; the result depends on the characters alone.
#[verifier::external_body]
pub(crate) fn split_lines(s: &str) -> (r: Vec<String>)
    ensures
        views(r@) == lines_of(s@),
{
    s.lines().map(|l| l.to_string()).collect()
}

/// What `str::trim` makes of a text.
pub uninterp spec fn trimmed_of(s: Seq<char>) -> Seq<char>;

/// Relies on `str::trim`: the text without leading and trailing
/// whitespace, which depends on the characters alone.
#[verifier::external_body]
pub(crate) fn trim_text(s: &str) -> (r: String)
    ensures
        r@ == trimmed_of(s@),
{
    s.trim().to_string()
}

/// What `str::split_whitespace` makes of a text.
pub uninterp spec fn words_of(s: Seq<char>) -> Seq<Seq<char>>;

/// Relies on `str::split_whitespace`: the non-empty runs of a text between
/// whitespace, which depend on the characters alone.
#[verifier::external_body]
pub(crate) fn split_words(s: &str) -> (r: Vec<String>)
    ensures
        views(r@) == words_of(s@),
{
    s.split_whitespace().map(|w| w.to_string()).collect()
}

/// Whether the path `p` names an entry (see [`has_file_name`]).
pub fn has_file_name_exec(p: &str) -> (r: bool)
    ensures
        r == has_file_name(p@),
{
    let f = file_name(p);
    let fs = f.as_str();
    let dot = String::from_str(".");
    let dots = String::from_str("..");
    proof {
        reveal_strlit(".");
        reveal_strlit("..");
        assert(dot@ =~= seq!['.']);
        assert(dots@ =~= seq!['.', '.']);
    }
    fs.unicode_len() > 0 && !str_eq(fs, dot.as_str()) && !str_eq(fs, dots.as_str())
}

/// What `str::trim_end` makes of a text.
pub uninterp spec fn trimmed_end_of(s: Seq<char>) -> Seq<char>;

/// Relies on `str::trim_end`: the text without trailing whitespace, which
/// depends on the characters alone.
#[verifier::external_body]
pub(crate) fn trim_end_text(s: &str) -> (r: String)
    ensures
        r@ == trimmed_end_of(s@),
{
    s.trim_end().to_string()
}

/// `s` with every `/` turned into `-`.
pub open spec fn dashed(s: Seq<char>) -> Seq<char> {
    s.map_values(|c: char| if c == '/' { '-' } else { c })
}

/// `s` with every `/` turned into `-`.
pub fn dash_slashes(s: &str) -> (r: String)
    ensures
        r@ == dashed(s@),
{
    let n = s.unicode_len();
    let mut r = String::new();
    let mut seg: usize = 0;
    let mut i: usize = 0;
    while i < n
        invariant
            n == s@.len(),
            seg <= i <= n,
            dashed(s@.subrange(0, i as int)) == r@ + s@.subrange(seg as int, i as int),
            forall|k: int| seg <= k < i ==> s@[k] != '/',
        decreases n - i,
    {
        let c = s.get_char(i);
        proof {
            assert(dashed(s@.subrange(0, i + 1)) =~= dashed(s@.subrange(0, i as int)).push(
                if c == '/' { '-' } else { c },
            ));
        }
        if c == '/' {
            r.append(s.substring_char(seg, i));
            r.append("-");
            seg = i + 1;
            proof {
                reveal_strlit("-");
                assert(s@.subrange(seg as int, i + 1) =~= Seq::<char>::empty());
                assert(dashed(s@.subrange(0, i + 1)) =~= r@ + s@.subrange(seg as int, i + 1));
            }
        } else {
            proof {
                assert(s@.subrange(seg as int, i + 1) =~= s@.subrange(seg as int, i as int).push(c));
            }
        }
        i = i + 1;
    }
    r.append(s.substring_char(seg, n));
    proof {
        assert(s@.subrange(0, n as int) =~= s@);
    }
    r
}

} // verus!
