//! Reading a mirror's directory listings to discover which architectures
//! and profiles it publishes. Fetching the pages is the caller's part.
use vstd::prelude::*;

use crate::order::{sorted_distinct, sorted_texts};
use crate::text::{
    concat2, concat3, find_in, first_index, holds, lines_of, no_duplicates, seq_contains,
    split_lines, str_contains, str_eq, views,
};

verus! {

/// The architecture names a mirror may publish.
pub open spec fn known_architecture(name: Seq<char>) -> bool {
    name == "amd64"@ || name == "arm64"@ || name == "arm"@ || name == "x86"@ || name == "ppc64"@
        || name == "ppc"@ || name == "sparc"@ || name == "alpha"@ || name == "hppa"@ || name
        == "ia64"@ || name == "mips"@ || name == "riscv"@ || name == "s390"@
}

/// Whether `name` is an architecture name a mirror may publish.
pub fn is_valid_architecture(name: &str) -> (r: bool)
    ensures
        r == known_architecture(name@),
{
    str_eq(name, "amd64") || str_eq(name, "arm64") || str_eq(name, "arm") || str_eq(name, "x86")
        || str_eq(name, "ppc64") || str_eq(name, "ppc") || str_eq(name, "sparc") || str_eq(
        name,
        "alpha",
    ) || str_eq(name, "hppa") || str_eq(name, "ia64") || str_eq(name, "mips") || str_eq(
        name,
        "riscv",
    ) || str_eq(name, "s390")
}

/// `s` without its trailing `/` characters.
pub open spec fn trim_slashes(s: Seq<char>) -> Seq<char>
    decreases s.len(),
{
    if s.len() > 0 && s.last() == '/' {
        trim_slashes(s.drop_last())
    } else {
        s
    }
}

/// The target of the first `href="..."` of a line.
pub open spec fn href_target(line: Seq<char>) -> Option<Seq<char>> {
    let pat = "href=\""@;
    if !seq_contains(line, pat) {
        None
    } else {
        let rest = line.subrange(first_index(line, pat) + pat.len(), line.len() as int);
        if !seq_contains(rest, "\""@) {
            None
        } else {
            Some(rest.subrange(0, first_index(rest, "\""@)))
        }
    }
}

/// The directory a line of a listing links to: the target of its first
/// `href="..."`, when that ends with `/`, without the trailing slashes.
pub open spec fn linked_directory(line: Seq<char>) -> Option<Seq<char>> {
    match href_target(line) {
        Some(href) => if href.len() > 0 && href.last() == '/' {
            Some(trim_slashes(href))
        } else {
            None
        },
        None => None,
    }
}

/// `s` without its trailing slashes.
fn trim_trailing_slashes(s: &str) -> (r: String)
    ensures
        r@ == trim_slashes(s@),
{
    let n = s.unicode_len();
    let mut end: usize = n;
    proof {
        assert(s@.subrange(0, n as int) =~= s@);
    }
    while end > 0 && s.get_char(end - 1) == '/'
        invariant
            end <= n,
            n == s@.len(),
            trim_slashes(s@) == trim_slashes(s@.subrange(0, end as int)),
        decreases end,
    {
        proof {
            assert(s@.subrange(0, end as int).drop_last() =~= s@.subrange(0, end - 1));
        }
        end = end - 1;
    }
    String::from_str(s.substring_char(0, end))
}

/// The target of the first `href="..."` of `line`.
fn find_href_target(line: &str) -> (r: Option<String>)
    ensures
        match r {
            Some(h) => href_target(line@) == Some(h@),
            None => href_target(line@) is None,
        },
{
    let pat = "href=\"";
    match find_in(line, pat) {
        None => None,
        Some(pos) => {
            let n = line.unicode_len();
            let start = pos + pat.unicode_len();
            let rest = line.substring_char(start, n);
            match find_in(rest, "\"") {
                None => None,
                Some(end) => Some(String::from_str(rest.substring_char(0, end))),
            }
        },
    }
}

/// The directory that `line` links to (see [`linked_directory`]).
pub fn extract_architecture_from_line(line: &str) -> (r: Option<String>)
    ensures
        match r {
            Some(a) => linked_directory(line@) == Some(a@),
            None => linked_directory(line@) is None,
        },
{
    match find_href_target(line) {
        None => None,
        Some(href) => {
            let h = href.as_str();
            let hl = h.unicode_len();
            if hl > 0 && h.get_char(hl - 1) == '/' {
                Some(trim_trailing_slashes(h))
            } else {
                None
            }
        },
    }
}

/// The architectures a line contributes: lines with a link are read, and
/// only known architecture names count.
#[verifier::opaque]
pub open spec fn line_architecture(line: Seq<char>, name: Seq<char>) -> bool {
    seq_contains(line, "href="@) && seq_contains(line, "/"@) && linked_directory(line) == Some(
        name,
    ) && known_architecture(name)
}

/// The architecture that `line` contributes, if any.
fn architecture_of_line(line: &str) -> (r: Option<String>)
    ensures
        forall|x: Seq<char>| line_architecture(line@, x) <==> (r matches Some(a) && a@ == x),
{
    reveal(line_architecture);
    if str_contains(line, "href=") && str_contains(line, "/") {
        match extract_architecture_from_line(line) {
            Some(arch) => {
                if is_valid_architecture(arch.as_str()) {
                    return Some(arch);
                }
                None
            },
            None => None,
        }
    } else {
        None
    }
}

/// The architectures listed on a releases page, each once, sorted.
pub fn parse_architecture_directories(html: &str) -> (r: Vec<String>)
    ensures
        sorted_texts(r@),
        no_duplicates(r@),
        forall|x: Seq<char>|
            holds(r@, x) <==> exists|k: int|
                0 <= k < lines_of(html@).len() && line_architecture(lines_of(html@)[k], x),
{
    let lines = split_lines(html);
    let mut found: Vec<String> = Vec::new();
    let mut i: usize = 0;
    while i < lines.len()
        invariant
            i <= lines@.len(),
            views(lines@) == lines_of(html@),
            forall|x: Seq<char>|
                holds(found@, x) <==> exists|k: int|
                    0 <= k < i && line_architecture(lines@[k]@, x),
        decreases lines@.len() - i,
    {
        let ghost found0 = found@;
        match architecture_of_line(lines[i].as_str()) {
            Some(arch) => found.push(arch),
            None => {},
        }
        proof {
            assert forall|x: Seq<char>|
                holds(found@, x) <==> exists|k: int|
                    0 <= k < i + 1 && line_architecture(lines@[k]@, x) by {
                if holds(found@, x) {
                    let j = choose|j: int| 0 <= j < found@.len() && found@[j]@ == x;
                    if j < found0.len() {
                        assert(holds(found0, x));
                        let k = choose|k: int| 0 <= k < i && line_architecture(lines@[k]@, x);
                        assert(0 <= k < i + 1);
                    } else {
                        assert(line_architecture(lines@[i as int]@, x));
                    }
                }
                if exists|k: int| 0 <= k < i + 1 && line_architecture(lines@[k]@, x) {
                    let k = choose|k: int| 0 <= k < i + 1 && line_architecture(lines@[k]@, x);
                    if k < i {
                        assert(holds(found0, x));
                        let j = choose|j: int| 0 <= j < found0.len() && found0[j]@ == x;
                        assert(found@[j]@ == x);
                    } else {
                        assert(found@[found0.len() as int]@ == x);
                    }
                }
            }
        }
        i = i + 1;
    }
    proof {
        assert forall|x: Seq<char>|
            holds(found@, x) <==> exists|k: int|
                0 <= k < lines_of(html@).len() && line_architecture(lines_of(html@)[k], x) by {
            if exists|k: int| 0 <= k < lines_of(html@).len() && line_architecture(lines_of(html@)[k], x) {
                let k = choose|k: int| 0 <= k < lines_of(html@).len() && line_architecture(lines_of(html@)[k], x);
                assert(lines_of(html@)[k] == lines@[k]@);
            }
            if exists|k: int| 0 <= k < lines@.len() && line_architecture(lines@[k]@, x) {
                let k = choose|k: int| 0 <= k < lines@.len() && line_architecture(lines@[k]@, x);
                assert(lines_of(html@)[k] == lines@[k]@);
            }
        }
    }
    sorted_distinct(found)
}

/// `s` with quotes removed and `>` turned into a space.
pub open spec fn unquoted(s: Seq<char>) -> Seq<char>
    decreases s.len(),
{
    if s.len() == 0 {
        Seq::empty()
    } else {
        let c = s.last();
        let head = unquoted(s.drop_last());
        if c == '"' {
            head
        } else if c == '>' {
            head.push(' ')
        } else {
            head.push(c)
        }
    }
}

/// `s` with quotes removed and `>` turned into a space.
fn unquote(s: &str) -> (r: String)
    ensures
        r@ == unquoted(s@),
{
    let n = s.unicode_len();
    let mut r = String::new();
    let mut seg: usize = 0;
    let mut i: usize = 0;
    while i < n
        invariant
            n == s@.len(),
            seg <= i <= n,
            unquoted(s@.subrange(0, i as int)) == r@ + s@.subrange(seg as int, i as int),
        decreases n - i,
    {
        let c = s.get_char(i);
        proof {
            assert(s@.subrange(0, i + 1).drop_last() =~= s@.subrange(0, i as int));
            assert(s@.subrange(0, i + 1).last() == c);
        }
        if c == '"' {
            r.append(s.substring_char(seg, i));
            seg = i + 1;
            proof {
                assert(s@.subrange(seg as int, i + 1) =~= Seq::<char>::empty());
                assert(unquoted(s@.subrange(0, i + 1)) =~= r@ + s@.subrange(seg as int, i + 1));
            }
        } else if c == '>' {
            r.append(s.substring_char(seg, i));
            r.append(" ");
            seg = i + 1;
            proof {
                reveal_strlit(" ");
                assert(s@.subrange(seg as int, i + 1) =~= Seq::<char>::empty());
                assert(unquoted(s@.subrange(0, i + 1)) =~= r@ + s@.subrange(seg as int, i + 1));
            }
        } else {
            proof {
                assert(s@.subrange(seg as int, i + 1) =~= s@.subrange(seg as int, i as int).push(c));
                assert(unquoted(s@.subrange(0, i + 1)) =~= r@ + s@.subrange(seg as int, i + 1));
            }
        }
        i = i + 1;
    }
    r.append(s.substring_char(seg, n));
    proof {
        assert(s@.subrange(0, n as int) =~= s@);
    }
    r
}

/// The prefix of the autobuild directories of `arch`.
pub open spec fn stage3_prefix(arch: Seq<char>) -> Seq<char> {
    "current-stage3-"@ + arch + "-"@
}

/// The profile named by an autobuild directory link in `line`: after the
/// first `current-stage3-<arch>-` of the unquoted line, up to the next `/`,
/// or else up to the next space.
pub open spec fn linked_profile(line: Seq<char>, arch: Seq<char>) -> Option<Seq<char>> {
    let clean = unquoted(line);
    let prefix = stage3_prefix(arch);
    if !seq_contains(clean, prefix) {
        None
    } else {
        let rest = clean.subrange(first_index(clean, prefix) + prefix.len(), clean.len() as int);
        if seq_contains(rest, "/"@) {
            Some(rest.subrange(0, first_index(rest, "/"@)))
        } else if seq_contains(rest, " "@) {
            Some(rest.subrange(0, first_index(rest, " "@)))
        } else {
            None
        }
    }
}

/// The profile that an autobuilds listing line names for `arch` (see
/// [`linked_profile`]).
pub fn extract_profile_from_autobuilds_line(line: &str, arch: &str) -> (r: Option<String>)
    ensures
        match r {
            Some(p) => linked_profile(line@, arch@) == Some(p@),
            None => linked_profile(line@, arch@) is None,
        },
{
    let prefix = concat3("current-stage3-", arch, "-");
    let clean = unquote(line);
    let cs = clean.as_str();
    match find_in(cs, prefix.as_str()) {
        None => None,
        Some(start) => {
            let n = cs.unicode_len();
            let pl = prefix.as_str().unicode_len();
            let remaining = cs.substring_char(start + pl, n);
            match find_in(remaining, "/") {
                Some(end) => Some(String::from_str(remaining.substring_char(0, end))),
                None => match find_in(remaining, " ") {
                    Some(end) => Some(String::from_str(remaining.substring_char(0, end))),
                    None => None,
                },
            }
        },
    }
}

/// The profiles a line contributes for `arch`.
#[verifier::opaque]
pub open spec fn line_profile(line: Seq<char>, arch: Seq<char>, p: Seq<char>) -> bool {
    seq_contains(line, "href="@) && seq_contains(line, stage3_prefix(arch)) && linked_profile(
        line,
        arch,
    ) == Some(p)
}

/// Some line of `html` names a profile for `arch`.
pub open spec fn any_profile_listed(html: Seq<char>, arch: Seq<char>) -> bool {
    exists|k: int, p: Seq<char>|
        #![trigger line_profile(lines_of(html)[k], arch, p)]
        0 <= k < lines_of(html).len() && line_profile(lines_of(html)[k], arch, p)
}

/// The profile that `line` contributes for `arch`, if any.
fn profile_of_line(line: &str, arch: &str, prefix: &str) -> (r: Option<String>)
    requires
        prefix@ == stage3_prefix(arch@),
    ensures
        forall|x: Seq<char>| line_profile(line@, arch@, x) <==> (r matches Some(p) && p@ == x),
{
    reveal(line_profile);
    if str_contains(line, "href=") && str_contains(line, prefix) {
        extract_profile_from_autobuilds_line(line, arch)
    } else {
        None
    }
}

/// The profiles an autobuilds page lists for `arch`, each once and
/// sorted; `openrc` alone when it lists none.
pub fn parse_autobuilds_directories(html: &str, arch: &str) -> (r: Vec<String>)
    ensures
        any_profile_listed(html@, arch@) ==> {
            &&& sorted_texts(r@)
            &&& no_duplicates(r@)
            &&& forall|x: Seq<char>|
                holds(r@, x) <==> exists|k: int|
                    0 <= k < lines_of(html@).len() && line_profile(lines_of(html@)[k], arch@, x)
        },
        !any_profile_listed(html@, arch@) ==> views(r@) == seq!["openrc"@],
{
    let prefix = concat3("current-stage3-", arch, "-");
    let lines = split_lines(html);
    let mut found: Vec<String> = Vec::new();
    let mut i: usize = 0;
    while i < lines.len()
        invariant
            i <= lines@.len(),
            prefix@ == stage3_prefix(arch@),
            views(lines@) == lines_of(html@),
            forall|x: Seq<char>|
                holds(found@, x) <==> exists|k: int| 0 <= k < i && line_profile(lines@[k]@, arch@, x),
        decreases lines@.len() - i,
    {
        let ghost found0 = found@;
        match profile_of_line(lines[i].as_str(), arch, prefix.as_str()) {
            Some(p) => found.push(p),
            None => {},
        }
        proof {
            assert forall|x: Seq<char>|
                holds(found@, x) <==> exists|k: int| 0 <= k < i + 1 && line_profile(lines@[k]@, arch@, x) by {
                if holds(found@, x) {
                    let j = choose|j: int| 0 <= j < found@.len() && found@[j]@ == x;
                    if j < found0.len() {
                        assert(holds(found0, x));
                        let k = choose|k: int| 0 <= k < i && line_profile(lines@[k]@, arch@, x);
                        assert(0 <= k < i + 1);
                    } else {
                        assert(line_profile(lines@[i as int]@, arch@, x));
                    }
                }
                if exists|k: int| 0 <= k < i + 1 && line_profile(lines@[k]@, arch@, x) {
                    let k = choose|k: int| 0 <= k < i + 1 && line_profile(lines@[k]@, arch@, x);
                    if k < i {
                        assert(holds(found0, x));
                        let j = choose|j: int| 0 <= j < found0.len() && found0[j]@ == x;
                        assert(found@[j]@ == x);
                    } else {
                        assert(found@[found0.len() as int]@ == x);
                    }
                }
            }
        }
        i = i + 1;
    }
    proof {
        assert forall|x: Seq<char>|
            holds(found@, x) <==> exists|k: int|
                0 <= k < lines_of(html@).len() && line_profile(lines_of(html@)[k], arch@, x) by {
            if exists|k: int| 0 <= k < lines_of(html@).len() && line_profile(lines_of(html@)[k], arch@, x) {
                let k = choose|k: int| 0 <= k < lines_of(html@).len() && line_profile(lines_of(html@)[k], arch@, x);
                assert(lines_of(html@)[k] == lines@[k]@);
            }
            if exists|k: int| 0 <= k < lines@.len() && line_profile(lines@[k]@, arch@, x) {
                let k = choose|k: int| 0 <= k < lines@.len() && line_profile(lines@[k]@, arch@, x);
                assert(lines_of(html@)[k] == lines@[k]@);
            }
        }
    }
    let profiles = sorted_distinct(found);
    if profiles.len() == 0 {
        proof {
            assert forall|k: int, p: Seq<char>| 0 <= k < lines_of(html@).len() implies !line_profile(lines_of(html@)[k], arch@, p) by {
                if line_profile(lines_of(html@)[k], arch@, p) {
                    assert(holds(found@, p));
                    assert(holds(profiles@, p));
                }
            }
        }
        let mut d: Vec<String> = Vec::new();
        d.push(String::from_str("openrc"));
        assert(views(d@) =~= seq!["openrc"@]);
        return d;
    }
    proof {
        let x = profiles@[0]@;
        assert(holds(profiles@, x));
        assert(holds(found@, x));
        let k = choose|k: int|
            0 <= k < lines_of(html@).len() && line_profile(lines_of(html@)[k], arch@, x);
        assert(any_profile_listed(html@, arch@));
    }
    profiles
}

/// The releases directory of a mirror at `base_url`.
pub open spec fn releases_url_of(base_url: Seq<char>) -> Seq<char> {
    trim_slashes(base_url) + "/releases/"@
}

/// The releases directory of a mirror at `base_url`.
pub fn releases_url(base_url: &str) -> (r: String)
    ensures
        r@ == releases_url_of(base_url@),
{
    let b = trim_trailing_slashes(base_url);
    concat2(b.as_str(), "/releases/")
}

/// The autobuilds directory of `arch` under a releases directory.
pub fn autobuilds_url(releases_url: &str, arch: &str) -> (r: String)
    ensures
        r@ == releases_url@ + arch@ + "/autobuilds/"@,
{
    concat3(releases_url, arch, "/autobuilds/")
}

} // verus!
