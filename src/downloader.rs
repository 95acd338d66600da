//! Where stage3 archives are published and how their listings are read.
//! Fetching and writing files is the caller's part; the addresses, the
//! reading of the listings and the integrity check are decided here.
use vstd::prelude::*;

use sha2::{Digest, Sha256};

use crate::config::{Config, DEFAULT_MIRROR};
use crate::mirror::parser::{lowercase, lowercase_of};
use crate::profile::selected::SelectedProfile;
use crate::text::{
    concat2, concat3, find_in, first_index, lines_of, seq_contains, seq_ends_with, split_lines,
    split_words, str_contains, str_ends_with, str_eq, trim_text, trimmed_of, views, words_of,
};

verus! {

/// `s` with a `/` appended unless it already ends with one.
pub open spec fn with_slash(s: Seq<char>) -> Seq<char> {
    if s.len() > 0 && s.last() == '/' {
        s
    } else {
        s + "/"@
    }
}

/// The directory holding the current stage3 of `arch`/`profile` on the
/// mirror at `base`.
pub open spec fn stage3_dir(base: Seq<char>, arch: Seq<char>, profile: Seq<char>) -> Seq<char> {
    with_slash(base) + "releases/"@ + arch + "/autobuilds/current-stage3-"@ + arch + "-"@ + profile
        + "/"@
}

/// The directory holding the current stage3 of `profile` on the mirror at
/// `base_mirror_url`.
pub fn build_stage3_url(base_mirror_url: &str, profile: &SelectedProfile) -> (r: String)
    ensures
        r@ == stage3_dir(base_mirror_url@, profile.architecture@, profile.profile@),
{
    let n = base_mirror_url.unicode_len();
    let base = if n > 0 && base_mirror_url.get_char(n - 1) == '/' {
        String::from_str(base_mirror_url)
    } else {
        concat2(base_mirror_url, "/")
    };
    let a = profile.arch();
    let p = profile.profile();
    let s1 = concat3(base.as_str(), "releases/", a);
    let s2 = concat3(s1.as_str(), "/autobuilds/current-stage3-", a);
    let s3 = concat3(s2.as_str(), "-", p);
    concat2(s3.as_str(), "/")
}

/// The stage3 directories to try for `profile`: one per configured
/// mirror, in order, or the default mirror's when none is configured.
pub fn get_stage3_url(profile: &SelectedProfile, config: &Config) -> (r: Vec<String>)
    ensures
        config.mirrors_url@.len() > 0 ==> r@.len() == config.mirrors_url@.len() && forall|k: int|
            0 <= k < r@.len() ==> r@[k]@ == stage3_dir(
                config.mirrors_url@[k]@,
                profile.architecture@,
                profile.profile@,
            ),
        config.mirrors_url@.len() == 0 ==> r@.len() == 1 && r@[0]@ == stage3_dir(
            DEFAULT_MIRROR@,
            profile.architecture@,
            profile.profile@,
        ),
{
    let mut urls: Vec<String> = Vec::new();
    if config.has_mirrors() {
        let mut i: usize = 0;
        while i < config.mirrors_url.len()
            invariant
                i <= config.mirrors_url@.len(),
                urls@.len() == i,
                forall|k: int|
                    0 <= k < i ==> urls@[k]@ == stage3_dir(
                        config.mirrors_url@[k]@,
                        profile.architecture@,
                        profile.profile@,
                    ),
            decreases config.mirrors_url@.len() - i,
        {
            urls.push(build_stage3_url(config.mirrors_url[i].as_str(), profile));
            i = i + 1;
        }
    } else {
        urls.push(build_stage3_url(DEFAULT_MIRROR, profile));
    }
    urls
}

/// Each of `bases` followed by `suffix`, in order.
pub fn with_suffix(bases: &Vec<String>, suffix: &str) -> (r: Vec<String>)
    ensures
        r@.len() == bases@.len(),
        forall|k: int| 0 <= k < r@.len() ==> r@[k]@ == bases@[k]@ + suffix@,
{
    let mut r: Vec<String> = Vec::new();
    let mut i: usize = 0;
    while i < bases.len()
        invariant
            i <= bases@.len(),
            r@.len() == i,
            forall|k: int| 0 <= k < i ==> r@[k]@ == bases@[k]@ + suffix@,
        decreases bases@.len() - i,
    {
        r.push(concat2(bases[i].as_str(), suffix));
        i = i + 1;
    }
    r
}

/// Name of the listing that names the current archive matching `pattern`.
pub fn latest_listing_name(pattern: &str) -> (r: String)
    ensures
        r@ == "latest-"@ + pattern@ + ".txt"@,
{
    concat3("latest-", pattern, ".txt")
}

/// A line that carries data: after trimming, it is neither empty nor a comment.
pub open spec fn data_line(line: Seq<char>) -> bool {
    let t = trimmed_of(line);
    t.len() > 0 && t[0] != '#'
}

/// The text of `t` from the first `pattern` up to the following `.tar.xz`.
pub open spec fn archive_after_pattern(t: Seq<char>, pattern: Seq<char>) -> Option<Seq<char>> {
    if seq_contains(t, pattern) && seq_contains(t, ".tar.xz"@) {
        let rem = t.subrange(first_index(t, pattern), t.len() as int);
        if seq_contains(rem, ".tar.xz"@) {
            Some(rem.subrange(0, first_index(rem, ".tar.xz"@) + ".tar.xz"@.len()))
        } else {
            None
        }
    } else {
        None
    }
}

/// The archive a line of a `latest` listing names for `pattern`: its
/// second field when that contains the pattern and ends with `.tar.xz`;
/// otherwise the text from the pattern up to the following `.tar.xz`.
pub open spec fn listed_archive(line: Seq<char>, pattern: Seq<char>) -> Option<Seq<char>> {
    let t = trimmed_of(line);
    let parts = words_of(t);
    if !data_line(line) {
        None
    } else if parts.len() >= 2 && seq_contains(parts[1], pattern) && seq_ends_with(
        parts[1],
        ".tar.xz"@,
    ) {
        Some(parts[1])
    } else {
        archive_after_pattern(t, pattern)
    }
}

/// The first archive that the lines `ls` name for `pattern`.
pub open spec fn first_listed_archive(ls: Seq<Seq<char>>, pattern: Seq<char>) -> Option<Seq<char>>
    decreases ls.len(),
{
    if ls.len() == 0 {
        None
    } else {
        match listed_archive(ls[0], pattern) {
            Some(f) => Some(f),
            None => first_listed_archive(ls.drop_first(), pattern),
        }
    }
}

/// Whether a line carries data (see [`data_line`]), with its trimmed text.
fn trimmed_data_line(line: &str) -> (r: (bool, String))
    ensures
        r.1@ == trimmed_of(line@),
        r.0 == data_line(line@),
{
    let t = trim_text(line);
    let ok = t.as_str().unicode_len() > 0 && t.as_str().get_char(0) != '#';
    (ok, t)
}

/// The text of `t` from the first `pattern` up to the following `.tar.xz`.
fn find_archive_after_pattern(t: &str, pattern: &str) -> (r: Option<String>)
    ensures
        match r {
            Some(f) => archive_after_pattern(t@, pattern@) == Some(f@),
            None => archive_after_pattern(t@, pattern@) is None,
        },
{
    if !(str_contains(t, pattern) && str_contains(t, ".tar.xz")) {
        return None;
    }
    match find_in(t, pattern) {
        Some(start) => {
            let n = t.unicode_len();
            let rem = t.substring_char(start, n);
            match find_in(rem, ".tar.xz") {
                Some(end) => {
                    let stop = end + ".tar.xz".unicode_len();
                    Some(String::from_str(rem.substring_char(0, stop)))
                },
                None => None,
            }
        },
        None => None,
    }
}

/// The archive one line of a `latest` listing names (see [`listed_archive`]).
fn archive_in_line(line: &str, pattern: &str) -> (r: Option<String>)
    ensures
        match r {
            Some(f) => listed_archive(line@, pattern@) == Some(f@),
            None => listed_archive(line@, pattern@) is None,
        },
{
    let (ok, t) = trimmed_data_line(line);
    if !ok {
        return None;
    }
    let ts = t.as_str();
    let parts = split_words(ts);
    if parts.len() >= 2 {
        let f = parts[1].as_str();
        proof {
            assert(f@ == words_of(trimmed_of(line@))[1]);
        }
        if str_contains(f, pattern) && str_ends_with(f, ".tar.xz") {
            return Some(parts[1].clone());
        }
    }
    find_archive_after_pattern(ts, pattern)
}

/// Reads a `latest` listing: the current archive for `pattern`, from the
/// first line that names one.
pub fn stage3_filename_from_listing(content: &str, pattern: &str) -> (r: Option<String>)
    ensures
        match r {
            Some(f) => first_listed_archive(lines_of(content@), pattern@) == Some(f@),
            None => first_listed_archive(lines_of(content@), pattern@) is None,
        },
{
    let lines = split_lines(content);
    let ghost ls = lines_of(content@);
    let mut i: usize = 0;
    proof {
        assert(ls.subrange(0, ls.len() as int) =~= ls);
    }
    while i < lines.len()
        invariant
            i <= lines@.len(),
            views(lines@) == ls,
            ls == lines_of(content@),
            first_listed_archive(ls, pattern@) == first_listed_archive(
                ls.subrange(i as int, ls.len() as int),
                pattern@,
            ),
        decreases lines@.len() - i,
    {
        proof {
            let sub = ls.subrange(i as int, ls.len() as int);
            assert(sub[0] == lines@[i as int]@);
            assert(sub.drop_first() =~= ls.subrange(i + 1, ls.len() as int));
        }
        match archive_in_line(lines[i].as_str(), pattern) {
            Some(f) => {
                proof {
                    let sub = ls.subrange(i as int, ls.len() as int);
                    assert(listed_archive(sub[0], pattern@) == Some(f@));
                    assert(sub.len() > 0);
                    assert(first_listed_archive(sub, pattern@) == Some(f@));
                }
                return Some(f);
            },
            None => {},
        }
        i = i + 1;
    }
    None
}

/// The hash a line of a checksum listing gives for `filename`: its first
/// field, when its second field is `filename` or ends with it.
pub open spec fn listed_hash(line: Seq<char>, filename: Seq<char>) -> Option<Seq<char>> {
    let parts = words_of(trimmed_of(line));
    if data_line(line) && parts.len() >= 2 && (seq_ends_with(parts[1], filename) || parts[1]
        == filename) {
        Some(parts[0])
    } else {
        None
    }
}

/// The first hash that the lines `ls` give for `filename`.
pub open spec fn first_listed_hash(ls: Seq<Seq<char>>, filename: Seq<char>) -> Option<Seq<char>>
    decreases ls.len(),
{
    if ls.len() == 0 {
        None
    } else {
        match listed_hash(ls[0], filename) {
            Some(h) => Some(h),
            None => first_listed_hash(ls.drop_first(), filename),
        }
    }
}

/// The hash one line of a checksum listing gives (see [`listed_hash`]).
fn hash_in_line(line: &str, filename: &str) -> (r: Option<String>)
    ensures
        match r {
            Some(h) => listed_hash(line@, filename@) == Some(h@),
            None => listed_hash(line@, filename@) is None,
        },
{
    let (ok, t) = trimmed_data_line(line);
    if !ok {
        return None;
    }
    let parts = split_words(t.as_str());
    if parts.len() >= 2 {
        let f = parts[1].as_str();
        if str_ends_with(f, filename) || str_eq(f, filename) {
            return Some(parts[0].clone());
        }
    }
    None
}

/// Reads a checksum listing: the hash of `filename`, from the first line
/// that gives one.
pub fn sha256_from_listing(content: &str, filename: &str) -> (r: Option<String>)
    ensures
        match r {
            Some(h) => first_listed_hash(lines_of(content@), filename@) == Some(h@),
            None => first_listed_hash(lines_of(content@), filename@) is None,
        },
{
    let lines = split_lines(content);
    let ghost ls = lines_of(content@);
    let mut i: usize = 0;
    proof {
        assert(ls.subrange(0, ls.len() as int) =~= ls);
    }
    while i < lines.len()
        invariant
            i <= lines@.len(),
            views(lines@) == ls,
            ls == lines_of(content@),
            first_listed_hash(ls, filename@) == first_listed_hash(
                ls.subrange(i as int, ls.len() as int),
                filename@,
            ),
        decreases lines@.len() - i,
    {
        proof {
            let sub = ls.subrange(i as int, ls.len() as int);
            assert(sub[0] == lines@[i as int]@);
            assert(sub.drop_first() =~= ls.subrange(i + 1, ls.len() as int));
        }
        match hash_in_line(lines[i].as_str(), filename) {
            Some(h) => {
                proof {
                    let sub = ls.subrange(i as int, ls.len() as int);
                    assert(listed_hash(sub[0], filename@) == Some(h@));
                    assert(sub.len() > 0);
                    assert(first_listed_hash(sub, filename@) == Some(h@));
                }
                return Some(h);
            },
            None => {},
        }
        i = i + 1;
    }
    None
}

/// The lower-case hexadecimal SHA-256 digest of a byte sequence.
pub uninterp spec fn sha256_hex_of(data: Seq<u8>) -> Seq<char>;

/// Relies on `sha2::Sha256`: the digest of `data`, written as lower-case
/// hexadecimal by the digest's `LowerHex` format.
#[verifier::external_body]
fn sha256_hex(data: &[u8]) -> (r: String)
    ensures
        r@ == sha256_hex_of(data@),
{
    format!("{:x}", Sha256::digest(data))
}

/// The SHA-256 digest of `data`, in lower-case hexadecimal.
pub fn calculate_sha256(data: &[u8]) -> (r: String)
    ensures
        r@ == sha256_hex_of(data@),
{
    sha256_hex(data)
}

/// Compares a digest with an expected one, ignoring letter case.
pub fn digests_match(calculated: &str, expected: &str) -> (r: bool)
    ensures
        r == (lowercase_of(calculated@) == lowercase_of(expected@)),
{
    let a = lowercase(calculated);
    let b = lowercase(expected);
    str_eq(a.as_str(), b.as_str())
}

/// Checks an archive's content against its expected SHA-256 digest:
/// whether they match (ignoring case), the expected and the calculated digest.
pub fn check_stage3_integrity(data: &[u8], expected_sha256: &str) -> (r: (bool, String, String))
    ensures
        r.2@ == sha256_hex_of(data@),
        r.1@ == expected_sha256@,
        r.0 == (lowercase_of(sha256_hex_of(data@)) == lowercase_of(expected_sha256@)),
{
    let calculated = calculate_sha256(data);
    let ok = digests_match(calculated.as_str(), expected_sha256);
    (ok, String::from_str(expected_sha256), calculated)
}

} // verus!
