//! The architectures known to the program, keyed by name.
use vstd::prelude::*;

use crate::order::{sorted_distinct, sorted_texts};
use crate::profile::architecture::{default_profile_of, Architecture};
use crate::error::ProfileError;
use crate::profile::selected::SelectedProfile;
use crate::text::{holds, no_duplicates, str_eq, views};

verus! {

/// `i` is the first index of an architecture named `name` in `s`.
pub open spec fn is_first_named(s: Seq<Architecture>, name: Seq<char>, i: int) -> bool {
    0 <= i < s.len() && s[i].name@ == name && forall|k: int| 0 <= k < i ==> s[k].name@ != name
}

/// The first index of an architecture named `name` in `s`.
pub open spec fn index_of(s: Seq<Architecture>, name: Seq<char>) -> Option<int> {
    if exists|i: int| 0 <= i < s.len() && s[i].name@ == name {
        Some(choose|i: int| is_first_named(s, name, i))
    } else {
        None
    }
}

/// The first architecture named `name` in `s`, if there is one.
pub open spec fn lookup(s: Seq<Architecture>, name: Seq<char>) -> Option<Architecture> {
    match index_of(s, name) {
        Some(i) => Some(s[i]),
        None => None,
    }
}

/// Where some architecture is named `name`, a first one is.
pub proof fn lemma_first_named_exists(s: Seq<Architecture>, name: Seq<char>)
    requires
        exists|i: int| 0 <= i < s.len() && s[i].name@ == name,
    ensures
        exists|i: int| is_first_named(s, name, i),
    decreases s.len(),
{
    let t = s.drop_last();
    if exists|i: int| 0 <= i < t.len() && t[i].name@ == name {
        lemma_first_named_exists(t, name);
        let j = choose|j: int| is_first_named(t, name, j);
        assert forall|k: int| 0 <= k < j implies s[k].name@ != name by {
            assert(t[k] == s[k]);
        }
        assert(t[j] == s[j]);
        assert(is_first_named(s, name, j));
    } else {
        let i = choose|i: int| 0 <= i < s.len() && s[i].name@ == name;
        if i < s.len() - 1 {
            assert(t[i].name@ == name);
        }
        assert forall|k: int| 0 <= k < i implies s[k].name@ != name by {
            assert(t[k] == s[k]);
        }
        assert(is_first_named(s, name, i));
    }
}

/// The first index of a name is unique.
pub proof fn lemma_first_named_unique(s: Seq<Architecture>, name: Seq<char>, i: int, j: int)
    requires
        is_first_named(s, name, i),
        is_first_named(s, name, j),
    ensures
        i == j,
{
    if i < j {
        assert(s[i].name@ != name);
    } else if j < i {
        assert(s[j].name@ != name);
    }
}

/// The first index of a name is the index that [`lookup`] uses.
pub proof fn lemma_lookup_first(s: Seq<Architecture>, name: Seq<char>, i: int)
    requires
        is_first_named(s, name, i),
    ensures
        index_of(s, name) == Some(i),
{
    lemma_first_named_exists(s, name);
    let j = choose|j: int| is_first_named(s, name, j);
    lemma_first_named_unique(s, name, i, j);
}

/// Two lists that agree on which positions hold `name`, and on what those
/// positions hold, agree on the lookup of `name`.
proof fn lemma_lookup_agrees(s0: Seq<Architecture>, s1: Seq<Architecture>, name: Seq<char>)
    requires
        forall|k: int|
            (0 <= k < s0.len() && s0[k].name@ == name) <==> (0 <= k < s1.len() && s1[k].name@
                == name),
        forall|k: int| 0 <= k < s0.len() && s0[k].name@ == name ==> s1[k] == s0[k],
    ensures
        lookup(s1, name) == lookup(s0, name),
{
    if exists|i: int| 0 <= i < s0.len() && s0[i].name@ == name {
        lemma_first_named_exists(s0, name);
        let j = choose|j: int| is_first_named(s0, name, j);
        assert forall|k: int| 0 <= k < j implies s1[k].name@ != name by {
            if s1[k].name@ == name {
                assert(s0[k].name@ == name);
            }
        }
        assert(is_first_named(s1, name, j));
        lemma_lookup_first(s0, name, j);
        lemma_lookup_first(s1, name, j);
    } else {
        assert forall|i: int| !(0 <= i < s1.len() && s1[i].name@ == name) by {
            if 0 <= i < s1.len() && s1[i].name@ == name {
                assert(0 <= i < s0.len() && s0[i].name@ == name);
            }
        }
    }
}

/// No two architectures of `s` share a name.
pub open spec fn names_unique(s: Seq<Architecture>) -> bool {
    forall|i: int, j: int| 0 <= i < j < s.len() ==> s[i].name@ != s[j].name@
}

/// The architectures known to the program; at most one per name.
#[derive(Debug)]
pub struct ProfileManager {
    architectures: Vec<Architecture>,
}

impl View for ProfileManager {
    type V = Seq<Architecture>;

    closed spec fn view(&self) -> Seq<Architecture> {
        self.architectures@
    }
}

/// Finds the position of the architecture named `name`.
fn position(v: &Vec<Architecture>, name: &str) -> (r: Option<usize>)
    ensures
        match r {
            Some(i) => is_first_named(v@, name@, i as int),
            None => index_of(v@, name@) is None,
        },
{
    let mut i: usize = 0;
    while i < v.len()
        invariant
            i <= v@.len(),
            forall|k: int| 0 <= k < i ==> v@[k].name@ != name@,
        decreases v@.len() - i,
    {
        if str_eq(v[i].name.as_str(), name) {
            return Some(i);
        }
        i = i + 1;
    }
    None
}

/// Strings built from the given texts, in order.
fn texts_to_strings(texts: &[&str]) -> (r: Vec<String>)
    ensures
        views(r@) == texts@.map_values(|t: &str| t@),
{
    let mut r: Vec<String> = Vec::new();
    let mut i: usize = 0;
    while i < texts.len()
        invariant
            i <= texts@.len(),
            views(r@) == texts@.subrange(0, i as int).map_values(|t: &str| t@),
        decreases texts@.len() - i,
    {
        let ghost before = r@;
        r.push(String::from_str(texts[i]));
        proof {
            assert(views(r@) =~= views(before).push(texts@[i as int]@));
            assert(texts@.subrange(0, i + 1).map_values(|t: &str| t@) =~= texts@.subrange(
                0,
                i as int,
            ).map_values(|t: &str| t@).push(texts@[i as int]@));
        }
        i = i + 1;
    }
    assert(texts@.subrange(0, texts@.len() as int) =~= texts@);
    r
}

/// The profiles assumed for amd64 when no mirror can be asked.
pub const AMD64_PROFILES: [&'static str; 17] = [
    "desktop-openrc",
    "desktop-systemd",
    "hardened-selinux-openrc",
    "hardened-openrc",
    "hardened-systemd",
    "llvm-openrc",
    "llvm-systemd",
    "musl-hardened",
    "musl-llvm",
    "musl",
    "no-multilib-openrc",
    "no-multilib-systemd",
    "openrc-splitusr",
    "openrc",
    "systemd",
    "x32-openrc",
    "x32-systemd",
];

/// The profiles assumed for arm64 when no mirror can be asked.
pub const ARM64_PROFILES: [&'static str; 12] = [
    "aarch64be-openrc",
    "aarch64be-systemd",
    "desktop-openrc",
    "desktop-systemd",
    "llvm-openrc",
    "llvm-systemd",
    "musl-hardened",
    "musl-llvm",
    "musl",
    "openrc-splitusr",
    "openrc",
    "systemd",
];

/// The profiles assumed for sparc when no mirror can be asked.
pub const SPARC_PROFILES: [&'static str; 1] = ["openrc"];

impl ProfileManager {
    /// Architectures of `self` have distinct names.
    pub open spec fn wf(&self) -> bool {
        names_unique(self@)
    }

    /// A manager that knows no architecture.
    pub fn new() -> (r: Self)
        ensures
            r@ == Seq::<Architecture>::empty(),
            r.wf(),
    {
        ProfileManager { architectures: Vec::new() }
    }

    /// Adds `arch`, replacing the first architecture of the same name.
    pub fn insert(&mut self, arch: Architecture)
        ensures
            old(self).wf() ==> final(self).wf(),
            forall|n: Seq<char>|
                #![trigger lookup(final(self)@, n)]
                lookup(final(self)@, n) == if n == arch.name@ {
                    Some(arch)
                } else {
                    lookup(old(self)@, n)
                },
    {
        let ghost s0 = self@;
        let ghost a = arch;
        match position(&self.architectures, arch.name.as_str()) {
            Some(i) => {
                self.architectures.set(i, arch);
                proof {
                    let s1 = self@;
                    if names_unique(s0) {
                        assert forall|p: int, q: int| 0 <= p < q < s1.len() implies s1[p].name@
                            != s1[q].name@ by {
                            if p == i {
                                assert(s0[p].name@ == a.name@);
                            }
                            if q == i {
                                assert(s0[q].name@ == a.name@);
                            }
                        }
                    }
                    assert forall|n: Seq<char>| lookup(s1, n) == if n == a.name@ {
                        Some(a)
                    } else {
                        lookup(s0, n)
                    } by {
                        if n == a.name@ {
                            assert(is_first_named(s1, n, i as int));
                            lemma_lookup_first(s1, n, i as int);
                        } else {
                            lemma_lookup_agrees(s0, s1, n);
                        }
                    }
                }
            },
            None => {
                self.architectures.push(arch);
                proof {
                    let s1 = self@;
                    if names_unique(s0) {
                        assert forall|p: int, q: int| 0 <= p < q < s1.len() implies s1[p].name@
                            != s1[q].name@ by {
                            if q == s0.len() {
                                assert(s0[p].name@ != a.name@);
                            }
                        }
                    }
                    assert forall|n: Seq<char>| lookup(s1, n) == if n == a.name@ {
                        Some(a)
                    } else {
                        lookup(s0, n)
                    } by {
                        if n == a.name@ {
                            assert forall|k: int| 0 <= k < s0.len() implies s1[k].name@ != n by {
                                assert(s0[k].name@ != n);
                            }
                            assert(is_first_named(s1, n, s0.len() as int));
                            lemma_lookup_first(s1, n, s0.len() as int);
                        } else {
                            lemma_lookup_agrees(s0, s1, n);
                        }
                    }
                }
            },
        }
    }

    /// The architectures assumed when no mirror can be asked: amd64,
    /// arm64 and sparc with their usual profiles.
    pub fn fallback() -> (r: Self)
        ensures
            r.wf(),
            r@.len() == 3,
            r@[0].name@ == "amd64"@ && views(r@[0].profiles@) == AMD64_PROFILES@.map_values(
                |t: &str| t@,
            ) && r@[0].default_profile@ == default_profile_of(r@[0].profiles@),
            r@[1].name@ == "arm64"@ && views(r@[1].profiles@) == ARM64_PROFILES@.map_values(
                |t: &str| t@,
            ) && r@[1].default_profile@ == default_profile_of(r@[1].profiles@),
            r@[2].name@ == "sparc"@ && views(r@[2].profiles@) == SPARC_PROFILES@.map_values(
                |t: &str| t@,
            ) && r@[2].default_profile@ == default_profile_of(r@[2].profiles@),
    {
        let mut architectures: Vec<Architecture> = Vec::new();
        let amd = AMD64_PROFILES;
        let arm = ARM64_PROFILES;
        let sparc = SPARC_PROFILES;
        architectures.push(
            Architecture::new(String::from_str("amd64"), texts_to_strings(amd.as_slice())),
        );
        architectures.push(
            Architecture::new(String::from_str("arm64"), texts_to_strings(arm.as_slice())),
        );
        architectures.push(
            Architecture::new(String::from_str("sparc"), texts_to_strings(sparc.as_slice())),
        );
        proof {
            reveal_strlit("amd64");
            reveal_strlit("arm64");
            reveal_strlit("sparc");
            assert("amd64"@[1] != "arm64"@[1]);
            assert("amd64"@[0] != "sparc"@[0]);
            assert("arm64"@[0] != "sparc"@[0]);
        }
        ProfileManager { architectures }
    }

    /// The names of all architectures, sorted.
    pub fn get_architecture_names(&self) -> (r: Vec<String>)
        ensures
            sorted_texts(r@),
            no_duplicates(r@),
            forall|x: Seq<char>| holds(r@, x) <==> index_of(self@, x) is Some,
    {
        let mut names: Vec<String> = Vec::new();
        let mut i: usize = 0;
        while i < self.architectures.len()
            invariant
                i <= self@.len(),
                names@.len() == i,
                forall|k: int| 0 <= k < i ==> names@[k]@ == self@[k].name@,
            decreases self@.len() - i,
        {
            names.push(self.architectures[i].name.clone());
            i = i + 1;
        }
        let r = sorted_distinct(names);
        proof {
            assert forall|x: Seq<char>| holds(names@, x) <==> index_of(self@, x) is Some by {
                if holds(names@, x) {
                    let k = choose|k: int| 0 <= k < names@.len() && names@[k]@ == x;
                    assert(self@[k].name@ == x);
                }
                if index_of(self@, x) is Some {
                    let k = choose|k: int| 0 <= k < self@.len() && self@[k].name@ == x;
                    assert(names@[k]@ == x);
                }
            }
        }
        r
    }

    /// The first architecture named `name`.
    pub fn get_architecture(&self, name: &str) -> (r: Option<&Architecture>)
        ensures
            match r {
                Some(a) => lookup(self@, name@) == Some(*a),
                None => lookup(self@, name@) is None,
            },
    {
        match position(&self.architectures, name) {
            Some(i) => {
                proof {
                    lemma_lookup_first(self@, name@, i as int);
                }
                Some(&self.architectures[i])
            },
            None => None,
        }
    }

    /// All architectures.
    pub fn get_architectures(&self) -> (r: &Vec<Architecture>)
        ensures
            r@ == self@,
    {
        &self.architectures
    }

    /// Whether an architecture is named `name`.
    pub fn has_architecture(&self, name: &str) -> (r: bool)
        ensures
            r == index_of(self@, name@) is Some,
    {
        position(&self.architectures, name).is_some()
    }

    /// The profiles of the architecture named `arch_name`.
    pub fn get_profiles_for_arch(&self, arch_name: &str) -> (r: Option<&Vec<String>>)
        ensures
            match (r, lookup(self@, arch_name@)) {
                (Some(ps), Some(a)) => ps@ == a.profiles@,
                (None, None) => true,
                _ => false,
            },
    {
        match self.get_architecture(arch_name) {
            Some(a) => Some(a.get_profiles()),
            None => None,
        }
    }

    /// Whether `profile` is a profile of the architecture named `arch_name`.
    pub fn validate_arch_profile(&self, arch_name: &str, profile: &str) -> (r: bool)
        ensures
            r == match lookup(self@, arch_name@) {
                Some(a) => holds(a.profiles@, profile@),
                None => false,
            },
    {
        match self.get_architecture(arch_name) {
            Some(a) => a.has_profile(profile),
            None => false,
        }
    }
}

/// Why a requested architecture and profile cannot be used.
#[derive(Debug, PartialEq, Eq, Structural)]
pub enum SelectionError {
    /// No architecture of that name is known.
    UnsupportedArchitecture,
    /// The architecture is known but has no such profile.
    UnsupportedProfile,
}

impl ProfileManager {
    /// Checks a requested architecture and profile against the known ones.
    pub fn select(&self, arch: String, profile: String) -> (r: Result<SelectedProfile, SelectionError>)
        ensures
            match r {
                Ok(p) => p.architecture == arch && p.profile == profile && (lookup(self@, arch@) matches Some(a) && holds(a.profiles@, profile@)),
                Err(SelectionError::UnsupportedArchitecture) => lookup(self@, arch@) is None,
                Err(SelectionError::UnsupportedProfile) => (lookup(self@, arch@) matches Some(a) && !holds(a.profiles@, profile@)),
            },
    {
        if !self.has_architecture(arch.as_str()) {
            return Err(SelectionError::UnsupportedArchitecture);
        }
        if !self.validate_arch_profile(arch.as_str(), profile.as_str()) {
            return Err(SelectionError::UnsupportedProfile);
        }
        Ok(SelectedProfile::new(arch, profile))
    }

    /// The architecture names to offer for a choice; refused when there is none.
    pub fn architecture_names_to_offer(&self) -> (r: Result<Vec<String>, ProfileError>)
        ensures
            match r {
                Ok(v) => v@.len() > 0 && sorted_texts(v@) && no_duplicates(v@) && forall|x: Seq<char>|
                    holds(v@, x) <==> index_of(self@, x) is Some,
                Err(ProfileError::NoArchitecturesAvailable) => self@.len() == 0,
                Err(_) => false,
            },
    {
        let names = self.get_architecture_names();
        if names.len() == 0 {
            proof {
                if self@.len() > 0 {
                    assert(index_of(self@, self@[0].name@) is Some);
                    assert(holds(names@, self@[0].name@));
                }
            }
            return Err(ProfileError::NoArchitecturesAvailable);
        }
        Ok(names)
    }

    /// The profiles to offer for the architecture `arch`; refused when the
    /// architecture is unknown or has none.
    pub fn profiles_to_offer(&self, arch: &str) -> (r: Result<&Vec<String>, ProfileError>)
        ensures
            match r {
                Ok(ps) => (lookup(self@, arch@) matches Some(a) && ps@ == a.profiles@) && ps@.len() > 0,
                Err(ProfileError::ArchitectureNotFound(n)) => n@ == arch@ && lookup(self@, arch@) is None,
                Err(ProfileError::NoProfilesAvailableForArchitecture(n)) => n@ == arch@ && (lookup(self@, arch@) matches Some(a) && a.profiles@.len() == 0),
                Err(_) => false,
            },
    {
        match self.get_architecture(arch) {
            None => Err(ProfileError::ArchitectureNotFound(String::from_str(arch))),
            Some(a) => {
                if a.profiles.len() == 0 {
                    Err(ProfileError::NoProfilesAvailableForArchitecture(String::from_str(arch)))
                } else {
                    Ok(a.get_profiles())
                }
            },
        }
    }
}

} // verus!
