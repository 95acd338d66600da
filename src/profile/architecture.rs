//! An architecture and the profiles published for it.
use vstd::prelude::*;

use crate::text::{holds, seq_contains, str_contains, vec_holds};

verus! {

/// A profile that is plain OpenRC: neither a desktop nor a hardened variant.
pub open spec fn plain_openrc(p: Seq<char>) -> bool {
    seq_contains(p, "openrc"@) && !seq_contains(p, "desktop"@) && !seq_contains(p, "hardened"@)
}

/// The default profile among `ps`: the first plain OpenRC one, else the
/// first one, else `openrc`.
pub open spec fn default_profile_of(ps: Seq<String>) -> Seq<char> {
    if exists|i: int| 0 <= i < ps.len() && plain_openrc(ps[i]@) {
        let i = choose|i: int|
            0 <= i < ps.len() && plain_openrc(ps[i]@) && forall|k: int|
                0 <= k < i ==> !plain_openrc(ps[k]@);
        ps[i]@
    } else if ps.len() > 0 {
        ps[0]@
    } else {
        "openrc"@
    }
}

/// An architecture with its available profiles.
#[derive(Debug)]
pub struct Architecture {
    /// Architecture name, such as `amd64`.
    pub name: String,
    pub profiles: Vec<String>,
    /// The profile chosen when none is given.
    pub default_profile: String,
}

impl Architecture {
    /// An architecture with `profiles`; its default is chosen by [`default_profile_of`].
    pub fn new(name: String, profiles: Vec<String>) -> (r: Self)
        ensures
            r.name == name,
            r.profiles@ == profiles@,
            r.default_profile@ == default_profile_of(profiles@),
    {
        let mut i: usize = 0;
        while i < profiles.len()
            invariant
                i <= profiles@.len(),
                forall|k: int| 0 <= k < i ==> !plain_openrc(profiles@[k]@),
            decreases profiles@.len() - i,
        {
            let p = profiles[i].as_str();
            if str_contains(p, "openrc") && !str_contains(p, "desktop") && !str_contains(
                p,
                "hardened",
            ) {
                let default_profile = profiles[i].clone();
                proof {
                    let ps = profiles@;
                    let j = choose|j: int|
                        0 <= j < ps.len() && plain_openrc(ps[j]@) && forall|k: int|
                            0 <= k < j ==> !plain_openrc(ps[k]@);
                    if j < i {
                    } else if i < j {
                        assert(!plain_openrc(ps[i as int]@));
                    }
                    assert(j == i);
                }
                return Architecture { name, profiles, default_profile };
            }
            i = i + 1;
        }
        let default_profile = if profiles.len() > 0 {
            profiles[0].clone()
        } else {
            String::from_str("openrc")
        };
        Architecture { name, profiles, default_profile }
    }

    /// All profiles of this architecture.
    pub fn get_profiles(&self) -> (r: &Vec<String>)
        ensures
            r@ == self.profiles@,
    {
        &self.profiles
    }

    /// The default profile.
    pub fn get_default_profile(&self) -> (r: &str)
        ensures
            r@ == self.default_profile@,
    {
        self.default_profile.as_str()
    }

    /// Whether `profile` is one of this architecture's profiles.
    pub fn has_profile(&self, profile: &str) -> (r: bool)
        ensures
            r == holds(self.profiles@, profile@),
    {
        vec_holds(&self.profiles, profile)
    }
}

} // verus!
