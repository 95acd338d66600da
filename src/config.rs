//! The on-disk configuration, as values: where chroots and cached archives
//! live and which mirrors to use. Reading and writing the file is the caller's part.
use vstd::prelude::*;

use crate::text::{holds, join_path, no_duplicates, path_join, vec_holds};

verus! {

/// The mirror used when none is configured.
pub const DEFAULT_MIRROR: &'static str = "https://distfiles.gentoo.org/";

/// Where chroots live, where stage3 archives are cached, and which mirrors to use.
#[derive(Debug)]
pub struct Config {
    pub chroot_base_dir: String,
    pub stage3_cache_dir: String,
    pub mirrors_url: Vec<String>,
}

impl Config {
    /// The default configuration under the home directory `home`.
    pub fn with_home(home: &str) -> (r: Self)
        ensures
            r.chroot_base_dir@ == path_join(
                path_join(path_join(path_join(home@, ".local"@), "share"@), "chrootmanager"@),
                "chroots"@,
            ),
            r.stage3_cache_dir@ == path_join(
                path_join(path_join(home@, ".cache"@), "chrootmanager"@),
                "stage3"@,
            ),
            r.mirrors_url@.len() == 0,
    {
        let a = join_path(home, ".local");
        let b = join_path(a.as_str(), "share");
        let c = join_path(b.as_str(), "chrootmanager");
        let chroot_base_dir = join_path(c.as_str(), "chroots");
        let d = join_path(home, ".cache");
        let e = join_path(d.as_str(), "chrootmanager");
        let stage3_cache_dir = join_path(e.as_str(), "stage3");
        Config { chroot_base_dir, stage3_cache_dir, mirrors_url: Vec::new() }
    }

    /// Path of the configuration file under the home directory `home`.
    pub fn default_config_path(home: &str) -> (r: String)
        ensures
            r@ == path_join(
                path_join(path_join(home@, ".config"@), "chrootmanager"@),
                "config.toml"@,
            ),
    {
        let a = join_path(home, ".config");
        let b = join_path(a.as_str(), "chrootmanager");
        join_path(b.as_str(), "config.toml")
    }

    /// Whether any mirror is configured.
    pub fn has_mirrors(&self) -> (r: bool)
        ensures
            r == (self.mirrors_url@.len() > 0),
    {
        self.mirrors_url.len() > 0
    }

    /// Where the archive `filename` is cached.
    pub fn get_cache_path(&self, filename: &str) -> (r: String)
        ensures
            r@ == path_join(self.stage3_cache_dir@, filename@),
    {
        join_path(self.stage3_cache_dir.as_str(), filename)
    }

    /// Adds `mirror_url` to the mirrors: afterwards each configured mirror
    /// and the new one appear exactly once, and nothing else does.
    pub fn add_mirror(&mut self, mirror_url: &str)
        ensures
            no_duplicates(final(self).mirrors_url@),
            forall|x: Seq<char>|
                holds(final(self).mirrors_url@, x) <==> (holds(old(self).mirrors_url@, x) || x
                    == mirror_url@),
            final(self).chroot_base_dir == old(self).chroot_base_dir,
            final(self).stage3_cache_dir == old(self).stage3_cache_dir,
    {
        let mut merged: Vec<String> = Vec::new();
        let mut i: usize = 0;
        while i < self.mirrors_url.len()
            invariant
                i <= self.mirrors_url@.len(),
                no_duplicates(merged@),
                forall|x: Seq<char>|
                    holds(merged@, x) <==> exists|k: int|
                        0 <= k < i && self.mirrors_url@[k]@ == x,
            decreases self.mirrors_url@.len() - i,
        {
            let item = &self.mirrors_url[i];
            let ghost merged0 = merged@;
            if !vec_holds(&merged, item.as_str()) {
                merged.push(item.clone());
                proof {
                    assert forall|p: int, q: int| 0 <= p < q < merged@.len() implies merged@[p]@
                        != merged@[q]@ by {
                        if q == merged0.len() {
                            assert(merged0[p]@ != item@);
                        }
                    }
                    assert forall|x: Seq<char>| holds(merged@, x) <==> (holds(merged0, x) || x
                        == item@) by {
                        if holds(merged@, x) {
                            let k = choose|k: int| 0 <= k < merged@.len() && merged@[k]@ == x;
                            if k < merged0.len() {
                                assert(merged0[k]@ == x);
                            }
                        }
                        if holds(merged0, x) {
                            let k = choose|k: int| 0 <= k < merged0.len() && merged0[k]@ == x;
                            assert(merged@[k]@ == x);
                        }
                        if x == item@ {
                            assert(merged@[merged0.len() as int]@ == x);
                        }
                    }
                }
            }
            proof {
                assert forall|x: Seq<char>|
                    holds(merged@, x) <==> exists|k: int|
                        0 <= k < i + 1 && self.mirrors_url@[k]@ == x by {
                    assert(holds(merged@, x) <==> (holds(merged0, x) || x == item@));
                    if exists|k: int| 0 <= k < i + 1 && self.mirrors_url@[k]@ == x {
                        let k = choose|k: int| 0 <= k < i + 1 && self.mirrors_url@[k]@ == x;
                        if k < i {
                            assert(exists|k2: int| 0 <= k2 < i && self.mirrors_url@[k2]@ == x);
                        }
                    }
                    if holds(merged0, x) {
                        assert(exists|k2: int| 0 <= k2 < i && self.mirrors_url@[k2]@ == x);
                        let k2 = choose|k2: int| 0 <= k2 < i && self.mirrors_url@[k2]@ == x;
                        assert(0 <= k2 < i + 1 && self.mirrors_url@[k2]@ == x);
                    }
                    if x == item@ {
                        assert(self.mirrors_url@[i as int]@ == x);
                    }
                }
            }
            i = i + 1;
        }
        let ghost merged1 = merged@;
        if !vec_holds(&merged, mirror_url) {
            merged.push(String::from_str(mirror_url));
            proof {
                assert forall|p: int, q: int| 0 <= p < q < merged@.len() implies merged@[p]@
                    != merged@[q]@ by {
                    if q == merged1.len() {
                        assert(merged1[p]@ != mirror_url@);
                    }
                }
                assert forall|x: Seq<char>| holds(merged@, x) <==> (holds(merged1, x) || x
                    == mirror_url@) by {
                    if holds(merged@, x) {
                        let k = choose|k: int| 0 <= k < merged@.len() && merged@[k]@ == x;
                        if k < merged1.len() {
                            assert(merged1[k]@ == x);
                        }
                    }
                    if holds(merged1, x) {
                        let k = choose|k: int| 0 <= k < merged1.len() && merged1[k]@ == x;
                        assert(merged@[k]@ == x);
                    }
                    if x == mirror_url@ {
                        assert(merged@[merged1.len() as int]@ == x);
                    }
                }
            }
        }
        proof {
            assert forall|x: Seq<char>| holds(merged@, x) <==> (holds(old(self).mirrors_url@, x)
                || x == mirror_url@) by {
                assert(holds(merged@, x) <==> (holds(merged1, x) || x == mirror_url@));
                assert(holds(merged1, x) <==> holds(old(self).mirrors_url@, x));
            }
        }
        self.mirrors_url = merged;
    }

    /// Replaces the mirrors by the default one.
    pub fn use_default_mirror(&mut self)
        ensures
            final(self).mirrors_url@.len() == 1,
            final(self).mirrors_url@[0]@ == DEFAULT_MIRROR@,
            final(self).chroot_base_dir == old(self).chroot_base_dir,
            final(self).stage3_cache_dir == old(self).stage3_cache_dir,
    {
        let mut v: Vec<String> = Vec::new();
        v.push(String::from_str(DEFAULT_MIRROR));
        self.mirrors_url = v;
    }
}

} // verus!
