//! The list of mirrors and the questions asked of it while choosing one.
use vstd::prelude::*;

use crate::order::{sorted, sorted_distinct, sorted_texts};
use crate::text::{holds, no_duplicates, str_eq, views};

pub mod listing;
pub mod parser;

use self::parser::{copy_uris, protocol_name, Mirror, Protocol, UriInfo};

verus! {

/// Some mirror of `ms` lies in region `x`.
pub open spec fn has_region(ms: Seq<Mirror>, x: Seq<char>) -> bool {
    exists|i: int| 0 <= i < ms.len() && ms[i].group.region@ == x
}

/// Some mirror of `ms` in `region` lies in the country named `x`.
pub open spec fn has_country(ms: Seq<Mirror>, region: Seq<char>, x: Seq<char>) -> bool {
    exists|i: int| 0 <= i < ms.len() && ms[i].group.region@ == region && ms[i].group.country_name@ == x
}

/// Names of the mirrors of `ms` in `region` and `country`, in list order.
pub open spec fn locations_in(ms: Seq<Mirror>, region: Seq<char>, country: Seq<char>) -> Seq<String>
    decreases ms.len(),
{
    if ms.len() == 0 {
        Seq::empty()
    } else {
        let rest = locations_in(ms.drop_last(), region, country);
        let m = ms.last();
        if m.group.region@ == region && m.group.country_name@ == country {
            rest.push(m.name)
        } else {
            rest
        }
    }
}

/// Index of the first mirror of `ms` named `location`.
pub open spec fn first_named(ms: Seq<Mirror>, location: Seq<char>) -> int {
    choose|i: int| 0 <= i < ms.len() && ms[i].name@ == location && forall|k: int| 0 <= k < i ==> ms[k].name@ != location
}

/// Some mirror of `ms` is named `location`.
pub open spec fn has_location(ms: Seq<Mirror>, location: Seq<char>) -> bool {
    exists|i: int| 0 <= i < ms.len() && ms[i].name@ == location
}

/// The URIs of the first mirror of `ms` named `location`.
pub open spec fn uris_of(ms: Seq<Mirror>, location: Seq<char>) -> Seq<UriInfo> {
    ms[first_named(ms, location)].group.mirrors@
}

/// Index of the first URI of `us` with protocol `p`.
pub open spec fn first_with_protocol(us: Seq<UriInfo>, p: Protocol) -> int {
    choose|i: int| 0 <= i < us.len() && us[i].protocol == p && forall|k: int| 0 <= k < i ==> us[k].protocol != p
}

/// The protocol names of `us`, in order.
pub open spec fn protocol_names(us: Seq<UriInfo>) -> Seq<Seq<char>> {
    us.map_values(|u: UriInfo| protocol_name(u.protocol))
}

/// Some URI of `us` has protocol `p`.
pub open spec fn offers(us: Seq<UriInfo>, p: Protocol) -> bool {
    exists|i: int| 0 <= i < us.len() && us[i].protocol == p
}

/// The mirrors to choose from.
#[derive(Debug)]
pub struct Mirrors {
    mirrors: Vec<Mirror>,
}

impl View for Mirrors {
    type V = Seq<Mirror>;

    closed spec fn view(&self) -> Seq<Mirror> {
        self.mirrors@
    }
}

impl Mirrors {
    /// The mirrors of a parsed list.
    pub fn new(mirrors: Vec<Mirror>) -> (r: Self)
        ensures
            r@ == mirrors@,
    {
        Mirrors { mirrors }
    }

    /// Number of mirrors.
    pub fn len(&self) -> (r: usize)
        ensures
            r == self@.len(),
    {
        self.mirrors.len()
    }

    /// Whether some mirror is named `location`.
    pub fn knows_location(&self, location: &str) -> (r: bool)
        ensures
            r == has_location(self@, location@),
    {
        let mut i: usize = 0;
        while i < self.mirrors.len()
            invariant
                i <= self@.len(),
                forall|k: int| 0 <= k < i ==> self@[k].name@ != location@,
            decreases self@.len() - i,
        {
            if str_eq(self.mirrors[i].name.as_str(), location) {
                return true;
            }
            i = i + 1;
        }
        false
    }

    /// The regions that have a mirror, each once, sorted.
    pub fn get_regions(&self) -> (r: Vec<String>)
        ensures
            sorted_texts(r@),
            no_duplicates(r@),
            forall|x: Seq<char>| holds(r@, x) <==> has_region(self@, x),
    {
        let mut all: Vec<String> = Vec::new();
        let mut i: usize = 0;
        while i < self.mirrors.len()
            invariant
                i <= self@.len(),
                all@.len() == i,
                forall|k: int| 0 <= k < i ==> all@[k]@ == self@[k].group.region@,
            decreases self@.len() - i,
        {
            all.push(self.mirrors[i].group.region.clone());
            i = i + 1;
        }
        proof {
            assert forall|x: Seq<char>| holds(all@, x) <==> has_region(self@, x) by {
                if holds(all@, x) {
                    let k = choose|k: int| 0 <= k < all@.len() && all@[k]@ == x;
                    assert(self@[k].group.region@ == x);
                }
                if has_region(self@, x) {
                    let k = choose|k: int| 0 <= k < self@.len() && self@[k].group.region@ == x;
                    assert(all@[k]@ == x);
                }
            }
        }
        sorted_distinct(all)
    }

    /// The countries of `region` that have a mirror, each once, sorted.
    pub fn get_countries(&self, region: &str) -> (r: Vec<String>)
        ensures
            sorted_texts(r@),
            no_duplicates(r@),
            forall|x: Seq<char>| holds(r@, x) <==> has_country(self@, region@, x),
    {
        let mut all: Vec<String> = Vec::new();
        let mut i: usize = 0;
        while i < self.mirrors.len()
            invariant
                i <= self@.len(),
                forall|x: Seq<char>|
                    holds(all@, x) <==> exists|k: int|
                        0 <= k < i && self@[k].group.region@ == region@
                            && self@[k].group.country_name@ == x,
            decreases self@.len() - i,
        {
            let ghost all0 = all@;
            let m = &self.mirrors[i];
            if str_eq(m.group.region.as_str(), region) {
                all.push(m.group.country_name.clone());
            }
            proof {
                assert forall|x: Seq<char>|
                    holds(all@, x) <==> exists|k: int|
                        0 <= k < i + 1 && self@[k].group.region@ == region@
                            && self@[k].group.country_name@ == x by {
                    if holds(all@, x) {
                        let k = choose|k: int| 0 <= k < all@.len() && all@[k]@ == x;
                        if k < all0.len() {
                            assert(holds(all0, x));
                            let k2 = choose|k2: int|
                                0 <= k2 < i && self@[k2].group.region@ == region@
                                    && self@[k2].group.country_name@ == x;
                            assert(0 <= k2 < i + 1);
                        } else {
                            assert(self@[i as int].group.country_name@ == x);
                        }
                    }
                    if exists|k: int|
                        0 <= k < i + 1 && self@[k].group.region@ == region@
                            && self@[k].group.country_name@ == x {
                        let k = choose|k: int|
                            0 <= k < i + 1 && self@[k].group.region@ == region@
                                && self@[k].group.country_name@ == x;
                        if k < i {
                            assert(holds(all0, x));
                            let j = choose|j: int| 0 <= j < all0.len() && all0[j]@ == x;
                            assert(all@[j]@ == x);
                        } else {
                            assert(all@[all0.len() as int]@ == x);
                        }
                    }
                }
            }
            i = i + 1;
        }
        sorted_distinct(all)
    }

    /// The names of the mirrors in `region` and `countries`, sorted.
    pub fn get_locations(&self, region: &str, countries: &str) -> (r: Vec<String>)
        ensures
            sorted_texts(r@),
            r@.to_multiset() == locations_in(self@, region@, countries@).to_multiset(),
    {
        let mut all: Vec<String> = Vec::new();
        let mut i: usize = 0;
        while i < self.mirrors.len()
            invariant
                i <= self@.len(),
                all@ == locations_in(self@.subrange(0, i as int), region@, countries@),
            decreases self@.len() - i,
        {
            let m = &self.mirrors[i];
            proof {
                assert(self@.subrange(0, i + 1).drop_last() =~= self@.subrange(0, i as int));
            }
            if str_eq(m.group.region.as_str(), region) && str_eq(
                m.group.country_name.as_str(),
                countries,
            ) {
                all.push(m.name.clone());
            }
            i = i + 1;
        }
        assert(self@.subrange(0, self@.len() as int) =~= self@);
        sorted(all)
    }

    /// The URIs of the first mirror named `location`.
    pub fn get_uris_info(&self, location: &str) -> (r: Vec<UriInfo>)
        requires
            has_location(self@, location@),
        ensures
            r@ == uris_of(self@, location@),
    {
        let mut i: usize = 0;
        while i < self.mirrors.len()
            invariant
                i <= self@.len(),
                has_location(self@, location@),
                forall|k: int| 0 <= k < i ==> self@[k].name@ != location@,
            decreases self@.len() - i,
        {
            if str_eq(self.mirrors[i].name.as_str(), location) {
                proof {
                    let j = first_named(self@, location@);
                    if j < i {
                    } else if i < j {
                        assert(self@[i as int].name@ != location@);
                    }
                    assert(j == i);
                }
                return copy_uris(&self.mirrors[i].group.mirrors);
            }
            i = i + 1;
        }
        proof {
            let k = choose|k: int| 0 <= k < self@.len() && self@[k].name@ == location@;
        }
        Vec::new()
    }

    /// The protocol names of the URIs of the first mirror named `location`,
    /// one per URI, sorted.
    pub fn get_protocols(&self, location: &str) -> (r: Vec<String>)
        requires
            has_location(self@, location@),
        ensures
            sorted_texts(r@),
            views(r@).to_multiset() == protocol_names(uris_of(self@, location@)).to_multiset(),
    {
        let uris = self.get_uris_info(location);
        let mut names: Vec<String> = Vec::new();
        let mut i: usize = 0;
        while i < uris.len()
            invariant
                i <= uris@.len(),
                views(names@) == protocol_names(uris@.subrange(0, i as int)),
            decreases uris@.len() - i,
        {
            let ghost before = names@;
            names.push(String::from_str(uris[i].protocol.as_str()));
            proof {
                assert(views(names@) =~= views(before).push(protocol_name(uris@[i as int].protocol)));
                assert(protocol_names(uris@.subrange(0, i + 1)) =~= protocol_names(
                    uris@.subrange(0, i as int),
                ).push(protocol_name(uris@[i as int].protocol)));
            }
            i = i + 1;
        }
        proof {
            assert(uris@.subrange(0, uris@.len() as int) =~= uris@);
        }
        let r = sorted(names);
        proof {
            crate::order::lemma_same_elements_same_views(r@, names@);
        }
        r
    }

    /// The URI of the first mirror named `location` that uses `protocol`:
    /// the first of its URIs with that protocol.
    pub fn get_url_with(&self, location: &str, protocol: Protocol) -> (r: String)
        requires
            has_location(self@, location@),
            offers(uris_of(self@, location@), protocol),
        ensures
            r == uris_of(self@, location@)[first_with_protocol(uris_of(self@, location@), protocol)].uri,
    {
        let uris = self.get_uris_info(location);
        let mut i: usize = 0;
        while i < uris.len()
            invariant
                i <= uris@.len(),
                uris@ == uris_of(self@, location@),
                offers(uris@, protocol),
                forall|k: int| 0 <= k < i ==> uris@[k].protocol != protocol,
            decreases uris@.len() - i,
        {
            if uris[i].protocol == protocol {
                proof {
                    let j = first_with_protocol(uris@, protocol);
                    if j < i {
                    } else if i < j {
                        assert(uris@[i as int].protocol != protocol);
                    }
                    assert(j == i);
                }
                return uris[i].uri.clone();
            }
            i = i + 1;
        }
        proof {
            let k = choose|k: int| 0 <= k < uris@.len() && uris@[k].protocol == protocol;
        }
        String::new()
    }

    /// The URI of the first mirror named `location` for the protocol named
    /// `protocol` (in any letter case); `None` when that mirror offers no
    /// URI with it.
    pub fn get_url(&self, location: &str, protocol: &str) -> (r: Option<String>)
        requires
            has_location(self@, location@),
        ensures
            match r {
                Some(u) => offers(
                    uris_of(self@, location@),
                    parser::protocol_of_lowercase(parser::lowercase_of(protocol@)),
                ) && u == uris_of(self@, location@)[first_with_protocol(
                    uris_of(self@, location@),
                    parser::protocol_of_lowercase(parser::lowercase_of(protocol@)),
                )].uri,
                None => !offers(
                    uris_of(self@, location@),
                    parser::protocol_of_lowercase(parser::lowercase_of(protocol@)),
                ),
            },
    {
        let p = Protocol::from_name(protocol);
        let uris = self.get_uris_info(location);
        let mut i: usize = 0;
        while i < uris.len()
            invariant
                i <= uris@.len(),
                has_location(self@, location@),
                uris@ == uris_of(self@, location@),
                p == parser::protocol_of_lowercase(parser::lowercase_of(protocol@)),
                forall|k: int| 0 <= k < i ==> uris@[k].protocol != p,
            decreases uris@.len() - i,
        {
            if uris[i].protocol == p {
                assert(offers(uris@, p));
                return Some(self.get_url_with(location, p));
            }
            i = i + 1;
        }
        None
    }
}

} // verus!
