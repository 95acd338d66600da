//! The records of the mirror list: mirrors, their groups and their URIs.
use vstd::prelude::*;

use crate::text::str_eq;

verus! {

/// Transfer protocol of a mirror URI.
#[derive(Debug, Clone, Copy, PartialEq, Eq, Structural)]
pub enum Protocol {
    Http,
    Https,
    Ftp,
    Rsync,
    Unknown,
}

/// The lower-case name of a protocol.
pub open spec fn protocol_name(p: Protocol) -> Seq<char> {
    match p {
        Protocol::Http => "http"@,
        Protocol::Https => "https"@,
        Protocol::Ftp => "ftp"@,
        Protocol::Rsync => "rsync"@,
        Protocol::Unknown => "unknown"@,
    }
}

/// The protocol a lower-case name stands for.
pub open spec fn protocol_of_lowercase(s: Seq<char>) -> Protocol {
    if s == "http"@ {
        Protocol::Http
    } else if s == "https"@ {
        Protocol::Https
    } else if s == "ftp"@ {
        Protocol::Ftp
    } else if s == "rsync"@ {
        Protocol::Rsync
    } else {
        Protocol::Unknown
    }
}

/// What `str::to_lowercase` makes of a text.
pub uninterp spec fn lowercase_of(s: Seq<char>) -> Seq<char>;

/// Relies on `str::to_lowercase`: the lower-case form, which depends on
/// the characters alone.
#[verifier::external_body]
pub(crate) fn lowercase(s: &str) -> (r: String)
    ensures
        r@ == lowercase_of(s@),
{
    s.to_lowercase()
}

/// The protocol named by the lower-case text `s`; anything unknown is `Unknown`.
pub fn protocol_from_lowercase(s: &str) -> (r: Protocol)
    ensures
        r == protocol_of_lowercase(s@),
{
    if str_eq(s, "http") {
        Protocol::Http
    } else if str_eq(s, "https") {
        Protocol::Https
    } else if str_eq(s, "ftp") {
        Protocol::Ftp
    } else if str_eq(s, "rsync") {
        Protocol::Rsync
    } else {
        Protocol::Unknown
    }
}

impl Protocol {
    /// The lower-case name of this protocol.
    pub fn as_str(&self) -> (r: &'static str)
        ensures
            r@ == protocol_name(*self),
    {
        match self {
            Protocol::Http => "http",
            Protocol::Https => "https",
            Protocol::Ftp => "ftp",
            Protocol::Rsync => "rsync",
            Protocol::Unknown => "unknown",
        }
    }

    /// The protocol named by `s`, in any letter case.
    pub fn from_name(s: &str) -> (r: Protocol)
        ensures
            r == protocol_of_lowercase(lowercase_of(s@)),
    {
        let lower = lowercase(s);
        protocol_from_lowercase(lower.as_str())
    }
}

/// One URI of a mirror.
#[derive(Debug)]
pub struct UriInfo {
    pub protocol: Protocol,
    pub ipv4: bool,
    pub ipv6: bool,
    pub partial: bool,
    pub uri: String,
}

/// A mirror's group record: its location and its URIs.
#[derive(Debug)]
pub struct MirrorGroup {
    pub name: String,
    pub region: String,
    pub country_code: String,
    pub country_name: String,
    pub mirrors: Vec<UriInfo>,
}

/// A mirror of the distribution files.
#[derive(Debug)]
pub struct Mirror {
    pub name: String,
    pub group: MirrorGroup,
}

impl UriInfo {
    /// A URI record with nothing set.
    pub fn new() -> (r: Self)
        ensures
            r.protocol == Protocol::Unknown,
            !r.ipv4 && !r.ipv6 && !r.partial,
            r.uri@ == Seq::<char>::empty(),
    {
        UriInfo { protocol: Protocol::Unknown, ipv4: false, ipv6: false, partial: false, uri: String::new() }
    }

    /// An equal copy.
    pub fn copied(&self) -> (r: Self)
        ensures
            r == *self,
    {
        UriInfo {
            protocol: self.protocol,
            ipv4: self.ipv4,
            ipv6: self.ipv6,
            partial: self.partial,
            uri: self.uri.clone(),
        }
    }
}

/// An equal copy of a list of URI records.
pub fn copy_uris(v: &Vec<UriInfo>) -> (r: Vec<UriInfo>)
    ensures
        r@ == v@,
{
    let mut r: Vec<UriInfo> = Vec::new();
    let mut i: usize = 0;
    while i < v.len()
        invariant
            i <= v@.len(),
            r@ == v@.subrange(0, i as int),
        decreases v@.len() - i,
    {
        r.push(v[i].copied());
        i = i + 1;
    }
    assert(r@ =~= v@);
    r
}

impl MirrorGroup {
    /// A group record with nothing set.
    pub fn new() -> (r: Self)
        ensures
            r.name@ == Seq::<char>::empty() && r.region@ == Seq::<char>::empty()
                && r.country_code@ == Seq::<char>::empty() && r.country_name@ == Seq::<
                char,
            >::empty(),
            r.mirrors@ == Seq::<UriInfo>::empty(),
    {
        MirrorGroup {
            name: String::new(),
            region: String::new(),
            country_code: String::new(),
            country_name: String::new(),
            mirrors: Vec::new(),
        }
    }
}

impl Mirror {
    /// A mirror record with nothing set.
    pub fn new() -> (r: Self)
        ensures
            r.name@ == Seq::<char>::empty(),
            r.group.name@ == Seq::<char>::empty() && r.group.region@ == Seq::<char>::empty()
                && r.group.country_code@ == Seq::<char>::empty() && r.group.country_name@ == Seq::<
                char,
            >::empty(),
            r.group.mirrors@ == Seq::<UriInfo>::empty(),
    {
        Mirror { name: String::new(), group: MirrorGroup::new() }
    }
}

} // verus!
