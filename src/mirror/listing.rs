//! Reading the published mirror list: an XML document of `mirrorgroup`
//! elements (a region and country each) holding `mirror` elements, each
//! with a `name` and one or more `uri` elements.
//!
//! The XML reader turns the bytes into events; what the events mean for
//! the mirror list is decided here.
use vstd::prelude::*;

use crate::mirror::parser::{
    copy_uris, lowercase_of, protocol_of_lowercase, Mirror, MirrorGroup, Protocol, UriInfo,
};
use crate::text::{str_eq, trim_text, trimmed_of};
use xml::reader::XmlEvent;

verus! {

/// Declares the XML reader's error type, carried in [`MirrorError::Xml`].
#[verifier::external_type_specification]
#[verifier::external_body]
pub struct ExXmlReaderError(xml::reader::Error);

/// Failures while reading the mirror list.
#[derive(Debug)]
pub enum MirrorError {
    /// The XML reader rejected the document.
    Xml(xml::reader::Error),
    /// No data was received.
    EmptyDataReceived,
    /// An element stands where the format does not allow it.
    InvalidFormat(String),
    /// The document has no `mirrors` element.
    NoRootElementIntoMirrors,
}

/// An XML event, as far as the mirror list cares.
#[derive(Debug)]
pub enum XmlItem {
    /// An element opens, with its attributes as (local name, value) pairs.
    Start { name: String, attributes: Vec<(String, String)> },
    /// Character data.
    Text(String),
    /// An element closes.
    End { name: String },
    /// The document ended.
    EndDocument,
    /// Anything else (declarations, comments, whitespace, CDATA).
    Other,
}

/// Abstract form of an [`XmlItem`].
pub enum ItemView {
    Start(Seq<char>, Seq<(Seq<char>, Seq<char>)>),
    Text(Seq<char>),
    End(Seq<char>),
    EndDocument,
    Other,
}

/// The abstract form of an attribute list.
pub open spec fn attrs_view(a: Seq<(String, String)>) -> Seq<(Seq<char>, Seq<char>)> {
    a.map_values(|p: (String, String)| (p.0@, p.1@))
}

/// The abstract form of an event.
pub open spec fn item_view(i: XmlItem) -> ItemView {
    match i {
        XmlItem::Start { name, attributes } => ItemView::Start(name@, attrs_view(attributes@)),
        XmlItem::Text(t) => ItemView::Text(t@),
        XmlItem::End { name } => ItemView::End(name@),
        XmlItem::EndDocument => ItemView::EndDocument,
        XmlItem::Other => ItemView::Other,
    }
}

/// What the XML reader makes of a document: its events up to the end of
/// the document or up to the first error, and whether it met an error.
pub uninterp spec fn xml_reading_of(data: Seq<u8>) -> (Seq<ItemView>, bool);

/// Relies on `xml::reader::EventReader` (xml-rs): its events for `data`,
/// each converted to an [`XmlItem`], stopping after the end of the
/// document or at the first error, which is returned beside them.
#[verifier::external_body]
fn read_xml_items(data: &Vec<u8>) -> (r: (Vec<XmlItem>, Option<xml::reader::Error>))
    ensures
        r.0@.map_values(|i: XmlItem| item_view(i)) == xml_reading_of(data@).0,
        r.1 is Some == xml_reading_of(data@).1,
{
    let mut items = Vec::new();
    for event in xml::reader::EventReader::new(data.as_slice()) {
        items.push(match event {
            Ok(XmlEvent::StartElement { name, attributes, .. }) => XmlItem::Start {
                name: name.local_name,
                attributes: attributes.into_iter().map(|a| (a.name.local_name, a.value)).collect(),
            },
            Ok(XmlEvent::Characters(t)) => XmlItem::Text(t),
            Ok(XmlEvent::EndElement { name }) => XmlItem::End { name: name.local_name },
            Ok(XmlEvent::EndDocument) => XmlItem::EndDocument,
            Ok(_) => XmlItem::Other,
            Err(e) => return (items, Some(e)),
        });
    }
    (items, None)
}

/// Abstract form of a [`UriInfo`].
pub struct UriView {
    pub protocol: Protocol,
    pub ipv4: bool,
    pub ipv6: bool,
    pub partial: bool,
    pub uri: Seq<char>,
}

/// Abstract form of a [`MirrorGroup`].
pub struct GroupView {
    pub name: Seq<char>,
    pub region: Seq<char>,
    pub country_code: Seq<char>,
    pub country_name: Seq<char>,
    pub mirrors: Seq<UriView>,
}

/// Abstract form of a [`Mirror`].
pub struct MirrorView {
    pub name: Seq<char>,
    pub group: GroupView,
}

pub open spec fn uri_view(u: UriInfo) -> UriView {
    UriView { protocol: u.protocol, ipv4: u.ipv4, ipv6: u.ipv6, partial: u.partial, uri: u.uri@ }
}

pub open spec fn group_view(g: MirrorGroup) -> GroupView {
    GroupView {
        name: g.name@,
        region: g.region@,
        country_code: g.country_code@,
        country_name: g.country_name@,
        mirrors: g.mirrors@.map_values(|u: UriInfo| uri_view(u)),
    }
}

pub open spec fn mirror_view(m: Mirror) -> MirrorView {
    MirrorView { name: m.name@, group: group_view(m.group) }
}

pub open spec fn empty_uri() -> UriView {
    UriView { protocol: Protocol::Unknown, ipv4: false, ipv6: false, partial: false, uri: Seq::empty() }
}

pub open spec fn empty_group() -> GroupView {
    GroupView {
        name: Seq::empty(),
        region: Seq::empty(),
        country_code: Seq::empty(),
        country_name: Seq::empty(),
        mirrors: Seq::empty(),
    }
}

pub open spec fn empty_mirror() -> MirrorView {
    MirrorView { name: Seq::empty(), group: empty_group() }
}

/// A group record after reading the attributes `a` of its element.
pub open spec fn group_attrs(g: GroupView, a: Seq<(Seq<char>, Seq<char>)>) -> GroupView
    decreases a.len(),
{
    if a.len() == 0 {
        g
    } else {
        let g2 = group_attrs(g, a.drop_last());
        let (k, v) = a.last();
        if k == "region"@ {
            GroupView { region: v, ..g2 }
        } else if k == "country"@ {
            GroupView { country_code: v, ..g2 }
        } else if k == "countryname"@ {
            GroupView { country_name: v, ..g2 }
        } else {
            g2
        }
    }
}

/// A URI record after reading the attributes `a` of its element.
pub open spec fn uri_attrs(u: UriView, a: Seq<(Seq<char>, Seq<char>)>) -> UriView
    decreases a.len(),
{
    if a.len() == 0 {
        u
    } else {
        let u2 = uri_attrs(u, a.drop_last());
        let (k, v) = a.last();
        if k == "protocol"@ {
            UriView { protocol: protocol_of_lowercase(lowercase_of(v)), ..u2 }
        } else if k == "ipv4"@ {
            UriView { ipv4: v == "y"@, ..u2 }
        } else if k == "ipv6"@ {
            UriView { ipv6: v == "y"@, ..u2 }
        } else if k == "partial"@ {
            UriView { partial: v == "y"@, ..u2 }
        } else {
            u2
        }
    }
}

/// Where an element stood that the format does not allow there.
#[derive(Debug, PartialEq, Eq, Structural)]
pub enum Misplaced {
    /// A `mirrorgroup` before the `mirrors` root.
    GroupOutsideRoot,
    /// A `mirror` outside a `mirrorgroup`.
    MirrorOutsideGroup,
    /// A `uri` outside a `mirror`.
    UriOutsideMirror,
}

/// The message of an `InvalidFormat` error.
pub open spec fn misplaced_message(m: Misplaced) -> Seq<char> {
    match m {
        Misplaced::GroupOutsideRoot => "Element 'mirrorgroup' found without a root element 'mirrors'"@,
        Misplaced::MirrorOutsideGroup => "'Mirror' element found outside a mirrorgroup"@,
        Misplaced::UriOutsideMirror => "'uri' element found outside a mirror"@,
    }
}

/// State of the reader of the mirror list, abstractly.
pub struct ListView {
    pub mirrors: Seq<MirrorView>,
    pub group: GroupView,
    pub mirror: MirrorView,
    pub uri: UriView,
    pub text: Seq<char>,
    pub in_group: bool,
    pub in_mirror: bool,
    pub in_uri: bool,
    pub in_name: bool,
    pub found_root: bool,
}

pub open spec fn initial_list() -> ListView {
    ListView {
        mirrors: Seq::empty(),
        group: empty_group(),
        mirror: empty_mirror(),
        uri: empty_uri(),
        text: Seq::empty(),
        in_group: false,
        in_mirror: false,
        in_uri: false,
        in_name: false,
        found_root: false,
    }
}

/// The state after a closing `mirror` element: a mirror with URIs is kept
/// (named after its first URI when it has no name), one without is dropped.
pub open spec fn close_mirror(s: ListView) -> ListView {
    let m = MirrorView { group: GroupView { name: s.mirror.name, ..s.mirror.group }, ..s.mirror };
    let kept = if m.group.mirrors.len() > 0 {
        let named = if m.name.len() == 0 {
            let n = m.group.mirrors[0].uri;
            MirrorView { name: n, group: GroupView { name: n, ..m.group } }
        } else {
            m
        };
        s.mirrors.push(named)
    } else {
        s.mirrors
    };
    ListView { mirrors: kept, mirror: empty_mirror(), in_mirror: false, ..s }
}

/// The effect of one event on the reader's state.
pub open spec fn list_step(s: ListView, e: ItemView) -> Result<ListView, Misplaced> {
    match e {
        ItemView::Start(name, attrs) => {
            let s = ListView { text: Seq::empty(), ..s };
            if name == "mirrors"@ {
                Ok(ListView { found_root: true, ..s })
            } else if name == "mirrorgroup"@ {
                if !s.found_root {
                    Err(Misplaced::GroupOutsideRoot)
                } else {
                    Ok(ListView { in_group: true, group: group_attrs(empty_group(), attrs), ..s })
                }
            } else if name == "mirror"@ {
                if !s.in_group {
                    Err(Misplaced::MirrorOutsideGroup)
                } else {
                    Ok(
                        ListView {
                            in_mirror: true,
                            mirror: MirrorView { name: Seq::empty(), group: s.group },
                            ..s
                        },
                    )
                }
            } else if name == "name"@ {
                if s.in_mirror {
                    Ok(ListView { in_name: true, ..s })
                } else {
                    Ok(s)
                }
            } else if name == "uri"@ {
                if !s.in_mirror {
                    Err(Misplaced::UriOutsideMirror)
                } else {
                    Ok(ListView { in_uri: true, uri: uri_attrs(empty_uri(), attrs), ..s })
                }
            } else {
                Ok(s)
            }
        },
        ItemView::Text(t) => Ok(ListView { text: s.text + t, ..s }),
        ItemView::End(name) => {
            let s2 = if name == "mirrorgroup"@ {
                ListView { in_group: false, ..s }
            } else if name == "mirror"@ {
                if s.in_mirror {
                    close_mirror(s)
                } else {
                    s
                }
            } else if name == "name"@ {
                if s.in_name {
                    let t = trimmed_of(s.text);
                    let m = if t.len() > 0 {
                        MirrorView { name: t, ..s.mirror }
                    } else {
                        s.mirror
                    };
                    ListView { mirror: m, in_name: false, ..s }
                } else {
                    s
                }
            } else if name == "uri"@ {
                if s.in_uri {
                    let t = trimmed_of(s.text);
                    let m = if t.len() > 0 {
                        MirrorView {
                            group: GroupView {
                                mirrors: s.mirror.group.mirrors.push(UriView { uri: t, ..s.uri }),
                                ..s.mirror.group
                            },
                            ..s.mirror
                        }
                    } else {
                        s.mirror
                    };
                    ListView { mirror: m, uri: empty_uri(), in_uri: false, ..s }
                } else {
                    s
                }
            } else {
                s
            };
            Ok(ListView { text: Seq::empty(), ..s2 })
        },
        ItemView::EndDocument => Ok(s),
        ItemView::Other => Ok(s),
    }
}

/// The reader's state after the events `es`, stopping at the end of the
/// document or at the first misplaced element.
pub open spec fn list_run(s: ListView, es: Seq<ItemView>) -> Result<ListView, Misplaced>
    decreases es.len(),
{
    if es.len() == 0 {
        Ok(s)
    } else if es[0] is EndDocument {
        Ok(s)
    } else {
        match list_step(s, es[0]) {
            Ok(s2) => list_run(s2, es.drop_first()),
            Err(m) => Err(m),
        }
    }
}

/// How reading a mirror list ends, abstractly.
pub enum ListOutcome {
    Mirrors(Seq<MirrorView>),
    Empty,
    Misplaced(Misplaced),
    XmlError,
    NoRoot,
}

/// The outcome of reading the mirror list `data`.
pub open spec fn mirror_list_of(data: Seq<u8>) -> ListOutcome {
    if data.len() == 0 {
        ListOutcome::Empty
    } else {
        let (items, failed) = xml_reading_of(data);
        match list_run(initial_list(), items) {
            Err(m) => ListOutcome::Misplaced(m),
            Ok(s) => if failed {
                ListOutcome::XmlError
            } else if !s.found_root {
                ListOutcome::NoRoot
            } else {
                ListOutcome::Mirrors(s.mirrors)
            },
        }
    }
}

/// The reader's working state.
struct ListState {
    mirrors: Vec<Mirror>,
    group: MirrorGroup,
    mirror: Mirror,
    uri: UriInfo,
    text: String,
    in_group: bool,
    in_mirror: bool,
    in_uri: bool,
    in_name: bool,
    found_root: bool,
}

spec fn state_view(s: ListState) -> ListView {
    ListView {
        mirrors: s.mirrors@.map_values(|m: Mirror| mirror_view(m)),
        group: group_view(s.group),
        mirror: mirror_view(s.mirror),
        uri: uri_view(s.uri),
        text: s.text@,
        in_group: s.in_group,
        in_mirror: s.in_mirror,
        in_uri: s.in_uri,
        in_name: s.in_name,
        found_root: s.found_root,
    }
}

fn copy_group(g: &MirrorGroup) -> (r: MirrorGroup)
    ensures
        group_view(r) == group_view(*g),
{
    MirrorGroup {
        name: g.name.clone(),
        region: g.region.clone(),
        country_code: g.country_code.clone(),
        country_name: g.country_name.clone(),
        mirrors: copy_uris(&g.mirrors),
    }
}

fn group_with_attrs(attrs: &Vec<(String, String)>) -> (r: MirrorGroup)
    ensures
        group_view(r) == group_attrs(empty_group(), attrs_view(attrs@)),
{
    let mut g = MirrorGroup::new();
    assert(g.mirrors@.map_values(|u: UriInfo| uri_view(u)) =~= Seq::<UriView>::empty());
    assert(group_view(g) == empty_group());
    let mut i: usize = 0;
    while i < attrs.len()
        invariant
            i <= attrs@.len(),
            group_view(g) == group_attrs(empty_group(), attrs_view(attrs@.subrange(0, i as int))),
        decreases attrs@.len() - i,
    {
        proof {
            assert(attrs_view(attrs@.subrange(0, i + 1)).drop_last() =~= attrs_view(
                attrs@.subrange(0, i as int),
            ));
        }
        let (k, v) = &attrs[i];
        if str_eq(k.as_str(), "region") {
            g.region = v.clone();
        } else if str_eq(k.as_str(), "country") {
            g.country_code = v.clone();
        } else if str_eq(k.as_str(), "countryname") {
            g.country_name = v.clone();
        }
        i = i + 1;
    }
    assert(attrs@.subrange(0, attrs@.len() as int) =~= attrs@);
    g
}

fn uri_with_attrs(attrs: &Vec<(String, String)>) -> (r: UriInfo)
    ensures
        uri_view(r) == uri_attrs(empty_uri(), attrs_view(attrs@)),
{
    let mut u = UriInfo::new();
    assert(uri_view(u) == empty_uri());
    let mut i: usize = 0;
    while i < attrs.len()
        invariant
            i <= attrs@.len(),
            uri_view(u) == uri_attrs(empty_uri(), attrs_view(attrs@.subrange(0, i as int))),
        decreases attrs@.len() - i,
    {
        proof {
            assert(attrs_view(attrs@.subrange(0, i + 1)).drop_last() =~= attrs_view(
                attrs@.subrange(0, i as int),
            ));
        }
        let (k, v) = &attrs[i];
        if str_eq(k.as_str(), "protocol") {
            u.protocol = Protocol::from_name(v.as_str());
        } else if str_eq(k.as_str(), "ipv4") {
            u.ipv4 = str_eq(v.as_str(), "y");
        } else if str_eq(k.as_str(), "ipv6") {
            u.ipv6 = str_eq(v.as_str(), "y");
        } else if str_eq(k.as_str(), "partial") {
            u.partial = str_eq(v.as_str(), "y");
        }
        i = i + 1;
    }
    assert(attrs@.subrange(0, attrs@.len() as int) =~= attrs@);
    u
}

fn copy_mirror(m: &Mirror) -> (r: Mirror)
    ensures
        mirror_view(r) == mirror_view(*m),
{
    Mirror { name: m.name.clone(), group: copy_group(&m.group) }
}

fn fresh_mirror() -> (r: Mirror)
    ensures
        mirror_view(r) == empty_mirror(),
{
    let m = Mirror::new();
    assert(m.group.mirrors@.map_values(|u: UriInfo| uri_view(u)) =~= Seq::<UriView>::empty());
    assert(mirror_view(m) == empty_mirror());
    m
}

fn fresh_uri() -> (r: UriInfo)
    ensures
        uri_view(r) == empty_uri(),
{
    let u = UriInfo::new();
    assert(uri_view(u) == empty_uri());
    u
}

fn close_mirror_exec(st: &mut ListState)
    requires
        old(st).in_mirror,
    ensures
        state_view(*final(st)) == close_mirror(state_view(*old(st))),
{
    let ghost s0 = state_view(*st);
    st.mirror.group.name = st.mirror.name.clone();
    if st.mirror.group.mirrors.len() > 0 {
        if st.mirror.name.unicode_len() == 0 {
            let n = st.mirror.group.mirrors[0].uri.clone();
            st.mirror.name = n.clone();
            st.mirror.group.name = n;
        }
        let kept = copy_mirror(&st.mirror);
        let ghost before = st.mirrors@;
        st.mirrors.push(kept);
        proof {
            assert(st.mirrors@.map_values(|m: Mirror| mirror_view(m)) =~= before.map_values(
                |m: Mirror| mirror_view(m),
            ).push(mirror_view(kept)));
        }
    }
    st.mirror = fresh_mirror();
    st.in_mirror = false;
    proof {
        let m = MirrorView {
            group: GroupView { name: s0.mirror.name, ..s0.mirror.group },
            ..s0.mirror
        };
        if m.group.mirrors.len() > 0 && m.name.len() == 0 {
            assert(m.group.mirrors[0].uri == s0.mirror.group.mirrors[0].uri);
        }
        assert(state_view(*st) =~= close_mirror(s0));
    }
}

fn list_step_exec(st: &mut ListState, item: &XmlItem) -> (r: Result<(), Misplaced>)
    ensures
        match list_step(state_view(*old(st)), item_view(*item)) {
            Ok(s2) => r is Ok && state_view(*final(st)) == s2,
            Err(m) => r == Err::<(), Misplaced>(m),
        },
{
    match item {
        XmlItem::Start { name, attributes } => {
            st.text = String::new();
            let n = name.as_str();
            if str_eq(n, "mirrors") {
                st.found_root = true;
            } else if str_eq(n, "mirrorgroup") {
                if !st.found_root {
                    return Err(Misplaced::GroupOutsideRoot);
                }
                st.in_group = true;
                st.group = group_with_attrs(attributes);
            } else if str_eq(n, "mirror") {
                if !st.in_group {
                    return Err(Misplaced::MirrorOutsideGroup);
                }
                st.in_mirror = true;
                st.mirror = Mirror { name: String::new(), group: copy_group(&st.group) };
            } else if str_eq(n, "name") {
                if st.in_mirror {
                    st.in_name = true;
                }
            } else if str_eq(n, "uri") {
                if !st.in_mirror {
                    return Err(Misplaced::UriOutsideMirror);
                }
                st.in_uri = true;
                st.uri = uri_with_attrs(attributes);
            }
            proof {
                assert(state_view(*st) =~= list_step(state_view(*old(st)), item_view(*item))->Ok_0);
            }
            Ok(())
        },
        XmlItem::Text(t) => {
            st.text.append(t.as_str());
            Ok(())
        },
        XmlItem::End { name } => {
            let n = name.as_str();
            if str_eq(n, "mirrorgroup") {
                st.in_group = false;
            } else if str_eq(n, "mirror") {
                if st.in_mirror {
                    close_mirror_exec(st);
                }
            } else if str_eq(n, "name") {
                if st.in_name {
                    let t = trim_text(st.text.as_str());
                    if t.unicode_len() > 0 {
                        st.mirror.name = t;
                    }
                    st.in_name = false;
                }
            } else if str_eq(n, "uri") {
                if st.in_uri {
                    let t = trim_text(st.text.as_str());
                    if t.unicode_len() > 0 {
                        let mut u = UriInfo {
                            protocol: st.uri.protocol,
                            ipv4: st.uri.ipv4,
                            ipv6: st.uri.ipv6,
                            partial: st.uri.partial,
                            uri: t,
                        };
                        let ghost before = st.mirror.group.mirrors@;
                        st.mirror.group.mirrors.push(u);
                        proof {
                            assert(st.mirror.group.mirrors@.map_values(|x: UriInfo| uri_view(x))
                                =~= before.map_values(|x: UriInfo| uri_view(x)).push(
                                uri_view(u),
                            ));
                        }
                    }
                    st.uri = fresh_uri();
                    st.in_uri = false;
                }
            }
            st.text = String::new();
            proof {
                assert(state_view(*st) =~= list_step(state_view(*old(st)), item_view(*item))->Ok_0);
            }
            Ok(())
        },
        XmlItem::EndDocument => Ok(()),
        XmlItem::Other => Ok(()),
    }
}

/// Reads the mirror list `data`. The XML reader's events are followed in
/// order: the first misplaced element ends the reading with
/// `InvalidFormat`; an error of the reader itself comes after the events it
/// read; a document without a `mirrors` root is refused. Each `mirror` with
/// at least one URI is kept, in document order.
pub fn parse_mirrors_xml(data: &Vec<u8>) -> (r: Result<Vec<Mirror>, MirrorError>)
    ensures
        match (r, mirror_list_of(data@)) {
            (Ok(v), ListOutcome::Mirrors(ms)) => v@.map_values(|m: Mirror| mirror_view(m)) == ms,
            (Err(MirrorError::EmptyDataReceived), ListOutcome::Empty) => true,
            (Err(MirrorError::InvalidFormat(msg)), ListOutcome::Misplaced(m)) => msg@
                == misplaced_message(m),
            (Err(MirrorError::Xml(_)), ListOutcome::XmlError) => true,
            (Err(MirrorError::NoRootElementIntoMirrors), ListOutcome::NoRoot) => true,
            _ => false,
        },
{
    if data.len() == 0 {
        return Err(MirrorError::EmptyDataReceived);
    }
    let (items, failure) = read_xml_items(data);
    let ghost es = items@.map_values(|i: XmlItem| item_view(i));
    let mut st = ListState {
        mirrors: Vec::new(),
        group: MirrorGroup::new(),
        mirror: fresh_mirror(),
        uri: fresh_uri(),
        text: String::new(),
        in_group: false,
        in_mirror: false,
        in_uri: false,
        in_name: false,
        found_root: false,
    };
    proof {
        assert(st.mirrors@.map_values(|m: Mirror| mirror_view(m)) =~= Seq::<MirrorView>::empty());
        assert(st.group.mirrors@.map_values(|u: UriInfo| uri_view(u)) =~= Seq::<UriView>::empty());
        assert(state_view(st) == initial_list());
        assert(es.subrange(0, es.len() as int) =~= es);
    }
    let mut i: usize = 0;
    while i < items.len()
        invariant
            i <= items@.len(),
            es == items@.map_values(|i: XmlItem| item_view(i)),
            xml_reading_of(data@).0 == es,
            data@.len() > 0,
            list_run(initial_list(), es) == list_run(state_view(st), es.subrange(i as int, es.len() as int)),
        ensures
            list_run(initial_list(), es) == Ok::<ListView, Misplaced>(state_view(st)),
        decreases items@.len() - i,
    {
        let ghost sv = state_view(st);
        proof {
            assert(es[i as int] == item_view(items@[i as int]));
        }
        proof {
            assert(es.subrange(i as int, es.len() as int).drop_first() =~= es.subrange(i + 1, es.len() as int));
        }
        if let XmlItem::EndDocument = &items[i] {
            proof {
                assert(es.subrange(i as int, es.len() as int)[0] == es[i as int]);
            }
            break;
        }
        match list_step_exec(&mut st, &items[i]) {
            Ok(()) => {
                proof {
                    assert(es.subrange(i as int, es.len() as int)[0] == es[i as int]);
                }
            },
            Err(m) => {
                proof {
                    let sub = es.subrange(i as int, es.len() as int);
                    assert(sub[0] == es[i as int]);
                    assert(!(sub[0] is EndDocument));
                    assert(list_step(sv, sub[0]) == Err::<ListView, Misplaced>(m));
                    assert(list_run(sv, sub) == Err::<ListView, Misplaced>(m));
                    assert(list_run(initial_list(), es) == Err::<ListView, Misplaced>(m));
                }
                let msg = match m {
                    Misplaced::GroupOutsideRoot => String::from_str(
                        "Element 'mirrorgroup' found without a root element 'mirrors'",
                    ),
                    Misplaced::MirrorOutsideGroup => String::from_str(
                        "'Mirror' element found outside a mirrorgroup",
                    ),
                    Misplaced::UriOutsideMirror => String::from_str(
                        "'uri' element found outside a mirror",
                    ),
                };
                proof {
                    assert(msg@ == misplaced_message(m));
                    assert(xml_reading_of(data@).0 == es);
                    assert(mirror_list_of(data@) == ListOutcome::Misplaced(m));
                }
                return Err(MirrorError::InvalidFormat(msg));
            },
        }
        i = i + 1;
    }
    if let Some(e) = failure {
        return Err(MirrorError::Xml(e));
    }
    if !st.found_root {
        return Err(MirrorError::NoRootElementIntoMirrors);
    }
    Ok(st.mirrors)
}

} // verus!
