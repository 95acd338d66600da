use chrootmanager::mirror::listing::{parse_mirrors_xml, MirrorError};
use chrootmanager::mirror::parser::Protocol;

const LIST: &str = r#"<?xml version="1.0" encoding="UTF-8"?>
<mirrors>
  <mirrorgroup region="Europe" country="DE" countryname="Germany">
    <mirror>
      <name> FAU Erlangen </name>
      <uri protocol="HTTP" ipv4="y" ipv6="y" partial="n">http://ftp.fau.de/gentoo</uri>
      <uri protocol="rsync" ipv4="y" ipv6="n" partial="n">rsync://ftp.fau.de/gentoo</uri>
    </mirror>
    <mirror>
      <uri protocol="https" ipv4="y" ipv6="n" partial="y"> https://nameless.example/ </uri>
    </mirror>
    <mirror>
      <name>No URIs</name>
    </mirror>
  </mirrorgroup>
  <mirrorgroup region="Asia" country="JP" countryname="Japan">
    <mirror>
      <name>Tokyo</name>
      <uri protocol="ftp" ipv4="y" ipv6="n" partial="n">ftp://tokyo.example/</uri>
    </mirror>
  </mirrorgroup>
</mirrors>
"#;

#[test]
fn parses_groups_mirrors_and_uris() {
    let ms = parse_mirrors_xml(&LIST.as_bytes().to_vec()).unwrap();
    assert_eq!(ms.len(), 3);
    assert_eq!(ms[0].name, "FAU Erlangen");
    assert_eq!(ms[0].group.name, "FAU Erlangen");
    assert_eq!(ms[0].group.region, "Europe");
    assert_eq!(ms[0].group.country_code, "DE");
    assert_eq!(ms[0].group.country_name, "Germany");
    assert_eq!(ms[0].group.mirrors.len(), 2);
    assert_eq!(ms[0].group.mirrors[0].protocol, Protocol::Http);
    assert!(ms[0].group.mirrors[0].ipv6);
    assert!(!ms[0].group.mirrors[0].partial);
    assert_eq!(ms[0].group.mirrors[0].uri, "http://ftp.fau.de/gentoo");
    assert_eq!(ms[0].group.mirrors[1].protocol, Protocol::Rsync);
    // a mirror without a name is named after its first URI
    assert_eq!(ms[1].name, "https://nameless.example/");
    assert_eq!(ms[1].group.name, "https://nameless.example/");
    assert!(ms[1].group.mirrors[0].partial);
    // the mirror without URIs is dropped
    assert_eq!(ms[2].name, "Tokyo");
    assert_eq!(ms[2].group.region, "Asia");
}

#[test]
fn empty_data_is_refused() {
    assert!(matches!(parse_mirrors_xml(&Vec::new()), Err(MirrorError::EmptyDataReceived)));
}

#[test]
fn group_before_root_is_invalid() {
    let doc = "<list><mirrorgroup region=\"x\"></mirrorgroup></list>";
    match parse_mirrors_xml(&doc.as_bytes().to_vec()) {
        Err(MirrorError::InvalidFormat(m)) => {
            assert_eq!(m, "Element 'mirrorgroup' found without a root element 'mirrors'")
        }
        other => panic!("unexpected {:?}", other),
    }
}

#[test]
fn misplaced_mirror_and_uri_are_invalid() {
    let doc = "<mirrors><mirror/></mirrors>";
    match parse_mirrors_xml(&doc.as_bytes().to_vec()) {
        Err(MirrorError::InvalidFormat(m)) => assert_eq!(m, "'Mirror' element found outside a mirrorgroup"),
        other => panic!("unexpected {:?}", other),
    }
    let doc = "<mirrors><mirrorgroup><uri>x</uri></mirrorgroup></mirrors>";
    match parse_mirrors_xml(&doc.as_bytes().to_vec()) {
        Err(MirrorError::InvalidFormat(m)) => assert_eq!(m, "'uri' element found outside a mirror"),
        other => panic!("unexpected {:?}", other),
    }
}

#[test]
fn missing_root_is_reported() {
    let doc = "<other><x/></other>";
    assert!(matches!(
        parse_mirrors_xml(&doc.as_bytes().to_vec()),
        Err(MirrorError::NoRootElementIntoMirrors)
    ));
}

#[test]
fn malformed_xml_is_an_xml_error() {
    let doc = "<mirrors><mirrorgroup>";
    assert!(matches!(parse_mirrors_xml(&doc.as_bytes().to_vec()), Err(MirrorError::Xml(_))));
}
