use json_ld::compact_iri::{CompactIri, CompactIriBuf};

#[test]
fn prefix_and_suffix_split_at_the_colon() {
    let iri = CompactIri::new("foaf:name").unwrap();
    assert_eq!(iri.prefix(), "foaf");
    assert_eq!(iri.suffix(), "name");
    assert_eq!(iri.as_str(), "foaf:name");
}

#[test]
fn owned_compact_iri_keeps_the_text() {
    let iri = CompactIri::new("ex:a").unwrap();
    let owned: CompactIriBuf = iri.to_owned();
    assert_eq!(owned.as_compact_iri().as_str(), "ex:a");
    assert_eq!(owned.into_string(), "ex:a");
}
