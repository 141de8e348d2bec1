use timeclock::uid::Uid;

#[test]
fn accepts_canonical_uuid_text() {
    let u = Uid::parse("0d6f9a34-5a9c-4a0b-8f19-3c2d1e0b7a65");
    assert!(u.is_some());
    assert_eq!(
        u.unwrap().as_string().as_str(),
        "0d6f9a34-5a9c-4a0b-8f19-3c2d1e0b7a65"
    );
}

#[test]
fn accepts_uppercase_hex_digits() {
    assert!(Uid::parse("0D6F9A34-5A9C-4A0B-8F19-3C2D1E0B7A65").is_some());
}

#[test]
fn rejects_wrong_length() {
    assert!(Uid::parse("0d6f9a34-5a9c-4a0b-8f19-3c2d1e0b7a6").is_none());
    assert!(Uid::parse("0d6f9a34-5a9c-4a0b-8f19-3c2d1e0b7a655").is_none());
    assert!(Uid::parse("").is_none());
}

#[test]
fn rejects_misplaced_hyphens() {
    assert!(Uid::parse("0d6f9a345-a9c-4a0b-8f19-3c2d1e0b7a65").is_none());
    assert!(Uid::parse("0d6f9a34-5a9c-4a0b-8f19:3c2d1e0b7a65").is_none());
}

#[test]
fn rejects_non_hex_digits() {
    assert!(Uid::parse("0d6f9a34-5a9c-4a0b-8f19-3c2d1e0b7a6g").is_none());
    assert!(Uid::parse("zd6f9a34-5a9c-4a0b-8f19-3c2d1e0b7a65").is_none());
}

#[test]
fn fresh_identifiers_are_canonical_and_distinct() {
    let a = Uid::fresh();
    let b = Uid::fresh();
    assert!(Uid::parse(a.as_string().as_str()).is_some());
    assert_ne!(a, b);
}

#[test]
fn fresh_identifier_parses_with_uuid_crate() {
    let a = Uid::fresh();
    assert!(uuid::Uuid::parse_str(a.as_string().as_str()).is_ok());
}

#[test]
fn uuid_crate_text_is_accepted() {
    let s = uuid::Uuid::new_v4().to_string();
    let u = Uid::parse(&s);
    assert!(u.is_some());
    assert_eq!(u.unwrap().as_string().as_str(), s.as_str());
}

#[test]
fn same_compares_identifier_text() {
    let a = Uid::parse("0d6f9a34-5a9c-4a0b-8f19-3c2d1e0b7a65").unwrap();
    let b = Uid::parse("0d6f9a34-5a9c-4a0b-8f19-3c2d1e0b7a65").unwrap();
    let c = Uid::parse("1d6f9a34-5a9c-4a0b-8f19-3c2d1e0b7a65").unwrap();
    assert!(a.same(&b));
    assert!(!a.same(&c));
    assert_eq!(a.duplicate(), a);
}
