use objpath::{normal_text, InvalidObjectId, ObjectId, PathComponent};

fn normal(s: &str) -> PathComponent {
    PathComponent::Normal(s.as_bytes().to_vec())
}

fn names(p: &[PathComponent]) -> Vec<String> {
    p.iter()
        .map(|c| match c {
            PathComponent::Normal(b) => String::from_utf8(b.clone()).unwrap(),
            other => panic!("unexpected component {:?}", other),
        })
        .collect()
}

const EXAMPLE: u128 = 0x0123456789abcdef0123456789abcdef;

#[test]
fn encode_example() {
    let p = ObjectId(EXAMPLE).encode();
    assert_eq!(names(&p), vec!["01", "23", "456789abcdef0123456789abcdef"]);
}

#[test]
fn decode_example() {
    let p = vec![normal("01"), normal("23"), normal("456789abcdef0123456789abcdef")];
    assert_eq!(ObjectId::decode(&p), Ok(ObjectId(EXAMPLE)));
}

#[test]
fn round_trip_values() {
    for v in [0u128, 1, EXAMPLE, u128::MAX, 0xfedcba9876543210fedcba9876543210, 1 << 127] {
        let p = ObjectId(v).encode();
        assert_eq!(ObjectId::decode(&p), Ok(ObjectId(v)));
    }
}

#[test]
fn encode_zero_and_max() {
    assert_eq!(names(&ObjectId(0).encode()), vec!["00", "00", "0000000000000000000000000000"]);
    assert_eq!(names(&ObjectId(u128::MAX).encode()), vec!["ff", "ff", "ffffffffffffffffffffffffffff"]);
}

#[test]
fn segment_shape_lowercase() {
    let p = ObjectId(0xABCDEF0123456789ABCDEF0123456789).encode();
    let n = names(&p);
    assert_eq!(n.len(), 3);
    assert_eq!(n[0].len(), 2);
    assert_eq!(n[1].len(), 2);
    assert_eq!(n[2].len(), 28);
    for s in &n {
        assert!(s.chars().all(|c| c.is_ascii_digit() || ('a'..='f').contains(&c)));
    }
    assert_eq!(n.concat(), "abcdef0123456789abcdef0123456789");
}

#[test]
fn decode_rejects_non_utf8() {
    let p = vec![normal("01"), PathComponent::Normal(vec![0x32, 0xff]), normal("456789abcdef0123456789abcdef")];
    assert_eq!(ObjectId::decode(&p), Err(InvalidObjectId::NonUtf8));
}

#[test]
fn decode_non_utf8_wins_over_bad_text() {
    let p = vec![normal("zz"), PathComponent::Normal(vec![0xc3, 0x28])];
    assert_eq!(ObjectId::decode(&p), Err(InvalidObjectId::NonUtf8));
}

#[test]
fn decode_ignores_non_utf8_outside_names() {
    let p = vec![
        PathComponent::Prefix(vec![0xff]),
        normal("01"),
        normal("23"),
        normal("456789abcdef0123456789abcdef"),
    ];
    assert_eq!(ObjectId::decode(&p), Ok(ObjectId(EXAMPLE)));
}

#[test]
fn decode_rejects_too_short() {
    let p = vec![normal("01"), normal("23"), normal("456789abcdef0123456789abcde")];
    assert!(matches!(ObjectId::decode(&p), Err(InvalidObjectId::InvalidUuid(_))));
}

#[test]
fn decode_rejects_too_long() {
    let p = vec![normal("01"), normal("23"), normal("456789abcdef0123456789abcdef0")];
    assert!(matches!(ObjectId::decode(&p), Err(InvalidObjectId::InvalidUuid(_))));
}

#[test]
fn decode_rejects_non_hex() {
    let p = vec![normal("0g"), normal("23"), normal("456789abcdef0123456789abcdef")];
    assert!(matches!(ObjectId::decode(&p), Err(InvalidObjectId::InvalidUuid(_))));
}

#[test]
fn decode_rejects_empty_path() {
    assert!(matches!(ObjectId::decode(&[]), Err(InvalidObjectId::InvalidUuid(_))));
    assert!(matches!(
        ObjectId::decode(&[PathComponent::RootDir, PathComponent::CurDir]),
        Err(InvalidObjectId::InvalidUuid(_))
    ));
}

#[test]
fn decode_skips_navigation_components() {
    let p = vec![
        PathComponent::RootDir,
        PathComponent::ParentDir,
        normal("01"),
        PathComponent::CurDir,
        normal("23"),
        PathComponent::ParentDir,
        normal("456789abcdef0123456789abcdef"),
    ];
    assert_eq!(ObjectId::decode(&p), Ok(ObjectId(EXAMPLE)));
}

#[test]
fn decode_other_splits() {
    let p = vec![normal("0123456789abcdef0123456789abcdef")];
    assert_eq!(ObjectId::decode(&p), Ok(ObjectId(EXAMPLE)));
    let p = vec![normal("0"), normal("123456789abcdef0"), normal("123456789abcdef")];
    assert_eq!(ObjectId::decode(&p), Ok(ObjectId(EXAMPLE)));
}

#[test]
fn decode_uppercase() {
    let p = vec![normal("01"), normal("23"), normal("456789ABCDEF0123456789AbCdEf")];
    assert_eq!(ObjectId::decode(&p), Ok(ObjectId(EXAMPLE)));
}

#[test]
fn from_text_forms() {
    assert_eq!(ObjectId::from_text("0123456789abcdef0123456789abcdef"), Ok(ObjectId(EXAMPLE)));
    assert_eq!(ObjectId::from_text("01234567-89ab-cdef-0123-456789abcdef"), Ok(ObjectId(EXAMPLE)));
    assert_eq!(ObjectId::from_text("urn:uuid:01234567-89AB-CDEF-0123-456789ABCDEF"), Ok(ObjectId(EXAMPLE)));
}

#[test]
fn from_text_rejects() {
    for s in [
        "",
        "0123456789abcdef0123456789abcde",
        "0123456789abcdef0123456789abcdef0",
        "0123456789abcdef0123456789abcdeg",
        "0123456-789ab-cdef-0123-456789abcdef",
        "urn:uuiD:01234567-89ab-cdef-0123-456789abcdef",
        "0123456789abcdef0123456789abcdé",
    ] {
        assert!(matches!(ObjectId::from_text(s), Err(InvalidObjectId::InvalidUuid(_))), "{}", s);
    }
}

#[test]
fn normal_text_joins_names() {
    let p = vec![PathComponent::RootDir, normal("ab"), PathComponent::CurDir, normal("cd"), normal("é")];
    assert_eq!(normal_text(&p), Some("abcdé".to_string()));
    assert_eq!(normal_text(&[]), Some(String::new()));
    assert_eq!(normal_text(&[PathComponent::Normal(vec![0x80])]), None);
}

#[test]
fn decode_rejects_hyphenated_name() {
    let p = vec![normal("01234567-89ab-cdef-0123-456789abcdef")];
    assert!(matches!(ObjectId::decode(&p), Err(InvalidObjectId::InvalidUuid(_))));
}

#[test]
fn decode_rejects_hyphenated_split_over_names() {
    let p = vec![normal("01234567-89ab"), normal("-cdef-0123-"), normal("456789abcdef")];
    assert!(matches!(ObjectId::decode(&p), Err(InvalidObjectId::InvalidUuid(_))));
}

#[test]
fn decode_rejects_urn_in_either_case() {
    let p = vec![normal("urn:uuid:01234567-89ab-cdef-0123-456789abcdef")];
    assert!(matches!(ObjectId::decode(&p), Err(InvalidObjectId::InvalidUuid(_))));
    let p = vec![normal("URN:UUID:01234567-89AB-CDEF-0123-456789ABCDEF")];
    assert!(matches!(ObjectId::decode(&p), Err(InvalidObjectId::InvalidUuid(_))));
}

#[test]
fn decode_uppercase_encoding() {
    let p: Vec<PathComponent> = names(&ObjectId(EXAMPLE).encode())
        .iter()
        .map(|n| normal(&n.to_ascii_uppercase()))
        .collect();
    assert_eq!(ObjectId::decode(&p), Ok(ObjectId(EXAMPLE)));
}
