use uuid_convert::parse;
use uuid_convert::Uuid;

const CANONICAL: &str = "550e8400-e29b-41d4-a716-446655440000";
const BARE: &str = "550e8400e29b41d4a716446655440000";
const B64: &str = "VQ6EAOKbQdSnFkRmVUQAAA";

#[test]
fn canonical_input_round_trips() {
    let u = parse(CANONICAL).unwrap();
    assert_eq!(u.format_canonical(), CANONICAL);
    let b64 = u.format_b64();
    assert_eq!(b64, B64);
    let again = parse(&b64).unwrap();
    assert!(again == u);
    assert_eq!(again.format_canonical(), CANONICAL);
}

#[test]
fn bare_input_equals_hyphenated() {
    let a = parse(BARE).unwrap();
    let b = parse(CANONICAL).unwrap();
    assert!(a == b);
    assert_eq!(a.format_canonical(), CANONICAL);
}

#[test]
fn uppercase_input_accepted_output_lowercase() {
    let u = parse("550E8400-E29B-41D4-A716-446655440000").unwrap();
    assert_eq!(u.format_canonical(), CANONICAL);
}

#[test]
fn base64_input_round_trips() {
    let u = parse(B64).unwrap();
    assert_eq!(u.format_canonical(), CANONICAL);
    assert_eq!(u.format_b64(), B64);
}

#[test]
fn zero_value_renderings() {
    let u = parse("00000000-0000-0000-0000-000000000000").unwrap();
    assert_eq!(u.format_b64(), "AAAAAAAAAAAAAAAAAAAAAA");
    let v = parse("AAAAAAAAAAAAAAAAAAAAAA").unwrap();
    assert!(u == v);
}

#[test]
fn max_value_renderings() {
    let u = parse("ffffffff-ffff-ffff-ffff-ffffffffffff").unwrap();
    assert_eq!(u.format_b64(), "_____________________w");
    let v = parse("_____________________w").unwrap();
    assert_eq!(v.format_canonical(), "ffffffff-ffff-ffff-ffff-ffffffffffff");
}

#[test]
fn bytes_round_trip() {
    let u = parse(CANONICAL).unwrap();
    let bytes = u.to_bytes();
    assert_eq!(bytes.len(), 16);
    assert_eq!(bytes[0], 0x55);
    assert_eq!(bytes[1], 0x0e);
    assert_eq!(bytes[15], 0x00);
    let v = Uuid::from_bytes(bytes).unwrap();
    assert!(u == v);
}

#[test]
fn from_bytes_rejects_wrong_length() {
    assert!(Uuid::from_bytes(vec![0u8; 15]).is_none());
    assert!(Uuid::from_bytes(vec![0u8; 17]).is_none());
    assert!(Uuid::from_bytes(Vec::new()).is_none());
    assert!(Uuid::from_bytes(vec![7u8; 16]).is_some());
}

#[test]
fn canonical_format_is_stable() {
    let u = parse(B64).unwrap();
    let s = u.format_canonical();
    assert_eq!(s.len(), 36);
    for (i, c) in s.chars().enumerate() {
        if i == 8 || i == 13 || i == 18 || i == 23 {
            assert_eq!(c, '-');
        } else {
            assert!(c.is_ascii_hexdigit() && !c.is_ascii_uppercase());
        }
    }
    let b = u.format_b64();
    assert_eq!(b.len(), 22);
}
