//! The renderings agree with the ecosystem the strings come from: the hex
//! form with the uuid crate, the base-64 form with the uuid-b64 crate.

use std::str::FromStr;

use uuid_b64::UuidB64;
use uuid_convert::generate;
use uuid_convert::parse;

#[test]
fn canonical_form_agrees_with_uuid_crate() {
    let u = generate();
    let s = u.format_canonical();
    let reference = uuid::Uuid::from_str(&s).unwrap();
    assert_eq!(reference.as_hyphenated().to_string(), s);
    let known = uuid::Uuid::from_str("550e8400-e29b-41d4-a716-446655440000").unwrap();
    let ours = parse("550e8400-e29b-41d4-a716-446655440000").unwrap();
    assert_eq!(ours.to_bytes(), known.as_bytes().to_vec());
}

#[test]
fn base64_form_agrees_with_uuid_b64_crate() {
    let u = generate();
    let canonical = u.format_canonical();
    let reference = UuidB64::from(uuid::Uuid::from_str(&canonical).unwrap());
    assert_eq!(reference.to_string(), u.format_b64());
}

#[test]
fn base64_parse_agrees_with_uuid_b64_crate() {
    let encoded = "VQ6EAOKbQdSnFkRmVUQAAA";
    let reference = UuidB64::from_str(encoded).unwrap();
    let ours = parse(encoded).unwrap();
    assert_eq!(reference.uuid().as_hyphenated().to_string(), ours.format_canonical());
}
