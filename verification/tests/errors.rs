use uuid_convert::parse;
use uuid_convert::b64::Base64Error;
use uuid_convert::hex::CanonicalError;

#[test]
fn not_a_uuid_reports_both_rejections() {
    let e = parse("not-a-uuid").unwrap_err();
    let msg = e.message();
    assert!(msg.contains("not-a-uuid"));
    assert!(msg.contains("canonical hex"));
    assert!(msg.contains("base-64"));
    assert_eq!(e.canonical_error, CanonicalError::Length);
    assert_eq!(e.base64_error, Base64Error::Length);
}

#[test]
fn garbage_is_rejected() {
    assert!(parse("garbage").is_err());
}

#[test]
fn empty_string_is_rejected() {
    let e = parse("").unwrap_err();
    assert_eq!(e.canonical_error, CanonicalError::Length);
    assert_eq!(e.base64_error, Base64Error::Length);
}

#[test]
fn misplaced_hyphens_are_rejected() {
    let e = parse("550e8400xe29bx41d4xa716x446655440000").unwrap_err();
    assert_eq!(e.canonical_error, CanonicalError::Hyphens);
    assert_eq!(e.base64_error, Base64Error::Length);
}

#[test]
fn bad_hex_digit_is_rejected() {
    let e = parse("550e8400-e29b-41d4-a716-44665544000g").unwrap_err();
    assert_eq!(e.canonical_error, CanonicalError::Digit);
    let e2 = parse("zz0e8400e29b41d4a716446655440000").unwrap_err();
    assert_eq!(e2.canonical_error, CanonicalError::Digit);
}

#[test]
fn bad_base64_symbol_is_rejected() {
    let e = parse("AAAAAAAAAAAAAAAAAAAAA!").unwrap_err();
    assert_eq!(e.canonical_error, CanonicalError::Length);
    assert_eq!(e.base64_error, Base64Error::Symbol);
}

#[test]
fn plus_and_slash_are_not_url_safe() {
    let e = parse("AAAAAAAAAAAAAAAAAAAAA+").unwrap_err();
    assert_eq!(e.base64_error, Base64Error::Symbol);
    let e2 = parse("AAAAAAAAAAAAAAAAAAAA/w").unwrap_err();
    assert_eq!(e2.base64_error, Base64Error::Symbol);
}

#[test]
fn nonzero_trailing_bits_are_rejected() {
    let e = parse("AAAAAAAAAAAAAAAAAAAAAB").unwrap_err();
    assert_eq!(e.canonical_error, CanonicalError::Length);
    assert_eq!(e.base64_error, Base64Error::Trailing);
}

#[test]
fn padded_base64_is_rejected() {
    let e = parse("VQ6EAOKbQdSnFkRmVUQAAA==").unwrap_err();
    assert_eq!(e.base64_error, Base64Error::Length);
}

#[test]
fn message_embeds_the_reasons() {
    let e = parse("AAAAAAAAAAAAAAAAAAAAAB").unwrap_err();
    let msg = e.message();
    assert!(msg.starts_with("Invalid UUID string: AAAAAAAAAAAAAAAAAAAAAB"));
    assert!(msg.contains("length is neither 32 nor 36 characters"));
    assert!(msg.contains("trailing bits"));
}
