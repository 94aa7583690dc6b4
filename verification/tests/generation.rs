use uuid_convert::generate;
use uuid_convert::parse;

#[test]
fn generated_values_are_distinct() {
    for _ in 0..1000 {
        let a = generate();
        let b = generate();
        assert!(!(a == b));
    }
}

#[test]
fn generated_value_is_version_4_variant_1() {
    for _ in 0..100 {
        let u = generate();
        let s = u.format_canonical();
        let chars: Vec<char> = s.chars().collect();
        assert_eq!(chars[14], '4');
        assert!(matches!(chars[19], '8' | '9' | 'a' | 'b'));
        let bytes = u.to_bytes();
        assert_eq!(bytes[6] >> 4, 4);
        assert_eq!(bytes[8] >> 6, 2);
    }
}

#[test]
fn generated_value_round_trips_both_ways() {
    let u = generate();
    let canonical = u.format_canonical();
    let b64 = u.format_b64();
    let from_canonical = parse(&canonical).unwrap();
    let from_b64 = parse(&b64).unwrap();
    assert!(from_canonical == u);
    assert!(from_b64 == u);
    assert_eq!(from_b64.format_canonical(), canonical);
}
