//! The general laws of the library, each proved once and for all values:
//! round-tripping through either rendering, the fixed shape of each
//! rendering, and the fallback order of the parser.

use vstd::prelude::*;
use crate::hex;
use crate::b64;
use crate::parse::spec_parse;

verus! {

/// Round trip: the canonical rendering of any 16 bytes parses back to
/// exactly those bytes.
pub proof fn round_trip_canonical(b: Seq<u8>)
    requires
        b.len() == 16,
    ensures
        spec_parse(hex::spec_format_canonical(b)) == Some(b),
{
    hex::lemma_canonical_round_trip(b);
}

/// Round trip: the base-64 rendering of any 16 bytes parses back to exactly
/// those bytes, through the full fallback parser.
pub proof fn round_trip_b64(b: Seq<u8>)
    requires
        b.len() == 16,
    ensures
        spec_parse(b64::spec_format_b64(b)) == Some(b),
{
    let s = b64::spec_format_b64(b);
    assert(s.len() == 22);
    assert(hex::spec_parse_canonical(s) is None);
    b64::lemma_b64_round_trip(b);
}

/// Format stability: the canonical rendering of any 16 bytes is 36
/// characters, a hyphen at exactly the 8-4-4-4-12 positions and a lowercase
/// hex digit everywhere else.
pub proof fn format_canonical_shape(b: Seq<u8>)
    requires
        b.len() == 16,
    ensures
        hex::spec_format_canonical(b).len() == 36,
        forall|i: int|
            0 <= i < 36 ==> if hex::is_hyphen_pos(i) {
                hex::spec_format_canonical(b)[i] == '-'
            } else {
                hex::is_lower_hex_digit(#[trigger] hex::spec_format_canonical(b)[i])
            },
{
    let s = hex::spec_format_canonical(b);
    assert forall|i: int| 0 <= i < 36 && !hex::is_hyphen_pos(i) implies hex::is_lower_hex_digit(
        s[i],
    ) by {
        let j = i - hex::hyphens_before(i);
        let x = b[j / 2];
        let v = if j % 2 == 0 {
            x >> 4
        } else {
            x & 15
        };
        assert(x >> 4 < 16 && x & 15 < 16) by (bit_vector);
        hex::lemma_hex_digit_char_value(v);
    }
}

/// Format stability: the base-64 rendering of any 16 bytes is exactly 22
/// characters, each a URL-safe base-64 digit.
pub proof fn format_b64_shape(b: Seq<u8>)
    requires
        b.len() == 16,
    ensures
        b64::spec_format_b64(b).len() == 22,
        forall|j: int|
            0 <= j < 22 ==> (#[trigger] b64::b64_char_value(b64::spec_format_b64(b)[j])) is Some,
{
    let s = b64::spec_format_b64(b);
    assert forall|j: int| 0 <= j < 22 implies (#[trigger] b64::b64_char_value(s[j])) is Some by {
        b64::lemma_sextet_bound(b, j);
        b64::lemma_b64_digit_char_value(b64::sextet(b, j));
    }
}

/// Fallback order: a string that reads as canonical hex is resolved by that
/// reading alone; the base-64 reading is never consulted, and indeed no such
/// string even has one, the two shapes being of different lengths.
pub proof fn canonical_first(s: Seq<char>)
    requires
        hex::spec_parse_canonical(s) is Some,
    ensures
        spec_parse(s) == hex::spec_parse_canonical(s),
        b64::spec_parse_b64(s) is None,
{
    assert(s.len() == 32 || s.len() == 36);
}

} // verus!
