//! The canonical-hex rendering of a 128-bit identifier: 32 hex digits,
//! either bare or grouped 8-4-4-4-12 by hyphens, case-insensitive on input
//! and lowercase on output.

use vstd::prelude::*;
use vstd::string::StrSliceExecFns;
use crate::text::push_char;

verus! {

/// The lowercase hex digit character for a value below 16.
pub open spec fn hex_digit_char(v: u8) -> char
    recommends
        v < 16,
{
    if v < 10 {
        (48 + v) as char
    } else {
        (87 + v) as char
    }
}

/// The value of a hex digit character, if it is one; both cases are accepted.
pub open spec fn hex_char_value(c: char) -> Option<u8> {
    let u = c as u32;
    if 48 <= u && u <= 57 {
        Some((u - 48) as u8)
    } else if 97 <= u && u <= 102 {
        Some((u - 87) as u8)
    } else if 65 <= u && u <= 70 {
        Some((u - 55) as u8)
    } else {
        None
    }
}

/// A lowercase hex digit character.
pub open spec fn is_lower_hex_digit(c: char) -> bool {
    let u = c as u32;
    (48 <= u && u <= 57) || (97 <= u && u <= 102)
}

pub proof fn lemma_hex_digit_char_value(v: u8)
    requires
        v < 16,
    ensures
        hex_char_value(hex_digit_char(v)) == Some(v),
        is_lower_hex_digit(hex_digit_char(v)),
{
}

fn hex_digit(v: u8) -> (c: char)
    requires
        v < 16,
    ensures
        c == hex_digit_char(v),
{
    if v < 10 {
        (48u8 + v) as char
    } else {
        (87u8 + v) as char
    }
}

fn hex_value(c: char) -> (r: Option<u8>)
    ensures
        r == hex_char_value(c),
{
    let u = c as u32;
    if 48 <= u && u <= 57 {
        Some((u - 48) as u8)
    } else if 97 <= u && u <= 102 {
        Some((u - 87) as u8)
    } else if 65 <= u && u <= 70 {
        Some((u - 55) as u8)
    } else {
        None
    }
}

/// The 32 lowercase hex digits of 16 bytes, high nibble of each byte first.
pub open spec fn hex_digits_of(b: Seq<u8>) -> Seq<char>
    recommends
        b.len() == 16,
{
    Seq::new(
        32,
        |i: int|
            hex_digit_char(
                if i % 2 == 0 {
                    b[i / 2] >> 4
                } else {
                    b[i / 2] & 15
                },
            ),
    )
}

/// The positions at which the hyphenated 8-4-4-4-12 form carries a hyphen.
pub open spec fn is_hyphen_pos(i: int) -> bool {
    i == 8 || i == 13 || i == 18 || i == 23
}

/// How many hyphens stand strictly before character position i of the
/// hyphenated form.
pub open spec fn hyphens_before(i: int) -> int {
    if i <= 8 {
        0
    } else if i <= 13 {
        1
    } else if i <= 18 {
        2
    } else if i <= 23 {
        3
    } else {
        4
    }
}

/// The character position of hex digit j in the hyphenated form.
pub open spec fn digit_pos(j: int) -> int {
    j + if j < 8 {
        0int
    } else if j < 12 {
        1int
    } else if j < 16 {
        2int
    } else if j < 20 {
        3int
    } else {
        4int
    }
}

/// The canonical hyphenated rendering of 16 bytes.
pub open spec fn spec_format_canonical(b: Seq<u8>) -> Seq<char>
    recommends
        b.len() == 16,
{
    Seq::new(
        36,
        |i: int|
            if is_hyphen_pos(i) {
                '-'
            } else {
                hex_digits_of(b)[i - hyphens_before(i)]
            },
    )
}

/// Whether the four hyphens of a 36-character string sit at their
/// canonical positions.
pub open spec fn hyphens_ok(s: Seq<char>) -> bool
    recommends
        s.len() == 36,
{
    s[8] == '-' && s[13] == '-' && s[18] == '-' && s[23] == '-'
}

/// The bare 32 hex digits of a canonical string: the 36-character form with
/// its hyphens removed, or the 32-character form as it stands.
pub open spec fn canonical_digits(s: Seq<char>) -> Seq<char>
    recommends
        s.len() == 32 || s.len() == 36,
{
    if s.len() == 36 {
        Seq::new(32, |j: int| s[digit_pos(j)])
    } else {
        s
    }
}

pub open spec fn all_hex(d: Seq<char>) -> bool {
    forall|j: int| 0 <= j < d.len() ==> (#[trigger] hex_char_value(d[j])) is Some
}

/// The 16 bytes that 32 hex digits stand for, two digits to a byte.
pub open spec fn bytes_of_hex(d: Seq<char>) -> Seq<u8>
    recommends
        d.len() == 32,
        all_hex(d),
{
    Seq::new(
        16,
        |k: int| (hex_char_value(d[2 * k]).unwrap() << 4) | hex_char_value(d[2 * k + 1]).unwrap(),
    )
}

/// What a string means as a canonical-hex identifier: 16 bytes if it is one
/// of the two accepted forms, nothing otherwise.
pub open spec fn spec_parse_canonical(s: Seq<char>) -> Option<Seq<u8>> {
    if s.len() == 36 && hyphens_ok(s) && all_hex(canonical_digits(s)) {
        Some(bytes_of_hex(canonical_digits(s)))
    } else if s.len() == 32 && all_hex(s) {
        Some(bytes_of_hex(s))
    } else {
        None
    }
}

/// Why a string is not a canonical-hex identifier.
#[derive(Clone, Copy, Debug, PartialEq, Eq, Structural)]
pub enum CanonicalError {
    /// The length is neither 32 nor 36 characters.
    Length,
    /// The length is 36 but the hyphens are not in the 8-4-4-4-12 pattern.
    Hyphens,
    /// A character where a hex digit belongs is not a hex digit.
    Digit,
}

/// The reason reported for a string that canonical-hex parsing rejects.
pub open spec fn spec_canonical_error(s: Seq<char>) -> CanonicalError
    recommends
        spec_parse_canonical(s) is None,
{
    if s.len() != 32 && s.len() != 36 {
        CanonicalError::Length
    } else if s.len() == 36 && !hyphens_ok(s) {
        CanonicalError::Hyphens
    } else {
        CanonicalError::Digit
    }
}

/// The character position of hex digit j, in whichever of the two forms is
/// at hand.
fn digit_position(j: usize, hyphenated: bool) -> (p: usize)
    requires
        j < 32,
    ensures
        p == if hyphenated {
            digit_pos(j as int)
        } else {
            j as int
        },
        p < if hyphenated {
            36int
        } else {
            32int
        },
{
    if !hyphenated {
        j
    } else if j < 8 {
        j
    } else if j < 12 {
        j + 1
    } else if j < 16 {
        j + 2
    } else if j < 20 {
        j + 3
    } else {
        j + 4
    }
}

/// Decode a string as canonical hex, or say why it is not canonical hex.
pub fn parse_canonical(s: &str) -> (r: Result<Vec<u8>, CanonicalError>)
    ensures
        r matches Ok(b) ==> spec_parse_canonical(s@) == Some(b@),
        r matches Err(e) ==> spec_parse_canonical(s@) is None && e == spec_canonical_error(s@),
{
    let n = s.unicode_len();
    if n != 32 && n != 36 {
        return Err(CanonicalError::Length);
    }
    let hyphenated = n == 36;
    if hyphenated {
        let h1 = s.get_char(8) == '-';
        let h2 = s.get_char(13) == '-';
        let h3 = s.get_char(18) == '-';
        let h4 = s.get_char(23) == '-';
        if !(h1 && h2 && h3 && h4) {
            return Err(CanonicalError::Hyphens);
        }
    }
    let ghost d = canonical_digits(s@);
    let mut bytes: Vec<u8> = Vec::new();
    let mut k: usize = 0;
    while k < 16
        invariant
            k <= 16,
            s@.len() == if hyphenated {
                36int
            } else {
                32int
            },
            hyphenated ==> hyphens_ok(s@),
            d == canonical_digits(s@),
            bytes@.len() == k,
            forall|j: int| 0 <= j < 2 * k ==> (#[trigger] hex_char_value(d[j])) is Some,
            forall|i: int| 0 <= i < k ==> bytes@[i] == bytes_of_hex(d)[i],
        decreases 16 - k,
    {
        let c1 = s.get_char(digit_position(2 * k, hyphenated));
        let c2 = s.get_char(digit_position(2 * k + 1, hyphenated));
        proof {
            assert(c1 == d[2 * k as int]);
            assert(c2 == d[2 * k as int + 1]);
        }
        let v1 = match hex_value(c1) {
            Some(v) => v,
            None => {
                return Err(CanonicalError::Digit);
            },
        };
        let v2 = match hex_value(c2) {
            Some(v) => v,
            None => {
                return Err(CanonicalError::Digit);
            },
        };
        bytes.push((v1 << 4) | v2);
        k = k + 1;
    }
    proof {
        assert(all_hex(d));
        assert(bytes@ =~= bytes_of_hex(d));
        if hyphenated {
            assert(spec_parse_canonical(s@) == Some(bytes@));
        } else {
            assert(canonical_digits(s@) == s@);
            assert(spec_parse_canonical(s@) == Some(bytes@));
        }
    }
    Ok(bytes)
}

/// Render 16 bytes in the canonical hyphenated lowercase form.
pub fn format_canonical_bytes(b: &Vec<u8>) -> (r: String)
    requires
        b@.len() == 16,
    ensures
        r@ == spec_format_canonical(b@),
{
    let mut out = String::new();
    let mut i: usize = 0;
    let mut k: usize = 0;
    while i < 36
        invariant
            i <= 36,
            b@.len() == 16,
            k == i - hyphens_before(i as int),
            out@ =~= spec_format_canonical(b@).subrange(0, i as int),
        decreases 36 - i,
    {
        if i == 8 || i == 13 || i == 18 || i == 23 {
            push_char(&mut out, '-');
            proof {
                assert(spec_format_canonical(b@)[i as int] == '-');
            }
        } else {
            let byte = b[k / 2];
            let v = if k % 2 == 0 {
                byte >> 4
            } else {
                byte & 15
            };
            proof {
                assert(byte >> 4 < 16 && byte & 15 < 16) by (bit_vector);
                assert(spec_format_canonical(b@)[i as int] == hex_digits_of(b@)[k as int]);
                assert(hex_digits_of(b@)[k as int] == hex_digit_char(v));
            }
            push_char(&mut out, hex_digit(v));
            k = k + 1;
        }
        i = i + 1;
        proof {
            assert(out@ =~= spec_format_canonical(b@).subrange(0, i as int));
        }
    }
    proof {
        assert(out@ =~= spec_format_canonical(b@));
    }
    out
}

/// The canonical rendering of 16 bytes parses back to those bytes.
pub proof fn lemma_canonical_round_trip(b: Seq<u8>)
    requires
        b.len() == 16,
    ensures
        spec_parse_canonical(spec_format_canonical(b)) == Some(b),
{
    let s = spec_format_canonical(b);
    let d = canonical_digits(s);
    assert(hyphens_ok(s));
    assert forall|j: int| 0 <= j < 32 implies d[j] == hex_digits_of(b)[j] by {
        assert(!is_hyphen_pos(digit_pos(j)));
        assert(digit_pos(j) - hyphens_before(digit_pos(j)) == j);
    }
    assert forall|j: int| 0 <= j < 32 implies (#[trigger] hex_char_value(d[j])) is Some by {
        let v = if j % 2 == 0 {
            b[j / 2] >> 4
        } else {
            b[j / 2] & 15
        };
        let x = b[j / 2];
        assert(x >> 4 < 16 && x & 15 < 16) by (bit_vector);
        lemma_hex_digit_char_value(v);
    }
    assert(all_hex(d));
    assert forall|k: int| 0 <= k < 16 implies bytes_of_hex(d)[k] == b[k] by {
        let x = b[k];
        assert(x >> 4 < 16 && x & 15 < 16) by (bit_vector);
        lemma_hex_digit_char_value(x >> 4);
        lemma_hex_digit_char_value(x & 15);
        assert(d[2 * k] == hex_digits_of(b)[2 * k]);
        assert(d[2 * k + 1] == hex_digits_of(b)[2 * k + 1]);
        assert(hex_digits_of(b)[2 * k] == hex_digit_char(x >> 4));
        assert(hex_digits_of(b)[2 * k + 1] == hex_digit_char(x & 15));
        assert(((x >> 4) << 4) | (x & 15) == x) by (bit_vector);
    }
    assert(bytes_of_hex(d) =~= b);
}

} // verus!
