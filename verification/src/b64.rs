//! The base-64 rendering of a 128-bit identifier: the 16 bytes encoded with
//! the URL-safe alphabet and no padding, always exactly 22 characters, the
//! four unused bits of the last character zero.

use vstd::prelude::*;
use vstd::string::StrSliceExecFns;
use crate::text::push_char;

verus! {

/// The URL-safe base-64 digit character for a value below 64.
pub open spec fn b64_digit_char(v: u8) -> char
    recommends
        v < 64,
{
    if v < 26 {
        (65 + v) as char
    } else if v < 52 {
        (71 + v) as char
    } else if v < 62 {
        (v - 4) as char
    } else if v == 62 {
        '-'
    } else {
        '_'
    }
}

/// The value of a URL-safe base-64 digit character, if it is one.
pub open spec fn b64_char_value(c: char) -> Option<u8> {
    let u = c as u32;
    if 65 <= u && u <= 90 {
        Some((u - 65) as u8)
    } else if 97 <= u && u <= 122 {
        Some((u - 71) as u8)
    } else if 48 <= u && u <= 57 {
        Some((u + 4) as u8)
    } else if u == 45 {
        Some(62)
    } else if u == 95 {
        Some(63)
    } else {
        None
    }
}

pub proof fn lemma_b64_digit_char_value(v: u8)
    requires
        v < 64,
    ensures
        b64_char_value(b64_digit_char(v)) == Some(v),
{
}

fn b64_digit(v: u8) -> (c: char)
    requires
        v < 64,
    ensures
        c == b64_digit_char(v),
{
    if v < 26 {
        (65u8 + v) as char
    } else if v < 52 {
        (71u8 + v) as char
    } else if v < 62 {
        (v - 4u8) as char
    } else if v == 62 {
        '-'
    } else {
        '_'
    }
}

fn b64_value(c: char) -> (r: Option<u8>)
    ensures
        r == b64_char_value(c),
{
    let u = c as u32;
    if 65 <= u && u <= 90 {
        Some((u - 65) as u8)
    } else if 97 <= u && u <= 122 {
        Some((u - 71) as u8)
    } else if 48 <= u && u <= 57 {
        Some((u + 4) as u8)
    } else if u == 45 {
        Some(62)
    } else if u == 95 {
        Some(63)
    } else {
        None
    }
}

/// Sextet j of the base-64 rendering of 16 bytes: six bits taken in order,
/// the last character carrying only the final two bits, shifted high.
pub open spec fn sextet(b: Seq<u8>, j: int) -> u8
    recommends
        b.len() == 16,
        0 <= j < 22,
{
    if j == 20 {
        b[15] >> 2
    } else if j == 21 {
        (b[15] & 3) << 4
    } else {
        let g = j / 4;
        if j % 4 == 0 {
            b[3 * g] >> 2
        } else if j % 4 == 1 {
            ((b[3 * g] & 3) << 4) | (b[3 * g + 1] >> 4)
        } else if j % 4 == 2 {
            ((b[3 * g + 1] & 15) << 2) | (b[3 * g + 2] >> 6)
        } else {
            b[3 * g + 2] & 63
        }
    }
}

/// The 22-character base-64 rendering of 16 bytes.
pub open spec fn spec_format_b64(b: Seq<u8>) -> Seq<char>
    recommends
        b.len() == 16,
{
    Seq::new(22, |j: int| b64_digit_char(sextet(b, j)))
}

pub open spec fn all_b64(s: Seq<char>) -> bool {
    forall|j: int| 0 <= j < s.len() ==> (#[trigger] b64_char_value(s[j])) is Some
}

/// The values of the 22 digit characters of a well-formed base-64 string.
pub open spec fn sextet_values(s: Seq<char>) -> Seq<u8>
    recommends
        s.len() == 22,
        all_b64(s),
{
    Seq::new(22, |j: int| b64_char_value(s[j]).unwrap())
}

/// Byte k reassembled from 22 sextet values.
pub open spec fn byte_from_sextets(v: Seq<u8>, k: int) -> u8
    recommends
        v.len() == 22,
        0 <= k < 16,
{
    let g = k / 3;
    if k % 3 == 0 {
        (v[4 * g] << 2) | (v[4 * g + 1] >> 4)
    } else if k % 3 == 1 {
        ((v[4 * g + 1] & 15) << 4) | (v[4 * g + 2] >> 2)
    } else {
        ((v[4 * g + 2] & 3) << 6) | v[4 * g + 3]
    }
}

/// What a string means as a base-64 identifier: 16 bytes if it is exactly 22
/// URL-safe digits whose four trailing bits are zero, nothing otherwise.
pub open spec fn spec_parse_b64(s: Seq<char>) -> Option<Seq<u8>> {
    if s.len() == 22 && all_b64(s) && b64_char_value(s[21]).unwrap() & 15 == 0 {
        Some(Seq::new(16, |k: int| byte_from_sextets(sextet_values(s), k)))
    } else {
        None
    }
}

/// Why a string is not a base-64 identifier.
#[derive(Clone, Copy, Debug, PartialEq, Eq, Structural)]
pub enum Base64Error {
    /// The length is not 22 characters.
    Length,
    /// A character is outside the URL-safe base-64 alphabet.
    Symbol,
    /// The four unused bits of the last character are not zero.
    Trailing,
}

/// The reason reported for a string that base-64 parsing rejects.
pub open spec fn spec_b64_error(s: Seq<char>) -> Base64Error
    recommends
        spec_parse_b64(s) is None,
{
    if s.len() != 22 {
        Base64Error::Length
    } else if !all_b64(s) {
        Base64Error::Symbol
    } else {
        Base64Error::Trailing
    }
}

/// Decode a string as base-64, or say why it is not base-64.
pub fn parse_b64(s: &str) -> (r: Result<Vec<u8>, Base64Error>)
    ensures
        r matches Ok(b) ==> spec_parse_b64(s@) == Some(b@),
        r matches Err(e) ==> spec_parse_b64(s@) is None && e == spec_b64_error(s@),
{
    let n = s.unicode_len();
    if n != 22 {
        return Err(Base64Error::Length);
    }
    let mut vals: Vec<u8> = Vec::new();
    let mut j: usize = 0;
    while j < 22
        invariant
            j <= 22,
            s@.len() == 22,
            vals@.len() == j,
            forall|i: int| 0 <= i < j ==> (#[trigger] b64_char_value(s@[i])) is Some,
            forall|i: int| 0 <= i < j ==> vals@[i] == b64_char_value(s@[i]).unwrap(),
        decreases 22 - j,
    {
        let c = s.get_char(j);
        match b64_value(c) {
            Some(v) => {
                vals.push(v);
            },
            None => {
                return Err(Base64Error::Symbol);
            },
        }
        j = j + 1;
    }
    proof {
        assert(all_b64(s@));
        assert(vals@ =~= sextet_values(s@));
    }
    if vals[21] & 15 != 0 {
        return Err(Base64Error::Trailing);
    }
    let mut bytes: Vec<u8> = Vec::new();
    let mut k: usize = 0;
    while k < 16
        invariant
            k <= 16,
            s@.len() == 22,
            vals@.len() == 22,
            vals@ == sextet_values(s@),
            bytes@.len() == k,
            forall|i: int| 0 <= i < k ==> bytes@[i] == byte_from_sextets(vals@, i),
        decreases 16 - k,
    {
        let g = k / 3;
        let byte = if k % 3 == 0 {
            (vals[4 * g] << 2u8) | (vals[4 * g + 1] >> 4u8)
        } else if k % 3 == 1 {
            ((vals[4 * g + 1] & 15) << 4u8) | (vals[4 * g + 2] >> 2u8)
        } else {
            ((vals[4 * g + 2] & 3) << 6u8) | vals[4 * g + 3]
        };
        bytes.push(byte);
        k = k + 1;
    }
    proof {
        assert(bytes@ =~= Seq::new(16, |k: int| byte_from_sextets(sextet_values(s@), k)));
    }
    Ok(bytes)
}

/// Sextet j of 16 bytes, computed.
fn sextet_at(b: &Vec<u8>, j: usize) -> (v: u8)
    requires
        b@.len() == 16,
        j < 22,
    ensures
        v == sextet(b@, j as int),
{
    if j == 20 {
        b[15] >> 2u8
    } else if j == 21 {
        (b[15] & 3) << 4u8
    } else {
        let g = j / 4;
        if j % 4 == 0 {
            b[3 * g] >> 2u8
        } else if j % 4 == 1 {
            ((b[3 * g] & 3) << 4u8) | (b[3 * g + 1] >> 4u8)
        } else if j % 4 == 2 {
            ((b[3 * g + 1] & 15) << 2u8) | (b[3 * g + 2] >> 6u8)
        } else {
            b[3 * g + 2] & 63
        }
    }
}

/// Each sextet of an encoding is below 64.
pub proof fn lemma_sextet_bound(b: Seq<u8>, j: int)
    requires
        b.len() == 16,
        0 <= j < 22,
    ensures
        sextet(b, j) < 64,
{
    if j == 20 {
        let x = b[15];
        assert(x >> 2 < 64) by (bit_vector);
    } else if j == 21 {
        let x = b[15];
        assert((x & 3) << 4 < 64) by (bit_vector);
    } else {
        let g = j / 4;
        let x = b[3 * g];
        let y = b[3 * g + 1];
        let z = b[3 * g + 2];
        assert(x >> 2 < 64) by (bit_vector);
        assert(((x & 3) << 4) | (y >> 4) < 64) by (bit_vector);
        assert(((y & 15) << 2) | (z >> 6) < 64) by (bit_vector);
        assert(z & 63 < 64) by (bit_vector);
    }
}

/// Render 16 bytes in the 22-character base-64 form.
pub fn format_b64_bytes(b: &Vec<u8>) -> (r: String)
    requires
        b@.len() == 16,
    ensures
        r@ == spec_format_b64(b@),
{
    let mut out = String::new();
    let mut j: usize = 0;
    while j < 22
        invariant
            j <= 22,
            b@.len() == 16,
            out@ =~= spec_format_b64(b@).subrange(0, j as int),
        decreases 22 - j,
    {
        let v = sextet_at(b, j);
        proof {
            lemma_sextet_bound(b@, j as int);
        }
        push_char(&mut out, b64_digit(v));
        j = j + 1;
        proof {
            assert(out@ =~= spec_format_b64(b@).subrange(0, j as int));
        }
    }
    proof {
        assert(out@ =~= spec_format_b64(b@));
    }
    out
}

/// The base-64 rendering of 16 bytes parses back to those bytes.
pub proof fn lemma_b64_round_trip(b: Seq<u8>)
    requires
        b.len() == 16,
    ensures
        spec_parse_b64(spec_format_b64(b)) == Some(b),
{
    let s = spec_format_b64(b);
    assert forall|j: int| 0 <= j < 22 implies (#[trigger] b64_char_value(s[j])) is Some by {
        lemma_sextet_bound(b, j);
        lemma_b64_digit_char_value(sextet(b, j));
    }
    assert(all_b64(s));
    let v = sextet_values(s);
    assert forall|j: int| 0 <= j < 22 implies v[j] == sextet(b, j) by {
        lemma_sextet_bound(b, j);
        lemma_b64_digit_char_value(sextet(b, j));
    }
    let x15 = b[15];
    assert((((x15 & 3) << 4) & 15) == 0) by (bit_vector);
    assert(v[21] & 15 == 0);
    let decoded = Seq::new(16, |k: int| byte_from_sextets(v, k));
    assert forall|k: int| 0 <= k < 16 implies decoded[k] == b[k] by {
        if k == 15 {
            let x = b[15];
            assert(v[20] == x >> 2);
            assert(v[21] == (x & 3) << 4);
            assert(((x >> 2) << 2) | (((x & 3) << 4) >> 4) == x) by (bit_vector);
        } else {
            let g = k / 3;
            let x = b[3 * g];
            let y = b[3 * g + 1];
            let z = b[3 * g + 2];
            assert(v[4 * g] == x >> 2);
            assert(v[4 * g + 1] == ((x & 3) << 4) | (y >> 4));
            assert(v[4 * g + 2] == ((y & 15) << 2) | (z >> 6));
            assert(v[4 * g + 3] == z & 63);
            if k % 3 == 0 {
                assert(((x >> 2) << 2) | ((((x & 3) << 4) | (y >> 4)) >> 4) == x) by (bit_vector);
            } else if k % 3 == 1 {
                assert((((((x & 3) << 4) | (y >> 4)) & 15) << 4) | ((((y & 15) << 2) | (z >> 6))
                    >> 2) == y) by (bit_vector);
            } else {
                assert((((((y & 15) << 2) | (z >> 6)) & 3) << 6) | (z & 63) == z) by (bit_vector);
            }
        }
    }
    assert(decoded =~= b);
}

} // verus!
