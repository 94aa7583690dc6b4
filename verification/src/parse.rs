//! Dual-format parsing with ordered fallback: a string is read as canonical
//! hex first; only if that fails is it read as base-64; if both fail, the
//! error carries the reason from each attempt together with the offending
//! string.

use vstd::prelude::*;
use vstd::string::StringExecFns;
use crate::hex;
use crate::hex::CanonicalError;
use crate::b64;
use crate::b64::Base64Error;
use crate::value::Uuid;

verus! {

/// What a string means as an identifier: its canonical-hex reading where it
/// has one, otherwise its base-64 reading, otherwise nothing. The order is a
/// fixed policy: canonical hex is always tried first.
pub open spec fn spec_parse(s: Seq<char>) -> Option<Seq<u8>> {
    if hex::spec_parse_canonical(s) is Some {
        hex::spec_parse_canonical(s)
    } else {
        b64::spec_parse_b64(s)
    }
}

/// A string that neither reading accepts, with the reason from each attempt.
#[derive(Debug)]
pub struct ParseError {
    /// The offending input, as given.
    pub input: String,
    /// Why the canonical-hex reading failed.
    pub canonical_error: CanonicalError,
    /// Why the base-64 reading failed.
    pub base64_error: Base64Error,
}

/// The fixed text for each canonical-hex rejection reason.
pub open spec fn canonical_error_text(e: CanonicalError) -> Seq<char> {
    match e {
        CanonicalError::Length => "not canonical hex: length is neither 32 nor 36 characters"@,
        CanonicalError::Hyphens => "not canonical hex: hyphens are not in the 8-4-4-4-12 pattern"@,
        CanonicalError::Digit => "not canonical hex: a character is not a hex digit"@,
    }
}

/// The fixed text for each base-64 rejection reason.
pub open spec fn base64_error_text(e: Base64Error) -> Seq<char> {
    match e {
        Base64Error::Length => "not base-64: length is not 22 characters"@,
        Base64Error::Symbol => "not base-64: a character is outside the URL-safe alphabet"@,
        Base64Error::Trailing => "not base-64: the unused trailing bits are not zero"@,
    }
}

/// The full message of a parse error: the offending string, then the reason
/// each of the two readings was rejected.
pub open spec fn spec_message(e: ParseError) -> Seq<char> {
    "Invalid UUID string: "@ + e.input@ + "\n  "@ + canonical_error_text(e.canonical_error)
        + "\n  "@ + base64_error_text(e.base64_error)
}

fn canonical_error_str(e: CanonicalError) -> (r: &'static str)
    ensures
        r@ == canonical_error_text(e),
{
    match e {
        CanonicalError::Length => "not canonical hex: length is neither 32 nor 36 characters",
        CanonicalError::Hyphens => "not canonical hex: hyphens are not in the 8-4-4-4-12 pattern",
        CanonicalError::Digit => "not canonical hex: a character is not a hex digit",
    }
}

fn base64_error_str(e: Base64Error) -> (r: &'static str)
    ensures
        r@ == base64_error_text(e),
{
    match e {
        Base64Error::Length => "not base-64: length is not 22 characters",
        Base64Error::Symbol => "not base-64: a character is outside the URL-safe alphabet",
        Base64Error::Trailing => "not base-64: the unused trailing bits are not zero",
    }
}

impl ParseError {
    /// The message shown for this error, with both rejection reasons.
    pub fn message(&self) -> (r: String)
        ensures
            r@ == spec_message(*self),
    {
        let mut out = String::from_str("Invalid UUID string: ");
        out.append(self.input.as_str());
        out.append("\n  ");
        out.append(canonical_error_str(self.canonical_error));
        out.append("\n  ");
        out.append(base64_error_str(self.base64_error));
        out
    }
}

/// Resolve a string to an identifier: canonical hex first, then base-64; a
/// string neither accepts yields the error with both reasons and the input.
pub fn parse(input: &str) -> (r: Result<Uuid, ParseError>)
    ensures
        r is Ok <==> spec_parse(input@) is Some,
        r matches Ok(u) ==> spec_parse(input@) == Some(u@) && u@.len() == 16,
        r matches Err(e) ==> e.input@ == input@ && e.canonical_error == hex::spec_canonical_error(
            input@,
        ) && e.base64_error == b64::spec_b64_error(input@),
{
    match hex::parse_canonical(input) {
        Ok(bytes) => Ok(Uuid::from_exact_bytes(bytes)),
        Err(canonical_error) => match b64::parse_b64(input) {
            Ok(bytes) => Ok(Uuid::from_exact_bytes(bytes)),
            Err(base64_error) => Err(
                ParseError {
                    input: String::from_str(input),
                    canonical_error,
                    base64_error,
                },
            ),
        },
    }
}

/// Which of the two renderings, if any, is to be copied to the clipboard.
#[derive(Clone, Copy, Debug, PartialEq, Eq, Structural)]
pub enum CopyChoice {
    /// Neither flag was given: nothing is written.
    NoCopy,
    /// The canonical hyphenated form is written.
    Canonical,
    /// The base-64 form is written.
    Base64,
}

/// What the two copy flags select, where they are consistent.
pub open spec fn spec_select_copy(copy_normal: bool, copy_b64: bool) -> Option<CopyChoice> {
    if copy_normal && copy_b64 {
        None
    } else if copy_normal {
        Some(CopyChoice::Canonical)
    } else if copy_b64 {
        Some(CopyChoice::Base64)
    } else {
        Some(CopyChoice::NoCopy)
    }
}

/// Resolve the two mutually exclusive copy flags: both at once is a usage
/// error, reported before any identifier work.
pub fn select_copy(copy_normal: bool, copy_b64: bool) -> (r: Option<CopyChoice>)
    ensures
        r == spec_select_copy(copy_normal, copy_b64),
        r is None <==> (copy_normal && copy_b64),
{
    if copy_normal && copy_b64 {
        None
    } else if copy_normal {
        Some(CopyChoice::Canonical)
    } else if copy_b64 {
        Some(CopyChoice::Base64)
    } else {
        Some(CopyChoice::NoCopy)
    }
}

} // verus!
