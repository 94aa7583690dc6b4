//! Conversion of 128-bit identifiers between their canonical hyphenated hex
//! form and a fixed-width URL-safe base-64 form, with ordered-fallback
//! parsing, random generation, and exact contracts on every operation.

pub mod b64;
pub mod hex;
pub mod laws;
pub mod parse;
pub mod random;
pub mod value;
mod text;

pub use parse::parse;
pub use parse::select_copy;
pub use parse::CopyChoice;
pub use parse::ParseError;
pub use random::generate;
pub use value::Uuid;
