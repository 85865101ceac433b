//! A verified text-to-value parser for short configuration tokens.
//!
//! The crate turns byte strings into typed values: unsigned and signed
//! integers in decimal, hexadecimal, octal or binary notation, and a
//! permissive set of boolean spellings.  Parsing is case-insensitive,
//! tolerates leading and trailing ASCII whitespace, and accepts `_` as a
//! digit separator.  Callers may bound the accepted range and choose
//! between rejecting and clamping out-of-range values, and the per-width
//! entry points can substitute a default when the input is empty.
//!
//! Every exported function carries a contract that pins its result down to
//! a mathematical description of the grammar, found in [`grammar`].

pub mod grammar;
pub mod laws;
pub mod parse;
pub mod parse_bounded;
pub mod parsers;
