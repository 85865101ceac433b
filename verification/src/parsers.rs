//! Per-type parsing over each width's full natural range.
//!
//! These are the convenience forms of [`crate::parse_bounded`]: the same
//! per-width parsers with no caller bounds and no clamping, plus the
//! boolean parser.  An `Empty` input takes the caller-supplied default
//! when one is given; every other error propagates, default or not.

use vstd::prelude::*;

use crate::grammar::spec_parse_bool;
use crate::grammar::spec_parse_signed;
use crate::grammar::spec_parse_unsigned;
use crate::parse::ParseError;

verus! {

/// Parses a `usize` anywhere in its range, substituting `default` for an
/// empty input.
pub fn usize(s: &[u8], default: Option<usize>) -> (r: Result<usize, ParseError>)
    ensures
        (match spec_parse_unsigned(s@, 0, usize::MAX as u128, false) {
            Ok(v) => v <= usize::MAX && r == Ok::<usize, ParseError>(v as usize),
            Err(ParseError::Empty) => r == (match default {
                Some(d) => Ok(d),
                None => Err::<usize, ParseError>(ParseError::Empty),
            }),
            Err(e) => r == Err::<usize, ParseError>(e),
        }),
{
    crate::parse_bounded::usize(s, default, None, None, false)
}

/// Parses a `u8` anywhere in its range, substituting `default` for an
/// empty input.
pub fn u8(s: &[u8], default: Option<u8>) -> (r: Result<u8, ParseError>)
    ensures
        (match spec_parse_unsigned(s@, 0, u8::MAX as u128, false) {
            Ok(v) => v <= u8::MAX && r == Ok::<u8, ParseError>(v as u8),
            Err(ParseError::Empty) => r == (match default {
                Some(d) => Ok(d),
                None => Err::<u8, ParseError>(ParseError::Empty),
            }),
            Err(e) => r == Err::<u8, ParseError>(e),
        }),
{
    crate::parse_bounded::u8(s, default, None, None, false)
}

/// Parses a `u16` anywhere in its range, substituting `default` for an
/// empty input.
pub fn u16(s: &[u8], default: Option<u16>) -> (r: Result<u16, ParseError>)
    ensures
        (match spec_parse_unsigned(s@, 0, u16::MAX as u128, false) {
            Ok(v) => v <= u16::MAX && r == Ok::<u16, ParseError>(v as u16),
            Err(ParseError::Empty) => r == (match default {
                Some(d) => Ok(d),
                None => Err::<u16, ParseError>(ParseError::Empty),
            }),
            Err(e) => r == Err::<u16, ParseError>(e),
        }),
{
    crate::parse_bounded::u16(s, default, None, None, false)
}

/// Parses a `u32` anywhere in its range, substituting `default` for an
/// empty input.
pub fn u32(s: &[u8], default: Option<u32>) -> (r: Result<u32, ParseError>)
    ensures
        (match spec_parse_unsigned(s@, 0, u32::MAX as u128, false) {
            Ok(v) => v <= u32::MAX && r == Ok::<u32, ParseError>(v as u32),
            Err(ParseError::Empty) => r == (match default {
                Some(d) => Ok(d),
                None => Err::<u32, ParseError>(ParseError::Empty),
            }),
            Err(e) => r == Err::<u32, ParseError>(e),
        }),
{
    crate::parse_bounded::u32(s, default, None, None, false)
}

/// Parses a `u64` anywhere in its range, substituting `default` for an
/// empty input.
pub fn u64(s: &[u8], default: Option<u64>) -> (r: Result<u64, ParseError>)
    ensures
        (match spec_parse_unsigned(s@, 0, u64::MAX as u128, false) {
            Ok(v) => v <= u64::MAX && r == Ok::<u64, ParseError>(v as u64),
            Err(ParseError::Empty) => r == (match default {
                Some(d) => Ok(d),
                None => Err::<u64, ParseError>(ParseError::Empty),
            }),
            Err(e) => r == Err::<u64, ParseError>(e),
        }),
{
    crate::parse_bounded::u64(s, default, None, None, false)
}

/// Parses a `u128` anywhere in its range, substituting `default` for an
/// empty input.
pub fn u128(s: &[u8], default: Option<u128>) -> (r: Result<u128, ParseError>)
    ensures
        (match spec_parse_unsigned(s@, 0, u128::MAX, false) {
            Ok(v) => r == Ok::<u128, ParseError>(v),
            Err(ParseError::Empty) => r == (match default {
                Some(d) => Ok(d),
                None => Err::<u128, ParseError>(ParseError::Empty),
            }),
            Err(e) => r == Err::<u128, ParseError>(e),
        }),
{
    crate::parse_bounded::u128(s, default, None, None, false)
}

/// Parses an `isize` anywhere in its range, substituting `default` for an
/// empty input.
pub fn isize(s: &[u8], default: Option<isize>) -> (r: Result<isize, ParseError>)
    ensures
        (match spec_parse_signed(s@, isize::MIN as i128, isize::MAX as i128, false) {
            Ok(v) => isize::MIN <= v <= isize::MAX && r == Ok::<isize, ParseError>(v as isize),
            Err(ParseError::Empty) => r == (match default {
                Some(d) => Ok(d),
                None => Err::<isize, ParseError>(ParseError::Empty),
            }),
            Err(e) => r == Err::<isize, ParseError>(e),
        }),
{
    crate::parse_bounded::isize(s, default, None, None, false)
}

/// Parses an `i8` anywhere in its range, substituting `default` for an
/// empty input.
pub fn i8(s: &[u8], default: Option<i8>) -> (r: Result<i8, ParseError>)
    ensures
        (match spec_parse_signed(s@, i8::MIN as i128, i8::MAX as i128, false) {
            Ok(v) => i8::MIN <= v <= i8::MAX && r == Ok::<i8, ParseError>(v as i8),
            Err(ParseError::Empty) => r == (match default {
                Some(d) => Ok(d),
                None => Err::<i8, ParseError>(ParseError::Empty),
            }),
            Err(e) => r == Err::<i8, ParseError>(e),
        }),
{
    crate::parse_bounded::i8(s, default, None, None, false)
}

/// Parses an `i16` anywhere in its range, substituting `default` for an
/// empty input.
pub fn i16(s: &[u8], default: Option<i16>) -> (r: Result<i16, ParseError>)
    ensures
        (match spec_parse_signed(s@, i16::MIN as i128, i16::MAX as i128, false) {
            Ok(v) => i16::MIN <= v <= i16::MAX && r == Ok::<i16, ParseError>(v as i16),
            Err(ParseError::Empty) => r == (match default {
                Some(d) => Ok(d),
                None => Err::<i16, ParseError>(ParseError::Empty),
            }),
            Err(e) => r == Err::<i16, ParseError>(e),
        }),
{
    crate::parse_bounded::i16(s, default, None, None, false)
}

/// Parses an `i32` anywhere in its range, substituting `default` for an
/// empty input.
pub fn i32(s: &[u8], default: Option<i32>) -> (r: Result<i32, ParseError>)
    ensures
        (match spec_parse_signed(s@, i32::MIN as i128, i32::MAX as i128, false) {
            Ok(v) => i32::MIN <= v <= i32::MAX && r == Ok::<i32, ParseError>(v as i32),
            Err(ParseError::Empty) => r == (match default {
                Some(d) => Ok(d),
                None => Err::<i32, ParseError>(ParseError::Empty),
            }),
            Err(e) => r == Err::<i32, ParseError>(e),
        }),
{
    crate::parse_bounded::i32(s, default, None, None, false)
}

/// Parses an `i64` anywhere in its range, substituting `default` for an
/// empty input.
pub fn i64(s: &[u8], default: Option<i64>) -> (r: Result<i64, ParseError>)
    ensures
        (match spec_parse_signed(s@, i64::MIN as i128, i64::MAX as i128, false) {
            Ok(v) => i64::MIN <= v <= i64::MAX && r == Ok::<i64, ParseError>(v as i64),
            Err(ParseError::Empty) => r == (match default {
                Some(d) => Ok(d),
                None => Err::<i64, ParseError>(ParseError::Empty),
            }),
            Err(e) => r == Err::<i64, ParseError>(e),
        }),
{
    crate::parse_bounded::i64(s, default, None, None, false)
}

/// Parses an `i128` anywhere in its range, substituting `default` for an
/// empty input.
pub fn i128(s: &[u8], default: Option<i128>) -> (r: Result<i128, ParseError>)
    ensures
        (match spec_parse_signed(s@, i128::MIN, i128::MAX, false) {
            Ok(v) => r == Ok::<i128, ParseError>(v),
            Err(ParseError::Empty) => r == (match default {
                Some(d) => Ok(d),
                None => Err::<i128, ParseError>(ParseError::Empty),
            }),
            Err(e) => r == Err::<i128, ParseError>(e),
        }),
{
    crate::parse_bounded::i128(s, default, None, None, false)
}

/// Parses a `bool`, substituting `default` for an empty input.
pub fn bool(s: &[u8], default: Option<bool>) -> (r: Result<bool, ParseError>)
    ensures
        (match spec_parse_bool(s@) {
            Ok(v) => r == Ok::<bool, ParseError>(v),
            Err(ParseError::Empty) => r == (match default {
                Some(d) => Ok(d),
                None => Err::<bool, ParseError>(ParseError::Empty),
            }),
            Err(e) => r == Err::<bool, ParseError>(e),
        }),
{
    match crate::parse::parse_bool(s) {
        Ok(v) => Ok(v),
        Err(ParseError::Empty) => match default {
            Some(d) => Ok(d),
            None => Err(ParseError::Empty),
        },
        Err(e) => Err(e),
    }
}

} // verus!
