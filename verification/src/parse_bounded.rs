//! Per-width parsing with optional bounds and an optional default.
//!
//! Each function here is named after the integer width it produces.  It
//! calls [`crate::parse::parse_unsigned`] or [`crate::parse::parse_signed`]
//! with the given bounds — falling back to the width's natural range where
//! a bound is absent — and narrows the 128-bit result, which the bounds
//! guarantee to fit.  An `Empty` input takes the caller-supplied default
//! when one is given; every other error propagates, default or not.

use vstd::prelude::*;

use crate::grammar::spec_parse_signed;
use crate::grammar::spec_parse_unsigned;
use crate::parse::ParseError;
use crate::parse::parse_signed;
use crate::parse::parse_unsigned;

verus! {

/// Parses a `usize` within `min ..= max`, substituting `default` for an
/// empty input.
pub fn usize(
    s: &[u8],
    default: Option<usize>,
    min: Option<usize>,
    max: Option<usize>,
    clamp: bool,
) -> (r: Result<usize, ParseError>)
    ensures
        ({
            let lo = (match min {
                Some(m) => m,
                None => 0,
            }) as u128;
            let hi = (match max {
                Some(m) => m,
                None => usize::MAX,
            }) as u128;
            match spec_parse_unsigned(s@, lo, hi, clamp) {
                Ok(v) => v <= usize::MAX && r == Ok::<usize, ParseError>(v as usize),
                Err(ParseError::Empty) => r == (match default {
                    Some(d) => Ok(d),
                    None => Err::<usize, ParseError>(ParseError::Empty),
                }),
                Err(e) => r == Err::<usize, ParseError>(e),
            }
        }),
{
    let lo: u128 = match min {
        Some(m) => m as u128,
        None => 0,
    };
    let hi: u128 = match max {
        Some(m) => m as u128,
        None => usize::MAX as u128,
    };
    match parse_unsigned(s, lo, hi, clamp) {
        Ok(v) => Ok(v as usize),
        Err(ParseError::Empty) => match default {
            Some(d) => Ok(d),
            None => Err(ParseError::Empty),
        },
        Err(e) => Err(e),
    }
}

/// Parses a `u8` within `min ..= max`, substituting `default` for an
/// empty input.
pub fn u8(s: &[u8], default: Option<u8>, min: Option<u8>, max: Option<u8>, clamp: bool) -> (r:
    Result<u8, ParseError>)
    ensures
        ({
            let lo = (match min {
                Some(m) => m,
                None => 0,
            }) as u128;
            let hi = (match max {
                Some(m) => m,
                None => u8::MAX,
            }) as u128;
            match spec_parse_unsigned(s@, lo, hi, clamp) {
                Ok(v) => v <= u8::MAX && r == Ok::<u8, ParseError>(v as u8),
                Err(ParseError::Empty) => r == (match default {
                    Some(d) => Ok(d),
                    None => Err::<u8, ParseError>(ParseError::Empty),
                }),
                Err(e) => r == Err::<u8, ParseError>(e),
            }
        }),
{
    let lo: u128 = match min {
        Some(m) => m as u128,
        None => 0,
    };
    let hi: u128 = match max {
        Some(m) => m as u128,
        None => u8::MAX as u128,
    };
    match parse_unsigned(s, lo, hi, clamp) {
        Ok(v) => Ok(v as u8),
        Err(ParseError::Empty) => match default {
            Some(d) => Ok(d),
            None => Err(ParseError::Empty),
        },
        Err(e) => Err(e),
    }
}

/// Parses a `u16` within `min ..= max`, substituting `default` for an
/// empty input.
pub fn u16(s: &[u8], default: Option<u16>, min: Option<u16>, max: Option<u16>, clamp: bool) -> (r:
    Result<u16, ParseError>)
    ensures
        ({
            let lo = (match min {
                Some(m) => m,
                None => 0,
            }) as u128;
            let hi = (match max {
                Some(m) => m,
                None => u16::MAX,
            }) as u128;
            match spec_parse_unsigned(s@, lo, hi, clamp) {
                Ok(v) => v <= u16::MAX && r == Ok::<u16, ParseError>(v as u16),
                Err(ParseError::Empty) => r == (match default {
                    Some(d) => Ok(d),
                    None => Err::<u16, ParseError>(ParseError::Empty),
                }),
                Err(e) => r == Err::<u16, ParseError>(e),
            }
        }),
{
    let lo: u128 = match min {
        Some(m) => m as u128,
        None => 0,
    };
    let hi: u128 = match max {
        Some(m) => m as u128,
        None => u16::MAX as u128,
    };
    match parse_unsigned(s, lo, hi, clamp) {
        Ok(v) => Ok(v as u16),
        Err(ParseError::Empty) => match default {
            Some(d) => Ok(d),
            None => Err(ParseError::Empty),
        },
        Err(e) => Err(e),
    }
}

/// Parses a `u32` within `min ..= max`, substituting `default` for an
/// empty input.
pub fn u32(s: &[u8], default: Option<u32>, min: Option<u32>, max: Option<u32>, clamp: bool) -> (r:
    Result<u32, ParseError>)
    ensures
        ({
            let lo = (match min {
                Some(m) => m,
                None => 0,
            }) as u128;
            let hi = (match max {
                Some(m) => m,
                None => u32::MAX,
            }) as u128;
            match spec_parse_unsigned(s@, lo, hi, clamp) {
                Ok(v) => v <= u32::MAX && r == Ok::<u32, ParseError>(v as u32),
                Err(ParseError::Empty) => r == (match default {
                    Some(d) => Ok(d),
                    None => Err::<u32, ParseError>(ParseError::Empty),
                }),
                Err(e) => r == Err::<u32, ParseError>(e),
            }
        }),
{
    let lo: u128 = match min {
        Some(m) => m as u128,
        None => 0,
    };
    let hi: u128 = match max {
        Some(m) => m as u128,
        None => u32::MAX as u128,
    };
    match parse_unsigned(s, lo, hi, clamp) {
        Ok(v) => Ok(v as u32),
        Err(ParseError::Empty) => match default {
            Some(d) => Ok(d),
            None => Err(ParseError::Empty),
        },
        Err(e) => Err(e),
    }
}

/// Parses a `u64` within `min ..= max`, substituting `default` for an
/// empty input.
pub fn u64(s: &[u8], default: Option<u64>, min: Option<u64>, max: Option<u64>, clamp: bool) -> (r:
    Result<u64, ParseError>)
    ensures
        ({
            let lo = (match min {
                Some(m) => m,
                None => 0,
            }) as u128;
            let hi = (match max {
                Some(m) => m,
                None => u64::MAX,
            }) as u128;
            match spec_parse_unsigned(s@, lo, hi, clamp) {
                Ok(v) => v <= u64::MAX && r == Ok::<u64, ParseError>(v as u64),
                Err(ParseError::Empty) => r == (match default {
                    Some(d) => Ok(d),
                    None => Err::<u64, ParseError>(ParseError::Empty),
                }),
                Err(e) => r == Err::<u64, ParseError>(e),
            }
        }),
{
    let lo: u128 = match min {
        Some(m) => m as u128,
        None => 0,
    };
    let hi: u128 = match max {
        Some(m) => m as u128,
        None => u64::MAX as u128,
    };
    match parse_unsigned(s, lo, hi, clamp) {
        Ok(v) => Ok(v as u64),
        Err(ParseError::Empty) => match default {
            Some(d) => Ok(d),
            None => Err(ParseError::Empty),
        },
        Err(e) => Err(e),
    }
}

/// Parses a `u128` within `min ..= max`, substituting `default` for an
/// empty input.
pub fn u128(
    s: &[u8],
    default: Option<u128>,
    min: Option<u128>,
    max: Option<u128>,
    clamp: bool,
) -> (r: Result<u128, ParseError>)
    ensures
        ({
            let lo = match min {
                Some(m) => m,
                None => 0,
            };
            let hi = match max {
                Some(m) => m,
                None => u128::MAX,
            };
            match spec_parse_unsigned(s@, lo, hi, clamp) {
                Ok(v) => r == Ok::<u128, ParseError>(v),
                Err(ParseError::Empty) => r == (match default {
                    Some(d) => Ok(d),
                    None => Err::<u128, ParseError>(ParseError::Empty),
                }),
                Err(e) => r == Err::<u128, ParseError>(e),
            }
        }),
{
    let lo: u128 = match min {
        Some(m) => m,
        None => 0,
    };
    let hi: u128 = match max {
        Some(m) => m,
        None => u128::MAX,
    };
    match parse_unsigned(s, lo, hi, clamp) {
        Ok(v) => Ok(v),
        Err(ParseError::Empty) => match default {
            Some(d) => Ok(d),
            None => Err(ParseError::Empty),
        },
        Err(e) => Err(e),
    }
}

/// Parses an `isize` within `min ..= max`, substituting `default` for an
/// empty input.
pub fn isize(
    s: &[u8],
    default: Option<isize>,
    min: Option<isize>,
    max: Option<isize>,
    clamp: bool,
) -> (r: Result<isize, ParseError>)
    ensures
        ({
            let lo = (match min {
                Some(m) => m,
                None => isize::MIN,
            }) as i128;
            let hi = (match max {
                Some(m) => m,
                None => isize::MAX,
            }) as i128;
            match spec_parse_signed(s@, lo, hi, clamp) {
                Ok(v) => isize::MIN <= v <= isize::MAX && r == Ok::<isize, ParseError>(v as isize),
                Err(ParseError::Empty) => r == (match default {
                    Some(d) => Ok(d),
                    None => Err::<isize, ParseError>(ParseError::Empty),
                }),
                Err(e) => r == Err::<isize, ParseError>(e),
            }
        }),
{
    let lo: i128 = match min {
        Some(m) => m as i128,
        None => isize::MIN as i128,
    };
    let hi: i128 = match max {
        Some(m) => m as i128,
        None => isize::MAX as i128,
    };
    match parse_signed(s, lo, hi, clamp) {
        Ok(v) => Ok(v as isize),
        Err(ParseError::Empty) => match default {
            Some(d) => Ok(d),
            None => Err(ParseError::Empty),
        },
        Err(e) => Err(e),
    }
}

/// Parses an `i8` within `min ..= max`, substituting `default` for an
/// empty input.
pub fn i8(s: &[u8], default: Option<i8>, min: Option<i8>, max: Option<i8>, clamp: bool) -> (r:
    Result<i8, ParseError>)
    ensures
        ({
            let lo = (match min {
                Some(m) => m,
                None => i8::MIN,
            }) as i128;
            let hi = (match max {
                Some(m) => m,
                None => i8::MAX,
            }) as i128;
            match spec_parse_signed(s@, lo, hi, clamp) {
                Ok(v) => i8::MIN <= v <= i8::MAX && r == Ok::<i8, ParseError>(v as i8),
                Err(ParseError::Empty) => r == (match default {
                    Some(d) => Ok(d),
                    None => Err::<i8, ParseError>(ParseError::Empty),
                }),
                Err(e) => r == Err::<i8, ParseError>(e),
            }
        }),
{
    let lo: i128 = match min {
        Some(m) => m as i128,
        None => i8::MIN as i128,
    };
    let hi: i128 = match max {
        Some(m) => m as i128,
        None => i8::MAX as i128,
    };
    match parse_signed(s, lo, hi, clamp) {
        Ok(v) => Ok(v as i8),
        Err(ParseError::Empty) => match default {
            Some(d) => Ok(d),
            None => Err(ParseError::Empty),
        },
        Err(e) => Err(e),
    }
}

/// Parses an `i16` within `min ..= max`, substituting `default` for an
/// empty input.
pub fn i16(s: &[u8], default: Option<i16>, min: Option<i16>, max: Option<i16>, clamp: bool) -> (r:
    Result<i16, ParseError>)
    ensures
        ({
            let lo = (match min {
                Some(m) => m,
                None => i16::MIN,
            }) as i128;
            let hi = (match max {
                Some(m) => m,
                None => i16::MAX,
            }) as i128;
            match spec_parse_signed(s@, lo, hi, clamp) {
                Ok(v) => i16::MIN <= v <= i16::MAX && r == Ok::<i16, ParseError>(v as i16),
                Err(ParseError::Empty) => r == (match default {
                    Some(d) => Ok(d),
                    None => Err::<i16, ParseError>(ParseError::Empty),
                }),
                Err(e) => r == Err::<i16, ParseError>(e),
            }
        }),
{
    let lo: i128 = match min {
        Some(m) => m as i128,
        None => i16::MIN as i128,
    };
    let hi: i128 = match max {
        Some(m) => m as i128,
        None => i16::MAX as i128,
    };
    match parse_signed(s, lo, hi, clamp) {
        Ok(v) => Ok(v as i16),
        Err(ParseError::Empty) => match default {
            Some(d) => Ok(d),
            None => Err(ParseError::Empty),
        },
        Err(e) => Err(e),
    }
}

/// Parses an `i32` within `min ..= max`, substituting `default` for an
/// empty input.
pub fn i32(s: &[u8], default: Option<i32>, min: Option<i32>, max: Option<i32>, clamp: bool) -> (r:
    Result<i32, ParseError>)
    ensures
        ({
            let lo = (match min {
                Some(m) => m,
                None => i32::MIN,
            }) as i128;
            let hi = (match max {
                Some(m) => m,
                None => i32::MAX,
            }) as i128;
            match spec_parse_signed(s@, lo, hi, clamp) {
                Ok(v) => i32::MIN <= v <= i32::MAX && r == Ok::<i32, ParseError>(v as i32),
                Err(ParseError::Empty) => r == (match default {
                    Some(d) => Ok(d),
                    None => Err::<i32, ParseError>(ParseError::Empty),
                }),
                Err(e) => r == Err::<i32, ParseError>(e),
            }
        }),
{
    let lo: i128 = match min {
        Some(m) => m as i128,
        None => i32::MIN as i128,
    };
    let hi: i128 = match max {
        Some(m) => m as i128,
        None => i32::MAX as i128,
    };
    match parse_signed(s, lo, hi, clamp) {
        Ok(v) => Ok(v as i32),
        Err(ParseError::Empty) => match default {
            Some(d) => Ok(d),
            None => Err(ParseError::Empty),
        },
        Err(e) => Err(e),
    }
}

/// Parses an `i64` within `min ..= max`, substituting `default` for an
/// empty input.
pub fn i64(s: &[u8], default: Option<i64>, min: Option<i64>, max: Option<i64>, clamp: bool) -> (r:
    Result<i64, ParseError>)
    ensures
        ({
            let lo = (match min {
                Some(m) => m,
                None => i64::MIN,
            }) as i128;
            let hi = (match max {
                Some(m) => m,
                None => i64::MAX,
            }) as i128;
            match spec_parse_signed(s@, lo, hi, clamp) {
                Ok(v) => i64::MIN <= v <= i64::MAX && r == Ok::<i64, ParseError>(v as i64),
                Err(ParseError::Empty) => r == (match default {
                    Some(d) => Ok(d),
                    None => Err::<i64, ParseError>(ParseError::Empty),
                }),
                Err(e) => r == Err::<i64, ParseError>(e),
            }
        }),
{
    let lo: i128 = match min {
        Some(m) => m as i128,
        None => i64::MIN as i128,
    };
    let hi: i128 = match max {
        Some(m) => m as i128,
        None => i64::MAX as i128,
    };
    match parse_signed(s, lo, hi, clamp) {
        Ok(v) => Ok(v as i64),
        Err(ParseError::Empty) => match default {
            Some(d) => Ok(d),
            None => Err(ParseError::Empty),
        },
        Err(e) => Err(e),
    }
}

/// Parses an `i128` within `min ..= max`, substituting `default` for an
/// empty input.
pub fn i128(
    s: &[u8],
    default: Option<i128>,
    min: Option<i128>,
    max: Option<i128>,
    clamp: bool,
) -> (r: Result<i128, ParseError>)
    ensures
        ({
            let lo = match min {
                Some(m) => m,
                None => i128::MIN,
            };
            let hi = match max {
                Some(m) => m,
                None => i128::MAX,
            };
            match spec_parse_signed(s@, lo, hi, clamp) {
                Ok(v) => r == Ok::<i128, ParseError>(v),
                Err(ParseError::Empty) => r == (match default {
                    Some(d) => Ok(d),
                    None => Err::<i128, ParseError>(ParseError::Empty),
                }),
                Err(e) => r == Err::<i128, ParseError>(e),
            }
        }),
{
    let lo: i128 = match min {
        Some(m) => m,
        None => i128::MIN,
    };
    let hi: i128 = match max {
        Some(m) => m,
        None => i128::MAX,
    };
    match parse_signed(s, lo, hi, clamp) {
        Ok(v) => Ok(v),
        Err(ParseError::Empty) => match default {
            Some(d) => Ok(d),
            None => Err(ParseError::Empty),
        },
        Err(e) => Err(e),
    }
}

} // verus!
