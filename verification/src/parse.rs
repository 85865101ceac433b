//! The raw parsers: whitespace trimming, number tokenization, the
//! unsigned, signed and boolean parsers, and their error taxonomy.
//!
//! Each function's contract equates its result with the corresponding
//! spec function of [`crate::grammar`], so callers get the exact grammar
//! semantics, not an approximation.

use vstd::prelude::*;

use crate::grammar::digit_value;
use crate::grammar::has_digit;
use crate::grammar::is_ascii_ws;
use crate::grammar::is_digit;
use crate::grammar::is_digit_or_sep;
use crate::grammar::lemma_has_digit_take_step;
use crate::grammar::lemma_run_ok_len_props;
use crate::grammar::lemma_run_ok_len_unique;
use crate::grammar::lemma_run_value_mono;
use crate::grammar::lemma_run_value_step;
use crate::grammar::lemma_ws_prefix_unique;
use crate::grammar::lemma_ws_suffix_unique;
use crate::grammar::lower_byte;
use crate::grammar::radix_run;
use crate::grammar::spec_parse_bool;
use crate::grammar::spec_parse_signed;
use crate::grammar::spec_parse_unsigned;
use crate::grammar::run_ok_len;
use crate::grammar::run_value;
use crate::grammar::spec_radix;
use crate::grammar::spec_tokenize;
use crate::grammar::spec_trim;

verus! {

/// Indicates failure to parse something.  See [`parse_unsigned`] and
/// [`parse_signed`] for how the number-related reasons arise.
#[non_exhaustive]
#[derive(Clone, Copy, Debug, PartialEq, Eq, Structural)]
pub enum ParseError {
    /// Empty or whitespace-only string.
    Empty,
    /// Got a leading `-` on an unsigned number.
    UnexpectedSign,
    /// Got an invalid digit for the base.
    InvalidDigit,
    /// Got no digits, e.g. a string like `"-"`, `"0x"`, etc.
    NoDigits,
    /// Hit integer overflow when computing.
    IntOverflow,
    /// Got a valid number but it doesn't fit in the requested range (and
    /// `clamp` wasn't specified as true).
    OutOfRange,
    /// Got something that doesn't seem to indicate a boolean.
    UnknownBoolValue,
}

/// The byte is ASCII whitespace in the sense of [`is_ascii_ws`].
fn is_ws(b: u8) -> (r: bool)
    ensures
        r == is_ascii_ws(b),
{
    b == (' ' as u8) || b == ('\t' as u8) || b == ('\n' as u8) || b == ('\r' as u8)
}

/// Locates the sub-range of `s` that remains after discarding leading and
/// trailing ASCII whitespace, as a `(start, end-exclusive)` pair; `None`
/// when nothing remains.
pub fn trim_ws(s: &[u8]) -> (r: Option<(usize, usize)>)
    ensures
        (match r {
            Some(p) => spec_trim(s@) == Some((p.0 as int, p.1 as int)) && p.0 < p.1 <= s@.len(),
            None => spec_trim(s@) is None,
        }),
{
    let n = s.len();
    if n == 0 {
        return None;
    }
    let mut start: usize = 0;
    while start < n && is_ws(s[start])
        invariant
            n == s@.len(),
            0 <= start <= n,
            forall|k: int| 0 <= k < start ==> is_ascii_ws(s@[k]),
        decreases n - start,
    {
        start += 1;
    }
    if start == n {
        proof {
            lemma_ws_prefix_unique(s@, n as int);
        }
        return None;
    }
    let mut end: usize = n - 1;
    while end > start && is_ws(s[end])
        invariant
            n == s@.len(),
            0 <= start <= end < n,
            !is_ascii_ws(s@[start as int]),
            forall|k: int| end < k < n ==> is_ascii_ws(s@[k]),
        decreases end,
    {
        end -= 1;
    }
    end += 1;
    proof {
        lemma_ws_prefix_unique(s@, start as int);
        lemma_ws_suffix_unique(s@, n - end);
    }
    if end <= start {
        None
    } else {
        Some((start, end))
    }
}

/// Tokenizes a number: consumes an optional sign and radix prefix, then
/// accumulates the digit run into an unsigned 128-bit magnitude with
/// overflow detection, and reports whether the sign was `-`.  A leading
/// `-` is rejected with `UnexpectedSign` unless `allow_sign` is set.
pub fn number_parse(s: &[u8], allow_sign: bool) -> (r: Result<(u128, bool), ParseError>)
    ensures
        r == spec_tokenize(s@, allow_sign),
{
    let (start0, end) = match trim_ws(s) {
        Some(span) => span,
        None => {
            return Err(ParseError::Empty);
        },
    };
    let ghost t = s@.subrange(start0 as int, end as int);
    let mut pos = start0;
    let neg: bool;
    if s[pos] == ('-' as u8) {
        if !allow_sign {
            return Err(ParseError::UnexpectedSign);
        }
        pos = pos + 1;
        neg = true;
    } else if s[pos] == ('+' as u8) {
        pos = pos + 1;
        neg = false;
    } else {
        neg = false;
    }
    let ghost body = (if t[0] == ('-' as u8) || t[0] == ('+' as u8) {
        t.drop_first()
    } else {
        t
    });
    proof {
        assert(body =~= s@.subrange(pos as int, end as int));
    }
    if pos == end {
        return Err(ParseError::NoDigits);
    }
    let radix: u128;
    if end - pos >= 2 && s[pos] == ('0' as u8) && (s[pos + 1] == ('x' as u8) || s[pos + 1] == (
    'X' as u8)) {
        radix = 16;
        pos = pos + 2;
    } else if end - pos >= 2 && s[pos] == ('0' as u8) && (s[pos + 1] == ('o' as u8) || s[pos + 1]
        == ('O' as u8)) {
        radix = 8;
        pos = pos + 2;
    } else if end - pos >= 2 && s[pos] == ('0' as u8) && (s[pos + 1] == ('b' as u8) || s[pos + 1]
        == ('B' as u8)) {
        radix = 2;
        pos = pos + 2;
    } else {
        radix = 10;
    }
    let ghost run = s@.subrange(pos as int, end as int);
    proof {
        assert(spec_radix(body) == radix as int);
        if radix != 10 {
            assert(run =~= body.skip(2));
        } else {
            assert(run =~= body);
        }
        assert(radix_run(body) == run);
    }
    let ghost rs = pos as int;
    proof {
        assert(spec_tokenize(s@, allow_sign) == ({
            let j = run_ok_len(run, radix as int);
            if run_value(run.take(j), radix as int) > u128::MAX {
                Err::<(u128, bool), ParseError>(ParseError::IntOverflow)
            } else if j < run.len() {
                Err(ParseError::InvalidDigit)
            } else if !has_digit(run, radix as int) {
                Err(ParseError::NoDigits)
            } else {
                Ok((run_value(run, radix as int) as u128, neg))
            }
        }));
    }
    let mut accum: u128 = 0;
    let mut saw = false;
    while pos < end
        invariant
            end <= s@.len(),
            0 <= rs <= pos <= end,
            run == s@.subrange(rs, end as int),
            radix == 2 || radix == 8 || radix == 10 || radix == 16,
            forall|k: int| 0 <= k < pos - rs ==> is_digit_or_sep(run[k], radix as int),
            accum as int == run_value(run.take(pos - rs), radix as int),
            saw == has_digit(run.take(pos - rs), radix as int),
            spec_tokenize(s@, allow_sign) == ({
                let j = run_ok_len(run, radix as int);
                if run_value(run.take(j), radix as int) > u128::MAX {
                    Err::<(u128, bool), ParseError>(ParseError::IntOverflow)
                } else if j < run.len() {
                    Err(ParseError::InvalidDigit)
                } else if !has_digit(run, radix as int) {
                    Err(ParseError::NoDigits)
                } else {
                    Ok((run_value(run, radix as int) as u128, neg))
                }
            }),
        decreases end - pos,
    {
        let d = s[pos];
        let ghost i = pos - rs;
        proof {
            assert(run[i] == s@[pos as int]);
        }
        if d != ('_' as u8) {
            let value: u128;
            if d >= ('0' as u8) && d <= ('9' as u8) && (radix == 10 || radix == 16 || (radix == 8
                && d <= ('7' as u8)) || (radix == 2 && d <= ('1' as u8))) {
                value = (d - ('0' as u8)) as u128;
            } else if radix == 16 && d >= ('a' as u8) && d <= ('f' as u8) {
                value = (d - ('a' as u8)) as u128 + 10;
            } else if radix == 16 && d >= ('A' as u8) && d <= ('F' as u8) {
                value = (d - ('A' as u8)) as u128 + 10;
            } else {
                proof {
                    lemma_run_ok_len_unique(run, radix as int, i);
                }
                return Err(ParseError::InvalidDigit);
            }
            proof {
                assert(is_digit(run[i], radix as int));
                assert(value as int == digit_value(run[i]));
                lemma_run_value_step(run, radix as int, i);
                lemma_has_digit_take_step(run, radix as int, i);
            }
            let shift = match accum.checked_mul(radix) {
                Some(shift) => shift,
                None => {
                    proof {
                        lemma_run_ok_len_props(run, radix as int);
                        lemma_run_value_mono(run, radix as int, i + 1, run_ok_len(run, radix as int));
                    }
                    return Err(ParseError::IntOverflow);
                },
            };
            let next = match shift.checked_add(value) {
                Some(next) => next,
                None => {
                    proof {
                        lemma_run_ok_len_props(run, radix as int);
                        lemma_run_value_mono(run, radix as int, i + 1, run_ok_len(run, radix as int));
                    }
                    return Err(ParseError::IntOverflow);
                },
            };
            accum = next;
            saw = true;
        } else {
            proof {
                lemma_run_value_step(run, radix as int, i);
                lemma_has_digit_take_step(run, radix as int, i);
            }
        }
        pos = pos + 1;
    }
    proof {
        assert(run.take(end - rs) =~= run);
        lemma_run_ok_len_unique(run, radix as int, run.len() as int);
    }
    if saw {
        Ok((accum, neg))
    } else {
        Err(ParseError::NoDigits)
    }
}

/// Parses a `u128` from a byte slice and applies the inclusive bounds
/// `incl_min ..= incl_max` with the reject-or-clamp policy.
///
/// Case-insensitive, ignores leading and trailing whitespace, supports
/// internal underscores and prefixed non-base-ten numbers (e.g.
/// `"0xffff_ffff"` and `"0b1111_0011"` both parse as you would hope).
/// With `clamp`, out-of-bounds values saturate to the nearest bound, an
/// overflowing literal saturates to `incl_max`, and a `-` sign saturates
/// to `incl_min`; without it those inputs are rejected.
pub fn parse_unsigned(s: &[u8], incl_min: u128, incl_max: u128, clamp: bool) -> (r: Result<
    u128,
    ParseError,
>)
    ensures
        r == spec_parse_unsigned(s@, incl_min, incl_max, clamp),
{
    let val = match number_parse(s, false) {
        Ok((n, _)) => n,
        Err(ParseError::IntOverflow) => {
            if clamp {
                incl_max
            } else {
                return Err(ParseError::IntOverflow);
            }
        },
        Err(ParseError::UnexpectedSign) => {
            if clamp {
                incl_min
            } else {
                return Err(ParseError::UnexpectedSign);
            }
        },
        Err(e) => {
            return Err(e);
        },
    };
    if val < incl_min {
        return if clamp {
            Ok(incl_min)
        } else {
            Err(ParseError::OutOfRange)
        };
    }
    if val > incl_max {
        return if clamp {
            Ok(incl_max)
        } else {
            Err(ParseError::OutOfRange)
        };
    }
    Ok(val)
}

/// Like [`parse_unsigned`] but for signed numbers, returning an `i128`.
///
/// A negative magnitude of exactly `2^127` reconstructs the asymmetric
/// two's-complement minimum.  With `clamp`, magnitudes beyond the signed
/// range — and literals that overflow the tokenizer — saturate toward the
/// sign that was observed in the input.
pub fn parse_signed(s: &[u8], incl_min: i128, incl_max: i128, clamp: bool) -> (r: Result<
    i128,
    ParseError,
>)
    ensures
        r == spec_parse_signed(s@, incl_min, incl_max, clamp),
{
    let val: i128 = match number_parse(s, true) {
        Ok((n, negv)) => {
            if negv && n == (i128::MAX as u128) + 1 {
                i128::MIN
            } else if negv && n <= i128::MAX as u128 {
                -(n as i128)
            } else if negv {
                if clamp {
                    incl_min
                } else {
                    return Err(ParseError::OutOfRange);
                }
            } else if n <= i128::MAX as u128 {
                n as i128
            } else {
                if clamp {
                    incl_max
                } else {
                    return Err(ParseError::OutOfRange);
                }
            }
        },
        Err(ParseError::IntOverflow) => {
            if clamp {
                let neg_seen = match trim_ws(s) {
                    Some(span) => s[span.0] == ('-' as u8),
                    None => false,
                };
                if neg_seen {
                    incl_min
                } else {
                    incl_max
                }
            } else {
                return Err(ParseError::IntOverflow);
            }
        },
        Err(e) => {
            return Err(e);
        },
    };
    if val < incl_min {
        return if clamp {
            Ok(incl_min)
        } else {
            Err(ParseError::OutOfRange)
        };
    }
    if val > incl_max {
        return if clamp {
            Ok(incl_max)
        } else {
            Err(ParseError::OutOfRange)
        };
    }
    Ok(val)
}

/// ASCII-lowercases one byte, mapping `A`-`Z` to `a`-`z`, as
/// [`lower_byte`] does.
fn to_lower(b: u8) -> (r: u8)
    ensures
        r == lower_byte(b),
{
    if b >= ('A' as u8) && b <= ('Z' as u8) {
        b + 32
    } else {
        b
    }
}

/// Parses a boolean from a byte slice.
///
/// Case-insensitive, ignores leading and trailing whitespace, and accepts
/// `"0"`, `"f"`, `"n"`, `"no"`, `"off"`, and `"false"` for `false`, and
/// `"1"`, `"t"`, `"y"`, `"on"`, `"yes"`, and `"true"` for `true`.
pub fn parse_bool(s: &[u8]) -> (r: Result<bool, ParseError>)
    ensures
        r == spec_parse_bool(s@),
{
    let (i, e) = match trim_ws(s) {
        Some(span) => span,
        None => {
            return Err(ParseError::Empty);
        },
    };
    let len = e - i;
    if len == 1 {
        let c = to_lower(s[i]);
        if c == ('1' as u8) || c == ('t' as u8) || c == ('y' as u8) {
            Ok(true)
        } else if c == ('0' as u8) || c == ('f' as u8) || c == ('n' as u8) {
            Ok(false)
        } else {
            Err(ParseError::UnknownBoolValue)
        }
    } else if len == 2 {
        let c0 = to_lower(s[i]);
        let c1 = to_lower(s[i + 1]);
        if c0 == ('n' as u8) && c1 == ('o' as u8) {
            Ok(false)
        } else if c0 == ('o' as u8) && c1 == ('n' as u8) {
            Ok(true)
        } else {
            Err(ParseError::UnknownBoolValue)
        }
    } else if len == 3 {
        let c0 = to_lower(s[i]);
        let c1 = to_lower(s[i + 1]);
        let c2 = to_lower(s[i + 2]);
        if c0 == ('o' as u8) && c1 == ('f' as u8) && c2 == ('f' as u8) {
            Ok(false)
        } else if c0 == ('y' as u8) && c1 == ('e' as u8) && c2 == ('s' as u8) {
            Ok(true)
        } else {
            Err(ParseError::UnknownBoolValue)
        }
    } else if len == 4 {
        let c0 = to_lower(s[i]);
        let c1 = to_lower(s[i + 1]);
        let c2 = to_lower(s[i + 2]);
        let c3 = to_lower(s[i + 3]);
        if c0 == ('t' as u8) && c1 == ('r' as u8) && c2 == ('u' as u8) && c3 == ('e' as u8) {
            Ok(true)
        } else {
            Err(ParseError::UnknownBoolValue)
        }
    } else if len == 5 {
        let c0 = to_lower(s[i]);
        let c1 = to_lower(s[i + 1]);
        let c2 = to_lower(s[i + 2]);
        let c3 = to_lower(s[i + 3]);
        let c4 = to_lower(s[i + 4]);
        if c0 == ('f' as u8) && c1 == ('a' as u8) && c2 == ('l' as u8) && c3 == ('s' as u8) && c4
            == ('e' as u8) {
            Ok(false)
        } else {
            Err(ParseError::UnknownBoolValue)
        }
    } else {
        Err(ParseError::UnknownBoolValue)
    }
}

} // verus!
