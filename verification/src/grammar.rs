//! The mathematical description of the token grammar.
//!
//! Everything the executable parsers promise is stated in terms of the
//! spec functions in this module.  [`spec_trim`] locates the
//! whitespace-trimmed span of an input, [`spec_tokenize`] gives the exact
//! outcome of number tokenization (magnitude, sign, or one of the error
//! reasons), and [`spec_parse_unsigned`], [`spec_parse_signed`] and
//! [`spec_parse_bool`] build the full parser semantics on top of it,
//! including inclusive bounds with the reject-or-clamp policy.

use vstd::prelude::*;

use crate::parse::ParseError;

verus! {

// ---------------------------------------------------------------------------
// Whitespace and trimming
// ---------------------------------------------------------------------------

/// A byte is one of the four ASCII whitespace characters that the parsers
/// strip from either end of the input: space, tab, line feed, carriage
/// return.
pub open spec fn is_ascii_ws(b: u8) -> bool {
    b == (' ' as u8) || b == ('\t' as u8) || b == ('\n' as u8) || b == ('\r' as u8)
}

/// Length of the longest whitespace prefix of `s`.
pub open spec fn ws_prefix_len(s: Seq<u8>) -> int
    decreases s.len(),
{
    if s.len() == 0 {
        0
    } else if is_ascii_ws(s[0]) {
        1 + ws_prefix_len(s.drop_first())
    } else {
        0
    }
}

/// Length of the longest whitespace suffix of `s`.
pub open spec fn ws_suffix_len(s: Seq<u8>) -> int
    decreases s.len(),
{
    if s.len() == 0 {
        0
    } else if is_ascii_ws(s.last()) {
        1 + ws_suffix_len(s.drop_last())
    } else {
        0
    }
}

/// The whitespace-trimmed span of `s`: the pair of the first index after
/// the leading whitespace and the index one past the last non-whitespace
/// byte.  No span exists when the input is empty or all whitespace.
pub open spec fn spec_trim(s: Seq<u8>) -> Option<(int, int)> {
    if ws_prefix_len(s) == s.len() {
        None
    } else {
        Some((ws_prefix_len(s), s.len() - ws_suffix_len(s)))
    }
}

/// The whitespace prefix length is between 0 and the input's length, all
/// bytes before it are whitespace, and the byte at it — when one exists —
/// is not.
pub proof fn lemma_ws_prefix_props(s: Seq<u8>)
    ensures
        0 <= ws_prefix_len(s) <= s.len(),
        forall|k: int| 0 <= k < ws_prefix_len(s) ==> is_ascii_ws(s[k]),
        ws_prefix_len(s) < s.len() ==> !is_ascii_ws(s[ws_prefix_len(s)]),
    decreases s.len(),
{
    if s.len() == 0 {
    } else if is_ascii_ws(s[0]) {
        lemma_ws_prefix_props(s.drop_first());
        assert forall|k: int| 0 <= k < ws_prefix_len(s) implies is_ascii_ws(s[k]) by {
            if k > 0 {
                assert(s.drop_first()[k - 1] == s[k]);
            }
        }
        if ws_prefix_len(s) < s.len() {
            assert(s.drop_first()[ws_prefix_len(s) - 1] == s[ws_prefix_len(s)]);
        }
    }
}

/// Any index with whitespace everywhere before it and a non-whitespace
/// byte at it (or the input's end) is the whitespace prefix length.
pub proof fn lemma_ws_prefix_unique(s: Seq<u8>, p: int)
    requires
        0 <= p <= s.len(),
        forall|k: int| 0 <= k < p ==> is_ascii_ws(s[k]),
        p < s.len() ==> !is_ascii_ws(s[p]),
    ensures
        ws_prefix_len(s) == p,
{
    lemma_ws_prefix_props(s);
    let q = ws_prefix_len(s);
    if q < p {
        assert(is_ascii_ws(s[q]));
        assert(false);
    } else if p < q {
        assert(is_ascii_ws(s[p]));
        assert(false);
    }
}

/// The counterpart of [`lemma_ws_prefix_props`] at the input's end.
pub proof fn lemma_ws_suffix_props(s: Seq<u8>)
    ensures
        0 <= ws_suffix_len(s) <= s.len(),
        forall|k: int| s.len() - ws_suffix_len(s) <= k < s.len() ==> is_ascii_ws(s[k]),
        ws_suffix_len(s) < s.len() ==> !is_ascii_ws(s[s.len() - ws_suffix_len(s) - 1]),
    decreases s.len(),
{
    if s.len() == 0 {
    } else if is_ascii_ws(s.last()) {
        lemma_ws_suffix_props(s.drop_last());
        assert forall|k: int| s.len() - ws_suffix_len(s) <= k < s.len() implies is_ascii_ws(
            s[k],
        ) by {
            if k < s.len() - 1 {
                assert(s.drop_last()[k] == s[k]);
            }
        }
        if ws_suffix_len(s) < s.len() {
            assert(s.drop_last()[s.len() - ws_suffix_len(s) - 1] == s[s.len() - ws_suffix_len(s)
                - 1]);
        }
    }
}

/// The counterpart of [`lemma_ws_prefix_unique`] at the input's end.
pub proof fn lemma_ws_suffix_unique(s: Seq<u8>, q: int)
    requires
        0 <= q <= s.len(),
        forall|k: int| s.len() - q <= k < s.len() ==> is_ascii_ws(s[k]),
        q < s.len() ==> !is_ascii_ws(s[s.len() - q - 1]),
    ensures
        ws_suffix_len(s) == q,
{
    lemma_ws_suffix_props(s);
    let p = ws_suffix_len(s);
    if p < q {
        assert(is_ascii_ws(s[s.len() - p - 1]));
        assert(false);
    } else if q < p {
        assert(is_ascii_ws(s[s.len() - q - 1]));
        assert(false);
    }
}

/// What a trimmed span means: it lies inside the input, whitespace stands
/// exactly outside it, and its first and last bytes are not whitespace;
/// when no span exists the whole input is whitespace.
pub proof fn lemma_spec_trim_props(s: Seq<u8>)
    ensures
        (match spec_trim(s) {
            Some(p) => {
                &&& 0 <= p.0 < p.1 <= s.len()
                &&& !is_ascii_ws(s[p.0])
                &&& !is_ascii_ws(s[p.1 - 1])
                &&& forall|k: int| 0 <= k < p.0 ==> is_ascii_ws(s[k])
                &&& forall|k: int| p.1 <= k < s.len() ==> is_ascii_ws(s[k])
            },
            None => forall|k: int| 0 <= k < s.len() ==> is_ascii_ws(s[k]),
        }),
{
    lemma_ws_prefix_props(s);
    lemma_ws_suffix_props(s);
    match spec_trim(s) {
        Some(p) => {
            let q = ws_suffix_len(s);
            if q == s.len() {
                lemma_ws_prefix_unique(s, s.len() as int);
                assert(false);
            }
            assert(!is_ascii_ws(s[p.0]));
            assert(!is_ascii_ws(s[p.1 - 1]));
            if p.0 >= p.1 {
                assert(is_ascii_ws(s[p.0]));
                assert(false);
            }
        },
        None => {},
    }
}

// ---------------------------------------------------------------------------
// Digits and digit runs
// ---------------------------------------------------------------------------

/// The numeric value of an ASCII digit byte, reading `0`-`9`, `a`-`f` and
/// `A`-`F`; any other byte gets the sentinel 16, which no radix accepts.
pub open spec fn digit_value(b: u8) -> int {
    if ('0' as u8) <= b <= ('9' as u8) {
        b - ('0' as u8)
    } else if ('a' as u8) <= b <= ('f' as u8) {
        b - ('a' as u8) + 10
    } else if ('A' as u8) <= b <= ('F' as u8) {
        b - ('A' as u8) + 10
    } else {
        16
    }
}

/// The byte is a digit of the given radix.
pub open spec fn is_digit(b: u8, radix: int) -> bool {
    digit_value(b) < radix
}

/// The byte may appear in a digit run of the given radix: a digit or the
/// `_` separator.
pub open spec fn is_digit_or_sep(b: u8, radix: int) -> bool {
    b == ('_' as u8) || is_digit(b, radix)
}

/// The magnitude denoted by a digit run, most significant digit first,
/// with `_` separators skipped.
pub open spec fn run_value(s: Seq<u8>, radix: int) -> int
    decreases s.len(),
{
    if s.len() == 0 {
        0
    } else if s.last() == ('_' as u8) {
        run_value(s.drop_last(), radix)
    } else {
        run_value(s.drop_last(), radix) * radix + digit_value(s.last())
    }
}

/// Length of the longest prefix of `s` made of digits and separators of
/// the given radix; equivalently, the index of the first invalid byte.
pub open spec fn run_ok_len(s: Seq<u8>, radix: int) -> int
    decreases s.len(),
{
    if s.len() == 0 {
        0
    } else if is_digit_or_sep(s[0], radix) {
        1 + run_ok_len(s.drop_first(), radix)
    } else {
        0
    }
}

/// The run contains at least one digit (separators alone do not count).
pub open spec fn has_digit(s: Seq<u8>, radix: int) -> bool {
    exists|i: int| 0 <= i < s.len() && is_digit(s[i], radix)
}

/// The valid-prefix length of a run is between 0 and its length, all
/// bytes before it are digits or separators, and the byte at it — when
/// one exists — is not.
pub proof fn lemma_run_ok_len_props(s: Seq<u8>, radix: int)
    ensures
        0 <= run_ok_len(s, radix) <= s.len(),
        forall|k: int| 0 <= k < run_ok_len(s, radix) ==> is_digit_or_sep(s[k], radix),
        run_ok_len(s, radix) < s.len() ==> !is_digit_or_sep(s[run_ok_len(s, radix)], radix),
    decreases s.len(),
{
    if s.len() == 0 {
    } else if is_digit_or_sep(s[0], radix) {
        lemma_run_ok_len_props(s.drop_first(), radix);
        assert forall|k: int| 0 <= k < run_ok_len(s, radix) implies is_digit_or_sep(
            s[k],
            radix,
        ) by {
            if k > 0 {
                assert(s.drop_first()[k - 1] == s[k]);
            }
        }
        if run_ok_len(s, radix) < s.len() {
            assert(s.drop_first()[run_ok_len(s, radix) - 1] == s[run_ok_len(s, radix)]);
        }
    }
}

/// Any index with digits or separators everywhere before it and an
/// invalid byte at it (or the run's end) is the valid-prefix length.
pub proof fn lemma_run_ok_len_unique(s: Seq<u8>, radix: int, j: int)
    requires
        0 <= j <= s.len(),
        forall|k: int| 0 <= k < j ==> is_digit_or_sep(s[k], radix),
        j < s.len() ==> !is_digit_or_sep(s[j], radix),
    ensures
        run_ok_len(s, radix) == j,
{
    lemma_run_ok_len_props(s, radix);
    let r = run_ok_len(s, radix);
    if r < j {
        assert(is_digit_or_sep(s[r], radix));
        assert(false);
    } else if j < r {
        assert(is_digit_or_sep(s[j], radix));
        assert(false);
    }
}

/// Extending a run prefix by one byte multiplies its value by the radix
/// and adds the new digit, or leaves it unchanged for a separator.
pub proof fn lemma_run_value_step(s: Seq<u8>, radix: int, i: int)
    requires
        0 <= i < s.len(),
    ensures
        run_value(s.take(i + 1), radix) == if s[i] == ('_' as u8) {
            run_value(s.take(i), radix)
        } else {
            run_value(s.take(i), radix) * radix + digit_value(s[i])
        },
{
    let t = s.take(i + 1);
    assert(t.drop_last() =~= s.take(i));
    assert(t.last() == s[i]);
}

/// A run's value is never negative.
pub proof fn lemma_run_value_nonneg(s: Seq<u8>, radix: int)
    requires
        0 <= radix,
    ensures
        run_value(s, radix) >= 0,
    decreases s.len(),
{
    if s.len() > 0 {
        lemma_run_value_nonneg(s.drop_last(), radix);
        if s.last() != ('_' as u8) {
            let v = run_value(s.drop_last(), radix);
            assert(v * radix >= 0) by (nonlinear_arith)
                requires
                    v >= 0,
                    radix >= 0,
            ;
        }
    }
}

/// Run values grow monotonically with the prefix taken: appending bytes
/// can only increase the accumulated magnitude.
pub proof fn lemma_run_value_mono(s: Seq<u8>, radix: int, i: int, j: int)
    requires
        1 <= radix,
        0 <= i <= j <= s.len(),
    ensures
        run_value(s.take(i), radix) <= run_value(s.take(j), radix),
    decreases j - i,
{
    if i < j {
        lemma_run_value_mono(s, radix, i, j - 1);
        lemma_run_value_step(s, radix, j - 1);
        lemma_run_value_nonneg(s.take(j - 1), radix);
        let v = run_value(s.take(j - 1), radix);
        if s[j - 1] != ('_' as u8) {
            assert(v * radix >= v) by (nonlinear_arith)
                requires
                    v >= 0,
                    radix >= 1,
            ;
        }
    }
}

/// Taking one more byte of a run sees a digit exactly when the prefix
/// already had one or the new byte is a digit.
pub proof fn lemma_has_digit_take_step(s: Seq<u8>, radix: int, i: int)
    requires
        0 <= i < s.len(),
    ensures
        has_digit(s.take(i + 1), radix) == (has_digit(s.take(i), radix) || is_digit(s[i], radix)),
{
    let t1 = s.take(i + 1);
    let t0 = s.take(i);
    if has_digit(t1, radix) {
        let w = choose|w: int| 0 <= w < t1.len() && is_digit(t1[w], radix);
        if w < i {
            assert(t0[w] == t1[w]);
            assert(has_digit(t0, radix));
        } else {
            assert(t1[w] == s[i]);
        }
    }
    if has_digit(t0, radix) {
        let w = choose|w: int| 0 <= w < t0.len() && is_digit(t0[w], radix);
        assert(t1[w] == t0[w]);
        assert(has_digit(t1, radix));
    }
    if is_digit(s[i], radix) {
        assert(t1[i] == s[i]);
        assert(has_digit(t1, radix));
    }
}

// ---------------------------------------------------------------------------
// Tokenization
// ---------------------------------------------------------------------------

/// The radix selected by an optional two-byte prefix (`0x`, `0o`, `0b`,
/// case-insensitive) at the front of the sign-stripped token; absent a
/// recognized prefix the radix is 10.
pub open spec fn spec_radix(t: Seq<u8>) -> int {
    if t.len() >= 2 && t[0] == ('0' as u8) && (t[1] == ('x' as u8) || t[1] == ('X' as u8)) {
        16
    } else if t.len() >= 2 && t[0] == ('0' as u8) && (t[1] == ('o' as u8) || t[1] == ('O' as u8)) {
        8
    } else if t.len() >= 2 && t[0] == ('0' as u8) && (t[1] == ('b' as u8) || t[1] == ('B' as u8)) {
        2
    } else {
        10
    }
}

/// The digit run of the sign-stripped token: everything after the radix
/// prefix, or the whole token when there is none.
pub open spec fn radix_run(t: Seq<u8>) -> Seq<u8> {
    if spec_radix(t) == 10 {
        t
    } else {
        t.skip(2)
    }
}

/// The exact outcome of number tokenization on `s`.
///
/// The input is trimmed; an empty remainder is `Empty`.  A leading `-` is
/// `UnexpectedSign` unless signs are allowed; `+` is always accepted.  A
/// radix prefix may follow, then a run of digits and `_` separators.  The
/// first invalid byte gives `InvalidDigit` — unless the digits before it
/// already exceed the 128-bit range, which gives `IntOverflow`, as does a
/// complete run whose value exceeds that range.  A run without any digit
/// gives `NoDigits`.  Otherwise the result is the magnitude together with
/// whether a `-` sign was seen.
pub open spec fn spec_tokenize(s: Seq<u8>, allow_sign: bool) -> Result<(u128, bool), ParseError> {
    match spec_trim(s) {
        None => Err(ParseError::Empty),
        Some((lo, hi)) => {
            let t = s.subrange(lo, hi);
            if t[0] == ('-' as u8) && !allow_sign {
                Err(ParseError::UnexpectedSign)
            } else {
                let neg = t[0] == ('-' as u8);
                let body = if t[0] == ('-' as u8) || t[0] == ('+' as u8) {
                    t.drop_first()
                } else {
                    t
                };
                if body.len() == 0 {
                    Err(ParseError::NoDigits)
                } else {
                    let radix = spec_radix(body);
                    let run = radix_run(body);
                    let j = run_ok_len(run, radix);
                    if run_value(run.take(j), radix) > u128::MAX {
                        Err(ParseError::IntOverflow)
                    } else if j < run.len() {
                        Err(ParseError::InvalidDigit)
                    } else if !has_digit(run, radix) {
                        Err(ParseError::NoDigits)
                    } else {
                        Ok((run_value(run, radix) as u128, neg))
                    }
                }
            }
        },
    }
}

/// Whether the token carries a `-` sign: the first byte of the trimmed
/// input is `-`.  This is the sign the tokenizer observes before it
/// accumulates any digit, and the direction in which a clamping signed
/// parse saturates on overflow.
pub open spec fn observed_negative(s: Seq<u8>) -> bool {
    match spec_trim(s) {
        Some((lo, hi)) => s[lo] == ('-' as u8),
        None => false,
    }
}

// ---------------------------------------------------------------------------
// Bounds and the reject-or-clamp policy
// ---------------------------------------------------------------------------

/// Applies inclusive bounds to an unsigned value: out-of-bounds values are
/// clamped to the nearest bound when `clamp` is set and rejected with
/// `OutOfRange` otherwise.
pub open spec fn bound_unsigned(v: u128, min: u128, max: u128, clamp: bool) -> Result<
    u128,
    ParseError,
> {
    if v < min {
        if clamp {
            Ok(min)
        } else {
            Err(ParseError::OutOfRange)
        }
    } else if v > max {
        if clamp {
            Ok(max)
        } else {
            Err(ParseError::OutOfRange)
        }
    } else {
        Ok(v)
    }
}

/// Applies inclusive bounds to a signed value, as [`bound_unsigned`] does.
pub open spec fn bound_signed(v: i128, min: i128, max: i128, clamp: bool) -> Result<
    i128,
    ParseError,
> {
    if v < min {
        if clamp {
            Ok(min)
        } else {
            Err(ParseError::OutOfRange)
        }
    } else if v > max {
        if clamp {
            Ok(max)
        } else {
            Err(ParseError::OutOfRange)
        }
    } else {
        Ok(v)
    }
}

// ---------------------------------------------------------------------------
// The three parsers
// ---------------------------------------------------------------------------

/// The exact outcome of the unsigned parser: tokenize without signs, then
/// bound the magnitude.  With clamping, tokenizer overflow saturates to
/// `max` and a rejected `-` sign saturates to `min`, both still subject to
/// the bound checks; every other tokenizer error propagates.
pub open spec fn spec_parse_unsigned(s: Seq<u8>, min: u128, max: u128, clamp: bool) -> Result<
    u128,
    ParseError,
> {
    match spec_tokenize(s, false) {
        Ok((n, neg)) => bound_unsigned(n, min, max, clamp),
        Err(ParseError::IntOverflow) => if clamp {
            bound_unsigned(max, min, max, clamp)
        } else {
            Err(ParseError::IntOverflow)
        },
        Err(ParseError::UnexpectedSign) => if clamp {
            bound_unsigned(min, min, max, clamp)
        } else {
            Err(ParseError::UnexpectedSign)
        },
        Err(e) => Err(e),
    }
}

/// The signed value denoted by a tokenized magnitude and sign, where a
/// negative magnitude of exactly `2^127` is the asymmetric two's-complement
/// minimum.  Magnitudes beyond the representable range are settled by the
/// clamp policy: saturate to the bound in the sign's direction, or reject.
/// Tokenizer overflow is treated the same way, toward the sign that was
/// observed in the input.
pub open spec fn spec_parse_signed(s: Seq<u8>, min: i128, max: i128, clamp: bool) -> Result<
    i128,
    ParseError,
> {
    match spec_tokenize(s, true) {
        Ok((n, neg)) => {
            if neg && n == i128::MAX as u128 + 1 {
                bound_signed(i128::MIN, min, max, clamp)
            } else if neg && n <= i128::MAX as u128 {
                bound_signed((-(n as int)) as i128, min, max, clamp)
            } else if neg {
                if clamp {
                    bound_signed(min, min, max, clamp)
                } else {
                    Err(ParseError::OutOfRange)
                }
            } else if n <= i128::MAX as u128 {
                bound_signed(n as i128, min, max, clamp)
            } else {
                if clamp {
                    bound_signed(max, min, max, clamp)
                } else {
                    Err(ParseError::OutOfRange)
                }
            }
        },
        Err(ParseError::IntOverflow) => if clamp {
            if observed_negative(s) {
                bound_signed(min, min, max, clamp)
            } else {
                bound_signed(max, min, max, clamp)
            }
        } else {
            Err(ParseError::IntOverflow)
        },
        Err(e) => Err(e),
    }
}

// ---------------------------------------------------------------------------
// Booleans
// ---------------------------------------------------------------------------

/// ASCII lowercasing of one byte: `A`-`Z` map to `a`-`z`, everything else
/// is unchanged.
pub open spec fn lower_byte(b: u8) -> u8 {
    if ('A' as u8) <= b <= ('Z' as u8) {
        (b + 32) as u8
    } else {
        b
    }
}

/// ASCII lowercasing of a whole byte sequence, pointwise by
/// [`lower_byte`].
pub open spec fn lower_bytes(s: Seq<u8>) -> Seq<u8> {
    s.map_values(|b: u8| lower_byte(b))
}

/// A byte sequence with all `_` separators dropped.
pub open spec fn strip_seps(s: Seq<u8>) -> Seq<u8>
    decreases s.len(),
{
    if s.len() == 0 {
        Seq::empty()
    } else if s.last() == ('_' as u8) {
        strip_seps(s.drop_last())
    } else {
        strip_seps(s.drop_last()).push(s.last())
    }
}

/// The exact outcome of the boolean parser: trim, then match the span,
/// case-insensitively, against the accepted spellings by length.  Length
/// one accepts `1`/`t`/`y` and `0`/`f`/`n`; length two `on` and `no`;
/// length three `yes` and `off`; length four `true`; length five `false`.
pub open spec fn spec_parse_bool(s: Seq<u8>) -> Result<bool, ParseError> {
    match spec_trim(s) {
        None => Err(ParseError::Empty),
        Some((lo, hi)) => {
            let n = hi - lo;
            if n == 1 {
                let c = lower_byte(s[lo]);
                if c == ('1' as u8) || c == ('t' as u8) || c == ('y' as u8) {
                    Ok(true)
                } else if c == ('0' as u8) || c == ('f' as u8) || c == ('n' as u8) {
                    Ok(false)
                } else {
                    Err(ParseError::UnknownBoolValue)
                }
            } else if n == 2 {
                let c0 = lower_byte(s[lo]);
                let c1 = lower_byte(s[lo + 1]);
                if c0 == ('n' as u8) && c1 == ('o' as u8) {
                    Ok(false)
                } else if c0 == ('o' as u8) && c1 == ('n' as u8) {
                    Ok(true)
                } else {
                    Err(ParseError::UnknownBoolValue)
                }
            } else if n == 3 {
                let c0 = lower_byte(s[lo]);
                let c1 = lower_byte(s[lo + 1]);
                let c2 = lower_byte(s[lo + 2]);
                if c0 == ('o' as u8) && c1 == ('f' as u8) && c2 == ('f' as u8) {
                    Ok(false)
                } else if c0 == ('y' as u8) && c1 == ('e' as u8) && c2 == ('s' as u8) {
                    Ok(true)
                } else {
                    Err(ParseError::UnknownBoolValue)
                }
            } else if n == 4 {
                let c0 = lower_byte(s[lo]);
                let c1 = lower_byte(s[lo + 1]);
                let c2 = lower_byte(s[lo + 2]);
                let c3 = lower_byte(s[lo + 3]);
                if c0 == ('t' as u8) && c1 == ('r' as u8) && c2 == ('u' as u8) && c3 == (
                'e' as u8) {
                    Ok(true)
                } else {
                    Err(ParseError::UnknownBoolValue)
                }
            } else if n == 5 {
                let c0 = lower_byte(s[lo]);
                let c1 = lower_byte(s[lo + 1]);
                let c2 = lower_byte(s[lo + 2]);
                let c3 = lower_byte(s[lo + 3]);
                let c4 = lower_byte(s[lo + 4]);
                if c0 == ('f' as u8) && c1 == ('a' as u8) && c2 == ('l' as u8) && c3 == (
                's' as u8) && c4 == ('e' as u8) {
                    Ok(false)
                } else {
                    Err(ParseError::UnknownBoolValue)
                }
            } else {
                Err(ParseError::UnknownBoolValue)
            }
        },
    }
}

} // verus!
