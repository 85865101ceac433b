//! General laws of the grammar, proved for all inputs.
//!
//! Trimming is a fixpoint; tokenization and the three parsers are
//! insensitive to ASCII letter case; `_` separators never change the
//! magnitude a digit run denotes; and the unbounded unsigned parser
//! returns exactly what the tokenizer produced.

use vstd::prelude::*;

use crate::grammar::digit_value;
use crate::grammar::has_digit;
use crate::grammar::is_ascii_ws;
use crate::grammar::is_digit;
use crate::grammar::is_digit_or_sep;
use crate::grammar::lemma_has_digit_take_step;
use crate::grammar::lemma_run_ok_len_props;
use crate::grammar::lemma_run_ok_len_unique;
use crate::grammar::lemma_spec_trim_props;
use crate::grammar::lemma_ws_prefix_props;
use crate::grammar::lemma_ws_prefix_unique;
use crate::grammar::lemma_ws_suffix_props;
use crate::grammar::lemma_ws_suffix_unique;
use crate::grammar::lower_byte;
use crate::grammar::lower_bytes;
use crate::grammar::observed_negative;
use crate::grammar::radix_run;
use crate::grammar::run_ok_len;
use crate::grammar::run_value;
use crate::grammar::spec_parse_bool;
use crate::grammar::spec_parse_signed;
use crate::grammar::spec_parse_unsigned;
use crate::grammar::spec_radix;
use crate::grammar::spec_tokenize;
use crate::grammar::spec_trim;
use crate::grammar::strip_seps;
use crate::grammar::ws_prefix_len;
use crate::grammar::ws_suffix_len;
use crate::parse::ParseError;

verus! {

// ---------------------------------------------------------------------------
// Trimming is a fixpoint
// ---------------------------------------------------------------------------

/// Trimming is idempotent: the slice that a trim locates trims to its
/// whole self, so a second trim finds the same span again.
pub proof fn lemma_trim_idempotent(s: Seq<u8>)
    ensures
        (match spec_trim(s) {
            Some(p) => spec_trim(s.subrange(p.0, p.1)) == Some((0int, p.1 - p.0)),
            None => true,
        }),
{
    lemma_spec_trim_props(s);
    match spec_trim(s) {
        Some(p) => {
            let t = s.subrange(p.0, p.1);
            assert(t[0] == s[p.0]);
            assert(t[t.len() - 1] == s[p.1 - 1]);
            lemma_ws_prefix_unique(t, 0);
            lemma_ws_suffix_unique(t, 0);
        },
        None => {},
    }
}

// ---------------------------------------------------------------------------
// Letter case is irrelevant
// ---------------------------------------------------------------------------

/// How lowercasing interacts with the character classes of the grammar:
/// it keeps digit values, and it neither makes nor unmakes whitespace,
/// separators, signs, or the zero that starts a radix prefix; prefix
/// letters collapse onto their lowercase form.
proof fn lemma_lower_byte_classes(b: u8)
    ensures
        digit_value(lower_byte(b)) == digit_value(b),
        lower_byte(lower_byte(b)) == lower_byte(b),
        is_ascii_ws(lower_byte(b)) == is_ascii_ws(b),
        (lower_byte(b) == ('_' as u8)) == (b == ('_' as u8)),
        (lower_byte(b) == ('-' as u8)) == (b == ('-' as u8)),
        (lower_byte(b) == ('+' as u8)) == (b == ('+' as u8)),
        (lower_byte(b) == ('0' as u8)) == (b == ('0' as u8)),
        (lower_byte(b) == ('x' as u8)) == (b == ('x' as u8) || b == ('X' as u8)),
        (lower_byte(b) == ('o' as u8)) == (b == ('o' as u8) || b == ('O' as u8)),
        (lower_byte(b) == ('b' as u8)) == (b == ('b' as u8) || b == ('B' as u8)),
{
}

/// Lowercasing moves through trimming: the trimmed span of the lowercased
/// input is the trimmed span of the input.
proof fn lemma_lower_trim(s: Seq<u8>)
    ensures
        spec_trim(lower_bytes(s)) == spec_trim(s),
{
    let ls = lower_bytes(s);
    lemma_ws_prefix_props(s);
    lemma_ws_suffix_props(s);
    assert forall|k: int| 0 <= k < ws_prefix_len(s) implies is_ascii_ws(ls[k]) by {
        lemma_lower_byte_classes(s[k]);
    }
    if ws_prefix_len(s) < s.len() {
        lemma_lower_byte_classes(s[ws_prefix_len(s)]);
    }
    lemma_ws_prefix_unique(ls, ws_prefix_len(s));
    assert forall|k: int| s.len() - ws_suffix_len(s) <= k < s.len() implies is_ascii_ws(ls[k]) by {
        lemma_lower_byte_classes(s[k]);
    }
    if ws_suffix_len(s) < s.len() {
        lemma_lower_byte_classes(s[s.len() - ws_suffix_len(s) - 1]);
    }
    lemma_ws_suffix_unique(ls, ws_suffix_len(s));
}

/// Lowercasing a digit run does not change its value.
proof fn lemma_lower_run_value(s: Seq<u8>, radix: int)
    ensures
        run_value(lower_bytes(s), radix) == run_value(s, radix),
    decreases s.len(),
{
    let ls = lower_bytes(s);
    if s.len() > 0 {
        lemma_lower_run_value(s.drop_last(), radix);
        assert(ls.drop_last() =~= lower_bytes(s.drop_last()));
        assert(ls.last() == lower_byte(s.last()));
        lemma_lower_byte_classes(s.last());
    }
}

/// Lowercasing a digit run does not move its first invalid byte.
proof fn lemma_lower_run_ok_len(s: Seq<u8>, radix: int)
    ensures
        run_ok_len(lower_bytes(s), radix) == run_ok_len(s, radix),
{
    let ls = lower_bytes(s);
    lemma_run_ok_len_props(s, radix);
    assert forall|k: int| 0 <= k < run_ok_len(s, radix) implies is_digit_or_sep(ls[k], radix) by {
        lemma_lower_byte_classes(s[k]);
    }
    if run_ok_len(s, radix) < s.len() {
        lemma_lower_byte_classes(s[run_ok_len(s, radix)]);
    }
    lemma_run_ok_len_unique(ls, radix, run_ok_len(s, radix));
}

/// Lowercasing a digit run neither adds nor removes digits.
proof fn lemma_lower_has_digit(s: Seq<u8>, radix: int)
    ensures
        has_digit(lower_bytes(s), radix) == has_digit(s, radix),
{
    let ls = lower_bytes(s);
    if has_digit(s, radix) {
        let w = choose|w: int| 0 <= w < s.len() && is_digit(s[w], radix);
        lemma_lower_byte_classes(s[w]);
        assert(is_digit(ls[w], radix));
        assert(has_digit(ls, radix));
    }
    if has_digit(ls, radix) {
        let w = choose|w: int| 0 <= w < ls.len() && is_digit(ls[w], radix);
        lemma_lower_byte_classes(s[w]);
        assert(ls[w] == lower_byte(s[w]));
        assert(is_digit(s[w], radix));
        assert(has_digit(s, radix));
    }
}

/// Tokenization is case-insensitive: lowercasing the input changes
/// neither the magnitude, nor the sign, nor the error reported.
pub proof fn lemma_tokenize_case_insensitive(s: Seq<u8>, allow_sign: bool)
    ensures
        spec_tokenize(lower_bytes(s), allow_sign) == spec_tokenize(s, allow_sign),
{
    let ls = lower_bytes(s);
    lemma_lower_trim(s);
    match spec_trim(s) {
        None => {},
        Some((lo, hi)) => {
            lemma_spec_trim_props(s);
            let t = s.subrange(lo, hi);
            let lt = ls.subrange(lo, hi);
            assert(lt =~= lower_bytes(t));
            assert(t[0] == s[lo]);
            assert(lt[0] == lower_byte(t[0]));
            lemma_lower_byte_classes(t[0]);
            let body = (if t[0] == ('-' as u8) || t[0] == ('+' as u8) {
                t.drop_first()
            } else {
                t
            });
            let lbody = (if lt[0] == ('-' as u8) || lt[0] == ('+' as u8) {
                lt.drop_first()
            } else {
                lt
            });
            assert(lbody =~= lower_bytes(body));
            if body.len() != 0 {
                assert(lbody[0] == lower_byte(body[0]));
                lemma_lower_byte_classes(body[0]);
                if body.len() >= 2 {
                    assert(lbody[1] == lower_byte(body[1]));
                    lemma_lower_byte_classes(body[1]);
                }
                assert(spec_radix(lbody) == spec_radix(body));
                let radix = spec_radix(body);
                let run = radix_run(body);
                let lrun = radix_run(lbody);
                assert(lrun =~= lower_bytes(run));
                lemma_lower_run_ok_len(run, radix);
                let j = run_ok_len(run, radix);
                lemma_run_ok_len_props(run, radix);
                assert(lrun.take(j) =~= lower_bytes(run.take(j)));
                lemma_lower_run_value(run.take(j), radix);
                lemma_lower_run_value(run, radix);
                lemma_lower_has_digit(run, radix);
            }
        },
    }
}

/// Two inputs with the same letters in possibly different cases tokenize
/// identically.
pub proof fn lemma_tokenize_same_letters(s1: Seq<u8>, s2: Seq<u8>, allow_sign: bool)
    requires
        lower_bytes(s1) == lower_bytes(s2),
    ensures
        spec_tokenize(s1, allow_sign) == spec_tokenize(s2, allow_sign),
{
    lemma_tokenize_case_insensitive(s1, allow_sign);
    lemma_tokenize_case_insensitive(s2, allow_sign);
}

/// The unsigned parser is case-insensitive, for every bound pair and
/// either clamp policy.
pub proof fn lemma_parse_unsigned_case_insensitive(s: Seq<u8>, min: u128, max: u128, clamp: bool)
    ensures
        spec_parse_unsigned(lower_bytes(s), min, max, clamp) == spec_parse_unsigned(
            s,
            min,
            max,
            clamp,
        ),
{
    lemma_tokenize_case_insensitive(s, false);
}

/// The signed parser is case-insensitive, for every bound pair and either
/// clamp policy.
pub proof fn lemma_parse_signed_case_insensitive(s: Seq<u8>, min: i128, max: i128, clamp: bool)
    ensures
        spec_parse_signed(lower_bytes(s), min, max, clamp) == spec_parse_signed(
            s,
            min,
            max,
            clamp,
        ),
{
    lemma_tokenize_case_insensitive(s, true);
    lemma_lower_trim(s);
    assert(observed_negative(lower_bytes(s)) == observed_negative(s)) by {
        match spec_trim(s) {
            Some(p) => {
                lemma_spec_trim_props(s);
                assert(lower_bytes(s)[p.0] == lower_byte(s[p.0]));
                lemma_lower_byte_classes(s[p.0]);
            },
            None => {},
        }
    }
}

/// The boolean parser is case-insensitive.
pub proof fn lemma_parse_bool_case_insensitive(s: Seq<u8>)
    ensures
        spec_parse_bool(lower_bytes(s)) == spec_parse_bool(s),
{
    lemma_lower_trim(s);
    match spec_trim(s) {
        Some(p) => {
            lemma_spec_trim_props(s);
            assert forall|k: int| p.0 <= k < p.1 implies lower_byte(lower_bytes(s)[k])
                == lower_byte(s[k]) by {
                assert(lower_bytes(s)[k] == lower_byte(s[k]));
                lemma_lower_byte_classes(s[k]);
            }
        },
        None => {},
    }
}

// ---------------------------------------------------------------------------
// Separators are irrelevant
// ---------------------------------------------------------------------------

/// Dropping the `_` separators from a digit run does not change its
/// value.
proof fn lemma_strip_seps_value(s: Seq<u8>, radix: int)
    ensures
        run_value(strip_seps(s), radix) == run_value(s, radix),
    decreases s.len(),
{
    if s.len() > 0 {
        lemma_strip_seps_value(s.drop_last(), radix);
        if s.last() != ('_' as u8) {
            let t = strip_seps(s.drop_last()).push(s.last());
            assert(t.drop_last() =~= strip_seps(s.drop_last()));
            assert(t.last() == s.last());
        }
    }
}

/// Dropping the `_` separators from a digit run neither adds nor removes
/// digits.
proof fn lemma_strip_seps_has_digit(s: Seq<u8>, radix: int)
    requires
        radix <= 16,
    ensures
        has_digit(strip_seps(s), radix) == has_digit(s, radix),
    decreases s.len(),
{
    if s.len() > 0 {
        lemma_strip_seps_has_digit(s.drop_last(), radix);
        assert(s.take(s.len() as int) =~= s);
        assert(s.take(s.len() - 1) =~= s.drop_last());
        lemma_has_digit_take_step(s, radix, s.len() - 1);
        if s.last() != ('_' as u8) {
            let t = strip_seps(s.drop_last()).push(s.last());
            assert(t.take(t.len() as int) =~= t);
            assert(t.take(t.len() - 1) =~= strip_seps(s.drop_last()));
            lemma_has_digit_take_step(t, radix, t.len() - 1);
            assert(t[t.len() - 1] == s.last());
        }
    }
}

/// Separators are irrelevant: two digit runs that agree once their `_`
/// separators are dropped denote the same magnitude, and one holds a
/// digit exactly when the other does.
pub proof fn lemma_run_separators_irrelevant(r1: Seq<u8>, r2: Seq<u8>, radix: int)
    requires
        radix <= 16,
        strip_seps(r1) == strip_seps(r2),
    ensures
        run_value(r1, radix) == run_value(r2, radix),
        has_digit(r1, radix) == has_digit(r2, radix),
{
    lemma_strip_seps_value(r1, radix);
    lemma_strip_seps_value(r2, radix);
    lemma_strip_seps_has_digit(r1, radix);
    lemma_strip_seps_has_digit(r2, radix);
}

// ---------------------------------------------------------------------------
// The unsigned parser and the tokenizer agree
// ---------------------------------------------------------------------------

/// Over the full 128-bit range and without clamping, the unsigned parser
/// returns exactly the magnitude the tokenizer produced, and fails
/// exactly when the tokenizer fails, with the same reason.
pub proof fn lemma_parse_unsigned_agrees_with_tokenizer(s: Seq<u8>)
    ensures
        spec_parse_unsigned(s, 0, u128::MAX, false) == (match spec_tokenize(s, false) {
            Ok(p) => Ok::<u128, ParseError>(p.0),
            Err(e) => Err::<u128, ParseError>(e),
        }),
{
}

} // verus!
