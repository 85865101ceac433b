use envparse::parse::ParseError::{Empty, InvalidDigit, OutOfRange, UnknownBoolValue};
use envparse::{parse_bounded, parsers};

#[test]
fn default_fires_only_on_true_emptiness() {
    // A configured default replaces an empty (or all-whitespace) input,
    // and nothing else: a malformed input still reports its error.
    assert_eq!(parsers::u8(b"", Some(42)), Ok(42));
    assert_eq!(parsers::u8(b"   ", Some(42)), Ok(42));
    assert_eq!(parsers::u8(b"abc", Some(42)), Err(InvalidDigit));
    assert_eq!(parsers::u8(b"", None), Err(Empty));
    assert_eq!(parse_bounded::u32(b"", Some(7), Some(1), Some(9), false), Ok(7));
    assert_eq!(parse_bounded::u32(b"abc", Some(7), Some(1), Some(9), false), Err(InvalidDigit));
    assert_eq!(parsers::i64(b" \t\n ", Some(-3)), Ok(-3));
    assert_eq!(parsers::i64(b"zzz", Some(-3)), Err(InvalidDigit));
    assert_eq!(parsers::bool(b"", Some(true)), Ok(true));
    assert_eq!(parsers::bool(b"nonsense", Some(true)), Err(UnknownBoolValue));
}

#[test]
fn width_ranges_unsigned() {
    assert_eq!(parsers::u8(b"255", None), Ok(255));
    assert_eq!(parsers::u8(b"256", None), Err(OutOfRange));
    assert_eq!(parsers::u16(b"65535", None), Ok(65535));
    assert_eq!(parsers::u16(b"65536", None), Err(OutOfRange));
    assert_eq!(parsers::u32(b"4294967295", None), Ok(4294967295));
    assert_eq!(parsers::u32(b"4294967296", None), Err(OutOfRange));
    assert_eq!(parsers::u64(b"18446744073709551615", None), Ok(u64::MAX));
    assert_eq!(parsers::u64(b"18446744073709551616", None), Err(OutOfRange));
    assert_eq!(parsers::u128(b"340282366920938463463374607431768211455", None), Ok(u128::MAX));
    assert_eq!(parsers::usize(b"0", None), Ok(0));
    assert_eq!(parsers::usize(b"65535", None), Ok(65535));
}

#[test]
fn width_ranges_signed() {
    assert_eq!(parsers::i8(b"-128", None), Ok(-128));
    assert_eq!(parsers::i8(b"-129", None), Err(OutOfRange));
    assert_eq!(parsers::i8(b"127", None), Ok(127));
    assert_eq!(parsers::i8(b"128", None), Err(OutOfRange));
    assert_eq!(parsers::i16(b"-32768", None), Ok(i16::MIN));
    assert_eq!(parsers::i16(b"32768", None), Err(OutOfRange));
    assert_eq!(parsers::i32(b"-2147483648", None), Ok(i32::MIN));
    assert_eq!(parsers::i32(b"2147483648", None), Err(OutOfRange));
    assert_eq!(parsers::i64(b"-9223372036854775808", None), Ok(i64::MIN));
    assert_eq!(parsers::i64(b"9223372036854775808", None), Err(OutOfRange));
    assert_eq!(parsers::i128(b"-170141183460469231731687303715884105728", None), Ok(i128::MIN));
    assert_eq!(parsers::isize(b"-1", None), Ok(-1));
}

#[test]
fn bounded_forms_clamp_and_reject() {
    assert_eq!(parse_bounded::u8(b"200", None, Some(10), Some(100), false), Err(OutOfRange));
    assert_eq!(parse_bounded::u8(b"200", None, Some(10), Some(100), true), Ok(100));
    assert_eq!(parse_bounded::u8(b"5", None, Some(10), Some(100), true), Ok(10));
    assert_eq!(parse_bounded::u8(b"50", None, Some(10), Some(100), false), Ok(50));
    assert_eq!(parse_bounded::i16(b"-500", None, Some(-100), Some(100), true), Ok(-100));
    assert_eq!(parse_bounded::i16(b"-500", None, Some(-100), Some(100), false), Err(OutOfRange));
    assert_eq!(parse_bounded::i16(b"0x20", None, Some(-100), Some(100), false), Ok(32));
    assert_eq!(parse_bounded::usize(b"42", None, None, None, false), Ok(42));
    assert_eq!(parse_bounded::isize(b"-42", None, None, None, false), Ok(-42));
    assert_eq!(parse_bounded::u128(b"1_000", None, None, None, false), Ok(1000));
    assert_eq!(parse_bounded::i128(b"-1_000", None, None, None, false), Ok(-1000));
    assert_eq!(parse_bounded::u64(b"0xdead_beef", None, None, None, false), Ok(0xdead_beef));
    assert_eq!(parse_bounded::u16(b"-1", None, None, None, true), Ok(0));
    assert_eq!(parse_bounded::i8(b"56", None, Some(-5), Some(5), true), Ok(5));
    assert_eq!(parse_bounded::i32(b"-56", None, Some(-5), Some(5), true), Ok(-5));
    assert_eq!(parse_bounded::i64(b"3", None, Some(-5), Some(5), true), Ok(3));
}

#[test]
fn bool_adapter() {
    assert_eq!(parsers::bool(b"on", None), Ok(true));
    assert_eq!(parsers::bool(b" False ", None), Ok(false));
    assert_eq!(parsers::bool(b"", None), Err(Empty));
    assert_eq!(parsers::bool(b"Y", Some(false)), Ok(true));
}
