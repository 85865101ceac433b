use envparse::parse::ParseError;
use envparse::parse::ParseError::{Empty, IntOverflow, InvalidDigit, NoDigits, OutOfRange, UnexpectedSign};
use envparse::parse::parse_unsigned;

fn mixcase(s: &str, b: bool) -> String {
    s.chars()
        .enumerate()
        .map(|(i, c)| {
            if (i % 2 == 0) ^ b {
                c.to_uppercase().collect::<String>()
            } else {
                c.to_lowercase().collect::<String>()
            }
        })
        .collect()
}

fn check(s: &str, res: Result<u128, ParseError>) {
    assert_eq!(parse_unsigned(s.as_ref(), 0, u128::MAX, false), res, "input: {:?}", (s, res),);
}

fn ok1(s: &str, v: u128) {
    check(s, Ok(v));
}

fn err1(s: &str, e: ParseError) {
    check(s, Err(e))
}

fn ok(s: &str, v: u128) {
    ok1(s, v);
    ok1(&s.to_uppercase(), v);
    ok1(&s.to_lowercase(), v);
    ok1(&mixcase(s, true), v);
    ok1(&mixcase(s, false), v);
    ok1(&format!(" {}", s), v);
    ok1(&format!("{} ", s), v);
    ok1(&format!(" {} ", s), v);
    ok1(&format!("{}    ", s), v);
    ok1(&format!("    {}", s), v);
    ok1(&format!("    {}    ", s), v);
    if !s.contains("+") {
        ok1(&format!("+{}", s), v);
        ok1(&format!("+{} ", s), v);
        ok1(&format!(" +{}", s), v);
        ok1(&format!(" +{} ", s), v);
        ok1(&format!("+{}    ", s), v);
        ok1(&format!("    +{}", s), v);
        ok1(&format!("    +{}    ", s), v);
    }
}

fn err(s: &str, e: ParseError) {
    err1(s, e);
    err1(&s.to_uppercase(), e);
    err1(&s.to_lowercase(), e);
    err1(&format!("{} ", s), e);
    err1(&format!(" {}", s), e);
    err1(&format!(" {} ", s), e);
    err1(&format!("{}    ", s), e);
    err1(&format!("    {}", s), e);
    err1(&format!("    {}    ", s), e);
    if !s.contains("+") && !s.contains("-") && !s.is_empty() {
        err1(&format!("+{}", s), e);
        err1(&format!("+{} ", s), e);
        err1(&format!(" +{}", s), e);
        err1(&format!(" +{} ", s), e);
        err1(&format!("+{}    ", s), e);
        err1(&format!("    +{}", s), e);
        err1(&format!("    +{}    ", s), e);
    }
}

#[test]
fn test_parse_unsigned() {
    ok("0x1234abcd", 0x1234abcd);
    ok("0x__12_34__a__b__c__d__", 0x1234abcd);

    ok("1234567890", 1234567890);
    ok("0o12345670", 0o12345670);
    ok("0b101010", 0b101010);
    ok("0xabcdef0123456789", 0xabcdef0123456789);

    ok("0o3777777777777777777777777777777777777777777", u128::MAX);
    ok("0xffffffffffffffffffffffffffffffff", u128::MAX);
    ok("0Xffffffffffffffffffffffffffffffff", u128::MAX);

    ok("340282366920938463463374607431768211455", u128::MAX);
    ok("0o3777777777777777777777777777777777777777777", u128::MAX);
    ok("0xffffffffffffffffffffffffffffffff", u128::MAX);
    ok("0Xffffffffffffffffffffffffffffffff", u128::MAX);
    ok(
        "0b11111111111111111111111111111111111111111111111111111111111111111111111111111111111111111111111111111111111111111111111111111111",
        u128::MAX,
    );

    ok("0xffff_ffff_ffff_ffff_ffff_ffff_ffff_ffff", u128::MAX);
    ok("0xffff_ffff_ffff_ffff_ffff_ffff_ffff_ffff___", u128::MAX);

    ok("0x__f_f_f_f_ffff_ffff_ffff_ffff_ffff_ffff_ffff___", u128::MAX);
    err("", Empty);
    err("-30", UnexpectedSign);
    err("-", UnexpectedSign);
    err("", Empty);
    err("0x1234g", InvalidDigit);
    err("0xg1234", InvalidDigit);
    err("0x1234g1234", InvalidDigit);

    err("123a", InvalidDigit);
    err("a123", InvalidDigit);
    err("123a123", InvalidDigit);

    err("0o8", InvalidDigit);
    err("0o128", InvalidDigit);
    err("0o12812", InvalidDigit);
    err("0o12a12", InvalidDigit);

    err("0b2", InvalidDigit);
    err("0b00200", InvalidDigit);
    err("0b002", InvalidDigit);
    err("0b200", InvalidDigit);
    err("0b121", InvalidDigit);
    err("0b12", InvalidDigit);
    err("0b21", InvalidDigit);

    err("0o", NoDigits);
    err("0o_", NoDigits);
    err("0o__", NoDigits);
    err("0x", NoDigits);
    err("0x_", NoDigits);
    err("0x___", NoDigits);
    err("0b", NoDigits);
    err("0b_", NoDigits);
    err("0b__", NoDigits);
    err("_0b", InvalidDigit);
    err("0o4000000000000000000000000000000000000000000", IntOverflow);

    err("0xffffffffffffffffffffffffffffffff0", IntOverflow);
    err("0xf0fffffffffffffffffffffffffffffff0", IntOverflow);

    assert_eq!(parse_unsigned(b"200", 100, 1000, false), Ok(200));

    assert_eq!(parse_unsigned(b"1000", 100, 1000, false), Ok(1000));
    assert_eq!(parse_unsigned(b"100", 100, 1000, false), Ok(100));

    assert_eq!(parse_unsigned(b"500", 600, 700, false), Err(OutOfRange),);

    assert_eq!(parse_unsigned(b"500", 200, 300, false), Err(OutOfRange),);

    assert_eq!(parse_unsigned(b"500", 600, 700, true), Ok(600));
    assert_eq!(parse_unsigned(b"500", 200, 300, true), Ok(300));
    assert_eq!(parse_unsigned(b"250", 200, 300, true), Ok(250));
    assert_eq!(parse_unsigned(b"500", 200, u128::MAX, true), Ok(500));
    assert_eq!(parse_unsigned(b"250", 0, 300, true), Ok(250));

    assert_eq!(parse_unsigned(b"0", 0, 200, true), Ok(0));
    assert_eq!(parse_unsigned(b"-1", 0, 200, true), Ok(0));
    assert_eq!(parse_unsigned(b"0", 1, 255, true), Ok(1));
    assert_eq!(parse_unsigned(b"-1", 1, 255, true), Ok(1));
    assert_eq!(parse_unsigned(b"0", 0, u128::MAX, true), Ok(0));
    assert_eq!(parse_unsigned(b"-1", 0, u128::MAX, true), Ok(0));

    assert_eq!(parse_unsigned(b"-1", 0, u128::MAX, true), Ok(0));

    assert_eq!(parse_unsigned(b"1000", 1, 255, false), Err(OutOfRange));
    assert_eq!(parse_unsigned(b"1000", 1, 255, true), Ok(255));

    assert_eq!(
        parse_unsigned(b"0o4000000000000000000000000000000000000000000", 0, u128::MAX, true,),
        Ok(u128::MAX),
    );
    assert_eq!(parse_unsigned(b"0xffffffffffffffffffffffffffffffff0", 0, u128::MAX, true), Ok(u128::MAX),);
    assert_eq!(parse_unsigned(b"0xf0fffffffffffffffffffffffffffffff0", 0, u128::MAX, true), Ok(u128::MAX),);
    assert_eq!(parse_unsigned(b"0o4000000000000000000000000000000000000000000", 0, 50, true,), Ok(50),);
    assert_eq!(parse_unsigned(b"0xffffffffffffffffffffffffffffffff0", 0, 50, true), Ok(50),);
    assert_eq!(parse_unsigned(b"0xf0fffffffffffffffffffffffffffffff0", 0, 50, true,), Ok(50),);
}
