use num_literal_traits::NumLiteralTrait;

#[test]
fn null_works() {
    let result = u32::parse_literal("0");
    assert_eq!(result, Ok(0));
}

#[test]
fn binary_works() {
    let result = u32::parse_literal("0B1000111011000010");
    assert_eq!(result, Ok(36546));
}

#[test]
fn octal_works() {
    let result = u32::parse_literal("0723642");
    assert_eq!(result, Ok(239522));
}

#[test]
fn decimal_works() {
    let result = u32::parse_literal("9823642");
    assert_eq!(result, Ok(9823642));
}

#[test]
fn hexadecimal_works() {
    let result = u32::parse_literal("0xA82c6fE");
    assert_eq!(result, Ok(0xa82c6fe));
}

#[test]
fn fallback_works() {
    let result = u32::parse_literal_fallback("random text", 0xCAFE);
    assert_eq!(result, 0xcafe);
}

#[test]
fn underscores_works() {
    let result = u32::parse_literal("0b1101_0011_1000_0111");
    assert_eq!(result, Ok(54151));
}

#[test]
fn random_text_fails() {
    let res = u32::parse_literal("t322545");
    assert!(res.is_err());
}

#[test]
fn empty_char_fails() {
    let res = u32::parse_literal("''");
    assert!(res.is_err());
}

#[test]
fn multiple_chars_fails() {
    let res = u32::parse_literal("'ABC'");
    assert!(res.is_err());
}

#[test]
fn nonascii_chars_fails() {
    let res = u32::parse_literal("'全'");
    assert!(res.is_err());
}

#[test]
fn decimal_underscores_work() {
    let result = u32::parse_literal("9_823_642");
    assert_eq!(result, Ok(9823642));
}

#[test]
fn hex_prefix_uppercase_works() {
    assert_eq!(u32::parse_literal("0XCAFE"), Ok(51966));
    assert_eq!(u32::parse_literal("0xCAFE"), Ok(51966));
}

#[test]
fn binary_prefix_uppercase_works() {
    assert_eq!(u32::parse_literal("0B1000_0001_1111_1010"), Ok(33274));
    assert_eq!(u32::parse_literal("0b1000_0001_1111_1010"), Ok(33274));
}

#[test]
fn char_literal_works() {
    assert_eq!(u32::parse_literal("'A'"), Ok(65));
    assert_eq!(u8::parse_literal("'!'"), Ok(33));
}

#[test]
fn char_literal_fallback_kept() {
    let result = u32::parse_literal_fallback("'全'", 0xfabc);
    assert_eq!(result, 0xfabc);
}

#[test]
fn surrounding_whitespace_ignored() {
    assert_eq!(u32::parse_literal("  0xCAFE\t"), Ok(51966));
    assert_eq!(u32::parse_literal(" 42 "), Ok(42));
}

#[test]
fn plus_sign_accepted() {
    assert_eq!(u32::parse_literal("+37"), Ok(37));
}

#[test]
fn negative_decimal_signed_works() {
    assert_eq!(i32::parse_literal("-123"), Ok(-123));
    assert_eq!(i64::parse_literal("-9_000_000_000"), Ok(-9_000_000_000));
}

#[test]
fn negative_unsigned_fails() {
    assert!(u32::parse_literal("-1").is_err());
}

#[test]
fn negative_prefixed_fails() {
    // the sign is no part of a radix prefix, so the body holds an 'x'
    assert!(i32::parse_literal("-0x10").is_err());
}

#[test]
fn overflow_fails() {
    assert!(u32::parse_literal("4294967296").is_err());
    assert_eq!(u32::parse_literal("4294967295"), Ok(u32::MAX));
    assert!(u8::parse_literal("0xCAFE").is_err());
    assert!(u16::parse_literal("65536").is_err());
    assert_eq!(u16::parse_literal("65535"), Ok(u16::MAX));
    assert!(i32::parse_literal("-2147483649").is_err());
    assert_eq!(i32::parse_literal("-2147483648"), Ok(i32::MIN));
}

#[test]
fn empty_body_fails() {
    assert!(u32::parse_literal("").is_err());
    assert!(u32::parse_literal("   ").is_err());
    assert!(u32::parse_literal("0x").is_err());
    assert!(u32::parse_literal("0b").is_err());
}

#[test]
fn invalid_digit_fails() {
    assert!(u32::parse_literal("08").is_err());
    assert!(u32::parse_literal("0xG1").is_err());
    assert!(u32::parse_literal("0b102").is_err());
}

#[test]
fn wide_types_work() {
    assert_eq!(
        u64::parse_literal("0xFFFF_FFFF_FFFF_FFFF"),
        Ok(u64::MAX)
    );
    assert_eq!(i64::parse_literal("0x7FFF_FFFF_FFFF_FFFF"), Ok(i64::MAX));
}

#[test]
fn decimal_round_trip() {
    let v = u32::parse_literal("0x1F4").unwrap();
    assert_eq!(v, 500);
    let text = format!("{}", v);
    assert_eq!(u32::parse_literal(&text), Ok(v));

    let w = i32::parse_literal("-239522").unwrap();
    let text = format!("{}", w);
    assert_eq!(i32::parse_literal(&text), Ok(w));
}

#[test]
fn identify_literal_classifies() {
    assert_eq!(num_literal_traits::parse_literal::identify_literal(" 0xCAFE "), ("CAFE", 16));
    assert_eq!(num_literal_traits::parse_literal::identify_literal("0b10"), ("10", 2));
    assert_eq!(num_literal_traits::parse_literal::identify_literal("0723"), ("723", 8));
    assert_eq!(num_literal_traits::parse_literal::identify_literal("0"), ("0", 10));
    assert_eq!(num_literal_traits::parse_literal::identify_literal("917"), ("917", 10));
}
