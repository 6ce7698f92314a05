//! General laws of the literal parser, each proved over the model in
//! [`crate::literal_model`]. The trait contracts in the crate root tie
//! the model to the executable entry points, so each law holds of what
//! `parse_literal` and `parse_literal_fallback` return.

use vstd::prelude::*;

use crate::literal_model::{
    classify_literal, decimal_chars, decimal_chars_int, digits_value, is_char_literal,
    is_radix_digit, is_space_char, lemma_decimal_chars_value, lemma_digits_value_nonneg,
    lemma_strip_digit_string, lemma_strip_first, lemma_strip_no_separators,
    lemma_trim_end_keeps_first, lemma_trim_unspaced, radix_str_val, spec_parse_literal,
    strip_separators, trim_spec,
};

verus! {

/// Every decimal digit string with optional underscore separators
/// parses to exactly the digits' value with the separators removed,
/// for any target range that holds that value.
pub proof fn lemma_decimal_literal(s: Seq<char>, min: int, max: int)
    requires
        s.len() > 0,
        forall|i: int| 0 <= i < s.len() ==> is_radix_digit(#[trigger] s[i], 10) || s[i] == '_',
        is_radix_digit(s[0], 10),
        s[0] == '0' ==> s.len() == 1,
        min <= 0,
        digits_value(strip_separators(s), 10) <= max,
    ensures
        spec_parse_literal(s, min, max) == Some(digits_value(strip_separators(s), 10)),
{
    lemma_trim_unspaced(s);
    lemma_strip_digit_string(s, 10);
    lemma_digits_value_nonneg(strip_separators(s), 10);
}

/// A `0b` or `0B` prefix selects binary, whatever the case of the
/// prefix: the parse is worth the remaining binary digits with the
/// separators removed.
pub proof fn lemma_binary_prefix(s: Seq<char>, min: int, max: int)
    requires
        s.len() >= 3,
        s[0] == '0',
        s[1] == 'b' || s[1] == 'B',
        forall|i: int| 2 <= i < s.len() ==> is_radix_digit(#[trigger] s[i], 2) || s[i] == '_',
        is_radix_digit(s[2], 2),
        min <= 0,
        digits_value(strip_separators(s.skip(2)), 2) <= max,
    ensures
        spec_parse_literal(s, min, max) == Some(digits_value(strip_separators(s.skip(2)), 2)),
{
    assert(!is_space_char(s.last()));
    lemma_trim_unspaced(s);
    let rest = s.skip(2);
    assert(forall|i: int|
        0 <= i < rest.len() ==> is_radix_digit(#[trigger] rest[i], 2) || rest[i] == '_');
    lemma_strip_digit_string(rest, 2);
    lemma_digits_value_nonneg(strip_separators(rest), 2);
}

/// A `0x` or `0X` prefix selects hexadecimal, whatever the case of the
/// prefix: the parse is worth the remaining hexadecimal digits with
/// the separators removed.
pub proof fn lemma_hex_prefix(s: Seq<char>, min: int, max: int)
    requires
        s.len() >= 3,
        s[0] == '0',
        s[1] == 'x' || s[1] == 'X',
        forall|i: int| 2 <= i < s.len() ==> is_radix_digit(#[trigger] s[i], 16) || s[i] == '_',
        is_radix_digit(s[2], 16),
        min <= 0,
        digits_value(strip_separators(s.skip(2)), 16) <= max,
    ensures
        spec_parse_literal(s, min, max) == Some(digits_value(strip_separators(s.skip(2)), 16)),
{
    assert(!is_space_char(s.last()));
    lemma_trim_unspaced(s);
    let rest = s.skip(2);
    assert(forall|i: int|
        0 <= i < rest.len() ==> is_radix_digit(#[trigger] rest[i], 16) || rest[i] == '_');
    lemma_strip_digit_string(rest, 16);
    lemma_digits_value_nonneg(strip_separators(rest), 16);
}

/// A leading `0` on a longer text with no `b` or `x` after it selects
/// octal: the parse is worth the remaining octal digits with the
/// separators removed.
pub proof fn lemma_octal_prefix(s: Seq<char>, min: int, max: int)
    requires
        s.len() >= 2,
        s[0] == '0',
        forall|i: int| 1 <= i < s.len() ==> is_radix_digit(#[trigger] s[i], 8) || s[i] == '_',
        is_radix_digit(s[1], 8),
        min <= 0,
        digits_value(strip_separators(s.skip(1)), 8) <= max,
    ensures
        spec_parse_literal(s, min, max) == Some(digits_value(strip_separators(s.skip(1)), 8)),
{
    assert(!is_space_char(s.last()));
    lemma_trim_unspaced(s);
    let rest = s.skip(1);
    assert(forall|i: int|
        0 <= i < rest.len() ==> is_radix_digit(#[trigger] rest[i], 8) || rest[i] == '_');
    lemma_strip_digit_string(rest, 8);
    lemma_digits_value_nonneg(strip_separators(rest), 8);
}

/// The bare text `0` parses as decimal zero, not as an octal prefix
/// with an empty body.
pub proof fn lemma_bare_zero(min: int, max: int)
    requires
        min <= 0 <= max,
    ensures
        spec_parse_literal(seq!['0'], min, max) == Some(0int),
{
    let s = seq!['0'];
    lemma_trim_unspaced(s);
    lemma_strip_no_separators(s);
    assert(s.drop_last() =~= Seq::<char>::empty());
    assert(digits_value(Seq::<char>::empty(), 10) == 0);
    assert(digits_value(s, 10) == 0);
}

/// A well-formed single-byte character literal parses to the
/// character's code point, for any target range that holds it.
pub proof fn lemma_char_literal(s: Seq<char>, min: int, max: int)
    requires
        is_char_literal(s),
        min <= s[1] as int <= max,
    ensures
        spec_parse_literal(s, min, max) == Some(s[1] as int),
{
}

/// A text that opens with a single quote but is not a well-formed
/// single-byte character literal fails: it falls through to the
/// classifier, and the quote is no digit. This covers the empty
/// quoted literal, a quoted literal of several characters, and a
/// quoted multi-byte character.
pub proof fn lemma_malformed_char_literal_fails(s: Seq<char>, min: int, max: int)
    requires
        s.len() > 0,
        s[0] == '\'',
        !is_char_literal(s),
    ensures
        spec_parse_literal(s, min, max) is None,
{
    lemma_trim_end_keeps_first(s);
    let t = trim_spec(s);
    lemma_strip_first(t);
}

/// A numeric body whose value falls outside the target type's range
/// fails rather than truncating or wrapping.
pub proof fn lemma_out_of_range_fails(s: Seq<char>, min: int, max: int)
    requires
        !is_char_literal(s),
        ({
            let (body, radix) = classify_literal(s);
            let v = radix_str_val(strip_separators(body), radix, min < 0);
            v < min || v > max
        }),
    ensures
        spec_parse_literal(s, min, max) is None,
{
}

/// Round trip: re-parsing the base-10 representation of any value in
/// the target range reproduces exactly that value.
pub proof fn lemma_decimal_round_trip(v: int, min: int, max: int)
    requires
        min <= v <= max,
        min <= 0,
        v < 0 ==> min < 0,
    ensures
        spec_parse_literal(decimal_chars_int(v), min, max) == Some(v),
{
    if v >= 0 {
        let s = decimal_chars(v);
        lemma_decimal_chars_value(v);
        assert(!is_space_char(s.last()));
        assert(!is_space_char(s[0]));
        lemma_trim_unspaced(s);
        assert(forall|i: int| 0 <= i < s.len() ==> s[i] != '_') by {
            assert(forall|i: int| 0 <= i < s.len() ==> is_radix_digit(#[trigger] s[i], 10));
        }
        lemma_strip_no_separators(s);
    } else {
        let d = decimal_chars(-v);
        let s = decimal_chars_int(v);
        lemma_decimal_chars_value(-v);
        assert(s.len() == d.len() + 1);
        assert(s[0] == '-');
        assert(forall|i: int| 1 <= i < s.len() ==> s[i] == #[trigger] d[i - 1]);
        assert(!is_space_char(s.last()));
        lemma_trim_unspaced(s);
        assert(forall|i: int| 0 <= i < s.len() ==> s[i] != '_');
        lemma_strip_no_separators(s);
        assert(s.drop_first() =~= d);
        assert(s.len() >= 2 && s[0] != '0');
    }
}

} // verus!
