//! The mathematical model of literal classification and parsing.
//!
//! Everything a literal text means is defined here over `Seq<char>`:
//! which characters count as surrounding whitespace, how a radix prefix
//! is recognised, what an underscore-free digit string is worth in a
//! given radix, and what the whole parse returns for a numeric type
//! with a given value range.

use vstd::prelude::*;

verus! {

/// A character that counts as surrounding whitespace: the Unicode
/// `White_Space` set, which `str::trim` removes at either end.
pub open spec fn is_space_char(c: char) -> bool {
    let u = c as u32;
    (9 <= u && u <= 13) || u == 32 || u == 0x85 || u == 0xA0 || u == 0x1680
        || (0x2000 <= u && u <= 0x200A) || u == 0x2028 || u == 0x2029 || u == 0x202F
        || u == 0x205F || u == 0x3000
}

/// `s` without its leading whitespace.
pub open spec fn trim_start_spec(s: Seq<char>) -> Seq<char>
    decreases s.len(),
{
    if s.len() > 0 && is_space_char(s[0]) {
        trim_start_spec(s.drop_first())
    } else {
        s
    }
}

/// `s` without its trailing whitespace.
pub open spec fn trim_end_spec(s: Seq<char>) -> Seq<char>
    decreases s.len(),
{
    if s.len() > 0 && is_space_char(s.last()) {
        trim_end_spec(s.drop_last())
    } else {
        s
    }
}

/// `s` without leading and trailing whitespace.
pub open spec fn trim_spec(s: Seq<char>) -> Seq<char> {
    trim_end_spec(trim_start_spec(s))
}

/// The value of `c` as a digit: `0-9` worth 0 to 9, `a-z` and `A-Z`
/// worth 10 to 35, and -1 for any character that is no digit.
pub open spec fn digit_value(c: char) -> int {
    let u = c as u32;
    if 48 <= u && u <= 57 {
        u - 48
    } else if 97 <= u && u <= 122 {
        u - 97 + 10
    } else if 65 <= u && u <= 90 {
        u - 65 + 10
    } else {
        -1
    }
}

/// Whether `c` is a digit of the given radix.
pub open spec fn is_radix_digit(c: char, radix: int) -> bool {
    0 <= digit_value(c) && digit_value(c) < radix
}

/// Whether `s` is one or more digits of the given radix.
pub open spec fn all_radix_digits(s: Seq<char>, radix: int) -> bool {
    s.len() > 0 && forall|i: int| 0 <= i < s.len() ==> is_radix_digit(s[i], radix)
}

/// The value of the digit string `s` in the given radix, most
/// significant digit first.
pub open spec fn digits_value(s: Seq<char>, radix: int) -> int
    decreases s.len(),
{
    if s.len() == 0 {
        0
    } else {
        digits_value(s.drop_last(), radix) * radix + digit_value(s.last())
    }
}

/// Whether `s` opens with a sign character that the radix parser strips:
/// a `+` always, a `-` only for a signed target type.
pub open spec fn has_sign(s: Seq<char>, signed: bool) -> bool {
    s.len() > 0 && (s[0] == '+' || (signed && s[0] == '-'))
}

/// Whether `s` is a well-formed radix string: an optional sign followed
/// by one or more digits of the radix.
pub open spec fn radix_str_ok(s: Seq<char>, radix: int, signed: bool) -> bool {
    if has_sign(s, signed) {
        all_radix_digits(s.drop_first(), radix)
    } else {
        all_radix_digits(s, radix)
    }
}

/// The signed value of the well-formed radix string `s`.
pub open spec fn radix_str_val(s: Seq<char>, radix: int, signed: bool) -> int {
    if has_sign(s, signed) {
        if s[0] == '-' {
            -digits_value(s.drop_first(), radix)
        } else {
            digits_value(s.drop_first(), radix)
        }
    } else {
        digits_value(s, radix)
    }
}

/// Classification of an already trimmed text `t`: the numeric body with
/// the radix prefix removed, and the radix it selects. A `0b`/`0B`
/// prefix means binary, else `0x`/`0X` means hexadecimal, else a
/// leading `0` on a text longer than one character means octal, and
/// anything else is decimal. The prefix match is case-insensitive and
/// the first match wins.
pub open spec fn classify_trimmed(t: Seq<char>) -> (Seq<char>, int) {
    if t.len() >= 2 && t[0] == '0' && (t[1] == 'b' || t[1] == 'B') {
        (t.skip(2), 2)
    } else if t.len() >= 2 && t[0] == '0' && (t[1] == 'x' || t[1] == 'X') {
        (t.skip(2), 16)
    } else if t.len() > 1 && t[0] == '0' {
        (t.skip(1), 8)
    } else {
        (t, 10)
    }
}

/// Classification of a raw literal text: trim, then classify.
pub open spec fn classify_literal(s: Seq<char>) -> (Seq<char>, int) {
    classify_trimmed(trim_spec(s))
}

/// `s` with every underscore digit-group separator removed.
pub open spec fn strip_separators(s: Seq<char>) -> Seq<char>
    decreases s.len(),
{
    if s.len() == 0 {
        Seq::empty()
    } else if s.last() == '_' {
        strip_separators(s.drop_last())
    } else {
        strip_separators(s.drop_last()).push(s.last())
    }
}

/// Whether `s` is a character literal the parser accepts: exactly three
/// characters, a single-quote at either end, and a single-byte
/// character between them.
pub open spec fn is_char_literal(s: Seq<char>) -> bool {
    s.len() == 3 && s[0] == '\'' && s[2] == '\'' && (s[1] as u32) < 128
}

/// What parsing the literal text `s` returns for a numeric target type
/// whose values span `min` to `max`: the parsed value, or `None` for
/// any failure. A character literal is worth its code point; any other
/// text is trimmed, classified, freed of separators, and read as a
/// radix string; a value outside the target range is a failure.
pub open spec fn spec_parse_literal(s: Seq<char>, min: int, max: int) -> Option<int> {
    if is_char_literal(s) {
        if min <= s[1] as int && s[1] as int <= max {
            Some(s[1] as int)
        } else {
            None
        }
    } else {
        let (body, radix) = classify_literal(s);
        let cleaned = strip_separators(body);
        if radix_str_ok(cleaned, radix, min < 0) && min <= radix_str_val(cleaned, radix, min < 0)
            && radix_str_val(cleaned, radix, min < 0) <= max {
            Some(radix_str_val(cleaned, radix, min < 0))
        } else {
            None
        }
    }
}

/// The decimal digit character worth `d`.
pub open spec fn decimal_digit_char(d: int) -> char {
    if d == 0 {
        '0'
    } else if d == 1 {
        '1'
    } else if d == 2 {
        '2'
    } else if d == 3 {
        '3'
    } else if d == 4 {
        '4'
    } else if d == 5 {
        '5'
    } else if d == 6 {
        '6'
    } else if d == 7 {
        '7'
    } else if d == 8 {
        '8'
    } else {
        '9'
    }
}

/// The base-10 digit-string representation of the non-negative `n`,
/// without sign or separators.
pub open spec fn decimal_chars(n: int) -> Seq<char>
    decreases n,
{
    if n < 10 {
        seq![decimal_digit_char(n)]
    } else {
        decimal_chars(n / 10).push(decimal_digit_char(n % 10))
    }
}

/// The base-10 representation of any integer `v`: a minus sign before
/// the digits when `v` is negative.
pub open spec fn decimal_chars_int(v: int) -> Seq<char> {
    if v < 0 {
        seq!['-'] + decimal_chars(-v)
    } else {
        decimal_chars(v)
    }
}

/// A text with no whitespace at either end trims to itself.
pub proof fn lemma_trim_unspaced(s: Seq<char>)
    requires
        s.len() > 0,
        !is_space_char(s[0]),
        !is_space_char(s.last()),
    ensures
        trim_spec(s) == s,
{
}

/// Trimming trailing whitespace keeps a leading character that is no
/// whitespace itself.
pub proof fn lemma_trim_end_keeps_first(s: Seq<char>)
    requires
        s.len() > 0,
        !is_space_char(s[0]),
    ensures
        trim_end_spec(s).len() > 0,
        trim_end_spec(s)[0] == s[0],
    decreases s.len(),
{
    if is_space_char(s.last()) {
        assert(s.len() > 1);
        assert(s.drop_last()[0] == s[0]);
        lemma_trim_end_keeps_first(s.drop_last());
    }
}

/// A digit string is worth a non-negative value.
pub proof fn lemma_digits_value_nonneg(s: Seq<char>, radix: int)
    requires
        radix >= 2,
        forall|i: int| 0 <= i < s.len() ==> is_radix_digit(s[i], radix),
    ensures
        digits_value(s, radix) >= 0,
    decreases s.len(),
{
    if s.len() > 0 {
        lemma_digits_value_nonneg(s.drop_last(), radix);
        assert(digits_value(s.drop_last(), radix) * radix >= 0) by (nonlinear_arith)
            requires
                digits_value(s.drop_last(), radix) >= 0,
                radix >= 2,
        ;
    }
}

/// Removing separators keeps the first character when it is no
/// separator itself.
pub proof fn lemma_strip_first(s: Seq<char>)
    requires
        s.len() > 0,
        s[0] != '_',
    ensures
        strip_separators(s).len() > 0,
        strip_separators(s)[0] == s[0],
    decreases s.len(),
{
    if s.len() == 1 {
        assert(s.drop_last() =~= Seq::<char>::empty());
        assert(strip_separators(Seq::<char>::empty()) =~= Seq::<char>::empty());
        assert(strip_separators(s) =~= seq![s[0]]);
    } else {
        assert(s.drop_last()[0] == s[0]);
        lemma_strip_first(s.drop_last());
        if s.last() != '_' {
            assert(strip_separators(s)[0] == strip_separators(s.drop_last())[0]);
        }
    }
}

/// A text without separators is unchanged by removing them.
pub proof fn lemma_strip_no_separators(s: Seq<char>)
    requires
        forall|i: int| 0 <= i < s.len() ==> s[i] != '_',
    ensures
        strip_separators(s) == s,
    decreases s.len(),
{
    if s.len() == 0 {
        assert(strip_separators(s) =~= s);
    } else {
        lemma_strip_no_separators(s.drop_last());
        assert(s.last() != '_');
        assert(strip_separators(s) =~= s);
    }
}

/// Removing the separators from a digit string with separators leaves a
/// well-formed digit string that opens with the same digit.
pub proof fn lemma_strip_digit_string(s: Seq<char>, radix: int)
    requires
        s.len() > 0,
        forall|i: int| 0 <= i < s.len() ==> is_radix_digit(s[i], radix) || s[i] == '_',
        is_radix_digit(s[0], radix),
    ensures
        all_radix_digits(strip_separators(s), radix),
        strip_separators(s)[0] == s[0],
    decreases s.len(),
{
    assert(s[0] != '_');
    lemma_strip_first(s);
    if s.len() == 1 {
        assert(s.drop_last() =~= Seq::<char>::empty());
        assert(strip_separators(Seq::<char>::empty()) =~= Seq::<char>::empty());
        assert(strip_separators(s) =~= seq![s[0]]);
    } else {
        let dl = s.drop_last();
        assert(forall|i: int|
            0 <= i < dl.len() ==> is_radix_digit(#[trigger] dl[i], radix) || dl[i] == '_');
        lemma_strip_digit_string(dl, radix);
        if s.last() != '_' {
            let st = strip_separators(s);
            assert(st =~= strip_separators(dl).push(s.last()));
            assert(forall|i: int| 0 <= i < st.len() ==> is_radix_digit(#[trigger] st[i], radix))
                by {
                assert(forall|i: int|
                    0 <= i < st.len() - 1 ==> st[i] == #[trigger] strip_separators(dl)[i]);
            }
        }
    }
}

/// The decimal representation of a non-negative integer is a digit
/// string worth that integer, with no sign, separator, quote or
/// needless leading zero.
pub proof fn lemma_decimal_chars_value(n: int)
    requires
        n >= 0,
    ensures
        all_radix_digits(decimal_chars(n), 10),
        digits_value(decimal_chars(n), 10) == n,
        decimal_chars(n)[0] != '+' && decimal_chars(n)[0] != '-',
        decimal_chars(n)[0] != '\'' && decimal_chars(n)[0] != '_',
        n > 0 ==> decimal_chars(n)[0] != '0',
        n == 0 ==> decimal_chars(n) == seq!['0'],
    decreases n,
{
    if n < 10 {
        let s = decimal_chars(n);
        assert(s =~= seq![decimal_digit_char(n)]);
        assert(s.drop_last() =~= Seq::<char>::empty());
        assert(digits_value(Seq::<char>::empty(), 10) == 0);
        assert(digits_value(s, 10) == digit_value(decimal_digit_char(n)));
    } else {
        lemma_decimal_chars_value(n / 10);
        let s = decimal_chars(n);
        let prefix = decimal_chars(n / 10);
        assert(s =~= prefix.push(decimal_digit_char(n % 10)));
        assert(s.drop_last() =~= prefix);
        assert(s.last() == decimal_digit_char(n % 10));
        assert(digit_value(decimal_digit_char(n % 10)) == n % 10);
        assert(digits_value(s, 10) == n / 10 * 10 + n % 10);
        assert(forall|i: int| 0 <= i < s.len() ==> is_radix_digit(#[trigger] s[i], 10)) by {
            assert(forall|i: int| 0 <= i < prefix.len() ==> is_radix_digit(#[trigger] prefix[i], 10));
            assert(forall|i: int| 0 <= i < s.len() - 1 ==> s[i] == #[trigger] prefix[i]);
        }
        assert(s[0] == prefix[0]);
    }
}

} // verus!
