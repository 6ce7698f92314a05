//! The executable side of literal parsing: trimming, classification,
//! separator removal, and the radix-based construction of each
//! supported numeric type, everything proved against the model in
//! [`crate::literal_model`].

use vstd::prelude::*;
use vstd::string::StrSliceExecFns;
use vstd::string::StringExecFns;

use crate::literal_model::{
    classify_literal, decimal_chars, is_space_char, lemma_decimal_chars_value, radix_str_ok,
    radix_str_val, spec_parse_literal, strip_separators, trim_end_spec, trim_spec,
    trim_start_spec,
};
use crate::{NumLiteralTrait, RadixNum};

verus! {

#[verifier::external_type_specification]
#[verifier::external_body]
pub struct ExParseIntError(core::num::ParseIntError);

/// Whether `c` belongs to the whitespace set that trimming removes.
fn is_space(c: char) -> (r: bool)
    ensures
        r == is_space_char(c),
{
    let u = c as u32;
    (9 <= u && u <= 13) || u == 32 || u == 0x85 || u == 0xA0 || u == 0x1680 || (0x2000 <= u && u
        <= 0x200A) || u == 0x2028 || u == 0x2029 || u == 0x202F || u == 0x205F || u == 0x3000
}

/// `s` with its leading and trailing whitespace removed.
fn trim_str<'a>(s: &'a str) -> (r: &'a str)
    ensures
        r@ == trim_spec(s@),
{
    let n = s.unicode_len();
    let mut i: usize = 0;
    proof {
        assert(s@.skip(0) =~= s@);
    }
    while i < n && is_space(s.get_char(i))
        invariant
            n == s@.len(),
            0 <= i <= n,
            trim_start_spec(s@) == trim_start_spec(s@.skip(i as int)),
        decreases n - i,
    {
        proof {
            assert(s@.skip(i as int).drop_first() =~= s@.skip(i as int + 1));
        }
        i = i + 1;
    }
    proof {
        if i == n {
            assert(s@.skip(i as int) =~= Seq::<char>::empty());
        }
        assert(trim_start_spec(s@) == s@.skip(i as int));
    }
    let mut j: usize = n;
    while j > i && is_space(s.get_char(j - 1))
        invariant
            n == s@.len(),
            i <= j <= n,
            trim_start_spec(s@) == s@.skip(i as int),
            trim_end_spec(s@.skip(i as int)) == trim_end_spec(s@.subrange(i as int, j as int)),
        decreases j,
    {
        proof {
            let part = s@.subrange(i as int, j as int);
            assert(part.last() == s@[j - 1]);
            assert(part.drop_last() =~= s@.subrange(i as int, j as int - 1));
        }
        j = j - 1;
    }
    proof {
        assert(s@.subrange(i as int, n as int) =~= s@.skip(i as int));
        if j == i {
            assert(s@.subrange(i as int, j as int) =~= Seq::<char>::empty());
        }
        assert(trim_end_spec(s@.skip(i as int)) == s@.subrange(i as int, j as int));
    }
    s.substring_char(i, j)
}

/// Determine the literal's notation: trim the text, then return the
/// numeric body with the radix prefix removed, and the radix (2, 8, 10
/// or 16) that the prefix selects.
pub fn identify_literal<'a>(text: &'a str) -> (r: (&'a str, u32))
    ensures
        r.0@ == classify_literal(text@).0,
        r.1 as int == classify_literal(text@).1,
{
    let t = trim_str(text);
    let n = t.unicode_len();
    if n >= 2 && t.get_char(0) == '0' {
        let c1 = t.get_char(1);
        if c1 == 'b' || c1 == 'B' {
            proof {
                assert(t@.subrange(2, n as int) =~= t@.skip(2));
            }
            return (t.substring_char(2, n), 2);
        }
        if c1 == 'x' || c1 == 'X' {
            proof {
                assert(t@.subrange(2, n as int) =~= t@.skip(2));
            }
            return (t.substring_char(2, n), 16);
        }
        proof {
            assert(t@.subrange(1, n as int) =~= t@.skip(1));
        }
        return (t.substring_char(1, n), 8);
    }
    (t, 10)
}

/// `s` with every underscore digit-group separator removed.
fn strip_separators_str(s: &str) -> (r: String)
    ensures
        r@ == strip_separators(s@),
{
    let n = s.unicode_len();
    let mut out = String::new();
    let mut i: usize = 0;
    while i < n
        invariant
            n == s@.len(),
            0 <= i <= n,
            out@ == strip_separators(s@.subrange(0, i as int)),
        decreases n - i,
    {
        let c = s.get_char(i);
        if c != '_' {
            let piece = s.substring_char(i, i + 1);
            out.append(piece);
        }
        proof {
            let next = s@.subrange(0, i as int + 1);
            assert(next.drop_last() =~= s@.subrange(0, i as int));
            assert(next.last() == s@[i as int]);
            if c != '_' {
                assert(out@ =~= strip_separators(next));
            }
        }
        i = i + 1;
    }
    proof {
        assert(s@.subrange(0, n as int) =~= s@);
    }
    out
}

/// The base-10 digit string of a single-byte character's code point.
fn decimal_of_byte(b: u8) -> (r: String)
    requires
        b < 128,
    ensures
        r@ == decimal_chars(b as int),
{
    let digits = "0123456789";
    proof {
        reveal_strlit("0123456789");
        assert(digits@ =~= seq!['0', '1', '2', '3', '4', '5', '6', '7', '8', '9']);
    }
    let mut out = String::new();
    if b >= 100 {
        let d = (b / 100) as usize;
        out.append(digits.substring_char(d, d + 1));
    }
    if b >= 10 {
        let d = ((b / 10) % 10) as usize;
        out.append(digits.substring_char(d, d + 1));
    }
    let d = (b % 10) as usize;
    out.append(digits.substring_char(d, d + 1));
    proof {
        let v = b as int;
        assert(forall|k: int|
            0 <= k < 10 ==> digits@.subrange(k, k + 1) =~= seq![
                crate::literal_model::decimal_digit_char(k),
            ]);
        if v < 10 {
            assert(out@ =~= decimal_chars(v));
        } else if v < 100 {
            assert(v / 10 < 10);
            assert(decimal_chars(v / 10) =~= seq![crate::literal_model::decimal_digit_char(v / 10)]);
            assert((v / 10) % 10 == v / 10);
            assert(out@ =~= decimal_chars(v));
        } else {
            let t = v / 10;
            assert(10 <= t < 13);
            assert(v / 100 == t / 10);
            assert(decimal_chars(t / 10) =~= seq![
                crate::literal_model::decimal_digit_char(t / 10),
            ]);
            assert(decimal_chars(t) =~= seq![
                crate::literal_model::decimal_digit_char(v / 100),
                crate::literal_model::decimal_digit_char(t % 10),
            ]);
            assert(out@ =~= decimal_chars(v));
        }
    }
    out
}

/// Determine the literal type of `text`, then construct the value, as
/// the model [`spec_parse_literal`] prescribes for the target type's
/// range.
pub fn parse_literal_generic<T: RadixNum>(text: &str) -> (r: Result<
    T,
    core::num::ParseIntError,
>)
    ensures
        match spec_parse_literal(text@, T::min_spec(), T::max_spec()) {
            Some(v) => r is Ok && (r->Ok_0).value_spec() == v,
            None => r is Err,
        },
{
    let n = text.unicode_len();
    if n == 3 && text.get_char(0) == '\'' && text.get_char(2) == '\'' {
        let c = text.get_char(1);
        let u = c as u32;
        if u < 128 {
            let body = decimal_of_byte(u as u8);
            proof {
                lemma_decimal_chars_value(u as int);
            }
            return T::from_radix_digits(body.as_str(), 10);
        }
    }
    let (num_part, radix) = identify_literal(text);
    let cleaned = strip_separators_str(num_part);
    T::from_radix_digits(cleaned.as_str(), radix)
}

/// Determine the literal type of `text`, then construct the value, or
/// hand back the caller's fallback on any parse failure.
pub fn parse_literal_fallback_generic<T: RadixNum>(text: &str, fallback: T) -> (r: T)
    ensures
        match spec_parse_literal(text@, T::min_spec(), T::max_spec()) {
            Some(v) => r.value_spec() == v,
            None => r == fallback,
        },
{
    match parse_literal_generic::<T>(text) {
        Ok(v) => v,
        Err(_) => fallback,
    }
}

/// Relies on `num_traits::Num::from_str_radix` for `u32`, which
/// forwards to core's `u32::from_str_radix`: an optional leading `+`
/// sign, then one or more digits of the radix (`0-9`, `a-z`, `A-Z`,
/// each worth less than the radix); it fails on an empty digit string,
/// an invalid digit, or a value above `u32::MAX`.
#[verifier::external_body]
fn u32_from_str_radix(s: &str, radix: u32) -> (r: Result<u32, core::num::ParseIntError>)
    requires
        radix == 2 || radix == 8 || radix == 10 || radix == 16,
    ensures
        (r is Ok) <==> (radix_str_ok(s@, radix as int, false) && 0 <= radix_str_val(
            s@,
            radix as int,
            false,
        ) && radix_str_val(s@, radix as int, false) <= u32::MAX),
        r is Ok ==> (r->Ok_0) as int == radix_str_val(s@, radix as int, false),
{
    <u32 as num_traits::Num>::from_str_radix(s, radix)
}

impl RadixNum for u32 {
    open spec fn min_spec() -> int {
        0
    }

    open spec fn max_spec() -> int {
        u32::MAX as int
    }

    open spec fn value_spec(&self) -> int {
        *self as int
    }

    fn from_radix_digits(s: &str, radix: u32) -> (r: Result<Self, core::num::ParseIntError>) {
        u32_from_str_radix(s, radix)
    }
}

impl NumLiteralTrait for u32 {
    fn parse_literal(text: &str) -> (r: Result<Self, core::num::ParseIntError>) {
        parse_literal_generic::<u32>(text)
    }

    fn parse_literal_fallback(text: &str, fallback: u32) -> (r: u32) {
        parse_literal_fallback_generic::<u32>(text, fallback)
    }
}

/// Relies on `num_traits::Num::from_str_radix` for `u8`, which forwards
/// to core's `u8::from_str_radix`: an optional leading `+` sign, then
/// one or more digits of the radix (`0-9`, `a-z`, `A-Z`, each worth
/// less than the radix); it fails on an empty digit string, an invalid
/// digit, or a value above `u8::MAX`.
#[verifier::external_body]
fn u8_from_str_radix(s: &str, radix: u32) -> (r: Result<u8, core::num::ParseIntError>)
    requires
        radix == 2 || radix == 8 || radix == 10 || radix == 16,
    ensures
        (r is Ok) <==> (radix_str_ok(s@, radix as int, false) && 0 <= radix_str_val(
            s@,
            radix as int,
            false,
        ) && radix_str_val(s@, radix as int, false) <= u8::MAX),
        r is Ok ==> (r->Ok_0) as int == radix_str_val(s@, radix as int, false),
{
    <u8 as num_traits::Num>::from_str_radix(s, radix)
}

impl RadixNum for u8 {
    open spec fn min_spec() -> int {
        0
    }

    open spec fn max_spec() -> int {
        u8::MAX as int
    }

    open spec fn value_spec(&self) -> int {
        *self as int
    }

    fn from_radix_digits(s: &str, radix: u32) -> (r: Result<Self, core::num::ParseIntError>) {
        u8_from_str_radix(s, radix)
    }
}

impl NumLiteralTrait for u8 {
    fn parse_literal(text: &str) -> (r: Result<Self, core::num::ParseIntError>) {
        parse_literal_generic::<u8>(text)
    }

    fn parse_literal_fallback(text: &str, fallback: u8) -> (r: u8) {
        parse_literal_fallback_generic::<u8>(text, fallback)
    }
}

/// Relies on `num_traits::Num::from_str_radix` for `u16`, which
/// forwards to core's `u16::from_str_radix`: an optional leading `+`
/// sign, then one or more digits of the radix; it fails on an empty
/// digit string, an invalid digit, or a value above `u16::MAX`.
#[verifier::external_body]
fn u16_from_str_radix(s: &str, radix: u32) -> (r: Result<u16, core::num::ParseIntError>)
    requires
        radix == 2 || radix == 8 || radix == 10 || radix == 16,
    ensures
        (r is Ok) <==> (radix_str_ok(s@, radix as int, false) && 0 <= radix_str_val(
            s@,
            radix as int,
            false,
        ) && radix_str_val(s@, radix as int, false) <= u16::MAX),
        r is Ok ==> (r->Ok_0) as int == radix_str_val(s@, radix as int, false),
{
    <u16 as num_traits::Num>::from_str_radix(s, radix)
}

impl RadixNum for u16 {
    open spec fn min_spec() -> int {
        0
    }

    open spec fn max_spec() -> int {
        u16::MAX as int
    }

    open spec fn value_spec(&self) -> int {
        *self as int
    }

    fn from_radix_digits(s: &str, radix: u32) -> (r: Result<Self, core::num::ParseIntError>) {
        u16_from_str_radix(s, radix)
    }
}

impl NumLiteralTrait for u16 {
    fn parse_literal(text: &str) -> (r: Result<Self, core::num::ParseIntError>) {
        parse_literal_generic::<u16>(text)
    }

    fn parse_literal_fallback(text: &str, fallback: u16) -> (r: u16) {
        parse_literal_fallback_generic::<u16>(text, fallback)
    }
}

/// Relies on `num_traits::Num::from_str_radix` for `u64`, which
/// forwards to core's `u64::from_str_radix`: an optional leading `+`
/// sign, then one or more digits of the radix; it fails on an empty
/// digit string, an invalid digit, or a value above `u64::MAX`.
#[verifier::external_body]
fn u64_from_str_radix(s: &str, radix: u32) -> (r: Result<u64, core::num::ParseIntError>)
    requires
        radix == 2 || radix == 8 || radix == 10 || radix == 16,
    ensures
        (r is Ok) <==> (radix_str_ok(s@, radix as int, false) && 0 <= radix_str_val(
            s@,
            radix as int,
            false,
        ) && radix_str_val(s@, radix as int, false) <= u64::MAX),
        r is Ok ==> (r->Ok_0) as int == radix_str_val(s@, radix as int, false),
{
    <u64 as num_traits::Num>::from_str_radix(s, radix)
}

impl RadixNum for u64 {
    open spec fn min_spec() -> int {
        0
    }

    open spec fn max_spec() -> int {
        u64::MAX as int
    }

    open spec fn value_spec(&self) -> int {
        *self as int
    }

    fn from_radix_digits(s: &str, radix: u32) -> (r: Result<Self, core::num::ParseIntError>) {
        u64_from_str_radix(s, radix)
    }
}

impl NumLiteralTrait for u64 {
    fn parse_literal(text: &str) -> (r: Result<Self, core::num::ParseIntError>) {
        parse_literal_generic::<u64>(text)
    }

    fn parse_literal_fallback(text: &str, fallback: u64) -> (r: u64) {
        parse_literal_fallback_generic::<u64>(text, fallback)
    }
}

/// Relies on `num_traits::Num::from_str_radix` for `i32`, which
/// forwards to core's `i32::from_str_radix`: an optional leading `+` or
/// `-` sign, then one or more digits of the radix; it fails on an empty
/// digit string, an invalid digit, or a value outside `i32`'s range.
#[verifier::external_body]
fn i32_from_str_radix(s: &str, radix: u32) -> (r: Result<i32, core::num::ParseIntError>)
    requires
        radix == 2 || radix == 8 || radix == 10 || radix == 16,
    ensures
        (r is Ok) <==> (radix_str_ok(s@, radix as int, true) && i32::MIN <= radix_str_val(
            s@,
            radix as int,
            true,
        ) && radix_str_val(s@, radix as int, true) <= i32::MAX),
        r is Ok ==> (r->Ok_0) as int == radix_str_val(s@, radix as int, true),
{
    <i32 as num_traits::Num>::from_str_radix(s, radix)
}

impl RadixNum for i32 {
    open spec fn min_spec() -> int {
        i32::MIN as int
    }

    open spec fn max_spec() -> int {
        i32::MAX as int
    }

    open spec fn value_spec(&self) -> int {
        *self as int
    }

    fn from_radix_digits(s: &str, radix: u32) -> (r: Result<Self, core::num::ParseIntError>) {
        i32_from_str_radix(s, radix)
    }
}

impl NumLiteralTrait for i32 {
    fn parse_literal(text: &str) -> (r: Result<Self, core::num::ParseIntError>) {
        parse_literal_generic::<i32>(text)
    }

    fn parse_literal_fallback(text: &str, fallback: i32) -> (r: i32) {
        parse_literal_fallback_generic::<i32>(text, fallback)
    }
}

/// Relies on `num_traits::Num::from_str_radix` for `i64`, which
/// forwards to core's `i64::from_str_radix`: an optional leading `+` or
/// `-` sign, then one or more digits of the radix; it fails on an empty
/// digit string, an invalid digit, or a value outside `i64`'s range.
#[verifier::external_body]
fn i64_from_str_radix(s: &str, radix: u32) -> (r: Result<i64, core::num::ParseIntError>)
    requires
        radix == 2 || radix == 8 || radix == 10 || radix == 16,
    ensures
        (r is Ok) <==> (radix_str_ok(s@, radix as int, true) && i64::MIN <= radix_str_val(
            s@,
            radix as int,
            true,
        ) && radix_str_val(s@, radix as int, true) <= i64::MAX),
        r is Ok ==> (r->Ok_0) as int == radix_str_val(s@, radix as int, true),
{
    <i64 as num_traits::Num>::from_str_radix(s, radix)
}

impl RadixNum for i64 {
    open spec fn min_spec() -> int {
        i64::MIN as int
    }

    open spec fn max_spec() -> int {
        i64::MAX as int
    }

    open spec fn value_spec(&self) -> int {
        *self as int
    }

    fn from_radix_digits(s: &str, radix: u32) -> (r: Result<Self, core::num::ParseIntError>) {
        i64_from_str_radix(s, radix)
    }
}

impl NumLiteralTrait for i64 {
    fn parse_literal(text: &str) -> (r: Result<Self, core::num::ParseIntError>) {
        parse_literal_generic::<i64>(text)
    }

    fn parse_literal_fallback(text: &str, fallback: i64) -> (r: i64) {
        parse_literal_fallback_generic::<i64>(text, fallback)
    }
}

} // verus!
