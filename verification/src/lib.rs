//! Parsing of common numeric literal formats.
//!
//! A literal may be binary (`0b100010`), octal (`0723642`), hexadecimal
//! (`0xCAFE`), decimal (`9823642`), or a single-quoted single-byte
//! character (`'A'`). Underscores may separate digit groups and are
//! removed before the digits are interpreted; surrounding whitespace is
//! ignored. The trait [`NumLiteralTrait`] attaches the two entry points
//! to each supported numeric type.

use vstd::prelude::*;

pub mod laws;
pub mod literal_model;
pub mod parse_literal;

use crate::literal_model::{radix_str_ok, radix_str_val, spec_parse_literal};

verus! {

/// Radix-based construction of a numeric type from a digit string, the
/// capability the literal parser is generic over. The type's values
/// span `min_spec()` to `max_spec()`.
pub trait RadixNum: Sized {
    /// The smallest value of the type, as a mathematical integer.
    spec fn min_spec() -> int;

    /// The largest value of the type, as a mathematical integer.
    spec fn max_spec() -> int;

    /// The mathematical integer a value of the type stands for.
    spec fn value_spec(&self) -> int;

    /// Radix-based construction of the type from a digit string: an
    /// optional sign (a minus only for a signed type) followed by one
    /// or more digits of the radix, rejected when the value falls
    /// outside the type's range.
    fn from_radix_digits(s: &str, radix: u32) -> (r: Result<Self, core::num::ParseIntError>)
        requires
            radix == 2 || radix == 8 || radix == 10 || radix == 16,
        ensures
            (r is Ok) <==> (radix_str_ok(s@, radix as int, Self::min_spec() < 0)
                && Self::min_spec() <= radix_str_val(s@, radix as int, Self::min_spec() < 0)
                && radix_str_val(s@, radix as int, Self::min_spec() < 0) <= Self::max_spec()),
            r is Ok ==> (r->Ok_0).value_spec() == radix_str_val(
                s@,
                radix as int,
                Self::min_spec() < 0,
            ),
    ;
}

/// String parsing of numeric literals, attached to each numeric type
/// that supports radix-based construction.
pub trait NumLiteralTrait: RadixNum {
    /// Determine the literal type, then convert to a number value or
    /// return the radix parser's error: exactly the value that the
    /// model [`spec_parse_literal`] gives, an error exactly when it
    /// gives none.
    fn parse_literal(text: &str) -> (r: Result<Self, core::num::ParseIntError>)
        ensures
            match spec_parse_literal(text@, Self::min_spec(), Self::max_spec()) {
                Some(v) => r is Ok && (r->Ok_0).value_spec() == v,
                None => r is Err,
            },
    ;

    /// Determine the literal type, then convert to a number value or
    /// return the provided fallback if the parsing fails.
    fn parse_literal_fallback(text: &str, fallback: Self) -> (r: Self)
        ensures
            match spec_parse_literal(text@, Self::min_spec(), Self::max_spec()) {
                Some(v) => r.value_spec() == v,
                None => r == fallback,
            },
    ;
}

} // verus!
