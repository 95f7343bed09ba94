//! Reading literals back: what a parser of the usual kind makes of the text
//! of a number, of a truth value or of a UUID.

use crate::decimal::{
    all_digits, decimal_digits, decimal_value, is_digit, lemma_decimal_round_trip,
    lemma_digits_shape, signed_decimal,
};
use vstd::prelude::*;

verus! {

/// Reads an integer literal: an optional minus sign, then one digit or
/// more. Anything else is no integer.
pub open spec fn parse_integer(text: Seq<char>) -> Option<int> {
    if text.len() > 0 && text[0] == '-' {
        let digits = text.subrange(1, text.len() as int);
        if digits.len() > 0 && all_digits(digits) {
            Some(-(decimal_value(digits) as int))
        } else {
            None
        }
    } else if text.len() > 0 && all_digits(text) {
        Some(decimal_value(text) as int)
    } else {
        None
    }
}

/// Reading the notation of a signed number gives the number back.
pub proof fn lemma_signed_round_trip(v: int)
    ensures
        parse_integer(signed_decimal(v)) == Some(v),
{
    let text = signed_decimal(v);
    if v < 0 {
        let n = (-v) as nat;
        lemma_digits_shape(n);
        lemma_decimal_round_trip(n);
        assert(text.subrange(1, text.len() as int) =~= decimal_digits(n));
    } else {
        lemma_digits_shape(v as nat);
        lemma_decimal_round_trip(v as nat);
    }
}

/// Whether `text` is an integer literal, a point at the position `at`, and
/// one digit or more behind it.
pub open spec fn is_point_notation(text: Seq<char>, at: int) -> bool {
    &&& 0 < at < text.len() - 1
    &&& text[at] == '.'
    &&& parse_integer(text.subrange(0, at)) is Some
    &&& all_digits(text.subrange(at + 1, text.len() as int))
}

/// The whole part of a literal with its point at the position `at`.
pub open spec fn whole_part(text: Seq<char>, at: int) -> int {
    parse_integer(text.subrange(0, at))->0
}

/// Reads a truth value.
pub open spec fn parse_boolean(text: Seq<char>) -> Option<bool> {
    if text == "true"@ {
        Some(true)
    } else if text == "false"@ {
        Some(false)
    } else {
        None
    }
}

/// The number that a hexadecimal digit writes, in either case.
pub open spec fn hex_value(c: char) -> Option<nat> {
    if is_digit(c) {
        Some((c as nat - '0' as nat) as nat)
    } else if 'a' <= c && c <= 'f' {
        Some((c as nat - 'a' as nat + 10) as nat)
    } else if 'A' <= c && c <= 'F' {
        Some((c as nat - 'A' as nat + 10) as nat)
    } else {
        None
    }
}

/// Where in the hyphenated form of a UUID the `k`-th of its 32 hexadecimal
/// digits stands.
pub open spec fn uuid_digit_position(k: int) -> int {
    if k < 8 {
        k
    } else if k < 12 {
        k + 1
    } else if k < 16 {
        k + 2
    } else if k < 20 {
        k + 3
    } else {
        k + 4
    }
}

/// Reads the hyphenated form of a UUID: five groups of 8, 4, 4, 4 and 12
/// hexadecimal digits with hyphens between them. The result is the 32
/// digits as numbers.
pub open spec fn parse_uuid(text: Seq<char>) -> Option<Seq<nat>> {
    if text.len() == 36 && text[8] == '-' && text[13] == '-' && text[18] == '-' && text[23] == '-'
        && (forall|k: int|
        0 <= k < 32 ==> hex_value(#[trigger] text[uuid_digit_position(k)]) is Some) {
        Some(Seq::new(32, |k: int| hex_value(text[uuid_digit_position(k)])->0))
    } else {
        None
    }
}

} // verus!
