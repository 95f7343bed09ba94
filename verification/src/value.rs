//! The value generator: which literal is written for a column in a row.
//!
//! A column marked unique gets a literal that is derived from the row index;
//! any other column gets a random one. Which of the two is asked for, and of
//! which type, alone decides whether the request fails: chance has no part
//! in that.

use crate::decimal::{
    all_digits, decimal_digits, decimal_string, digit_count, lemma_digits_shape,
    signed_decimal, signed_string, write_decimal, write_signed,
};
use crate::error::{ErrorKind, GenerateError};
use crate::laws::{
    random_boolean_parses, random_integer_parses, random_uuid_parses, unique_number_parses,
};
use crate::model::{
    integer_high, integer_low, is_integer_type, Column, ColumnModel, ColumnType,
};
use crate::parse::{parse_boolean, parse_integer, parse_uuid};
use crate::random::{
    is_clock_time, is_iso_date, is_sentence, is_uuid_text, random_alphanumeric, random_below,
    random_bool, random_date, random_i16, random_i32, random_i64, random_sentence, random_time,
    random_u16, random_u32, random_uuid,
};
use crate::text::{all_alphanumeric, quote, quoted};
use vstd::prelude::*;
use vstd::string::StringExecFns;

verus! {

/// A random timestamp is a number of seconds since 1970 below this one, the
/// first second of the year 2100.
pub const TIMESTAMP_LIMIT: u32 = 4_102_444_800;

/// What stands between the first and the last character of `text`.
pub open spec fn unquoted(text: Seq<char>) -> Seq<char> {
    text.subrange(1, text.len() - 1)
}

/// Whether `text` is something between two single quotes.
pub open spec fn is_quoted(text: Seq<char>) -> bool {
    text.len() >= 2 && text == quoted(unquoted(text))
}

/// The literal of an integer between `low` and `high`.
pub open spec fn is_integer_literal(text: Seq<char>, low: int, high: int) -> bool {
    exists|v: int| low <= v <= high && text == #[trigger] signed_decimal(v)
}

/// A whole part, a point, and a fraction written as a number of its own.
pub open spec fn fraction_text(whole: int, fraction: nat) -> Seq<char> {
    signed_decimal(whole) + seq!['.'] + decimal_digits(fraction)
}

/// The literal of a number with a whole part between `low` and `high` and a
/// fraction written as a number of at most `limit`.
pub open spec fn is_fraction_literal(text: Seq<char>, low: int, high: int, limit: nat) -> bool {
    exists|whole: int, fraction: nat|
        low <= whole <= high && fraction <= limit && text == #[trigger] fraction_text(
            whole,
            fraction,
        )
}

/// How many digits a decimal of the given precision and scale has behind the
/// point: the scale, but never more than the precision allows.
pub open spec fn fraction_places(precision: nat, scale: nat) -> nat {
    if scale <= precision {
        scale
    } else {
        precision
    }
}

/// How many digits a decimal of the given precision and scale has before
/// the point: what the precision leaves, and a single zero where it leaves
/// nothing.
pub open spec fn whole_places(precision: nat, scale: nat) -> nat {
    if precision - fraction_places(precision, scale) >= 1 {
        (precision - fraction_places(precision, scale)) as nat
    } else {
        1
    }
}

/// The literal of a decimal with the given precision and scale: as many
/// digits before the point as the precision leaves room for (a lone `0`
/// where it leaves none), then, where there are any, a point and the digits
/// of the fraction.
pub open spec fn is_scaled_decimal(text: Seq<char>, precision: nat, scale: nat) -> bool {
    let whole = whole_places(precision, scale);
    let fraction = fraction_places(precision, scale);
    if fraction == 0 {
        &&& text.len() == whole
        &&& all_digits(text)
        &&& precision == 0 ==> text[0] == '0'
    } else {
        &&& text.len() == whole + 1 + fraction
        &&& all_digits(text.subrange(0, whole as int))
        &&& precision == fraction ==> text[0] == '0'
        &&& text[whole as int] == '.'
        &&& all_digits(text.subrange(whole as int + 1, text.len() as int))
    }
}

/// A quoted run of between `min` and `max` letters and digits.
pub open spec fn is_filler_literal(text: Seq<char>, min: nat, max: nat) -> bool {
    &&& is_quoted(text)
    &&& min <= unquoted(text).len() <= max
    &&& all_alphanumeric(unquoted(text))
}

/// `len`, and one where `len` is less than one: the length of a run of
/// characters that may not be empty.
pub open spec fn at_least_one(len: int) -> nat {
    if len >= 1 {
        len as nat
    } else {
        1
    }
}

/// Why no random value can be made for a decimal type, if none can: it
/// gives one of precision and scale without the other.
pub open spec fn decimal_error(precision: Option<usize>, scale: Option<usize>) -> Option<
    ErrorKind,
> {
    if (precision is Some) != (scale is Some) {
        Some(ErrorKind::InvalidDecimalSpec)
    } else {
        None
    }
}

/// What a random decimal literal looks like: with precision and scale, a
/// number of that many digits; with neither, a 32-bit whole part and a
/// 16-bit fraction.
pub open spec fn decimal_literal(
    precision: Option<usize>,
    scale: Option<usize>,
    text: Seq<char>,
) -> bool {
    match (precision, scale) {
        (Some(p), Some(s)) => is_scaled_decimal(text, p as nat, s as nat),
        (None, None) => is_fraction_literal(text, 0, u32::MAX as int, u16::MAX as nat),
        _ => false,
    }
}

/// Why no random value can be made for a type, if none can.
pub open spec fn random_error(typ: ColumnType) -> Option<ErrorKind> {
    match typ {
        ColumnType::SmallSerial | ColumnType::Serial | ColumnType::BigSerial => Some(
            ErrorKind::GeneratedColumnMisuse,
        ),
        ColumnType::Money | ColumnType::Bytea | ColumnType::Interval | ColumnType::Bit(_) => Some(
            ErrorKind::UnsupportedRandomType,
        ),
        ColumnType::Decimal(precision, scale) => decimal_error(precision, scale),
        _ => None,
    }
}

/// What a random literal of a type looks like, for the types that have
/// one:
///
/// * of an integer type, a number within the range of the type;
/// * of a real or a double, a number with a point, whose whole part fits
///   into 32 or 64 bits;
/// * of a decimal, what `decimal_literal` says;
/// * of a char, exactly as many letters and digits as its length says,
///   between quotes;
/// * of a varchar, one letter or digit at least and no more than its length
///   says, between quotes;
/// * of a text, a sentence between quotes;
/// * of a UUID, a date or a time, its usual form between quotes;
/// * of a boolean, `true` or `false`;
/// * of a timestamp, a number of seconds below `TIMESTAMP_LIMIT`, bare.
pub open spec fn random_literal(typ: ColumnType, text: Seq<char>) -> bool {
    match typ {
        ColumnType::SmallInt => is_integer_literal(text, i16::MIN as int, i16::MAX as int),
        ColumnType::Integer => is_integer_literal(text, i32::MIN as int, i32::MAX as int),
        ColumnType::BigInt => is_integer_literal(text, i64::MIN as int, i64::MAX as int),
        ColumnType::Real => is_fraction_literal(
            text,
            i32::MIN as int,
            i32::MAX as int,
            u16::MAX as nat,
        ),
        ColumnType::Double => is_fraction_literal(
            text,
            i64::MIN as int,
            i64::MAX as int,
            u32::MAX as nat,
        ),
        ColumnType::Decimal(precision, scale) => decimal_literal(precision, scale, text),
        ColumnType::Char(len) => is_filler_literal(text, len as nat, len as nat),
        ColumnType::Varchar(len) => is_filler_literal(text, 1, at_least_one(len as int)),
        ColumnType::Text => is_quoted(text) && is_sentence(unquoted(text)),
        ColumnType::Uuid => is_quoted(text) && is_uuid_text(unquoted(text)),
        ColumnType::Boolean => text == "true"@ || text == "false"@,
        ColumnType::Date => is_quoted(text) && is_iso_date(unquoted(text)),
        ColumnType::Time => is_quoted(text) && is_clock_time(unquoted(text)),
        ColumnType::Timestamp => exists|seconds: nat|
            seconds < TIMESTAMP_LIMIT && text == #[trigger] decimal_digits(seconds),
        _ => false,
    }
}

/// Taking the quotes off what was put between quotes gives it back.
pub proof fn lemma_unquote(body: Seq<char>)
    ensures
        unquoted(quoted(body)) == body,
        is_quoted(quoted(body)),
{
    assert(unquoted(quoted(body)) =~= body);
}

/// The literal of a truth value.
pub fn boolean_literal(value: bool) -> (text: String)
    ensures
        text@ == if value {
            "true"@
        } else {
            "false"@
        },
{
    if value {
        String::from_str("true")
    } else {
        String::from_str("false")
    }
}

/// The literal of a number with a fraction: the whole part, a point, and the
/// fraction written as a number of its own.
pub fn fraction_literal(whole: i64, fraction: u32) -> (text: String)
    ensures
        text@ == fraction_text(whole as int, fraction as nat),
{
    proof {
        reveal_strlit(".");
    }
    let mut text = String::new();
    write_signed(whole, &mut text);
    text.append(".");
    write_decimal(fraction as u64, &mut text);
    text
}

/// A text of `count` random digits.
pub fn random_digits(count: usize) -> (text: String)
    ensures
        text@.len() == count,
        all_digits(text@),
{
    let mut text = String::new();
    let mut written: usize = 0;
    while written < count
        invariant
            written <= count,
            text@.len() == written,
            all_digits(text@),
        decreases count - written,
    {
        let digit = random_below(10);
        write_decimal(digit as u64, &mut text);
        proof {
            lemma_digits_shape(digit as nat);
        }
        written = written + 1;
    }
    text
}

/// A random decimal literal of the given precision and scale.
pub fn scaled_decimal(precision: usize, scale: usize) -> (text: String)
    ensures
        is_scaled_decimal(text@, precision as nat, scale as nat),
{
    let fraction = if scale <= precision {
        scale
    } else {
        precision
    };
    let whole = precision - fraction;
    let mut text = if whole == 0 {
        proof {
            reveal_strlit("0");
        }
        String::from_str("0")
    } else {
        random_digits(whole)
    };
    if fraction > 0 {
        proof {
            reveal_strlit(".");
        }
        text.append(".");
        let digits = random_digits(fraction);
        text.append(digits.as_str());
    }
    text
}

/// A random literal for a decimal column. Precision and scale are given
/// both or neither: one without the other is refused.
pub fn generate_decimal(precision: Option<usize>, scale: Option<usize>) -> (result: Result<
    String,
    ErrorKind,
>)
    ensures
        match result {
            Ok(text) => decimal_error(precision, scale) is None && decimal_literal(
                precision,
                scale,
                text@,
            ),
            Err(kind) => decimal_error(precision, scale) == Some(kind),
        },
{
    match (precision, scale) {
        (None, None) => {
            let whole = random_u32();
            let fraction = random_u16();
            Ok(fraction_literal(whole as i64, fraction as u32))
        },
        (Some(p), Some(s)) => Ok(scaled_decimal(p, s)),
        _ => Err(ErrorKind::InvalidDecimalSpec),
    }
}

/// A random literal of the given type. The serial types have none, since
/// the database numbers them by itself, and some other types have none yet.
/// What is made for an integer type, for a boolean or for a UUID reads back
/// as a value of that type.
pub fn generate_random_value(column_type: ColumnType) -> (result: Result<String, ErrorKind>)
    requires
        column_type.representable(),
    ensures
        match result {
            Ok(text) => random_error(column_type) is None && random_literal(column_type, text@),
            Err(kind) => random_error(column_type) == Some(kind),
        },
        column_type.serial() ==> result is Err,
        is_integer_type(column_type) ==> {
            &&& result matches Ok(text)
            &&& parse_integer(text@) matches Some(value)
            &&& integer_low(column_type) <= value <= integer_high(column_type)
        },
        column_type is Boolean ==> {
            &&& result matches Ok(text)
            &&& parse_boolean(text@) is Some
        },
        column_type is Uuid ==> {
            &&& result matches Ok(text)
            &&& is_quoted(text@)
            &&& parse_uuid(unquoted(text@)) is Some
        },
{
    let result = match column_type {
        ColumnType::SmallInt => {
            let value = random_i16();
            Ok(signed_string(value as i64))
        },
        ColumnType::Integer => {
            let value = random_i32();
            Ok(signed_string(value as i64))
        },
        ColumnType::BigInt => {
            let value = random_i64();
            Ok(signed_string(value))
        },
        ColumnType::Real => {
            let whole = random_i32();
            let fraction = random_u16();
            Ok(fraction_literal(whole as i64, fraction as u32))
        },
        ColumnType::Double => {
            let whole = random_i64();
            let fraction = random_u32();
            Ok(fraction_literal(whole, fraction))
        },
        ColumnType::Decimal(precision, scale) => generate_decimal(precision, scale),
        ColumnType::Char(len) => {
            let body = random_alphanumeric(len, len);
            proof {
                lemma_unquote(body@);
            }
            Ok(quote(body.as_str()))
        },
        ColumnType::Varchar(len) => {
            let longest = if len >= 1 {
                len
            } else {
                1
            };
            let body = random_alphanumeric(1, longest);
            proof {
                lemma_unquote(body@);
            }
            Ok(quote(body.as_str()))
        },
        ColumnType::Text => {
            let body = random_sentence();
            proof {
                lemma_unquote(body@);
            }
            Ok(quote(body.as_str()))
        },
        ColumnType::Uuid => {
            let body = random_uuid();
            proof {
                lemma_unquote(body@);
            }
            Ok(quote(body.as_str()))
        },
        ColumnType::Boolean => Ok(boolean_literal(random_bool())),
        ColumnType::Date => {
            let body = random_date();
            proof {
                lemma_unquote(body@);
            }
            Ok(quote(body.as_str()))
        },
        ColumnType::Time => {
            let body = random_time();
            proof {
                lemma_unquote(body@);
            }
            Ok(quote(body.as_str()))
        },
        ColumnType::Timestamp => {
            let seconds = random_below(TIMESTAMP_LIMIT);
            Ok(decimal_string(seconds as u64))
        },
        ColumnType::SmallSerial | ColumnType::Serial | ColumnType::BigSerial => Err(
            ErrorKind::GeneratedColumnMisuse,
        ),
        ColumnType::Money | ColumnType::Bytea | ColumnType::Interval | ColumnType::Bit(_) => Err(
            ErrorKind::UnsupportedRandomType,
        ),
    };
    proof {
        if result is Ok {
            let text = result->Ok_0@;
            if is_integer_type(column_type) {
                random_integer_parses(column_type, text);
            }
            if column_type is Boolean {
                random_boolean_parses(text);
            }
            if column_type is Uuid {
                random_uuid_parses(text);
            }
        }
    }
    result
}

/// Why no unique value can be made for a type in a row, if none can.
pub open spec fn unique_error(typ: ColumnType, row_index: nat) -> Option<ErrorKind> {
    match typ {
        ColumnType::SmallInt
        | ColumnType::Integer
        | ColumnType::BigInt
        | ColumnType::Real
        | ColumnType::Double
        | ColumnType::Text
        | ColumnType::Uuid => None,
        ColumnType::Char(len) | ColumnType::Varchar(len) => if len < decimal_digits(
            row_index,
        ).len() {
            Some(ErrorKind::LengthUnderflow)
        } else {
            None
        },
        _ => Some(ErrorKind::UnsupportedUniqueType),
    }
}

/// Whether `body` ends with the digits of `row_index`.
pub open spec fn is_suffixed(body: Seq<char>, row_index: nat) -> bool {
    let digits = decimal_digits(row_index);
    body.len() >= digits.len() && body.subrange(body.len() - digits.len(), body.len() as int)
        == digits
}

/// What stands in `body` before the digits of `row_index`.
pub open spec fn row_filler(body: Seq<char>, row_index: nat) -> Seq<char> {
    body.subrange(0, body.len() - decimal_digits(row_index).len())
}

/// What a unique literal of a type looks like in a row, for the types that
/// have one:
///
/// * of an integer type, a real or a double, the row index;
/// * of a char, letters and digits and then the row index, together as long
///   as the length says, between quotes;
/// * of a varchar, letters and digits and then the row index, between
///   quotes: as many letters and digits as the length leaves room for
///   beside the row index, and one where it leaves room for none;
/// * of a text, a sentence and then the row index, between quotes;
/// * of a UUID, a random UUID: nothing ties it to the row.
pub open spec fn unique_literal(typ: ColumnType, row_index: nat, text: Seq<char>) -> bool {
    let body = unquoted(text);
    let filler = row_filler(body, row_index);
    match typ {
        ColumnType::SmallInt
        | ColumnType::Integer
        | ColumnType::BigInt
        | ColumnType::Real
        | ColumnType::Double => text == decimal_digits(row_index),
        ColumnType::Char(len) => {
            &&& is_quoted(text)
            &&& is_suffixed(body, row_index)
            &&& body.len() == len
            &&& all_alphanumeric(filler)
        },
        ColumnType::Varchar(len) => {
            &&& is_quoted(text)
            &&& is_suffixed(body, row_index)
            &&& filler.len() == at_least_one(len - decimal_digits(row_index).len())
            &&& all_alphanumeric(filler)
        },
        ColumnType::Text => {
            &&& is_quoted(text)
            &&& is_suffixed(body, row_index)
            &&& is_sentence(filler)
        },
        ColumnType::Uuid => random_literal(ColumnType::Uuid, text),
        _ => false,
    }
}

/// A filler followed by the digits of a row index ends with those digits,
/// and what stands before them is the filler.
pub proof fn lemma_suffixed(filler: Seq<char>, row_index: nat)
    ensures
        is_suffixed(filler + decimal_digits(row_index), row_index),
        row_filler(filler + decimal_digits(row_index), row_index) == filler,
{
    let digits = decimal_digits(row_index);
    let body = filler + digits;
    assert(body.subrange(body.len() - digits.len(), body.len() as int) =~= digits);
}

/// The quoted literal that ends with the digits of `row_index`, behind
/// `filler`.
pub fn suffixed_literal(filler: &str, row_index: u32) -> (text: String)
    ensures
        text@ == quoted(filler@ + decimal_digits(row_index as nat)),
{
    let mut body = String::from_str(filler);
    write_decimal(row_index as u64, &mut body);
    quote(body.as_str())
}

/// The literal of a column of the given type that must differ from row to
/// row. It is derived from the row index alone, so rows can be made in any
/// order.
pub fn generate_unique_value(column_type: ColumnType, row_index: u32) -> (result: Result<
    String,
    ErrorKind,
>)
    requires
        column_type.representable(),
    ensures
        match result {
            Ok(text) => unique_error(column_type, row_index as nat) is None && unique_literal(
                column_type,
                row_index as nat,
                text@,
            ),
            Err(kind) => unique_error(column_type, row_index as nat) == Some(kind),
        },
        column_type.serial() ==> result is Err,
        is_numeric_type(column_type) ==> {
            &&& result matches Ok(text)
            &&& text@ == decimal_digits(row_index as nat)
            &&& parse_integer(text@) == Some(row_index as int)
        },
{
    let result = match column_type {
        ColumnType::SmallInt
        | ColumnType::Integer
        | ColumnType::BigInt
        | ColumnType::Real
        | ColumnType::Double => Ok(decimal_string(row_index as u64)),
        ColumnType::Char(len) => {
            let digits = digit_count(row_index as u64);
            if len < digits {
                Err(ErrorKind::LengthUnderflow)
            } else {
                let filler = random_alphanumeric(len - digits, len - digits);
                proof {
                    lemma_suffixed(filler@, row_index as nat);
                    lemma_unquote(filler@ + decimal_digits(row_index as nat));
                }
                Ok(suffixed_literal(filler.as_str(), row_index))
            }
        },
        ColumnType::Varchar(len) => {
            let digits = digit_count(row_index as u64);
            if len < digits {
                Err(ErrorKind::LengthUnderflow)
            } else {
                let longest = if len - digits >= 1 {
                    len - digits
                } else {
                    1
                };
                let filler = random_alphanumeric(longest, longest);
                proof {
                    lemma_suffixed(filler@, row_index as nat);
                    lemma_unquote(filler@ + decimal_digits(row_index as nat));
                }
                Ok(suffixed_literal(filler.as_str(), row_index))
            }
        },
        ColumnType::Text => {
            let filler = random_sentence();
            proof {
                lemma_suffixed(filler@, row_index as nat);
                lemma_unquote(filler@ + decimal_digits(row_index as nat));
            }
            Ok(suffixed_literal(filler.as_str(), row_index))
        },
        ColumnType::Uuid => generate_random_value(column_type),
        _ => Err(ErrorKind::UnsupportedUniqueType),
    };
    proof {
        if result is Ok && is_numeric_type(column_type) {
            unique_number_parses(column_type, row_index as nat, result->Ok_0@);
        }
    }
    result
}

/// Why no value can be made for a column in a row, if none can: the
/// column is marked generated; or it is marked unique and has no unique
/// value in that row; or it is not and has no random value.
pub open spec fn value_error(column: ColumnModel, row_index: nat) -> Option<ErrorKind> {
    if column.is_generated {
        Some(ErrorKind::GeneratedColumnMisuse)
    } else if column.is_unique {
        unique_error(column.typ, row_index)
    } else {
        random_error(column.typ)
    }
}

/// What the literal of a column looks like in a row.
pub open spec fn value_literal(column: ColumnModel, row_index: nat, text: Seq<char>) -> bool {
    if column.is_unique {
        unique_literal(column.typ, row_index, text)
    } else {
        random_literal(column.typ, text)
    }
}

/// The failure of kind `kind` that came from `column`.
pub open spec fn is_failure_of(error: GenerateError, column: ColumnModel, kind: ErrorKind) -> bool {
    error.kind == kind && error.column@ == column.name && error.typ == column.typ
}

/// The numeric types, whose unique literal is the row index itself.
pub open spec fn is_numeric_type(typ: ColumnType) -> bool {
    is_integer_type(typ) || typ is Real || typ is Double
}

/// The literal to write for `column` in the row `row_index`: a unique one
/// where the column is marked unique, a random one otherwise.
///
/// No value is made for a column that the database fills in. One that is
/// marked generated is refused as such. One of a serial type that is not
/// marked so is refused by the generation that it is handed to: as a type
/// without unique values where the column is marked unique, as a generated
/// column where it is not.
///
/// A unique column of a numeric type gets the row index, whatever chance
/// brings: so its literals differ from row to row.
pub fn generate_value(column: &Column, row_index: u32) -> (result: Result<String, GenerateError>)
    requires
        column.typ.representable(),
    ensures
        match result {
            Ok(text) => value_error(column@, row_index as nat) is None && value_literal(
                column@,
                row_index as nat,
                text@,
            ),
            Err(error) => value_error(column@, row_index as nat) is Some && is_failure_of(
                error,
                column@,
                value_error(column@, row_index as nat)->0,
            ),
        },
        column.is_generated || column.typ.serial() ==> result is Err,
        column.typ.serial() && !column.is_generated ==> {
            &&& result matches Err(error)
            &&& error.kind == if column.is_unique {
                ErrorKind::UnsupportedUniqueType
            } else {
                ErrorKind::GeneratedColumnMisuse
            }
        },
        column.is_unique && !column.is_generated && is_numeric_type(column.typ) ==> {
            &&& result matches Ok(text)
            &&& text@ == decimal_digits(row_index as nat)
        },
{
    if column.is_generated {
        return Err(
            GenerateError {
                kind: ErrorKind::GeneratedColumnMisuse,
                column: column.name.clone(),
                typ: column.typ,
            },
        );
    }
    let made = if column.is_unique {
        generate_unique_value(column.typ, row_index)
    } else {
        generate_random_value(column.typ)
    };
    match made {
        Ok(text) => Ok(text),
        Err(kind) => Err(GenerateError { kind, column: column.name.clone(), typ: column.typ }),
    }
}

} // verus!
