//! The random material of the generator. Every function here hands the work
//! to the `fake` crate and states what holds of whatever comes back; nothing
//! in this file is proved.

use crate::decimal::{decimal_value, is_digit};
use crate::text::all_alphanumeric;
use fake::faker::chrono::en::{Date, Time};
use fake::faker::lorem::en::Paragraph;
use fake::uuid::UUIDv4;
use fake::{Fake, Faker};
use vstd::prelude::*;

verus! {

/// A lower-case letter, a space or a full stop.
pub open spec fn is_prose(c: char) -> bool {
    ('a' <= c && c <= 'z') || c == ' ' || c == '.'
}

/// The shape of a sentence: lower-case words and spaces, closed by a full
/// stop.
pub open spec fn is_sentence(text: Seq<char>) -> bool {
    &&& text.len() >= 1
    &&& text.last() == '.'
    &&& forall|i: int| 0 <= i < text.len() ==> is_prose(#[trigger] text[i])
}

/// A digit or one of the letters `a` to `f`.
pub open spec fn is_lower_hex(c: char) -> bool {
    is_digit(c) || ('a' <= c && c <= 'f')
}

/// The hyphenated lower-case form of a random (version 4) UUID of the
/// RFC 4122 variant, as in `67e55044-10b1-426f-9247-bb680e5fe0c8`.
pub open spec fn is_uuid_text(text: Seq<char>) -> bool {
    &&& text.len() == 36
    &&& forall|i: int|
        0 <= i < 36 ==> if i == 8 || i == 13 || i == 18 || i == 23 {
            #[trigger] text[i] == '-'
        } else {
            is_lower_hex(text[i])
        }
    &&& text[14] == '4'
    &&& (text[19] == '8' || text[19] == '9' || text[19] == 'a' || text[19] == 'b')
}

/// Whether `year` is a leap year of the Gregorian calendar.
pub open spec fn is_leap_year(year: nat) -> bool {
    year % 4 == 0 && (year % 100 != 0 || year % 400 == 0)
}

/// The number of days of a month.
pub open spec fn days_in_month(year: nat, month: nat) -> nat {
    if month == 2 {
        if is_leap_year(year) {
            29
        } else {
            28
        }
    } else if month == 4 || month == 6 || month == 9 || month == 11 {
        30
    } else {
        31
    }
}

/// A calendar date of the years 1 to 2999 as `YYYY-MM-DD`.
pub open spec fn is_iso_date(text: Seq<char>) -> bool {
    let year = decimal_value(text.subrange(0, 4));
    let month = decimal_value(text.subrange(5, 7));
    let day = decimal_value(text.subrange(8, 10));
    &&& text.len() == 10
    &&& forall|i: int|
        0 <= i < 10 ==> if i == 4 || i == 7 {
            #[trigger] text[i] == '-'
        } else {
            is_digit(text[i])
        }
    &&& 1 <= year <= 2999
    &&& 1 <= month <= 12
    &&& 1 <= day <= days_in_month(year, month)
}

/// A time of day as `HH:MM:SS`.
pub open spec fn is_clock_time(text: Seq<char>) -> bool {
    let hour = decimal_value(text.subrange(0, 2));
    let minute = decimal_value(text.subrange(3, 5));
    let second = decimal_value(text.subrange(6, 8));
    &&& text.len() == 8
    &&& forall|i: int|
        0 <= i < 8 ==> if i == 2 || i == 5 {
            #[trigger] text[i] == ':'
        } else {
            is_digit(text[i])
        }
    &&& hour <= 23
    &&& minute <= 59
    &&& second <= 59
}

/// `Faker.fake::<i16>()`: a random 16-bit signed number. Any value of the
/// type may come back.
#[verifier::external_body]
pub(crate) fn random_i16() -> (value: i16) {
    Faker.fake::<i16>()
}

/// `Faker.fake::<i32>()`: a random 32-bit signed number. Any value of the
/// type may come back.
#[verifier::external_body]
pub(crate) fn random_i32() -> (value: i32) {
    Faker.fake::<i32>()
}

/// `Faker.fake::<i64>()`: a random 64-bit signed number. Any value of the
/// type may come back.
#[verifier::external_body]
pub(crate) fn random_i64() -> (value: i64) {
    Faker.fake::<i64>()
}

/// `Faker.fake::<u16>()`: a random 16-bit unsigned number. Any value of the
/// type may come back.
#[verifier::external_body]
pub(crate) fn random_u16() -> (value: u16) {
    Faker.fake::<u16>()
}

/// `Faker.fake::<u32>()`: a random 32-bit unsigned number. Any value of the
/// type may come back.
#[verifier::external_body]
pub(crate) fn random_u32() -> (value: u32) {
    Faker.fake::<u32>()
}

/// `Faker.fake::<bool>()`: a random truth value.
#[verifier::external_body]
pub(crate) fn random_bool() -> (value: bool) {
    Faker.fake::<bool>()
}

/// `(0..bound).fake::<u32>()`: a random number below `bound`. The crate
/// draws from the half-open range and panics when the range is empty, so
/// `bound` must not be zero.
#[verifier::external_body]
pub(crate) fn random_below(bound: u32) -> (value: u32)
    requires
        bound > 0,
    ensures
        value < bound,
{
    (0..bound).fake::<u32>()
}

/// `(min..=max).fake::<String>()`: the crate draws a length from the closed
/// range and then that many characters, each an ASCII letter or digit. It
/// panics when the range is empty; a length above `isize::MAX` cannot be
/// allocated.
#[verifier::external_body]
pub(crate) fn random_alphanumeric(min: usize, max: usize) -> (text: String)
    requires
        min <= max <= isize::MAX,
    ensures
        min <= text@.len() <= max,
        all_alphanumeric(text@),
{
    (min..=max).fake::<String>()
}

/// `Paragraph(1..2).fake::<String>()`: with this range the crate makes one
/// sentence, of words of its Latin word list with single spaces between
/// them and a full stop at the end.
#[verifier::external_body]
pub(crate) fn random_sentence() -> (text: String)
    ensures
        is_sentence(text@),
{
    Paragraph(1..2).fake::<String>()
}

/// `UUIDv4.fake::<String>()`: sixteen random bytes marked as a version 4
/// UUID of the RFC 4122 variant, written in the hyphenated lower-case form.
#[verifier::external_body]
pub(crate) fn random_uuid() -> (text: String)
    ensures
        is_uuid_text(text@),
{
    UUIDv4.fake::<String>()
}

/// `Date().fake::<String>()`: a random day of a year from 1 to 2999,
/// written by chrono's `%F` format, that is as `YYYY-MM-DD`.
#[verifier::external_body]
pub(crate) fn random_date() -> (text: String)
    ensures
        is_iso_date(text@),
{
    Date().fake::<String>()
}

/// `Time().fake::<String>()`: a random time of day in whole seconds,
/// written by chrono's `%H:%M:%S%.f` format, which leaves the fraction out
/// when it is zero, as it always is here.
#[verifier::external_body]
pub(crate) fn random_time() -> (text: String)
    ensures
        is_clock_time(text@),
{
    Time().fake::<String>()
}

} // verus!
