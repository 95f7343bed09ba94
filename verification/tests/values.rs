use dsg::error::ErrorKind;
use dsg::model::{Column, ColumnType};
use dsg::value::{
    boolean_literal, fraction_literal, generate_decimal, generate_random_value,
    generate_unique_value, generate_value, random_digits, scaled_decimal, suffixed_literal,
    TIMESTAMP_LIMIT,
};

const ROUNDS: usize = 200;

fn unquote(text: &str) -> &str {
    assert!(text.len() >= 2, "too short to be quoted: {}", text);
    assert!(text.starts_with('\''), "no opening quote: {}", text);
    assert!(text.ends_with('\''), "no closing quote: {}", text);
    &text[1..text.len() - 1]
}

fn is_alphanumeric(text: &str) -> bool {
    text.chars().all(|c| c.is_ascii_alphanumeric())
}

fn is_digits(text: &str) -> bool {
    !text.is_empty() && text.chars().all(|c| c.is_ascii_digit())
}

fn named(name: &str, typ: ColumnType, is_unique: bool, is_generated: bool) -> Column {
    Column {
        name: name.to_string(),
        typ,
        annotation: None,
        is_generated,
        is_unique,
        is_nullable: false,
        foreign_key: None,
    }
}

#[test]
fn boolean_literal_of_both_values() {
    assert_eq!(boolean_literal(true), "true");
    assert_eq!(boolean_literal(false), "false");
}

#[test]
fn fraction_literal_joins_with_a_point() {
    assert_eq!(fraction_literal(0, 0), "0.0");
    assert_eq!(fraction_literal(-5, 42), "-5.42");
    assert_eq!(fraction_literal(4294967295, 65535), "4294967295.65535");
    assert_eq!(fraction_literal(i64::MIN, u32::MAX), "-9223372036854775808.4294967295");
}

#[test]
fn suffixed_literal_ends_with_the_row() {
    assert_eq!(suffixed_literal("ab", 15), "'ab15'");
    assert_eq!(suffixed_literal("", 7), "'7'");
    assert_eq!(suffixed_literal("Lorem ipsum.", 1000), "'Lorem ipsum.1000'");
}

#[test]
fn a_filler_that_ends_in_a_digit_can_hide_the_row() {
    assert_eq!(suffixed_literal("1", 5), suffixed_literal("", 15));
    assert_ne!(suffixed_literal("a", 5), suffixed_literal("", 15));
    assert_ne!(suffixed_literal("1", 5), suffixed_literal("1", 6));
}

#[test]
fn random_digits_have_the_length_asked_for() {
    assert_eq!(random_digits(0), "");
    for count in [1usize, 2, 17, 300] {
        let text = random_digits(count);
        assert_eq!(text.len(), count);
        assert!(is_digits(&text));
    }
}

#[test]
fn scaled_decimal_has_whole_and_fraction() {
    for _ in 0..ROUNDS {
        let text = scaled_decimal(5, 2);
        assert_eq!(text.len(), 6);
        assert!(is_digits(&text[..3]));
        assert_eq!(&text[3..4], ".");
        assert!(is_digits(&text[4..]));
    }
}

#[test]
fn scaled_decimal_without_room_before_the_point() {
    for _ in 0..ROUNDS {
        let text = scaled_decimal(2, 2);
        assert_eq!(text.len(), 4);
        assert!(text.starts_with("0."));
        assert!(is_digits(&text[2..]));
    }
}

#[test]
fn scaled_decimal_without_scale_is_whole() {
    for _ in 0..ROUNDS {
        let text = scaled_decimal(3, 0);
        assert_eq!(text.len(), 3);
        assert!(is_digits(&text));
    }
}

#[test]
fn scaled_decimal_of_no_precision_is_zero() {
    assert_eq!(scaled_decimal(0, 0), "0");
    assert_eq!(scaled_decimal(0, 4), "0");
}

#[test]
fn scaled_decimal_never_exceeds_the_precision() {
    for _ in 0..ROUNDS {
        let text = scaled_decimal(3, 7);
        assert_eq!(text.len(), 5);
        assert!(text.starts_with("0."));
        assert!(is_digits(&text[2..]));
    }
}

#[test]
fn decimal_without_precision_and_scale() {
    for _ in 0..ROUNDS {
        let text = generate_decimal(None, None).unwrap();
        let (whole, fraction) = text.split_once('.').unwrap();
        assert_eq!(whole.parse::<u32>().unwrap().to_string(), whole);
        assert_eq!(fraction.parse::<u16>().unwrap().to_string(), fraction);
    }
}

#[test]
fn decimal_with_precision_and_scale() {
    let text = generate_decimal(Some(10), Some(4)).unwrap();
    assert_eq!(text.len(), 11);
    assert_eq!(&text[6..7], ".");
}

#[test]
fn decimal_with_one_of_precision_and_scale_is_refused() {
    assert_eq!(generate_decimal(Some(8), None), Err(ErrorKind::InvalidDecimalSpec));
    assert_eq!(generate_decimal(None, Some(2)), Err(ErrorKind::InvalidDecimalSpec));
    assert_eq!(
        generate_random_value(ColumnType::Decimal(Some(8), None)),
        Err(ErrorKind::InvalidDecimalSpec)
    );
}

#[test]
fn random_small_integers_are_in_range() {
    for _ in 0..ROUNDS {
        let text = generate_random_value(ColumnType::SmallInt).unwrap();
        assert_eq!(text.parse::<i16>().unwrap().to_string(), text);
    }
}

#[test]
fn random_integers_are_in_range() {
    for _ in 0..ROUNDS {
        let text = generate_random_value(ColumnType::Integer).unwrap();
        assert_eq!(text.parse::<i32>().unwrap().to_string(), text);
    }
}

#[test]
fn random_big_integers_are_in_range() {
    for _ in 0..ROUNDS {
        let text = generate_random_value(ColumnType::BigInt).unwrap();
        assert_eq!(text.parse::<i64>().unwrap().to_string(), text);
    }
}

#[test]
fn random_integers_vary() {
    let mut seen = std::collections::HashSet::new();
    for _ in 0..ROUNDS {
        seen.insert(generate_random_value(ColumnType::BigInt).unwrap());
    }
    assert!(seen.len() > 1);
}

#[test]
fn random_reals_read_as_numbers() {
    for _ in 0..ROUNDS {
        let text = generate_random_value(ColumnType::Real).unwrap();
        let (whole, fraction) = text.split_once('.').unwrap();
        assert_eq!(whole.parse::<i32>().unwrap().to_string(), whole);
        assert_eq!(fraction.parse::<u16>().unwrap().to_string(), fraction);
        assert!(text.parse::<f32>().unwrap().is_finite());
    }
}

#[test]
fn random_doubles_read_as_numbers() {
    for _ in 0..ROUNDS {
        let text = generate_random_value(ColumnType::Double).unwrap();
        let (whole, fraction) = text.split_once('.').unwrap();
        assert_eq!(whole.parse::<i64>().unwrap().to_string(), whole);
        assert_eq!(fraction.parse::<u32>().unwrap().to_string(), fraction);
        assert!(text.parse::<f64>().unwrap().is_finite());
    }
}

#[test]
fn random_chars_have_the_exact_length() {
    for len in [0usize, 1, 3, 64] {
        for _ in 0..20 {
            let text = generate_random_value(ColumnType::Char(len)).unwrap();
            let body = unquote(&text);
            assert_eq!(body.len(), len);
            assert!(is_alphanumeric(body));
        }
    }
}

#[test]
fn random_varchars_stay_within_the_length() {
    let mut lengths = std::collections::HashSet::new();
    for _ in 0..ROUNDS {
        let text = generate_random_value(ColumnType::Varchar(10)).unwrap();
        let body = unquote(&text);
        assert!(1 <= body.len() && body.len() <= 10);
        assert!(is_alphanumeric(body));
        lengths.insert(body.len());
    }
    assert!(lengths.len() > 1);
}

#[test]
fn random_varchars_have_a_character_at_least() {
    for len in [0usize, 1] {
        for _ in 0..20 {
            let text = generate_random_value(ColumnType::Varchar(len)).unwrap();
            assert_eq!(unquote(&text).len(), 1);
        }
    }
}

#[test]
fn random_text_is_a_quoted_sentence() {
    for _ in 0..ROUNDS {
        let text = generate_random_value(ColumnType::Text).unwrap();
        let body = unquote(&text);
        assert!(body.ends_with('.'));
        assert!(body.chars().all(|c| c.is_ascii_lowercase() || c == ' ' || c == '.'));
        assert!(body.len() > 1);
    }
}

#[test]
fn random_uuids_read_as_version_four() {
    for _ in 0..ROUNDS {
        let text = generate_random_value(ColumnType::Uuid).unwrap();
        let body = unquote(&text);
        assert_eq!(body.len(), 36);
        let id = uuid::Uuid::parse_str(body).unwrap();
        assert_eq!(id.get_version_num(), 4);
        assert_eq!(id.get_variant(), uuid::Variant::RFC4122);
        assert_eq!(id.hyphenated().to_string(), body);
    }
}

#[test]
fn random_booleans_read_as_truth_values() {
    let mut seen = std::collections::HashSet::new();
    for _ in 0..ROUNDS {
        let text = generate_random_value(ColumnType::Boolean).unwrap();
        seen.insert(text.parse::<bool>().unwrap());
    }
    assert_eq!(seen.len(), 2);
}

#[test]
fn random_dates_read_as_dates() {
    for _ in 0..ROUNDS {
        let text = generate_random_value(ColumnType::Date).unwrap();
        let body = unquote(&text);
        assert_eq!(body.len(), 10);
        let date = chrono::NaiveDate::parse_from_str(body, "%Y-%m-%d").unwrap();
        assert_eq!(date.format("%Y-%m-%d").to_string(), body);
        let year: u32 = body[..4].parse().unwrap();
        assert!(1 <= year && year <= 2999);
    }
}

#[test]
fn random_times_read_as_times() {
    for _ in 0..ROUNDS {
        let text = generate_random_value(ColumnType::Time).unwrap();
        let body = unquote(&text);
        assert_eq!(body.len(), 8);
        let time = chrono::NaiveTime::parse_from_str(body, "%H:%M:%S").unwrap();
        assert_eq!(time.format("%H:%M:%S").to_string(), body);
    }
}

#[test]
fn random_timestamps_stay_below_the_limit() {
    assert_eq!(TIMESTAMP_LIMIT, 4102444800);
    for _ in 0..ROUNDS {
        let text = generate_random_value(ColumnType::Timestamp).unwrap();
        let seconds = text.parse::<u32>().unwrap();
        assert!(seconds < TIMESTAMP_LIMIT);
        assert_eq!(seconds.to_string(), text);
    }
}

#[test]
fn random_values_of_serial_types_are_refused() {
    for typ in [ColumnType::SmallSerial, ColumnType::Serial, ColumnType::BigSerial] {
        assert_eq!(generate_random_value(typ), Err(ErrorKind::GeneratedColumnMisuse));
    }
}

#[test]
fn random_values_of_unsupported_types_are_refused() {
    for typ in [ColumnType::Money, ColumnType::Bytea, ColumnType::Interval, ColumnType::Bit(8)] {
        assert_eq!(generate_random_value(typ), Err(ErrorKind::UnsupportedRandomType));
    }
}

#[test]
fn unique_numbers_are_the_row_index() {
    for typ in [
        ColumnType::SmallInt,
        ColumnType::Integer,
        ColumnType::BigInt,
        ColumnType::Real,
        ColumnType::Double,
    ] {
        for row in [0u32, 1, 9, 10, 32768, 1000000, u32::MAX] {
            assert_eq!(generate_unique_value(typ, row).unwrap(), row.to_string());
        }
    }
}

#[test]
fn unique_chars_are_padded_on_the_left() {
    for _ in 0..ROUNDS {
        let text = generate_unique_value(ColumnType::Char(5), 42).unwrap();
        let body = unquote(&text);
        assert_eq!(body.len(), 5);
        assert!(body.ends_with("42"));
        assert!(is_alphanumeric(&body[..3]));
    }
}

#[test]
fn unique_chars_that_the_row_fills() {
    assert_eq!(generate_unique_value(ColumnType::Char(2), 42).unwrap(), "'42'");
    assert_eq!(generate_unique_value(ColumnType::Char(10), u32::MAX).unwrap(), "'4294967295'");
}

#[test]
fn unique_chars_too_short_for_the_row() {
    assert_eq!(generate_unique_value(ColumnType::Char(1), 42), Err(ErrorKind::LengthUnderflow));
    assert_eq!(generate_unique_value(ColumnType::Char(0), 1), Err(ErrorKind::LengthUnderflow));
    assert_eq!(generate_unique_value(ColumnType::Char(3), 1000), Err(ErrorKind::LengthUnderflow));
    assert!(generate_unique_value(ColumnType::Char(3), 999).is_ok());
}

#[test]
fn unique_varchars_end_with_the_row() {
    let mut fillers = std::collections::HashSet::new();
    for _ in 0..ROUNDS {
        let text = generate_unique_value(ColumnType::Varchar(10), 7).unwrap();
        let body = unquote(&text);
        assert_eq!(body.len(), 10);
        assert!(body.ends_with('7'));
        let filler = &body[..body.len() - 1];
        assert_eq!(filler.len(), 9);
        assert!(is_alphanumeric(filler));
        fillers.insert(filler.to_string());
    }
    assert!(fillers.len() > 1);
}

#[test]
fn unique_varchars_fill_what_the_row_leaves() {
    let cases = [(10usize, 42u32, 8usize), (10, 123456, 4), (7, 123456, 1), (64, 1, 63)];
    for (len, row, filler) in cases {
        for _ in 0..20 {
            let text = generate_unique_value(ColumnType::Varchar(len), row).unwrap();
            let body = unquote(&text);
            let digits = row.to_string();
            assert!(body.ends_with(&digits));
            assert_eq!(body.len(), filler + digits.len());
            assert!(is_alphanumeric(&body[..filler]));
        }
    }
}

#[test]
fn unique_varchars_keep_one_character_of_filler() {
    for _ in 0..20 {
        let text = generate_unique_value(ColumnType::Varchar(2), 42).unwrap();
        let body = unquote(&text);
        assert_eq!(body.len(), 3);
        assert!(body.ends_with("42"));
        let text = generate_unique_value(ColumnType::Varchar(3), 42).unwrap();
        assert_eq!(unquote(&text).len(), 3);
    }
}

#[test]
fn unique_varchars_too_short_for_the_row() {
    assert_eq!(generate_unique_value(ColumnType::Varchar(1), 42), Err(ErrorKind::LengthUnderflow));
    assert_eq!(generate_unique_value(ColumnType::Varchar(0), 0), Err(ErrorKind::LengthUnderflow));
}

#[test]
fn unique_text_ends_with_the_row() {
    for row in [1u32, 10, 12345] {
        let text = generate_unique_value(ColumnType::Text, row).unwrap();
        let body = unquote(&text);
        let digits = row.to_string();
        assert!(body.ends_with(&digits));
        let sentence = &body[..body.len() - digits.len()];
        assert!(sentence.ends_with('.'));
        assert!(sentence.chars().all(|c| c.is_ascii_lowercase() || c == ' ' || c == '.'));
    }
}

#[test]
fn unique_uuids_are_random_uuids() {
    let text = generate_unique_value(ColumnType::Uuid, 3).unwrap();
    assert!(uuid::Uuid::parse_str(unquote(&text)).is_ok());
}

#[test]
fn unique_values_of_other_types_are_refused() {
    for typ in [
        ColumnType::Boolean,
        ColumnType::Date,
        ColumnType::Time,
        ColumnType::Timestamp,
        ColumnType::Decimal(None, None),
        ColumnType::Decimal(Some(4), Some(2)),
        ColumnType::Money,
        ColumnType::Bytea,
        ColumnType::Interval,
        ColumnType::Bit(1),
        ColumnType::SmallSerial,
        ColumnType::Serial,
        ColumnType::BigSerial,
    ] {
        assert_eq!(generate_unique_value(typ, 1), Err(ErrorKind::UnsupportedUniqueType));
    }
}

#[test]
fn unique_literals_of_a_column_differ_from_row_to_row() {
    for typ in [ColumnType::Integer, ColumnType::Double, ColumnType::Text] {
        let mut seen = std::collections::HashSet::new();
        for row in 1..=500u32 {
            assert!(seen.insert(generate_unique_value(typ, row).unwrap()));
        }
    }
    let mut seen = std::collections::HashSet::new();
    for row in 100..=999u32 {
        assert!(seen.insert(generate_unique_value(ColumnType::Char(6), row).unwrap()));
        assert!(seen.insert(generate_unique_value(ColumnType::Varchar(6), row).unwrap()));
    }
}

#[test]
fn value_of_a_unique_column_follows_the_row() {
    let id = named("id", ColumnType::Integer, true, false);
    assert_eq!(generate_value(&id, 17).unwrap(), "17");
}

#[test]
fn value_of_another_column_is_random() {
    let flag = named("flag", ColumnType::Boolean, false, false);
    let text = generate_value(&flag, 17).unwrap();
    assert!(text == "true" || text == "false");
}

#[test]
fn value_of_a_generated_column_is_refused() {
    let stamp = named("stamp", ColumnType::Integer, true, true);
    let error = generate_value(&stamp, 1).unwrap_err();
    assert_eq!(error.kind, ErrorKind::GeneratedColumnMisuse);
    assert_eq!(error.column, "stamp");
    assert_eq!(error.typ, ColumnType::Integer);
}

#[test]
fn value_of_a_serial_column_is_refused() {
    for typ in [ColumnType::SmallSerial, ColumnType::Serial, ColumnType::BigSerial] {
        let id = named("id", typ, false, false);
        let error = generate_value(&id, 1).unwrap_err();
        assert_eq!(error.kind, ErrorKind::GeneratedColumnMisuse);
        assert_eq!(error.column, "id");
        assert_eq!(error.typ, typ);
    }
}

#[test]
fn value_of_a_unique_serial_column_is_refused_as_unique() {
    for typ in [ColumnType::SmallSerial, ColumnType::Serial, ColumnType::BigSerial] {
        let id = named("id", typ, true, false);
        let error = generate_value(&id, 1).unwrap_err();
        assert_eq!(error.kind, ErrorKind::UnsupportedUniqueType);
        assert_eq!(error.column, "id");
        assert_eq!(error.typ, typ);
    }
}

#[test]
fn value_of_a_serial_column_marked_generated_is_refused_as_generated() {
    for typ in [ColumnType::SmallSerial, ColumnType::Serial, ColumnType::BigSerial] {
        for is_unique in [false, true] {
            let id = named("id", typ, is_unique, true);
            let error = generate_value(&id, 1).unwrap_err();
            assert_eq!(error.kind, ErrorKind::GeneratedColumnMisuse);
            assert_eq!(error.typ, typ);
        }
    }
}

#[test]
fn value_of_a_unique_number_is_the_row_index() {
    for typ in [
        ColumnType::SmallInt,
        ColumnType::Integer,
        ColumnType::BigInt,
        ColumnType::Real,
        ColumnType::Double,
    ] {
        let n = named("n", typ, true, false);
        let mut seen = std::collections::HashSet::new();
        for row in [1u32, 2, 9, 10, 11, 99, 100, 32767, 32768, u32::MAX] {
            let text = generate_value(&n, row).unwrap();
            assert_eq!(text, row.to_string());
            assert!(seen.insert(text));
        }
    }
}

#[test]
fn value_errors_carry_the_column() {
    let cash = named("cash", ColumnType::Money, false, false);
    let error = generate_value(&cash, 1).unwrap_err();
    assert_eq!(error.kind, ErrorKind::UnsupportedRandomType);
    assert_eq!(error.column, "cash");
    assert_eq!(error.typ, ColumnType::Money);

    let born = named("born", ColumnType::Date, true, false);
    let error = generate_value(&born, 1).unwrap_err();
    assert_eq!(error.kind, ErrorKind::UnsupportedUniqueType);
    assert_eq!(error.column, "born");

    let code = named("code", ColumnType::Char(3), true, false);
    let error = generate_value(&code, 1000).unwrap_err();
    assert_eq!(error.kind, ErrorKind::LengthUnderflow);
    assert_eq!(error.typ, ColumnType::Char(3));

    let price = named("price", ColumnType::Decimal(Some(8), None), false, false);
    let error = generate_value(&price, 1).unwrap_err();
    assert_eq!(error.kind, ErrorKind::InvalidDecimalSpec);
}
