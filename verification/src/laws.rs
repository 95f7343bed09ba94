//! What holds of every literal and of every statement that the generator
//! can make, proved from the definitions of `value` and `generator`.

use crate::decimal::{
    decimal_digits, is_digit, lemma_decimal_injective, lemma_digits_shape, signed_decimal,
};
use crate::error::ErrorKind;
use crate::generator::{
    column_names, header_text, is_statement, lemma_insertable_members, row_text, rows_match,
    rows_text, statement_text,
};
use crate::model::{
    insertable_columns, insertable_count, insertable_positions, integer_high, integer_low,
    is_integer_type, ColumnModel, ColumnType, TableModel,
};
use crate::parse::{
    is_point_notation, lemma_signed_round_trip, parse_boolean, parse_integer, parse_uuid,
    whole_part,
};
use crate::text::{
    free_of, joined, lemma_occurrences_concat, lemma_occurrences_free,
    lemma_occurrences_single, occurrences,
};
use crate::value::{
    fraction_places, fraction_text, is_numeric_type, is_quoted, is_scaled_decimal, is_suffixed,
    random_error, random_literal, row_filler, unique_error, unique_literal, unquoted,
    value_error, whole_places,
};
use vstd::prelude::*;

verus! {

/// Whether `text` ends with a decimal digit.
pub open spec fn ends_in_digit(text: Seq<char>) -> bool {
    text.len() > 0 && is_digit(text.last())
}

/// Whether the unique literal `text` of the row `row_index` cannot be
/// taken for that of a row with more digits: the type is none that puts a
/// random filler before the row's digits, or the filler does not end in a
/// digit.
pub open spec fn has_clear_suffix(typ: ColumnType, row_index: nat, text: Seq<char>) -> bool {
    (typ is Char || typ is Varchar) ==> !ends_in_digit(row_filler(unquoted(text), row_index))
}

/// A text that ends with the digits of two different rows has a digit
/// before the shorter of the two.
proof fn lemma_two_suffixes(body: Seq<char>, i: nat, j: nat)
    requires
        i != j,
        is_suffixed(body, i),
        is_suffixed(body, j),
    ensures
        decimal_digits(i).len() < decimal_digits(j).len() ==> ends_in_digit(row_filler(body, i)),
        decimal_digits(j).len() < decimal_digits(i).len() ==> ends_in_digit(row_filler(body, j)),
        decimal_digits(i).len() != decimal_digits(j).len(),
{
    let di = decimal_digits(i);
    let dj = decimal_digits(j);
    let n = body.len() as int;
    lemma_digits_shape(i);
    lemma_digits_shape(j);
    if di.len() == dj.len() {
        lemma_decimal_injective(i, j);
    } else if di.len() < dj.len() {
        let at = n - di.len() - 1;
        assert(body.subrange(n - dj.len(), n)[at - (n - dj.len())] == body[at]);
    } else {
        let at = n - dj.len() - 1;
        assert(body.subrange(n - di.len(), n)[at - (n - di.len())] == body[at]);
    }
}

/// The literals that a unique column gets in two different rows differ.
///
/// This holds of every type that has unique values but the UUID, whose
/// unique values are random ones. For the character types with a length the
/// filler before the row's digits is random letters and digits, and a
/// filler that ends in a digit can make the literal of one row read as that
/// of a row with more digits: `'15'` is the row 15, and the row 5 behind the
/// filler `1`. So of two rows with unequally many digits the law takes the
/// literal of the one with fewer digits to have a filler that does not end
/// in a digit.
pub proof fn unique_literals_differ(
    typ: ColumnType,
    first_row: nat,
    second_row: nat,
    first: Seq<char>,
    second: Seq<char>,
)
    requires
        first_row != second_row,
        unique_literal(typ, first_row, first),
        unique_literal(typ, second_row, second),
        !(typ is Uuid),
        decimal_digits(first_row).len() < decimal_digits(second_row).len() ==> has_clear_suffix(
            typ,
            first_row,
            first,
        ),
        decimal_digits(second_row).len() < decimal_digits(first_row).len() ==> has_clear_suffix(
            typ,
            second_row,
            second,
        ),
    ensures
        first != second,
{
    if first == second {
        match typ {
            ColumnType::Char(_) | ColumnType::Varchar(_) | ColumnType::Text => {
                lemma_two_suffixes(unquoted(first), first_row, second_row);
            },
            _ => {
                lemma_decimal_injective(first_row, second_row);
            },
        }
    }
}

/// The literals that a unique column of a numeric type gets in two
/// different rows differ, whatever chance brings: each is its row index.
pub proof fn unique_numbers_differ(
    typ: ColumnType,
    first_row: nat,
    second_row: nat,
    first: Seq<char>,
    second: Seq<char>,
)
    requires
        is_numeric_type(typ),
        first_row != second_row,
        unique_literal(typ, first_row, first),
        unique_literal(typ, second_row, second),
    ensures
        first == decimal_digits(first_row),
        second == decimal_digits(second_row),
        first != second,
{
    if first == second {
        lemma_decimal_injective(first_row, second_row);
    }
}

/// No value is made for a column of a serial type, however it is asked
/// for. Random generation refuses it as a column that the database fills
/// in, unique generation as a type without unique values; asked for the
/// value of such a column, the generator answers as the one of the two
/// does to which the column goes, unless the column is marked generated.
pub proof fn serial_is_refused(column: ColumnModel, row_index: nat)
    requires
        column.typ.serial(),
    ensures
        random_error(column.typ) == Some(ErrorKind::GeneratedColumnMisuse),
        unique_error(column.typ, row_index) == Some(ErrorKind::UnsupportedUniqueType),
        value_error(column, row_index) == Some(
            if column.is_unique && !column.is_generated {
                ErrorKind::UnsupportedUniqueType
            } else {
                ErrorKind::GeneratedColumnMisuse
            },
        ),
{
}

/// A random literal of an integer type reads as a number of that type.
pub proof fn random_integer_parses(typ: ColumnType, text: Seq<char>)
    requires
        is_integer_type(typ),
        random_literal(typ, text),
    ensures
        parse_integer(text) is Some,
        integer_low(typ) <= parse_integer(text)->0 <= integer_high(typ),
{
    let value = choose|v: int|
        integer_low(typ) <= v <= integer_high(typ) && text == #[trigger] signed_decimal(v);
    lemma_signed_round_trip(value);
}

/// The unique literal of a row for an integer, real or double column reads
/// as the row index. For an integer column that is a value of the column's
/// type as long as the row index is no greater than the greatest value of
/// the type; beyond that the column has no unique values of its type left.
pub proof fn unique_number_parses(typ: ColumnType, row_index: nat, text: Seq<char>)
    requires
        is_numeric_type(typ),
        unique_literal(typ, row_index, text),
    ensures
        parse_integer(text) == Some(row_index as int),
        is_integer_type(typ) && row_index <= integer_high(typ) ==> integer_low(typ)
            <= parse_integer(text)->0 <= integer_high(typ),
{
    lemma_signed_round_trip(row_index as int);
}

/// The columns that are written are the columns that are not generated,
/// each once and in the order of the table: as many as the table has of
/// them, the `k`-th of them standing in the table at the `k`-th of a rising
/// run of positions that leaves no such column out.
pub proof fn written_columns_law(columns: Seq<ColumnModel>)
    ensures
        insertable_columns(columns).len() == insertable_count(columns),
        insertable_positions(columns).len() == insertable_columns(columns).len(),
        forall|k: int|
            0 <= k < insertable_positions(columns).len() ==> {
                let at = #[trigger] insertable_positions(columns)[k];
                &&& 0 <= at < columns.len()
                &&& columns[at] == insertable_columns(columns)[k]
                &&& !columns[at].is_generated
            },
        forall|j: int, k: int|
            0 <= j < k < insertable_positions(columns).len() ==> insertable_positions(columns)[j]
                < insertable_positions(columns)[k],
        forall|i: int|
            0 <= i < columns.len() && !(#[trigger] columns[i]).is_generated
                ==> insertable_positions(columns).contains(i),
    decreases columns.len(),
{
    if columns.len() > 0 {
        let rest = columns.drop_last();
        written_columns_law(rest);
        let at = insertable_positions(columns);
        let before = insertable_positions(rest);
        assert forall|i: int|
            0 <= i < columns.len() && !(#[trigger] columns[i]).is_generated implies at.contains(
            i,
        ) by {
            if i < rest.len() {
                assert(!rest[i].is_generated);
                let k = choose|k: int| 0 <= k < before.len() && before[k] == i;
                assert(at[k] == i);
            } else {
                assert(at[at.len() - 1] == i);
            }
        }
    }
}

/// The head of the statement lists the names of the columns that are
/// written, in their order and with commas between them, and nothing of the
/// other columns.
pub proof fn header_law(table: TableModel)
    ensures
        header_text(table) == "INSERT INTO "@ + table.schema + "."@ + table.name + "\n\t("@
            + joined(column_names(insertable_columns(table.columns)), ',') + ") \nVALUES\n"@,
        column_names(insertable_columns(table.columns)).len() == insertable_count(table.columns),
        forall|k: int|
            0 <= k < insertable_count(table.columns) ==> #[trigger] column_names(
                insertable_columns(table.columns),
            )[k] == table.columns[insertable_positions(table.columns)[k]].name,
{
    written_columns_law(table.columns);
}

/// The two characters that give a statement its shape: the semicolon that
/// ends it and the line feed that ends each of its lines.
pub open spec fn is_structural(c: char) -> bool {
    c == ';' || c == '\n'
}

/// The notation of a number holds digits and, at most, a minus sign.
proof fn lemma_signed_free(v: int, c: char)
    requires
        !is_digit(c),
        c != '-',
    ensures
        free_of(signed_decimal(v), c),
{
    if v < 0 {
        lemma_digits_shape((-v) as nat);
    } else {
        lemma_digits_shape(v as nat);
    }
}

/// A random literal holds neither a semicolon nor a line feed.
pub proof fn lemma_random_literal_plain(typ: ColumnType, text: Seq<char>, c: char)
    requires
        random_literal(typ, text),
        is_structural(c),
    ensures
        free_of(text, c),
{
    match typ {
        ColumnType::SmallInt | ColumnType::Integer | ColumnType::BigInt => {
            let value = choose|v: int| text == #[trigger] signed_decimal(v);
            lemma_signed_free(value, c);
        },
        ColumnType::Real | ColumnType::Double => {
            let (whole, fraction) = choose|whole: int, fraction: nat|
                text == #[trigger] fraction_text(whole, fraction);
            lemma_signed_free(whole, c);
            lemma_digits_shape(fraction);
        },
        ColumnType::Decimal(Some(precision), Some(scale)) => {
            let whole = whole_places(precision as nat, scale as nat) as int;
            assert forall|i: int| 0 <= i < text.len() implies #[trigger] text[i] != c by {
                if i < whole {
                    assert(text.subrange(0, whole)[i] == text[i]);
                } else if i > whole {
                    assert(text.subrange(whole + 1, text.len() as int)[i - whole - 1] == text[i]);
                }
            }
        },
        ColumnType::Decimal(_, _) => {
            let (whole, fraction) = choose|whole: int, fraction: nat|
                text == #[trigger] fraction_text(whole, fraction);
            lemma_signed_free(whole, c);
            lemma_digits_shape(fraction);
        },
        ColumnType::Boolean => {
            reveal_strlit("true");
            reveal_strlit("false");
        },
        ColumnType::Timestamp => {
            let seconds = choose|seconds: nat| text == #[trigger] decimal_digits(seconds);
            lemma_digits_shape(seconds);
        },
        _ => {},
    }
}

/// A unique literal holds neither a semicolon nor a line feed.
pub proof fn lemma_unique_literal_plain(typ: ColumnType, row_index: nat, text: Seq<char>, c: char)
    requires
        unique_literal(typ, row_index, text),
        is_structural(c),
    ensures
        free_of(text, c),
{
    lemma_digits_shape(row_index);
    match typ {
        ColumnType::Char(_) | ColumnType::Varchar(_) | ColumnType::Text => {
            let body = unquoted(text);
            let filler = row_filler(body, row_index);
            let digits = decimal_digits(row_index);
            assert forall|i: int| 0 <= i < text.len() implies #[trigger] text[i] != c by {
                if 0 < i < text.len() - 1 {
                    if i - 1 < filler.len() {
                        assert(filler[i - 1] == body[i - 1]);
                    } else {
                        assert(body.subrange(body.len() - digits.len(), body.len() as int)[i - 1
                            - filler.len()] == body[i - 1]);
                    }
                }
            }
        },
        ColumnType::Uuid => {
            lemma_random_literal_plain(typ, text, c);
        },
        _ => {},
    }
}

/// Parts that are free of a character stay free of it when they are joined
/// by another.
proof fn lemma_joined_free(parts: Seq<Seq<char>>, separator: char, c: char)
    requires
        separator != c,
        forall|k: int| 0 <= k < parts.len() ==> free_of(#[trigger] parts[k], c),
    ensures
        free_of(joined(parts, separator), c),
    decreases parts.len(),
{
    if parts.len() > 1 {
        lemma_joined_free(parts.drop_last(), separator, c);
    }
}

/// The head of a statement whose names are free of both holds three line
/// feeds and no semicolon.
proof fn lemma_header_count(table: TableModel, c: char)
    requires
        is_structural(c),
        table.names_free_of(c),
    ensures
        occurrences(header_text(table), c) == if c == '\n' {
            3nat
        } else {
            0nat
        },
{
    let written = insertable_columns(table.columns);
    let names = column_names(written);
    lemma_insertable_members(table.columns);
    assert(forall|k: int| 0 <= k < names.len() ==> free_of(#[trigger] names[k], c));
    lemma_joined_free(names, ',', c);
    let list = joined(names, ',');
    reveal_strlit("INSERT INTO ");
    reveal_strlit(".");
    reveal_strlit("\n\t(");
    reveal_strlit(") \nVALUES\n");
    let opening = "INSERT INTO "@;
    let point = "."@;
    let bracket = "\n\t("@;
    let closing = ") \nVALUES\n"@;
    assert(occurrences(bracket, c) == if c == '\n' {
        1nat
    } else {
        0nat
    }) by {
        reveal_with_fuel(occurrences, 4);
    }
    assert(occurrences(closing, c) == if c == '\n' {
        2nat
    } else {
        0nat
    }) by {
        reveal_with_fuel(occurrences, 11);
    }
    lemma_occurrences_free(opening, c);
    lemma_occurrences_free(table.schema, c);
    lemma_occurrences_free(point, c);
    lemma_occurrences_free(table.name, c);
    lemma_occurrences_free(list, c);
    lemma_occurrences_concat(opening, table.schema, c);
    lemma_occurrences_concat(opening + table.schema, point, c);
    lemma_occurrences_concat(opening + table.schema + point, table.name, c);
    lemma_occurrences_concat(opening + table.schema + point + table.name, bracket, c);
    lemma_occurrences_concat(opening + table.schema + point + table.name + bracket, list, c);
    lemma_occurrences_concat(
        opening + table.schema + point + table.name + bracket + list,
        closing,
        c,
    );
}

/// The line of a row whose values are free of both holds one line feed, and
/// one semicolon where it is the last line and none where it is not.
proof fn lemma_row_count(values: Seq<Seq<char>>, last: bool, c: char)
    requires
        is_structural(c),
        forall|k: int| 0 <= k < values.len() ==> free_of(#[trigger] values[k], c),
    ensures
        occurrences(row_text(values, last), c) == if c == '\n' || last {
            1nat
        } else {
            0nat
        },
        row_text(values, last).len() >= 2,
        row_text(values, last).last() == '\n',
        row_text(values, last)[row_text(values, last).len() - 2] == if last {
            ';'
        } else {
            ','
        },
{
    lemma_joined_free(values, ',', c);
    let list = joined(values, ',');
    reveal_strlit("\t(");
    reveal_strlit(")");
    reveal_strlit(";");
    reveal_strlit(",");
    reveal_strlit("\n");
    let opening = "\t("@;
    let closing = ")"@;
    let end = if last {
        ";"@
    } else {
        ","@
    };
    let feed = "\n"@;
    lemma_occurrences_free(opening, c);
    lemma_occurrences_free(list, c);
    lemma_occurrences_free(closing, c);
    assert(end =~= seq![end[0]]);
    assert(feed =~= seq!['\n']);
    lemma_occurrences_single(end[0], c);
    lemma_occurrences_single('\n', c);
    lemma_occurrences_concat(opening, list, c);
    lemma_occurrences_concat(opening + list, closing, c);
    lemma_occurrences_concat(opening + list + closing, end, c);
    lemma_occurrences_concat(opening + list + closing + end, feed, c);
}

/// Whether every value of every row is free of `c`.
pub open spec fn values_free_of(rows: Seq<Seq<Seq<char>>>, c: char) -> bool {
    forall|r: int, k: int|
        0 <= r < rows.len() && 0 <= k < rows[r].len() ==> free_of(#[trigger] rows[r][k], c)
}

/// The lines of the first rows of a statement hold a line feed each, and
/// the one semicolon of the statement once its last row is among them.
proof fn lemma_rows_count(rows: Seq<Seq<Seq<char>>>, total: nat, c: char)
    requires
        is_structural(c),
        rows.len() <= total,
        values_free_of(rows, c),
    ensures
        occurrences(rows_text(rows, total), c) == if c == '\n' {
            rows.len()
        } else if rows.len() == total && total >= 1 {
            1nat
        } else {
            0nat
        },
        rows.len() == total && total >= 1 ==> {
            let text = rows_text(rows, total);
            text.len() >= 2 && text.last() == '\n' && text[text.len() - 2] == ';'
        },
    decreases rows.len(),
{
    if rows.len() > 0 {
        let before = rows.drop_last();
        lemma_rows_count(before, total, c);
        let values = rows.last();
        lemma_row_count(values, rows.len() == total, c);
        lemma_occurrences_concat(
            rows_text(before, total),
            row_text(values, rows.len() == total),
            c,
        );
    }
}

/// A statement of `size` rows holds `size` lines of rows behind the three
/// lines of its head, and, unless it has no rows, exactly one semicolon,
/// which closes its last line. A statement of no rows is its head alone: it
/// holds no semicolon.
///
/// The names of the table, of its schema and of its columns are taken to
/// hold neither a semicolon nor a line feed; the values never do.
pub proof fn statement_shape_law(table: TableModel, size: nat, text: Seq<char>)
    requires
        is_statement(table, size, text),
        table.names_free_of(';'),
        table.names_free_of('\n'),
    ensures
        occurrences(text, '\n') == size + 3,
        occurrences(text, ';') == if size >= 1 {
            1nat
        } else {
            0nat
        },
        size >= 1 ==> text.len() >= 2 && text.last() == '\n' && text[text.len() - 2] == ';',
        size == 0 ==> text == header_text(table),
{
    let columns = insertable_columns(table.columns);
    let rows = choose|rows: Seq<Seq<Seq<char>>>| #[trigger]
        rows_match(columns, size, rows) && text == statement_text(table, rows);
    assert forall|c: char| is_structural(c) implies values_free_of(rows, c) by {
        assert forall|r: int, k: int|
            0 <= r < rows.len() && 0 <= k < rows[r].len() implies free_of(
            #[trigger] rows[r][k],
            c,
        ) by {
            if columns[k].is_unique {
                lemma_unique_literal_plain(columns[k].typ, (r + 1) as nat, rows[r][k], c);
            } else {
                lemma_random_literal_plain(columns[k].typ, rows[r][k], c);
            }
        }
    }
    assert(is_structural(';'));
    assert(is_structural('\n'));
    lemma_header_count(table, ';');
    lemma_header_count(table, '\n');
    lemma_rows_count(rows, size, ';');
    lemma_rows_count(rows, size, '\n');
    lemma_occurrences_concat(header_text(table), rows_text(rows, size), ';');
    lemma_occurrences_concat(header_text(table), rows_text(rows, size), '\n');
}

/// The least whole part of a random literal of a real, a double or a
/// decimal without precision.
pub open spec fn whole_low(typ: ColumnType) -> int {
    match typ {
        ColumnType::Real => i32::MIN as int,
        ColumnType::Double => i64::MIN as int,
        _ => 0,
    }
}

/// The greatest whole part of a random literal of a real, a double or a
/// decimal without precision.
pub open spec fn whole_high(typ: ColumnType) -> int {
    match typ {
        ColumnType::Real => i32::MAX as int,
        ColumnType::Double => i64::MAX as int,
        _ => u32::MAX as int,
    }
}

/// A random literal of a real, of a double or of a decimal without
/// precision and scale reads as a number with a point: a whole part within
/// bounds that the type can hold, and digits behind the point.
pub proof fn random_fraction_parses(typ: ColumnType, text: Seq<char>) -> (at: int)
    requires
        typ is Real || typ is Double || typ == ColumnType::Decimal(None, None),
        random_literal(typ, text),
    ensures
        is_point_notation(text, at),
        whole_low(typ) <= whole_part(text, at) <= whole_high(typ),
{
    let (whole, fraction) = choose|whole: int, fraction: nat|
        whole_low(typ) <= whole <= whole_high(typ) && text == #[trigger] fraction_text(
            whole,
            fraction,
        );
    let at = signed_decimal(whole).len() as int;
    lemma_signed_round_trip(whole);
    lemma_digits_shape(fraction);
    assert(text.subrange(0, at) =~= signed_decimal(whole));
    at
}

/// A random literal of a decimal with precision and scale reads as a
/// number without a sign. Behind the point it has no more digits than the
/// scale allows, nor than the precision; before the point it has the digits
/// that the precision leaves, and where it leaves none, a lone zero.
pub proof fn random_scaled_decimal_parses(precision: nat, scale: nat, text: Seq<char>)
    requires
        is_scaled_decimal(text, precision, scale),
    ensures
        fraction_places(precision, scale) <= scale,
        fraction_places(precision, scale) <= precision,
        whole_places(precision, scale) + fraction_places(precision, scale) > precision ==> {
            &&& whole_places(precision, scale) == 1
            &&& text[0] == '0'
        },
        fraction_places(precision, scale) == 0 ==> {
            &&& parse_integer(text) is Some
            &&& parse_integer(text)->0 >= 0
        },
        fraction_places(precision, scale) > 0 ==> {
            &&& is_point_notation(text, whole_places(precision, scale) as int)
            &&& whole_part(text, whole_places(precision, scale) as int) >= 0
        },
{
}

/// A random literal of a boolean column reads as a truth value.
pub proof fn random_boolean_parses(text: Seq<char>)
    requires
        random_literal(ColumnType::Boolean, text),
    ensures
        parse_boolean(text) is Some,
{
}

/// A random literal of a UUID column is a quoted text that reads as a
/// UUID, of version 4 and of the RFC 4122 variant.
pub proof fn random_uuid_parses(text: Seq<char>)
    requires
        random_literal(ColumnType::Uuid, text),
    ensures
        is_quoted(text),
        parse_uuid(unquoted(text)) is Some,
        parse_uuid(unquoted(text))->0[12] == 4,
        8 <= parse_uuid(unquoted(text))->0[16] <= 11,
{
}

} // verus!
