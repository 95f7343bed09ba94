//! The statement assembler: one `INSERT` statement for a table, with as
//! many rows as were asked for.

use crate::error::GenerateError;
use crate::laws::statement_shape_law;
use crate::model::{insertable_columns, ColumnModel, Table, TableModel};
use crate::text::{joined, occurrences};
use crate::value::{generate_value, is_failure_of, value_error, value_literal};
use vstd::prelude::*;
use vstd::string::StringExecFns;

verus! {

/// The bytes that a value is reckoned to take on average when the output is
/// sized.
pub const AVERAGE_VALUE_BYTES: usize = 1000;

/// No more than this is set aside before the first byte is written; a longer
/// statement makes the buffer grow as it goes.
pub const RESERVE_LIMIT: usize = 0x400_0000;

/// `String::with_capacity` of the standard library: an empty string with
/// room for `capacity` bytes. It panics when `capacity` is above
/// `isize::MAX`.
pub assume_specification[ String::with_capacity ](capacity: usize) -> (text: String)
    requires
        capacity <= isize::MAX,
    ensures
        text@ == Seq::<char>::empty(),
;

/// The names of the given columns, in their order.
pub open spec fn column_names(columns: Seq<ColumnModel>) -> Seq<Seq<char>> {
    columns.map_values(|column: ColumnModel| column.name)
}

/// The head of the statement: the table, the list of the columns that are
/// written, and the keyword that opens the rows.
pub open spec fn header_text(table: TableModel) -> Seq<char> {
    "INSERT INTO "@ + table.schema + "."@ + table.name + "\n\t("@ + joined(
        column_names(insertable_columns(table.columns)),
        ',',
    ) + ") \nVALUES\n"@
}

/// The line of one row: its values in brackets, closed by a semicolon where
/// it is the last row of the statement and by a comma where it is not.
pub open spec fn row_text(values: Seq<Seq<char>>, last: bool) -> Seq<char> {
    "\t("@ + joined(values, ',') + ")"@ + (if last {
        ";"@
    } else {
        ","@
    }) + "\n"@
}

/// The lines of the given rows, as the first rows of a statement of `total`
/// rows.
pub open spec fn rows_text(rows: Seq<Seq<Seq<char>>>, total: nat) -> Seq<char>
    decreases rows.len(),
{
    if rows.len() == 0 {
        Seq::empty()
    } else {
        rows_text(rows.drop_last(), total) + row_text(rows.last(), rows.len() == total)
    }
}

/// The whole statement for a table and the values of its rows.
pub open spec fn statement_text(table: TableModel, rows: Seq<Seq<Seq<char>>>) -> Seq<char> {
    header_text(table) + rows_text(rows, rows.len())
}

/// Whether `values` holds one literal for each of `columns`, in their order,
/// each as the value generator makes it for the row `row_index`.
pub open spec fn row_matches(
    columns: Seq<ColumnModel>,
    row_index: nat,
    values: Seq<Seq<char>>,
) -> bool {
    &&& values.len() == columns.len()
    &&& forall|c: int|
        0 <= c < columns.len() ==> value_literal(columns[c], row_index, #[trigger] values[c])
}

/// Whether `rows` holds the values of the rows 1 to `size` of `columns`.
pub open spec fn rows_match(
    columns: Seq<ColumnModel>,
    size: nat,
    rows: Seq<Seq<Seq<char>>>,
) -> bool {
    &&& rows.len() == size
    &&& forall|r: int| 0 <= r < size ==> row_matches(columns, (r + 1) as nat, #[trigger] rows[r])
}

/// Whether `text` is a statement of `size` rows for `table`.
pub open spec fn is_statement(table: TableModel, size: nat, text: Seq<char>) -> bool {
    exists|rows: Seq<Seq<Seq<char>>>| #[trigger]
        rows_match(insertable_columns(table.columns), size, rows) && text == statement_text(
            table,
            rows,
        )
}

/// Whether no value can be made for the column at `c` in the row
/// `row_index`.
pub open spec fn fails_at(columns: Seq<ColumnModel>, row_index: nat, c: int) -> bool {
    value_error(columns[c], row_index) is Some
}

/// Whether a value can be made for each of `columns` in each of the rows 1
/// to `size`.
pub open spec fn succeeds(columns: Seq<ColumnModel>, size: nat) -> bool {
    forall|r: nat, c: int|
        1 <= r <= size && 0 <= c < columns.len() ==> !#[trigger] fails_at(columns, r, c)
}

/// Whether the value of the column at `c` in the row `row_index` is the
/// first that cannot be made, going row by row and through each row's
/// columns in order.
pub open spec fn is_first_failure(
    columns: Seq<ColumnModel>,
    size: nat,
    row_index: nat,
    c: int,
) -> bool {
    &&& 1 <= row_index <= size
    &&& 0 <= c < columns.len()
    &&& fails_at(columns, row_index, c)
    &&& succeeds(columns, (row_index - 1) as nat)
    &&& forall|k: int| 0 <= k < c ==> !#[trigger] fails_at(columns, row_index, k)
}

/// Whether `error` reports the first value of the rows 1 to `size` of
/// `columns` that cannot be made: its kind and its column.
pub open spec fn reports_first_failure(
    error: GenerateError,
    columns: Seq<ColumnModel>,
    size: nat,
) -> bool {
    exists|row_index: nat, c: int| #[trigger]
        is_first_failure(columns, size, row_index, c) && is_failure_of(
            error,
            columns[c],
            value_error(columns[c], row_index)->0,
        )
}

/// The size that the output is reckoned to have: the average size of a
/// value for every column of every row.
pub open spec fn estimated_capacity(table: TableModel, size: nat) -> nat {
    size * table.columns.len() * AVERAGE_VALUE_BYTES as nat
}

/// Reckons how large the statement will be. The estimate only serves to
/// size the output; where it does not fit into `usize`, it is `usize::MAX`.
pub fn estimate_capacity(table: &Table, size: u32) -> (capacity: usize)
    ensures
        capacity == if estimated_capacity(table@, size as nat) <= usize::MAX {
            estimated_capacity(table@, size as nat)
        } else {
            usize::MAX as nat
        },
{
    let columns = table.columns.len();
    let bytes = match (size as usize).checked_mul(columns) {
        Some(values) => values.checked_mul(AVERAGE_VALUE_BYTES),
        None => None,
    };
    match bytes {
        Some(bytes) => bytes,
        None => usize::MAX,
    }
}

/// Joining one part more puts a separator before it, unless it is the
/// first.
proof fn lemma_joined_next(parts: Seq<Seq<char>>, separator: char, n: int)
    requires
        0 <= n < parts.len(),
    ensures
        joined(parts.take(n + 1), separator) == if n == 0 {
            parts[n]
        } else {
            joined(parts.take(n), separator) + seq![separator] + parts[n]
        },
{
    assert(parts.take(n + 1).drop_last() =~= parts.take(n));
}

/// Every column that is written is a column of the table that is not
/// generated.
pub proof fn lemma_insertable_members(columns: Seq<ColumnModel>)
    ensures
        forall|k: int|
            0 <= k < insertable_columns(columns).len() ==> {
                &&& columns.contains(#[trigger] insertable_columns(columns)[k])
                &&& !insertable_columns(columns)[k].is_generated
            },
    decreases columns.len(),
{
    if columns.len() > 0 {
        lemma_insertable_members(columns.drop_last());
    }
}

/// Writes the head of the statement for `table` behind what `buffer` holds.
/// Writing into a string cannot fail.
pub fn write_table_header(table: &Table, buffer: &mut String) -> (result: Result<
    (),
    GenerateError,
>)
    ensures
        result is Ok,
        final(buffer)@ == old(buffer)@ + header_text(table@),
{
    let columns = table.insertable();
    let ghost names = column_names(insertable_columns(table@.columns));
    buffer.append("INSERT INTO ");
    buffer.append(table.schema.as_str());
    buffer.append(".");
    buffer.append(table.name.as_str());
    buffer.append("\n\t(");
    let ghost head = old(buffer)@ + "INSERT INTO "@ + table@.schema + "."@ + table@.name
        + "\n\t("@;
    let mut idx: usize = 0;
    while idx < columns.len()
        invariant
            idx <= columns.len(),
            names.len() == columns@.len(),
            forall|k: int| 0 <= k < columns@.len() ==> columns@[k].name@ == #[trigger] names[k],
            buffer@ == head + joined(names.take(idx as int), ','),
        decreases columns.len() - idx,
    {
        proof {
            reveal_strlit(",");
            lemma_joined_next(names, ',', idx as int);
        }
        if idx != 0 {
            buffer.append(",");
        }
        buffer.append(columns[idx].name.as_str());
        idx = idx + 1;
    }
    assert(names.take(idx as int) =~= names);
    buffer.append(") \nVALUES\n");
    Ok(())
}

/// Writes the rows 1 to `size` of `table` behind what `buffer` holds, a line
/// for each. The first value that cannot be made ends the work: its failure
/// is returned, and `buffer` is left as it was.
pub fn write_table_values(table: &Table, size: u32, buffer: &mut String) -> (result: Result<
    (),
    GenerateError,
>)
    requires
        table@.representable(),
    ensures
        match result {
            Ok(()) => {
                &&& succeeds(insertable_columns(table@.columns), size as nat)
                &&& exists|rows: Seq<Seq<Seq<char>>>| #[trigger]
                    rows_match(insertable_columns(table@.columns), size as nat, rows)
                        && final(buffer)@ == old(buffer)@ + rows_text(rows, size as nat)
            },
            Err(error) => {
                &&& reports_first_failure(error, insertable_columns(table@.columns), size as nat)
                &&& final(buffer)@ == old(buffer)@
            },
        },
{
    let columns = table.insertable();
    let ghost models = insertable_columns(table@.columns);
    proof {
        lemma_insertable_members(table@.columns);
    }
    let mut lines = String::new();
    let ghost mut rows: Seq<Seq<Seq<char>>> = Seq::empty();
    let mut done: u32 = 0;
    while done < size
        invariant
            done <= size,
            models.len() == columns@.len(),
            forall|k: int|
                0 <= k < columns@.len() ==> {
                    &&& columns@[k]@ == #[trigger] models[k]
                    &&& models[k].typ.representable()
                },
            rows_match(models, done as nat, rows),
            succeeds(models, done as nat),
            lines@ == rows_text(rows, size as nat),
            *buffer == *old(buffer),
            models == insertable_columns(table@.columns),
        decreases size - done,
    {
        let row_index = done + 1;
        let ghost before = lines@;
        let ghost mut values: Seq<Seq<char>> = Seq::empty();
        lines.append("\t(");
        let mut idx: usize = 0;
        while idx < columns.len()
            invariant
                idx <= columns.len(),
                1 <= row_index <= size,
                row_index == done + 1,
                models.len() == columns@.len(),
                forall|k: int|
                    0 <= k < columns@.len() ==> {
                        &&& columns@[k]@ == #[trigger] models[k]
                        &&& models[k].typ.representable()
                    },
                succeeds(models, done as nat),
                values.len() == idx,
                forall|k: int|
                    0 <= k < idx ==> value_literal(
                        models[k],
                        row_index as nat,
                        #[trigger] values[k],
                    ),
                forall|k: int| 0 <= k < idx ==> !#[trigger] fails_at(models, row_index as nat, k),
                lines@ == before + "\t("@ + joined(values, ','),
                *buffer == *old(buffer),
                models == insertable_columns(table@.columns),
            decreases columns.len() - idx,
        {
            assert(columns@[idx as int]@ == models[idx as int]);
            let made = generate_value(columns[idx], row_index);
            match made {
                Ok(text) => {
                    proof {
                        reveal_strlit(",");
                        let longer = values.push(text@);
                        lemma_joined_next(longer, ',', idx as int);
                        assert(longer.take(idx as int) =~= values);
                    }
                    if idx != 0 {
                        lines.append(",");
                    }
                    lines.append(text.as_str());
                    proof {
                        values = values.push(text@);
                    }
                },
                Err(error) => {
                    assert(is_first_failure(models, size as nat, row_index as nat, idx as int));
                    return Err(error);
                },
            }
            idx = idx + 1;
        }
        lines.append(")");
        if row_index == size {
            lines.append(";");
        } else {
            lines.append(",");
        }
        lines.append("\n");
        proof {
            assert(rows.push(values).drop_last() =~= rows);
            rows = rows.push(values);
        }
        done = row_index;
    }
    buffer.append(lines.as_str());
    Ok(())
}

/// The `INSERT` statement that fills `table` with `size` rows. Columns that
/// are marked generated are left out, of the column list as of every row;
/// the others stand in the order in which the table declares them. The
/// first value that cannot be made ends the work, and nothing of the
/// statement is returned then.
///
/// The statement has a line for each row behind the three lines of its
/// head, and one semicolon, which closes the last row. With no rows asked
/// for, the statement is its head alone, without a semicolon. (The count
/// takes the names of the table, of its schema and of its columns to hold
/// neither a semicolon nor a line feed; no value ever does.)
pub fn generate_dml(table: &Table, size: u32) -> (result: Result<String, GenerateError>)
    requires
        table@.representable(),
    ensures
        match result {
            Ok(text) => {
                &&& succeeds(insertable_columns(table@.columns), size as nat)
                &&& is_statement(table@, size as nat, text@)
            },
            Err(error) => reports_first_failure(
                error,
                insertable_columns(table@.columns),
                size as nat,
            ),
        },
        result is Ok && table@.names_free_of(';') && table@.names_free_of('\n') ==> {
            let text = result->Ok_0@;
            &&& occurrences(text, '\n') == size + 3
            &&& occurrences(text, ';') == if size >= 1 {
                1nat
            } else {
                0nat
            }
            &&& size >= 1 ==> text.len() >= 2 && text[text.len() - 2] == ';' && text.last() == '\n'
        },
        result is Ok ==> header_text(table@).is_prefix_of(result->Ok_0@),
        result is Ok && size == 0 ==> result->Ok_0@ == header_text(table@),
{
    let capacity = estimate_capacity(table, size);
    let reserved = if capacity <= RESERVE_LIMIT {
        capacity
    } else {
        RESERVE_LIMIT
    };
    let mut buffer = String::with_capacity(reserved);
    write_table_header(table, &mut buffer)?;
    write_table_values(table, size, &mut buffer)?;
    proof {
        if table@.names_free_of(';') && table@.names_free_of('\n') {
            statement_shape_law(table@, size as nat, buffer@);
        }
    }
    Ok(buffer)
}

} // verus!
