use dsg::error::ErrorKind;
use dsg::generator::{
    estimate_capacity, generate_dml, write_table_header, write_table_values,
    AVERAGE_VALUE_BYTES,
};
use dsg::model::{Column, ColumnType, Table};

fn column(name: &str, typ: ColumnType, is_unique: bool, is_generated: bool) -> Column {
    Column {
        name: name.to_string(),
        typ,
        annotation: None,
        is_generated,
        is_unique,
        is_nullable: false,
        foreign_key: None,
    }
}

fn table(columns: Vec<Column>) -> Table {
    Table {
        name: "t".to_string(),
        schema: "public".to_string(),
        columns,
        generated_keys: Vec::new(),
    }
}

fn count(text: &str, wanted: char) -> usize {
    text.chars().filter(|c| *c == wanted).count()
}

#[test]
fn three_rows_of_id_and_name() {
    let t = table(vec![
        column("id", ColumnType::Integer, true, false),
        column("name", ColumnType::Varchar(10), false, false),
    ]);
    let text = generate_dml(&t, 3).unwrap();
    let header = "INSERT INTO public.t\n\t(id,name) \nVALUES\n";
    assert!(text.starts_with(header));
    let lines: Vec<&str> = text[header.len()..].split('\n').collect();
    assert_eq!(lines.len(), 4);
    assert_eq!(lines[3], "");
    for (i, line) in lines[..3].iter().enumerate() {
        let row_index = i + 1;
        let end = if row_index == 3 { ";" } else { "," };
        let start = format!("\t({},'", row_index);
        let close = format!("'){}", end);
        assert!(line.starts_with(&start));
        assert!(line.ends_with(&close));
        let body = &line[start.len()..line.len() - close.len()];
        assert!(1 <= body.len() && body.len() <= 10);
        assert!(body.chars().all(|c| c.is_ascii_alphanumeric()));
    }
}

#[test]
fn decimal_with_precision_alone_fails_the_statement() {
    let t = table(vec![column("price", ColumnType::Decimal(Some(8), None), false, false)]);
    let error = generate_dml(&t, 2).unwrap_err();
    assert_eq!(error.kind, ErrorKind::InvalidDecimalSpec);
    assert_eq!(error.column, "price");
    assert_eq!(error.typ, ColumnType::Decimal(Some(8), None));
}

#[test]
fn char_of_three_cannot_hold_row_one_thousand() {
    let t = table(vec![column("code", ColumnType::Char(3), true, false)]);
    assert!(generate_dml(&t, 999).is_ok());
    let error = generate_dml(&t, 1000).unwrap_err();
    assert_eq!(error.kind, ErrorKind::LengthUnderflow);
    assert_eq!(error.column, "code");
    assert_eq!(error.typ, ColumnType::Char(3));
}

#[test]
fn a_statement_of_unique_numbers_is_fixed() {
    let t = table(vec![
        column("id", ColumnType::BigInt, true, false),
        column("rank", ColumnType::SmallInt, true, false),
    ]);
    assert_eq!(
        generate_dml(&t, 3).unwrap(),
        "INSERT INTO public.t\n\t(id,rank) \nVALUES\n\t(1,1),\n\t(2,2),\n\t(3,3);\n"
    );
    assert_eq!(
        generate_dml(&t, 1).unwrap(),
        "INSERT INTO public.t\n\t(id,rank) \nVALUES\n\t(1,1);\n"
    );
}

#[test]
fn no_rows_give_the_head_alone() {
    let t = table(vec![
        column("id", ColumnType::Integer, true, false),
        column("cash", ColumnType::Money, false, false),
    ]);
    assert_eq!(generate_dml(&t, 0).unwrap(), "INSERT INTO public.t\n\t(id,cash) \nVALUES\n");
}

#[test]
fn generated_columns_are_left_out_of_head_and_rows() {
    let t = table(vec![
        column("id", ColumnType::Serial, false, true),
        column("a", ColumnType::Integer, true, false),
        column("made", ColumnType::Timestamp, false, true),
        column("b", ColumnType::BigInt, true, false),
    ]);
    assert_eq!(
        generate_dml(&t, 2).unwrap(),
        "INSERT INTO public.t\n\t(a,b) \nVALUES\n\t(1,1),\n\t(2,2);\n"
    );
}

#[test]
fn a_table_without_written_columns() {
    let t = table(vec![column("id", ColumnType::Serial, false, true)]);
    assert_eq!(
        generate_dml(&t, 2).unwrap(),
        "INSERT INTO public.t\n\t() \nVALUES\n\t(),\n\t();\n"
    );
    assert_eq!(
        generate_dml(&table(Vec::new()), 1).unwrap(),
        "INSERT INTO public.t\n\t() \nVALUES\n\t();\n"
    );
}

#[test]
fn a_statement_has_one_terminator_in_its_last_row() {
    let t = table(vec![
        column("id", ColumnType::Integer, true, false),
        column("name", ColumnType::Varchar(12), false, false),
        column("note", ColumnType::Text, false, false),
        column("key", ColumnType::Uuid, true, false),
        column("day", ColumnType::Date, false, false),
        column("hour", ColumnType::Time, false, false),
        column("seen", ColumnType::Timestamp, false, false),
        column("ok", ColumnType::Boolean, false, false),
        column("x", ColumnType::Real, false, false),
        column("y", ColumnType::Double, false, false),
        column("price", ColumnType::Decimal(Some(9), Some(2)), false, false),
        column("ratio", ColumnType::Decimal(None, None), false, false),
        column("tag", ColumnType::Char(4), true, false),
        column("slug", ColumnType::Varchar(20), true, false),
        column("body", ColumnType::Text, true, false),
    ]);
    for size in [1u32, 2, 25] {
        let text = generate_dml(&t, size).unwrap();
        assert_eq!(count(&text, ';'), 1);
        assert_eq!(count(&text, '\n'), size as usize + 3);
        assert!(text.ends_with(");\n"));
        let rows: Vec<&str> = text.lines().skip(3).collect();
        assert_eq!(rows.len(), size as usize);
        for (i, row) in rows.iter().enumerate() {
            assert!(row.starts_with("\t("));
            if i + 1 == size as usize {
                assert!(row.ends_with(");"));
            } else {
                assert!(row.ends_with("),"));
            }
            assert_eq!(count(row, ','), if i + 1 == size as usize { 14 } else { 15 });
        }
    }
}

#[test]
fn the_first_failure_of_a_row_is_reported() {
    let t = table(vec![
        column("id", ColumnType::Integer, true, false),
        column("cash", ColumnType::Money, false, false),
        column("bits", ColumnType::Bit(3), true, false),
    ]);
    let error = generate_dml(&t, 5).unwrap_err();
    assert_eq!(error.kind, ErrorKind::UnsupportedRandomType);
    assert_eq!(error.column, "cash");
    assert_eq!(error.typ, ColumnType::Money);
}

#[test]
fn a_failure_in_an_earlier_row_comes_first() {
    let t = table(vec![
        column("code", ColumnType::Char(1), true, false),
        column("born", ColumnType::Date, true, false),
    ]);
    let error = generate_dml(&t, 20).unwrap_err();
    assert_eq!(error.kind, ErrorKind::UnsupportedUniqueType);
    assert_eq!(error.column, "born");

    let t = table(vec![
        column("n", ColumnType::Integer, false, false),
        column("code", ColumnType::Varchar(1), true, false),
    ]);
    assert!(generate_dml(&t, 9).is_ok());
    let error = generate_dml(&t, 10).unwrap_err();
    assert_eq!(error.kind, ErrorKind::LengthUnderflow);
    assert_eq!(error.column, "code");
}

#[test]
fn a_serial_column_that_is_not_marked_generated_fails() {
    let t = table(vec![column("id", ColumnType::BigSerial, false, false)]);
    let error = generate_dml(&t, 1).unwrap_err();
    assert_eq!(error.kind, ErrorKind::GeneratedColumnMisuse);
    assert_eq!(error.column, "id");
    assert!(generate_dml(&t, 0).is_ok());

    let t = table(vec![column("id", ColumnType::Serial, true, false)]);
    let error = generate_dml(&t, 1).unwrap_err();
    assert_eq!(error.kind, ErrorKind::UnsupportedUniqueType);
    assert_eq!(error.column, "id");
    assert_eq!(error.typ, ColumnType::Serial);
}

#[test]
fn unique_columns_differ_across_the_rows_of_a_statement() {
    let t = table(vec![
        column("id", ColumnType::Integer, true, false),
        column("body", ColumnType::Text, true, false),
    ]);
    let text = generate_dml(&t, 300).unwrap();
    let mut ids = std::collections::HashSet::new();
    let mut bodies = std::collections::HashSet::new();
    for row in text.lines().skip(3) {
        let inner = &row[2..row.len() - 2];
        let (id, body) = inner.split_once(',').unwrap();
        assert!(ids.insert(id.to_string()));
        assert!(bodies.insert(body.to_string()));
    }
    assert_eq!(ids.len(), 300);
    assert_eq!(bodies.len(), 300);
}

#[test]
fn header_lists_the_written_columns_in_order() {
    let t = Table {
        name: "orders".to_string(),
        schema: "shop".to_string(),
        columns: vec![
            column("id", ColumnType::Serial, false, true),
            column("zeta", ColumnType::Money, false, false),
            column("alpha", ColumnType::Bit(2), true, false),
            column("made", ColumnType::Timestamp, false, true),
            column("mid", ColumnType::Text, false, false),
        ],
        generated_keys: Vec::new(),
    };
    let mut buffer = String::new();
    assert!(write_table_header(&t, &mut buffer).is_ok());
    assert_eq!(buffer, "INSERT INTO shop.orders\n\t(zeta,alpha,mid) \nVALUES\n");
}

#[test]
fn header_is_written_behind_what_is_there() {
    let t = table(vec![column("a", ColumnType::Integer, false, false)]);
    let mut buffer = String::from("-- made up\n");
    assert!(write_table_header(&t, &mut buffer).is_ok());
    assert_eq!(buffer, "-- made up\nINSERT INTO public.t\n\t(a) \nVALUES\n");
}

#[test]
fn values_are_written_behind_what_is_there() {
    let t = table(vec![column("id", ColumnType::Integer, true, false)]);
    let mut buffer = String::from("VALUES\n");
    assert!(write_table_values(&t, 2, &mut buffer).is_ok());
    assert_eq!(buffer, "VALUES\n\t(1),\n\t(2);\n");
    assert!(write_table_values(&t, 0, &mut buffer).is_ok());
    assert_eq!(buffer, "VALUES\n\t(1),\n\t(2);\n");
}

#[test]
fn values_that_fail_leave_the_buffer_alone() {
    let t = table(vec![
        column("id", ColumnType::Integer, true, false),
        column("code", ColumnType::Char(1), true, false),
    ]);
    let mut buffer = String::from("kept");
    let error = write_table_values(&t, 12, &mut buffer).unwrap_err();
    assert_eq!(error.kind, ErrorKind::LengthUnderflow);
    assert_eq!(buffer, "kept");
}

#[test]
fn capacity_is_rows_by_columns_by_average() {
    assert_eq!(AVERAGE_VALUE_BYTES, 1000);
    let t = table(vec![
        column("id", ColumnType::Serial, false, true),
        column("a", ColumnType::Integer, false, false),
    ]);
    assert_eq!(estimate_capacity(&t, 3), 6000);
    assert_eq!(estimate_capacity(&t, 0), 0);
    assert_eq!(estimate_capacity(&table(Vec::new()), 1000), 0);
    assert_eq!(estimate_capacity(&t, u32::MAX), 2 * 1000 * (u32::MAX as usize));
}
