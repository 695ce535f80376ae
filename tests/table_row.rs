use etl_rows::cell::{
    Cell, ColumnSchema, BOOL_OID, BYTEA_OID, INT2_OID, INT4_OID, INT8_OID, TEXT_OID, VARCHAR_OID,
};
use etl_rows::field_decoder::{decode_field, parse_int, FromTextError};
use etl_rows::table_row::{InvalidField, TableRow, TableRowConversionError, TableRowConverter};

fn col(name: &str, typ: u32) -> ColumnSchema {
    ColumnSchema::new(name.to_string(), typ, -1, true, false)
}

fn chars(s: &str) -> Vec<char> {
    s.chars().collect()
}

#[test]
fn int_text_and_null_row() {
    let schema = vec![col("id", INT4_OID), col("name", TEXT_OID), col("age", INT4_OID)];
    let row = TableRowConverter::try_from(b"1\tfoo\t\\N\n", &schema).unwrap();
    assert_eq!(
        row.values,
        vec![Cell::I32(1), Cell::String("foo".to_string()), Cell::Null(INT4_OID)]
    );
}

#[test]
fn escaped_null_inside_text_stays_text() {
    let schema = vec![col("id", INT4_OID), col("note", TEXT_OID)];
    let row = TableRowConverter::try_from(b"5\tit said \\\\N here\n", &schema).unwrap();
    assert_eq!(row.values, vec![Cell::I32(5), Cell::String("it said \\N here".to_string())]);
    let row = TableRowConverter::try_from(b"5\tit said \\N here\n", &schema).unwrap();
    assert_eq!(row.values, vec![Cell::I32(5), Cell::String("it said \\N here".to_string())]);
}

#[test]
fn comma_is_no_separator() {
    let schema = vec![col("a", TEXT_OID), col("b", TEXT_OID), col("c", TEXT_OID)];
    let r = TableRowConverter::try_from(b"a,b\n", &schema);
    assert_eq!(r, Err(TableRowConversionError::NumColsMismatch));
}

#[test]
fn missing_line_feed_is_unterminated() {
    let schema = vec![col("a", INT4_OID), col("b", INT4_OID)];
    let r = TableRowConverter::try_from(b"1\t2", &schema);
    assert_eq!(r, Err(TableRowConversionError::UnterminatedRow));
}

#[test]
fn unknown_type_is_unsupported() {
    let schema = vec![col("id", INT4_OID), col("when", 1082)];
    let r = TableRowConverter::try_from(b"1\t2024-01-01\n", &schema);
    assert_eq!(r, Err(TableRowConversionError::UnsupportedType(1082)));
}

#[test]
fn null_of_unknown_type_keeps_type() {
    let schema = vec![col("when", 1082)];
    let row = TableRowConverter::try_from(b"\\N\n", &schema).unwrap();
    assert_eq!(row.values, vec![Cell::Null(1082)]);
}

#[test]
fn fewer_fields_than_columns() {
    let schema = vec![col("a", INT4_OID), col("b", INT4_OID), col("c", INT4_OID)];
    let r = TableRowConverter::try_from(b"1\t2\n", &schema);
    assert_eq!(r, Err(TableRowConversionError::NumColsMismatch));
}

#[test]
fn more_fields_than_columns() {
    let schema = vec![col("a", INT4_OID)];
    let r = TableRowConverter::try_from(b"1\t2\n", &schema);
    assert_eq!(r, Err(TableRowConversionError::NumColsMismatch));
}

#[test]
fn text_after_line_feed_is_rejected() {
    let schema = vec![col("a", INT4_OID)];
    let r = TableRowConverter::try_from(b"1\n2\n", &schema);
    assert_eq!(r, Err(TableRowConversionError::NumColsMismatch));
}

#[test]
fn shape_errors_come_before_field_errors() {
    let schema = vec![col("a", INT4_OID), col("b", INT4_OID)];
    let r = TableRowConverter::try_from(b"x\ty", &schema);
    assert_eq!(r, Err(TableRowConversionError::UnterminatedRow));
    let r = TableRowConverter::try_from(b"x\n", &schema);
    assert_eq!(r, Err(TableRowConversionError::NumColsMismatch));
}

#[test]
fn empty_input_is_unterminated() {
    let r = TableRowConverter::try_from(b"", &[]);
    assert_eq!(r, Err(TableRowConversionError::UnterminatedRow));
}

#[test]
fn trailing_backslash_is_unterminated() {
    let schema = vec![col("a", TEXT_OID)];
    let r = TableRowConverter::try_from(b"abc\\", &schema);
    assert_eq!(r, Err(TableRowConversionError::UnterminatedRow));
    let r = TableRowConverter::try_from(b"abc\\\n", &schema);
    assert_eq!(r, Err(TableRowConversionError::UnterminatedRow));
}

#[test]
fn invalid_utf8_is_rejected() {
    let schema = vec![col("a", TEXT_OID)];
    let r = TableRowConverter::try_from(&[0xff, 0xfe, b'\n'], &schema);
    assert_eq!(r, Err(TableRowConversionError::InvalidString));
}

#[test]
fn escape_table() {
    let schema = vec![col("a", TEXT_OID)];
    let cases: [(&[u8], &str); 6] = [
        (b"\\b\n", "\u{8}"),
        (b"\\f\n", "\u{c}"),
        (b"\\n\n", "\n"),
        (b"\\r\n", "\r"),
        (b"\\t\n", "\t"),
        (b"\\v\n", "\u{b}"),
    ];
    for (input, expected) in cases {
        let row = TableRowConverter::try_from(input, &schema).unwrap();
        assert_eq!(row.values, vec![Cell::String(expected.to_string())]);
    }
    let row = TableRowConverter::try_from(b"a\\qb\\\\c\\\td\n", &schema).unwrap();
    assert_eq!(row.values, vec![Cell::String("aqb\\c\td".to_string())]);
}

#[test]
fn null_marker_both_spellings() {
    let schema = vec![col("a", INT8_OID)];
    let row = TableRowConverter::try_from(b"\\N\n", &schema).unwrap();
    assert_eq!(row.values, vec![Cell::Null(INT8_OID)]);
    let row = TableRowConverter::try_from(b"\\\\N\n", &schema).unwrap();
    assert_eq!(row.values, vec![Cell::Null(INT8_OID)]);
}

#[test]
fn escaped_record_round_trips() {
    let schema = vec![col("a", TEXT_OID), col("b", VARCHAR_OID), col("c", INT2_OID)];
    let input = "tab\\there\\nnew line\\\\slash\tüñí\\bcode\t-12\n".as_bytes();
    let row = TableRowConverter::try_from(input, &schema).unwrap();
    assert_eq!(
        row.values,
        vec![
            Cell::String("tab\there\nnew line\\slash".to_string()),
            Cell::String("üñí\u{8}code".to_string()),
            Cell::I16(-12),
        ]
    );
}

#[test]
fn empty_fields() {
    let schema = vec![col("a", TEXT_OID), col("b", TEXT_OID)];
    let row = TableRowConverter::try_from(b"\t\n", &schema).unwrap();
    assert_eq!(row.values, vec![Cell::String(String::new()), Cell::String(String::new())]);
}

#[test]
fn invalid_value_carries_column() {
    let schema = vec![col("flag", BOOL_OID), col("n", INT2_OID)];
    let r = TableRowConverter::try_from(b"t\t40000\n", &schema);
    assert_eq!(
        r,
        Err(TableRowConversionError::InvalidValue(InvalidField {
            column: "n".to_string(),
            typ: INT2_OID,
            text: "40000".to_string(),
            error: FromTextError::InvalidInt,
        }))
    );
    let r = TableRowConverter::try_from(b"yes\t1\n", &schema);
    assert_eq!(
        r,
        Err(TableRowConversionError::InvalidValue(InvalidField {
            column: "flag".to_string(),
            typ: BOOL_OID,
            text: "yes".to_string(),
            error: FromTextError::InvalidBool,
        }))
    );
}

#[test]
fn decoder_integers() {
    assert_eq!(parse_int(&chars("42"), -100, 100), Some(42));
    assert_eq!(parse_int(&chars("+42"), -100, 100), Some(42));
    assert_eq!(parse_int(&chars("-42"), -100, 100), Some(-42));
    assert_eq!(parse_int(&chars("101"), -100, 100), None);
    assert_eq!(parse_int(&chars(""), -100, 100), None);
    assert_eq!(parse_int(&chars("-"), -100, 100), None);
    assert_eq!(parse_int(&chars("4 2"), -100, 100), None);
    assert_eq!(parse_int(&chars("-9223372036854775808"), i64::MIN, i64::MAX), Some(i64::MIN));
    assert_eq!(parse_int(&chars("9223372036854775807"), i64::MIN, i64::MAX), Some(i64::MAX));
    assert_eq!(parse_int(&chars("9223372036854775808"), i64::MIN, i64::MAX), None);
    assert_eq!(parse_int(&chars("99999999999999999999999"), i64::MIN, i64::MAX), None);
}

#[test]
fn decoder_types() {
    assert_eq!(decode_field(BOOL_OID, &chars("t")), Ok(Cell::Bool(true)));
    assert_eq!(decode_field(BOOL_OID, &chars("f")), Ok(Cell::Bool(false)));
    assert_eq!(decode_field(BOOL_OID, &chars("true")), Err(FromTextError::InvalidBool));
    assert_eq!(decode_field(INT2_OID, &chars("-32768")), Ok(Cell::I16(-32768)));
    assert_eq!(decode_field(INT2_OID, &chars("32768")), Err(FromTextError::InvalidInt));
    assert_eq!(decode_field(INT4_OID, &chars("2147483647")), Ok(Cell::I32(2147483647)));
    assert_eq!(decode_field(INT8_OID, &chars("-1")), Ok(Cell::I64(-1)));
    assert_eq!(decode_field(TEXT_OID, &chars("héllo")), Ok(Cell::String("héllo".to_string())));
    assert_eq!(decode_field(BYTEA_OID, &chars("\\x00")), Err(FromTextError::UnsupportedType));
}

#[test]
fn new_keeps_values() {
    let row = TableRow::new(vec![Cell::Bool(true), Cell::Null(TEXT_OID)]);
    assert_eq!(row.values, vec![Cell::Bool(true), Cell::Null(TEXT_OID)]);
}
