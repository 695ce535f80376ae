use etl_rows::cell::{Cell, ColumnSchema, INT4_OID, INT8_OID, TEXT_OID};
use etl_rows::table_row::{TableRow, TableRowConverter};
use etl_rows::wire::ProtoMessage;

#[test]
fn encodes_tags_in_column_order() {
    let schema = vec![
        ColumnSchema::new("id".to_string(), INT4_OID, -1, false, true),
        ColumnSchema::new("name".to_string(), TEXT_OID, -1, true, false),
        ColumnSchema::new("age".to_string(), INT4_OID, -1, true, false),
    ];
    let row = TableRowConverter::try_from(b"1\tfoo\t\\N\n", &schema).unwrap();
    let bytes = row.encode();
    assert_eq!(bytes, vec![0x08, 0x01, 0x12, 0x03, b'f', b'o', b'o']);
    assert_eq!(row.encoded_len(), bytes.len());
}

#[test]
fn encodes_negative_and_wide_values() {
    let row = TableRow::new(vec![Cell::I32(-1), Cell::I64(300), Cell::Bool(true)]);
    let bytes = row.encode();
    let mut expected = vec![0x08];
    expected.extend_from_slice(&[0xff; 9]);
    expected.push(0x01);
    expected.extend_from_slice(&[0x10, 0xac, 0x02, 0x18, 0x01]);
    assert_eq!(bytes, expected);
    assert_eq!(row.encoded_len(), 16);
}

#[test]
fn encodes_bytes_and_multibyte_text() {
    let row = TableRow::new(vec![Cell::Bytes(vec![1, 2]), Cell::String("é".to_string())]);
    let bytes = row.encode();
    assert_eq!(bytes, vec![0x0a, 0x02, 0x01, 0x02, 0x12, 0x02, 0xc3, 0xa9]);
    assert_eq!(row.encoded_len(), 8);
}

#[test]
fn encode_raw_appends() {
    let row = TableRow::new(vec![Cell::I16(5)]);
    let mut buf = vec![0xaa];
    row.encode_raw(&mut buf);
    assert_eq!(buf, vec![0xaa, 0x08, 0x05]);
}

#[test]
fn encoded_len_matches_encode_for_parsed_rows() {
    let schema = vec![
        ColumnSchema::new("a".to_string(), INT8_OID, -1, true, false),
        ColumnSchema::new("b".to_string(), TEXT_OID, -1, true, false),
    ];
    let inputs: [&[u8]; 4] = [b"-5\thello\n", b"\\N\t\\N\n", b"9223372036854775807\t\n", "0\tñandú\\tx\n".as_bytes()];
    for input in inputs {
        let row = TableRowConverter::try_from(input, &schema).unwrap();
        assert_eq!(row.encoded_len(), row.encode().len());
    }
}

#[test]
fn empty_row_encodes_to_nothing() {
    let row = TableRow::new(vec![]);
    assert!(row.encode().is_empty());
    assert_eq!(row.encoded_len(), 0);
}

#[test]
fn long_text_length_prefix() {
    let text = "x".repeat(200);
    let row = TableRow::new(vec![Cell::String(text)]);
    let bytes = row.encode();
    assert_eq!(&bytes[..3], &[0x0a, 0xc8, 0x01]);
    assert_eq!(bytes.len(), 203);
    assert_eq!(row.encoded_len(), 203);
}

#[test]
fn clear_resets_cells() {
    let mut row = TableRow::new(vec![
        Cell::Bool(true),
        Cell::String("abc".to_string()),
        Cell::I16(3),
        Cell::I32(4),
        Cell::I64(5),
        Cell::Bytes(vec![1]),
        Cell::Null(TEXT_OID),
    ]);
    row.clear();
    assert_eq!(
        row.values,
        vec![
            Cell::Bool(false),
            Cell::String(String::new()),
            Cell::I16(0),
            Cell::I32(0),
            Cell::I64(0),
            Cell::Bytes(vec![]),
            Cell::Null(TEXT_OID),
        ]
    );
}
