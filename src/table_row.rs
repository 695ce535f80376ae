//! Rows of typed values and their conversion from COPY TEXT records.
use vstd::prelude::*;
use vstd::utf8::{decode_utf8, encode_utf8, encode_utf8_decode_utf8, encode_utf8_valid_utf8, valid_utf8};
use crate::cell::{cells_view, Cell, CellView, ColumnSchema, TypeOid};
use crate::copy_text::{
    escape_record, lemma_no_line_feed_no_record, lemma_split_escaped_record, prepend_text, split_fields,
    split_record, unescape,
};
use crate::field_decoder::{decode_field, decode_spec, FromTextError};
use crate::text::{collect_chars, string_from_chars, utf8_str};

verus! {

/// One row: a value per column, in the column order of the schema.
#[derive(Debug, Clone, PartialEq)]
pub struct TableRow {
    pub values: Vec<Cell>,
}

impl View for TableRow {
    type V = Seq<CellView>;

    open spec fn view(&self) -> Seq<CellView> {
        cells_view(self.values@)
    }
}

impl TableRow {
    pub fn new(values: Vec<Cell>) -> (r: Self)
        ensures
            r.values@ == values@,
    {
        Self { values }
    }
}

/// The field that the field decoder rejected, with its column.
#[derive(Debug, Clone, PartialEq)]
pub struct InvalidField {
    pub column: String,
    pub typ: TypeOid,
    pub text: String,
    pub error: FromTextError,
}

/// Why a record could not be converted into a row.
#[derive(Debug, Clone, PartialEq)]
pub enum TableRowConversionError {
    /// A non-null field is of a type that the field decoder does not know.
    UnsupportedType(TypeOid),
    /// The record is not valid UTF-8.
    InvalidString,
    /// The record's field count differs from the schema's column count.
    NumColsMismatch,
    /// No line feed ends the record.
    UnterminatedRow,
    /// The field decoder rejected a field's text.
    InvalidValue(InvalidField),
}

/// The mathematical value of a [`TableRowConversionError`].
pub enum ConversionFailure {
    UnsupportedType(TypeOid),
    InvalidString,
    NumColsMismatch,
    UnterminatedRow,
    InvalidValue { column: Seq<char>, typ: TypeOid, text: Seq<char>, error: FromTextError },
}

impl View for TableRowConversionError {
    type V = ConversionFailure;

    open spec fn view(&self) -> ConversionFailure {
        match self {
            TableRowConversionError::UnsupportedType(t) => ConversionFailure::UnsupportedType(*t),
            TableRowConversionError::InvalidString => ConversionFailure::InvalidString,
            TableRowConversionError::NumColsMismatch => ConversionFailure::NumColsMismatch,
            TableRowConversionError::UnterminatedRow => ConversionFailure::UnterminatedRow,
            TableRowConversionError::InvalidValue(f) => ConversionFailure::InvalidValue {
                column: f.column@,
                typ: f.typ,
                text: f.text@,
                error: f.error,
            },
        }
    }
}

/// The text that marks an absent value.
pub open spec fn null_marker() -> Seq<char> {
    seq!['\\', 'N']
}

/// The value of one unescaped field in the given column. Both `\N` and
/// `\\N` unescape to the null marker, so a field whose whole text is a
/// backslash and `N` reads as null; inside a longer text the two characters
/// stay text.
pub open spec fn field_value(text: Seq<char>, col: ColumnSchema) -> Result<
    CellView,
    ConversionFailure,
> {
    if text == null_marker() {
        Ok(CellView::Null(col.typ))
    } else {
        match decode_spec(col.typ, text) {
            Ok(v) => Ok(v),
            Err(FromTextError::UnsupportedType) => Err(ConversionFailure::UnsupportedType(col.typ)),
            Err(e) => Err(
                ConversionFailure::InvalidValue { column: col.name@, typ: col.typ, text, error: e },
            ),
        }
    }
}

/// The values of the first `n` fields, or the error of the first field that
/// fails.
pub open spec fn decode_fields(fields: Seq<Seq<char>>, schema: Seq<ColumnSchema>, n: nat) -> Result<
    Seq<CellView>,
    ConversionFailure,
>
    decreases n,
{
    if n == 0 {
        Ok(Seq::empty())
    } else {
        match decode_fields(fields, schema, (n - 1) as nat) {
            Ok(vs) => match field_value(fields[n - 1], schema[n - 1]) {
                Ok(v) => Ok(vs.push(v)),
                Err(e) => Err(e),
            },
            Err(e) => Err(e),
        }
    }
}

/// The row that the record text `s` gives under `schema`.
pub open spec fn convert_text(s: Seq<char>, schema: Seq<ColumnSchema>) -> Result<
    Seq<CellView>,
    ConversionFailure,
> {
    match split_record(s) {
        None => Err(ConversionFailure::UnterminatedRow),
        Some((fields, rest)) => if fields.len() != schema.len() || rest.len() != 0 {
            Err(ConversionFailure::NumColsMismatch)
        } else {
            decode_fields(fields, schema, fields.len())
        },
    }
}

/// The row that the record bytes `row` give under `schema`.
pub open spec fn convert_spec(row: Seq<u8>, schema: Seq<ColumnSchema>) -> Result<
    Seq<CellView>,
    ConversionFailure,
> {
    if !valid_utf8(row) {
        Err(ConversionFailure::InvalidString)
    } else {
        convert_text(decode_utf8(row), schema)
    }
}

/// Converts COPY TEXT records into rows.
pub struct TableRowConverter;

impl TableRowConverter {
    /// Converts one record, which must end with a line feed and hold one field
    /// per column of `column_schemas`. Nothing after that line feed is
    /// accepted. Errors of the record's shape come before those of its fields;
    /// among fields, the first that fails decides the error.
    pub fn try_from(row: &[u8], column_schemas: &[ColumnSchema]) -> (r: Result<
        TableRow,
        TableRowConversionError,
    >)
        ensures
            match r {
                Ok(t) => convert_spec(row@, column_schemas@) == Ok::<
                    Seq<CellView>,
                    ConversionFailure,
                >(t@),
                Err(e) => convert_spec(row@, column_schemas@) == Err::<
                    Seq<CellView>,
                    ConversionFailure,
                >(e@),
            },
    {
        let chars = match utf8_str(row) {
            Some(text) => collect_chars(text),
            None => return Err(TableRowConversionError::InvalidString),
        };
        let (fields, end) = match split_fields(chars.as_slice()) {
            Some(x) => x,
            None => return Err(TableRowConversionError::UnterminatedRow),
        };
        let n = column_schemas.len();
        if fields.len() != n || end != chars.len() {
            return Err(TableRowConversionError::NumColsMismatch);
        }
        let ghost texts = split_record(chars@)->Some_0.0;
        let mut values: Vec<Cell> = Vec::with_capacity(n);
        let mut i: usize = 0;
        assert(cells_view(values@) =~= Seq::<CellView>::empty());
        while i < n
            invariant
                i <= n,
                n == column_schemas@.len(),
                n == fields@.len(),
                texts.len() == n,
                forall|k: int| 0 <= k < n ==> (#[trigger] fields@[k])@ == texts[k],
                valid_utf8(row@),
                chars@ == decode_utf8(row@),
                convert_spec(row@, column_schemas@) == decode_fields(texts, column_schemas@, n as nat),
                decode_fields(texts, column_schemas@, i as nat) == Ok::<
                    Seq<CellView>,
                    ConversionFailure,
                >(cells_view(values@)),
            decreases n - i,
        {
            let col = &column_schemas[i];
            let text = &fields[i];
            let ghost prev = cells_view(values@);
            let value = if text.len() == 2 && text[0] == '\\' && text[1] == 'N' {
                assert(text@ =~= null_marker());
                Cell::Null(col.typ)
            } else {
                assert(text@ != null_marker()) by {
                    if text@ == null_marker() {
                        assert(text@[0] == '\\' && text@[1] == 'N');
                    }
                }
                match decode_field(col.typ, text.as_slice()) {
                    Ok(v) => v,
                    Err(FromTextError::UnsupportedType) => {
                        proof { lemma_first_error_wins(texts, column_schemas@, (i + 1) as nat, n as nat); }
                        return Err(TableRowConversionError::UnsupportedType(col.typ));
                    },
                    Err(e) => {
                        proof { lemma_first_error_wins(texts, column_schemas@, (i + 1) as nat, n as nat); }
                        return Err(
                            TableRowConversionError::InvalidValue(
                                InvalidField {
                                    column: col.name.clone(),
                                    typ: col.typ,
                                    text: string_from_chars(text.as_slice()),
                                    error: e,
                                },
                            ),
                        );
                    },
                }
            };
            values.push(value);
            assert(cells_view(values@) =~= prev.push(value@));
            i = i + 1;
        }
        Ok(TableRow { values })
    }
}

/// Once the first `i` fields fail, so do the first `n`, with the same error.
proof fn lemma_first_error_wins(fields: Seq<Seq<char>>, schema: Seq<ColumnSchema>, i: nat, n: nat)
    requires
        i <= n,
        decode_fields(fields, schema, i) is Err,
    ensures
        decode_fields(fields, schema, n) == decode_fields(fields, schema, i),
    decreases n - i,
{
    if i < n {
        lemma_first_error_wins(fields, schema, i, (n - 1) as nat);
    }
}

/// A record that the database wrote from field texts, none of them the null
/// marker, converts to what decoding those texts column by column gives.
pub proof fn lemma_round_trip(texts: Seq<Seq<char>>, schema: Seq<ColumnSchema>)
    requires
        texts.len() >= 1,
        texts.len() == schema.len(),
        forall|i: int| 0 <= i < texts.len() ==> texts[i] != null_marker(),
    ensures
        convert_spec(encode_utf8(escape_record(texts)), schema) == decode_fields(
            texts,
            schema,
            texts.len(),
        ),
{
    let s = escape_record(texts);
    encode_utf8_valid_utf8(s);
    encode_utf8_decode_utf8(s);
    lemma_split_escaped_record(texts);
}

/// A well-formed record with fewer fields than the schema has columns is
/// rejected for its field count.
pub proof fn lemma_too_few_fields(row: Seq<u8>, schema: Seq<ColumnSchema>)
    requires
        valid_utf8(row),
        split_record(decode_utf8(row)) matches Some((fields, _)) && fields.len() < schema.len(),
    ensures
        convert_spec(row, schema) == Err::<Seq<CellView>, ConversionFailure>(
            ConversionFailure::NumColsMismatch,
        ),
{
}

/// A record without a line feed is unterminated.
pub proof fn lemma_unterminated(row: Seq<u8>, schema: Seq<ColumnSchema>)
    requires
        valid_utf8(row),
        !decode_utf8(row).contains('\n'),
    ensures
        convert_spec(row, schema) == Err::<Seq<CellView>, ConversionFailure>(
            ConversionFailure::UnterminatedRow,
        ),
{
    lemma_no_line_feed_no_record(decode_utf8(row));
}

/// A field whose unescaped text is the null marker is an absent value of the
/// column's type, whether it was written `\N` or `\\N`.
pub proof fn lemma_null_marker(col: ColumnSchema)
    ensures
        convert_text(seq!['\\', 'N', '\n'], seq![col]) == Ok::<Seq<CellView>, ConversionFailure>(
            seq![CellView::Null(col.typ)],
        ),
        convert_text(seq!['\\', '\\', 'N', '\n'], seq![col]) == Ok::<
            Seq<CellView>,
            ConversionFailure,
        >(seq![CellView::Null(col.typ)]),
{
    let e = Seq::<char>::empty();
    let lf = seq!['\n'];
    assert(lf.drop_first() =~= e);
    assert(split_record(lf) == Some((seq![e], e)));
    let plain = seq!['\\', 'N', '\n'];
    assert(plain.subrange(2, 3) =~= lf);
    assert(unescape('N') + e =~= null_marker());
    assert(prepend_text(unescape('N'), seq![e]) =~= seq![null_marker()]);
    assert(split_record(plain) == Some((seq![null_marker()], e)));
    let n_lf = seq!['N', '\n'];
    assert(n_lf.drop_first() =~= lf);
    assert(seq!['N'] + e =~= seq!['N']);
    assert(prepend_text(seq!['N'], seq![e]) =~= seq![seq!['N']]);
    assert(split_record(n_lf) == Some((seq![seq!['N']], e)));
    let escaped = seq!['\\', '\\', 'N', '\n'];
    assert(escaped.subrange(2, 4) =~= n_lf);
    assert(unescape('\\') + seq!['N'] =~= null_marker());
    assert(prepend_text(unescape('\\'), seq![seq!['N']]) =~= seq![null_marker()]);
    assert(split_record(escaped) == Some((seq![null_marker()], e)));
    assert(decode_fields(seq![null_marker()], seq![col], 0) == Ok::<
        Seq<CellView>,
        ConversionFailure,
    >(Seq::empty()));
    assert(Seq::<CellView>::empty().push(CellView::Null(col.typ)) =~= seq![CellView::Null(col.typ)]);
}

} // verus!
