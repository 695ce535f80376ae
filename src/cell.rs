//! Typed values of one column, column schemas and the type tags they carry.
use vstd::prelude::*;

verus! {

/// A PostgreSQL type, identified by its object id.
pub type TypeOid = u32;

pub const BOOL_OID: TypeOid = 16;
pub const BYTEA_OID: TypeOid = 17;
pub const CHAR_OID: TypeOid = 18;
pub const NAME_OID: TypeOid = 19;
pub const INT8_OID: TypeOid = 20;
pub const INT2_OID: TypeOid = 21;
pub const INT4_OID: TypeOid = 23;
pub const TEXT_OID: TypeOid = 25;
pub const BPCHAR_OID: TypeOid = 1042;
pub const VARCHAR_OID: TypeOid = 1043;

/// One projected column of a table.
#[derive(Debug, Clone, PartialEq, Eq)]
pub struct ColumnSchema {
    pub name: String,
    pub typ: TypeOid,
    pub modifier: i32,
    pub nullable: bool,
    pub primary: bool,
}

impl ColumnSchema {
    pub fn new(name: String, typ: TypeOid, modifier: i32, nullable: bool, primary: bool) -> (r: Self)
        ensures
            r.name@ == name@,
            r.typ == typ,
            r.modifier == modifier,
            r.nullable == nullable,
            r.primary == primary,
    {
        ColumnSchema { name, typ, modifier, nullable, primary }
    }
}

/// A typed value. `Null` keeps the column's type so that later stages can
/// compute a type-correct default.
#[derive(Debug, Clone, PartialEq)]
pub enum Cell {
    Null(TypeOid),
    Bool(bool),
    String(String),
    I16(i16),
    I32(i32),
    I64(i64),
    Bytes(Vec<u8>),
}

/// The mathematical value of a [`Cell`].
pub enum CellView {
    Null(TypeOid),
    Bool(bool),
    String(Seq<char>),
    I16(i16),
    I32(i32),
    I64(i64),
    Bytes(Seq<u8>),
}

impl View for Cell {
    type V = CellView;

    open spec fn view(&self) -> CellView {
        match self {
            Cell::Null(t) => CellView::Null(*t),
            Cell::Bool(b) => CellView::Bool(*b),
            Cell::String(s) => CellView::String(s@),
            Cell::I16(i) => CellView::I16(*i),
            Cell::I32(i) => CellView::I32(*i),
            Cell::I64(i) => CellView::I64(*i),
            Cell::Bytes(b) => CellView::Bytes(b@),
        }
    }
}

/// The views of a sequence of cells.
pub open spec fn cells_view(cells: Seq<Cell>) -> Seq<CellView> {
    cells.map_values(|c: Cell| c@)
}

} // verus!
