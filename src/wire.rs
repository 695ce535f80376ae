//! Tag-length-value encoding of rows: each cell is a protobuf field whose
//! tag is its 1-based column position. Null cells are left out.
use vstd::prelude::*;
use vstd::utf8::encode_utf8;
use crate::cell::{Cell, CellView};
use crate::table_row::TableRow;

verus! {

/// The largest field tag that protobuf allows.
pub const MAX_TAG: u32 = 0x1FFF_FFFF;

pub const WIRE_VARINT: u64 = 0;
pub const WIRE_LEN: u64 = 2;

/// The LEB128 bytes of `v`: seven bits per byte, least significant first,
/// the high bit set on every byte but the last.
pub open spec fn varint(v: nat) -> Seq<u8>
    decreases v,
{
    if v < 128 {
        seq![v as u8]
    } else {
        seq![(v % 128 + 128) as u8] + varint(v / 128)
    }
}

/// The number of bytes of `varint(v)`.
pub open spec fn varint_len(v: nat) -> nat
    decreases v,
{
    if v < 128 {
        1
    } else {
        1 + varint_len(v / 128)
    }
}

pub proof fn lemma_varint_len(v: nat)
    ensures
        varint(v).len() == varint_len(v),
    decreases v,
{
    if v >= 128 {
        lemma_varint_len(v / 128);
    }
}

/// Relies on `prost::encoding::encode_varint`: it appends the LEB128 bytes of
/// `value`.
#[verifier::external_body]
fn put_varint(value: u64, buf: &mut Vec<u8>)
    ensures
        final(buf)@ == old(buf)@ + varint(value as nat),
{
    prost::encoding::encode_varint(value, buf)
}

/// Relies on `prost::encoding::encoded_len_varint`: the number of bytes that
/// `encode_varint` writes for `value`.
#[verifier::external_body]
fn varint_size(value: u64) -> (r: usize)
    ensures
        r == varint(value as nat).len(),
{
    prost::encoding::encoded_len_varint(value)
}

/// The 64 bits of a signed integer, read as unsigned, as protobuf's `int32`
/// and `int64` write them.
pub open spec fn twos_complement(v: int) -> nat {
    if v >= 0 {
        v as nat
    } else {
        (v + 0x1_0000_0000_0000_0000) as nat
    }
}

/// The key of a field: its tag and wire type.
pub open spec fn key_value(tag: nat, wire: nat) -> nat {
    tag * 8 + wire
}

/// The bytes of one cell as the field numbered `tag`.
pub open spec fn cell_bytes(c: CellView, tag: nat) -> Seq<u8> {
    match c {
        CellView::Null(_) => Seq::empty(),
        CellView::Bool(b) => varint(key_value(tag, 0)) + varint(if b { 1 } else { 0 }),
        CellView::I16(i) => varint(key_value(tag, 0)) + varint(twos_complement(i as int)),
        CellView::I32(i) => varint(key_value(tag, 0)) + varint(twos_complement(i as int)),
        CellView::I64(i) => varint(key_value(tag, 0)) + varint(twos_complement(i as int)),
        CellView::String(s) => varint(key_value(tag, 2)) + varint(encode_utf8(s).len())
            + encode_utf8(s),
        CellView::Bytes(b) => varint(key_value(tag, 2)) + varint(b.len()) + b,
    }
}

/// The number of bytes of one cell, from the sizes of its parts.
pub open spec fn cell_len(c: CellView, tag: nat) -> nat {
    match c {
        CellView::Null(_) => 0,
        CellView::Bool(b) => varint_len(key_value(tag, 0)) + 1,
        CellView::I16(i) => varint_len(key_value(tag, 0)) + varint_len(twos_complement(i as int)),
        CellView::I32(i) => varint_len(key_value(tag, 0)) + varint_len(twos_complement(i as int)),
        CellView::I64(i) => varint_len(key_value(tag, 0)) + varint_len(twos_complement(i as int)),
        CellView::String(s) => varint_len(key_value(tag, 2)) + varint_len(encode_utf8(s).len())
            + encode_utf8(s).len(),
        CellView::Bytes(b) => varint_len(key_value(tag, 2)) + varint_len(b.len()) + b.len(),
    }
}

/// The message of a row: its cells in order, tagged 1, 2, ...
pub open spec fn row_bytes(cells: Seq<CellView>) -> Seq<u8>
    decreases cells.len(),
{
    if cells.len() == 0 {
        Seq::empty()
    } else {
        row_bytes(cells.drop_last()) + cell_bytes(cells.last(), cells.len())
    }
}

/// The size of the message of a row, summed cell by cell.
pub open spec fn row_len(cells: Seq<CellView>) -> nat
    decreases cells.len(),
{
    if cells.len() == 0 {
        0
    } else {
        row_len(cells.drop_last()) + cell_len(cells.last(), cells.len())
    }
}

pub proof fn lemma_cell_len(c: CellView, tag: nat)
    ensures
        cell_bytes(c, tag).len() == cell_len(c, tag),
{
    lemma_varint_len(key_value(tag, 0));
    lemma_varint_len(key_value(tag, 2));
    match c {
        CellView::I16(i) => lemma_varint_len(twos_complement(i as int)),
        CellView::I32(i) => lemma_varint_len(twos_complement(i as int)),
        CellView::I64(i) => lemma_varint_len(twos_complement(i as int)),
        CellView::String(s) => lemma_varint_len(encode_utf8(s).len()),
        CellView::Bytes(b) => lemma_varint_len(b.len()),
        _ => {},
    }
}

/// The size that `encoded_len` sums up is the length of the message that
/// `encode_raw` writes, for every row.
pub proof fn lemma_encoded_len_is_length(cells: Seq<CellView>)
    ensures
        row_len(cells) == row_bytes(cells).len(),
    decreases cells.len(),
{
    if cells.len() > 0 {
        lemma_encoded_len_is_length(cells.drop_last());
        lemma_cell_len(cells.last(), cells.len());
    }
}

/// A prefix of a row never has a longer message than the row.
proof fn lemma_row_len_prefix(cells: Seq<CellView>, i: int)
    requires
        0 <= i <= cells.len(),
    ensures
        row_len(cells.subrange(0, i)) <= row_len(cells),
    decreases cells.len() - i,
{
    if i < cells.len() {
        lemma_row_len_prefix(cells, i + 1);
        assert(cells.subrange(0, i + 1).drop_last() =~= cells.subrange(0, i));
    } else {
        assert(cells.subrange(0, i) =~= cells);
    }
}

/// The value that a cleared cell takes.
pub open spec fn cleared(c: CellView) -> CellView {
    match c {
        CellView::Null(t) => CellView::Null(t),
        CellView::Bool(_) => CellView::Bool(false),
        CellView::String(_) => CellView::String(Seq::empty()),
        CellView::I16(_) => CellView::I16(0),
        CellView::I32(_) => CellView::I32(0),
        CellView::I64(_) => CellView::I64(0),
        CellView::Bytes(_) => CellView::Bytes(Seq::empty()),
    }
}

fn bits_of(v: i64) -> (r: u64)
    ensures
        r as nat == twos_complement(v as int),
{
    if v >= 0 {
        v as u64
    } else {
        u64::MAX - (-(v + 1)) as u64
    }
}

fn put_cell(c: &Cell, tag: u32, buf: &mut Vec<u8>)
    requires
        1 <= tag <= MAX_TAG,
    ensures
        final(buf)@ == old(buf)@ + cell_bytes(c@, tag as nat),
{
    let varint_key = tag as u64 * 8 + WIRE_VARINT;
    let len_key = tag as u64 * 8 + WIRE_LEN;
    match c {
        Cell::Null(_) => {
            assert(buf@ =~= old(buf)@ + cell_bytes(c@, tag as nat));
        },
        Cell::Bool(b) => {
            put_varint(varint_key, buf);
            put_varint(if *b { 1 } else { 0 }, buf);
            assert(buf@ =~= old(buf)@ + cell_bytes(c@, tag as nat));
        },
        Cell::I16(i) => {
            put_varint(varint_key, buf);
            put_varint(bits_of(*i as i64), buf);
            assert(buf@ =~= old(buf)@ + cell_bytes(c@, tag as nat));
        },
        Cell::I32(i) => {
            put_varint(varint_key, buf);
            put_varint(bits_of(*i as i64), buf);
            assert(buf@ =~= old(buf)@ + cell_bytes(c@, tag as nat));
        },
        Cell::I64(i) => {
            put_varint(varint_key, buf);
            put_varint(bits_of(*i), buf);
            assert(buf@ =~= old(buf)@ + cell_bytes(c@, tag as nat));
        },
        Cell::String(s) => {
            let bytes = s.as_str().as_bytes();
            put_varint(len_key, buf);
            put_varint(bytes.len() as u64, buf);
            buf.extend_from_slice(bytes);
            assert(buf@ =~= old(buf)@ + cell_bytes(c@, tag as nat));
        },
        Cell::Bytes(b) => {
            put_varint(len_key, buf);
            put_varint(b.len() as u64, buf);
            buf.extend_from_slice(b.as_slice());
            assert(buf@ =~= old(buf)@ + cell_bytes(c@, tag as nat));
        },
    }
}

fn cell_size(c: &Cell, tag: u32) -> (r: usize)
    requires
        1 <= tag <= MAX_TAG,
        cell_len(c@, tag as nat) <= usize::MAX,
    ensures
        r == cell_len(c@, tag as nat),
{
    let varint_key = tag as u64 * 8 + WIRE_VARINT;
    let len_key = tag as u64 * 8 + WIRE_LEN;
    proof {
        lemma_varint_len(varint_key as nat);
        lemma_varint_len(len_key as nat);
    }
    match c {
        Cell::Null(_) => 0,
        Cell::Bool(_) => varint_size(varint_key) + 1,
        Cell::I16(i) => {
            proof { lemma_varint_len(twos_complement(*i as int)); }
            varint_size(varint_key) + varint_size(bits_of(*i as i64))
        },
        Cell::I32(i) => {
            proof { lemma_varint_len(twos_complement(*i as int)); }
            varint_size(varint_key) + varint_size(bits_of(*i as i64))
        },
        Cell::I64(i) => {
            proof { lemma_varint_len(twos_complement(*i as int)); }
            varint_size(varint_key) + varint_size(bits_of(*i))
        },
        Cell::String(s) => {
            let n = s.as_str().len();
            proof { lemma_varint_len(n as nat); }
            varint_size(len_key) + varint_size(n as u64) + n
        },
        Cell::Bytes(b) => {
            proof { lemma_varint_len(b.len() as nat); }
            varint_size(len_key) + varint_size(b.len() as u64) + b.len()
        },
    }
}

/// A value that can be written as a protobuf message for an append-only
/// destination. The message is only ever written, never read back.
pub trait ProtoMessage {
    /// The message of the value.
    spec fn message_bytes(&self) -> Seq<u8>;

    /// Whether the value fits the format (every tag within range).
    spec fn encodable(&self) -> bool;

    /// Appends the message to `buf`.
    fn encode_raw(&self, buf: &mut Vec<u8>)
        requires
            self.encodable(),
        ensures
            final(buf)@ == old(buf)@ + self.message_bytes(),
    ;

    /// The message alone.
    fn encode(&self) -> (r: Vec<u8>)
        requires
            self.encodable(),
        ensures
            r@ == self.message_bytes(),
    ;

    /// The length of the message, computed without writing it.
    fn encoded_len(&self) -> (r: usize)
        requires
            self.encodable(),
            self.message_bytes().len() <= usize::MAX,
        ensures
            r == self.message_bytes().len(),
    ;
}

impl ProtoMessage for TableRow {
    open spec fn message_bytes(&self) -> Seq<u8> {
        row_bytes(self@)
    }

    open spec fn encodable(&self) -> bool {
        self.values@.len() <= MAX_TAG
    }

    /// Appends the message of this row to `buf`.
    fn encode_raw(&self, buf: &mut Vec<u8>) {
        let n = self.values.len();
        let mut i: usize = 0;
        assert(self@.subrange(0, 0) =~= Seq::<CellView>::empty());
        while i < n
            invariant
                i <= n,
                n == self.values@.len(),
                n <= MAX_TAG,
                buf@ == old(buf)@ + row_bytes(self@.subrange(0, i as int)),
            decreases n - i,
        {
            let ghost before = buf@;
            put_cell(&self.values[i], (i + 1) as u32, buf);
            assert(self@.subrange(0, i + 1).drop_last() =~= self@.subrange(0, i as int));
            assert(buf@ =~= old(buf)@ + row_bytes(self@.subrange(0, i + 1)));
            i = i + 1;
        }
        assert(self@.subrange(0, n as int) =~= self@);
    }

    /// The message of this row.
    fn encode(&self) -> (r: Vec<u8>) {
        let mut buf: Vec<u8> = Vec::new();
        self.encode_raw(&mut buf);
        assert(buf@ =~= row_bytes(self@));
        buf
    }

    /// The length of the message of this row, without writing it.
    fn encoded_len(&self) -> (r: usize) {
        proof { lemma_encoded_len_is_length(self@); }
        let n = self.values.len();
        let mut len: usize = 0;
        let mut i: usize = 0;
        while i < n
            invariant
                i <= n,
                n == self.values@.len(),
                n <= MAX_TAG,
                row_len(self@) <= usize::MAX,
                len == row_len(self@.subrange(0, i as int)),
            decreases n - i,
        {
            proof {
                lemma_row_len_prefix(self@, i + 1);
                assert(self@.subrange(0, i + 1).drop_last() =~= self@.subrange(0, i as int));
            }
            len = len + cell_size(&self.values[i], (i + 1) as u32);
            i = i + 1;
        }
        assert(self@.subrange(0, n as int) =~= self@);
        len
    }

}

impl TableRow {
    /// Resets every cell to its zero or empty value, in place; null cells keep
    /// their type.
    pub fn clear(&mut self)
        ensures
            final(self)@ == old(self)@.map_values(|c: CellView| cleared(c)),
    {
        let n = self.values.len();
        let mut i: usize = 0;
        while i < n
            invariant
                i <= n,
                n == self.values@.len(),
                n == old(self).values@.len(),
                forall|k: int| 0 <= k < i ==> self@[k] == cleared(#[trigger] old(self)@[k]),
                forall|k: int| i <= k < n ==> self.values@[k] == #[trigger] old(self).values@[k],
            decreases n - i,
        {
            let c = &mut self.values[i];
            match c {
                Cell::Null(_) => {},
                Cell::Bool(b) => *b = false,
                Cell::String(s) => crate::text::clear_string(s),
                Cell::I16(v) => *v = 0,
                Cell::I32(v) => *v = 0,
                Cell::I64(v) => *v = 0,
                Cell::Bytes(b) => b.clear(),
            }
            i = i + 1;
        }
        assert(self@ =~= old(self)@.map_values(|c: CellView| cleared(c)));
    }
}

} // verus!
