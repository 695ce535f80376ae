//! Decoding of one unescaped field text into a typed value, by column type.
use vstd::prelude::*;
use crate::cell::{
    Cell, CellView, TypeOid, BOOL_OID, BPCHAR_OID, CHAR_OID, INT2_OID, INT4_OID, INT8_OID,
    NAME_OID, TEXT_OID, VARCHAR_OID,
};
use crate::text::string_from_chars;

verus! {

/// Why a field text could not be decoded.
#[derive(Clone, Copy, Debug, PartialEq, Eq, Structural)]
pub enum FromTextError {
    /// No decoding is known for the column's type.
    UnsupportedType,
    /// A boolean field was neither `t` nor `f`.
    InvalidBool,
    /// An integer field was not a decimal number within the type's range.
    InvalidInt,
}

pub open spec fn is_digit(c: char) -> bool {
    '0' <= c <= '9'
}

pub open spec fn all_digits(s: Seq<char>) -> bool {
    s.len() > 0 && forall|i: int| 0 <= i < s.len() ==> is_digit(#[trigger] s[i])
}

/// The number written by a sequence of decimal digits.
pub open spec fn digits_value(s: Seq<char>) -> int
    decreases s.len(),
{
    if s.len() == 0 {
        0
    } else {
        digits_value(s.drop_last()) * 10 + (s.last() as int - '0' as int)
    }
}

/// The integer written by `s`: an optional sign followed by decimal digits.
pub open spec fn int_text_value(s: Seq<char>) -> Option<int> {
    if s.len() > 0 && (s[0] == '-' || s[0] == '+') {
        if all_digits(s.drop_first()) {
            if s[0] == '-' {
                Some(-digits_value(s.drop_first()))
            } else {
                Some(digits_value(s.drop_first()))
            }
        } else {
            None
        }
    } else if all_digits(s) {
        Some(digits_value(s))
    } else {
        None
    }
}

/// The integer written by `s` when it lies in `lo..=hi`.
pub open spec fn int_in_range(s: Seq<char>, lo: int, hi: int) -> Option<int> {
    match int_text_value(s) {
        Some(v) => if lo <= v <= hi { Some(v) } else { None },
        None => None,
    }
}

pub open spec fn is_text_type(typ: TypeOid) -> bool {
    typ == CHAR_OID || typ == NAME_OID || typ == TEXT_OID || typ == BPCHAR_OID
        || typ == VARCHAR_OID
}

/// What decoding `text` as a value of type `typ` yields.
pub open spec fn decode_spec(typ: TypeOid, text: Seq<char>) -> Result<CellView, FromTextError> {
    if typ == BOOL_OID {
        if text == seq!['t'] {
            Ok(CellView::Bool(true))
        } else if text == seq!['f'] {
            Ok(CellView::Bool(false))
        } else {
            Err(FromTextError::InvalidBool)
        }
    } else if is_text_type(typ) {
        Ok(CellView::String(text))
    } else if typ == INT2_OID {
        match int_in_range(text, i16::MIN as int, i16::MAX as int) {
            Some(v) => Ok(CellView::I16(v as i16)),
            None => Err(FromTextError::InvalidInt),
        }
    } else if typ == INT4_OID {
        match int_in_range(text, i32::MIN as int, i32::MAX as int) {
            Some(v) => Ok(CellView::I32(v as i32)),
            None => Err(FromTextError::InvalidInt),
        }
    } else if typ == INT8_OID {
        match int_in_range(text, i64::MIN as int, i64::MAX as int) {
            Some(v) => Ok(CellView::I64(v as i64)),
            None => Err(FromTextError::InvalidInt),
        }
    } else {
        Err(FromTextError::UnsupportedType)
    }
}

const MAG_LIMIT: u64 = 1_000_000_000_000_000_000;

/// Parses an optionally signed decimal integer and checks it against `lo..=hi`.
pub fn parse_int(text: &[char], lo: i64, hi: i64) -> (r: Option<i64>)
    ensures
        r matches Some(v) ==> int_in_range(text@, lo as int, hi as int) == Some(v as int),
        r is None ==> int_in_range(text@, lo as int, hi as int) is None,
{
    let n = text.len();
    let start: usize = if n > 0 && (text[0] == '-' || text[0] == '+') { 1 } else { 0 };
    let negative = n > 0 && text[0] == '-';
    if start == n {
        if start == 1 {
            assert(text@.drop_first() =~= text@.subrange(1, n as int));
        }
        return None;
    }
    let ghost digits = text@.subrange(start as int, n as int);
    let mut mag: u64 = 0;
    let mut overflow = false;
    let mut j: usize = start;
    while j < n
        invariant
            start <= j <= n,
            n == text@.len(),
            start < n,
            start == (if n > 0 && (text@[0] == '-' || text@[0] == '+') { 1usize } else { 0usize }),
            negative == (n > 0 && text@[0] == '-'),
            digits == text@.subrange(start as int, n as int),
            forall|k: int| start <= k < j ==> is_digit(#[trigger] text@[k]),
            !overflow ==> mag as int == digits_value(text@.subrange(start as int, j as int)),
            !overflow ==> mag <= 10 * MAG_LIMIT + 9,
            overflow ==> digits_value(text@.subrange(start as int, j as int)) > 10 * MAG_LIMIT,
        decreases n - j,
    {
        let c = text[j];
        if !('0' <= c && c <= '9') {
            assert(!is_digit(digits[j - start]));
            assert(!all_digits(digits));
            if start == 1 {
                assert(text@.drop_first() =~= digits);
            } else {
                assert(text@ =~= digits);
            }
            return None;
        }
        let ghost prefix = text@.subrange(start as int, j as int);
        assert(text@.subrange(start as int, j + 1) .drop_last() =~= prefix);
        let ghost dv = digits_value(prefix);
        assert(digits_value(text@.subrange(start as int, j + 1)) == dv * 10 + (c as int
            - '0' as int));
        let d = (c as u32 - '0' as u32) as u64;
        if !overflow {
            if mag > MAG_LIMIT {
                overflow = true;
            } else {
                mag = mag * 10 + d;
            }
        }
        j = j + 1;
    }
    assert(text@.subrange(start as int, n as int) =~= digits);
    assert(all_digits(digits));
    if start == 1 {
        assert(text@.drop_first() =~= digits);
    } else {
        assert(text@ =~= digits);
    }
    if overflow {
        return None;
    }
    if negative {
        if mag > 9_223_372_036_854_775_808 {
            return None;
        }
        let v: i64 = if mag == 9_223_372_036_854_775_808 {
            i64::MIN
        } else {
            -(mag as i64)
        };
        if v < lo || v > hi {
            None
        } else {
            Some(v)
        }
    } else {
        if mag > i64::MAX as u64 {
            return None;
        }
        let v = mag as i64;
        if v < lo || v > hi {
            None
        } else {
            Some(v)
        }
    }
}

/// Decodes one unescaped field text as a value of the column type `typ`.
pub fn decode_field(typ: TypeOid, text: &[char]) -> (r: Result<Cell, FromTextError>)
    ensures
        match r {
            Ok(c) => decode_spec(typ, text@) == Ok::<CellView, FromTextError>(c@),
            Err(e) => decode_spec(typ, text@) == Err::<CellView, FromTextError>(e),
        },
{
    if typ == BOOL_OID {
        if text.len() == 1 && text[0] == 't' {
            assert(text@ =~= seq!['t']);
            Ok(Cell::Bool(true))
        } else if text.len() == 1 && text[0] == 'f' {
            assert(text@ =~= seq!['f']);
            Ok(Cell::Bool(false))
        } else {
            assert(text@ != seq!['t']) by {
                if text@ == seq!['t'] { assert(text@[0] == 't'); }
            }
            assert(text@ != seq!['f']) by {
                if text@ == seq!['f'] { assert(text@[0] == 'f'); }
            }
            Err(FromTextError::InvalidBool)
        }
    } else if typ == CHAR_OID || typ == NAME_OID || typ == TEXT_OID || typ == BPCHAR_OID
        || typ == VARCHAR_OID {
        Ok(Cell::String(string_from_chars(text)))
    } else if typ == INT2_OID {
        match parse_int(text, i16::MIN as i64, i16::MAX as i64) {
            Some(v) => Ok(Cell::I16(v as i16)),
            None => Err(FromTextError::InvalidInt),
        }
    } else if typ == INT4_OID {
        match parse_int(text, i32::MIN as i64, i32::MAX as i64) {
            Some(v) => Ok(Cell::I32(v as i32)),
            None => Err(FromTextError::InvalidInt),
        }
    } else if typ == INT8_OID {
        match parse_int(text, i64::MIN, i64::MAX) {
            Some(v) => Ok(Cell::I64(v)),
            None => Err(FromTextError::InvalidInt),
        }
    } else {
        Err(FromTextError::UnsupportedType)
    }
}

} // verus!
