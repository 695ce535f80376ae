//! Thin, trusted bridges to the standard library's text handling.
use vstd::prelude::*;
use vstd::utf8::{decode_utf8, valid_utf8};

verus! {

/// Relies on `std::str::from_utf8`: it succeeds exactly on valid UTF-8, and
/// the resulting `str` holds the decoded scalar values.
#[verifier::external_body]
pub(crate) fn utf8_str(bytes: &[u8]) -> (r: Option<&str>)
    ensures
        r is Some <==> valid_utf8(bytes@),
        r matches Some(s) ==> s@ == decode_utf8(bytes@),
{
    std::str::from_utf8(bytes).ok()
}

/// Relies on `FromIterator<char> for Vec<char>` over `str::chars`: the
/// characters of `s`, in order.
#[verifier::external_body]
pub(crate) fn collect_chars(s: &str) -> (r: Vec<char>)
    ensures
        r@ == s@,
{
    s.chars().collect()
}

/// Relies on `FromIterator<char> for String`: the string holds the characters
/// in order.
#[verifier::external_body]
pub(crate) fn string_from_chars(chars: &[char]) -> (r: String)
    ensures
        r@ == chars@,
{
    chars.iter().collect()
}

/// Relies on `String::clear`: the string becomes empty.
#[verifier::external_body]
pub(crate) fn clear_string(s: &mut String)
    ensures
        final(s)@ == Seq::<char>::empty(),
{
    s.clear()
}

} // verus!
