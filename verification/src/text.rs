//! Text as the contracts see it, and the two standard-library calls on text
//! that the library makes.

use vstd::prelude::*;
use vstd::utf8::*;

verus! {

/// A name and a value: a header line, a query argument, a form field.
pub type TextPair = (Seq<char>, Seq<char>);

/// The names and values of a vector of string pairs.
pub open spec fn pairs_view(v: Seq<(String, String)>) -> Seq<TextPair> {
    Seq::new(v.len(), |i: int| (v[i].0@, v[i].1@))
}

/// The text of a string, where there is a string.
pub open spec fn text_of(s: Option<String>) -> Option<Seq<char>> {
    match s {
        Some(t) => Some(t@),
        None => None,
    }
}

/// The text of a string slice, where there is one.
pub open spec fn slice_text_of(s: Option<&str>) -> Option<Seq<char>> {
    match s {
        Some(t) => Some(t@),
        None => None,
    }
}

/// A character with `A` to `Z` mapped to `a` to `z`.
pub open spec fn ascii_lower(c: char) -> char {
    if 'A' <= c && c <= 'Z' {
        ((c as u8 + 32) as u8) as char
    } else {
        c
    }
}

/// A text with its ASCII letters in lower case.
pub open spec fn ascii_lowered(s: Seq<char>) -> Seq<char> {
    s.map_values(|c: char| ascii_lower(c))
}

/// Whether two header names are the same name: header names do not
/// distinguish the case of ASCII letters.
pub open spec fn same_name(a: Seq<char>, b: Seq<char>) -> bool {
    ascii_lowered(a) == ascii_lowered(b)
}

/// Compares two names without regard to the case of ASCII letters.
///
/// Assumed of `str::eq_ignore_ascii_case`: it answers whether the two strings
/// are equal once `A` to `Z` are mapped to `a` to `z` in both and every other
/// character is left as it is.
#[verifier::external_body]
pub(crate) fn names_match(a: &str, b: &str) -> (r: bool)
    ensures
        r == same_name(a@, b@),
{
    a.eq_ignore_ascii_case(b)
}

/// Reads bytes as UTF-8 text.
///
/// Assumed of `String::from_utf8`: it succeeds exactly on well-formed UTF-8, and
/// the string it gives is the text that those bytes encode.
#[verifier::external_body]
pub(crate) fn text_from_utf8(bytes: Vec<u8>) -> (r: Option<String>)
    ensures
        r is Some <==> valid_utf8(bytes@),
        r matches Some(s) ==> s@ == decode_utf8(bytes@),
{
    String::from_utf8(bytes).ok()
}

} // verus!
