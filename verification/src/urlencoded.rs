//! Query strings and form bodies: names and values in the
//! `application/x-www-form-urlencoded` syntax.

use vstd::prelude::*;
use vstd::utf8::encode_utf8;
use crate::string_map::{last_wins, StringMap};
use crate::text::{pairs_view, TextPair};

verus! {

/// The names and values that bytes in the `application/x-www-form-urlencoded`
/// syntax stand for, in their order: what `form_urlencoded::parse` yields. It
/// cuts the bytes at each `&` and passes over an empty piece, cuts a piece at
/// its first `=`, reads `+` as a space and `%` with two hexadecimal digits as
/// a byte, leaves any other `%` as it is, and reads the bytes so decoded as
/// UTF-8, with the replacement character in place of what is not UTF-8.
pub uninterp spec fn urlencoded_pairs(input: Seq<u8>) -> Seq<TextPair>;

/// Decodes names and values.
///
/// Assumed of `form_urlencoded::parse`: the pairs it yields, collected in
/// their order, are `urlencoded_pairs` of the bytes.
#[verifier::external_body]
fn parse_pairs(input: &[u8]) -> (pairs: Vec<(String, String)>)
    ensures
        pairs_view(pairs@) == urlencoded_pairs(input@),
{
    form_urlencoded::parse(input).into_owned().collect()
}

/// The mapping that a form body stands for. Of two fields with one name the
/// later gives the value.
pub fn decode_form(body: &[u8]) -> (r: StringMap)
    ensures
        r@ == last_wins(urlencoded_pairs(body@)),
{
    let pairs = parse_pairs(body);
    StringMap::from_pairs(&pairs)
}

/// The arguments that a query string stands for. Of two arguments with one
/// name the later gives the value. No query string is refused: what cannot be
/// decoded stays as it is written.
pub fn parse_query(query: &str) -> (r: StringMap)
    ensures
        r@ == last_wins(urlencoded_pairs(encode_utf8(query@))),
{
    decode_form(query.as_bytes())
}

} // verus!
