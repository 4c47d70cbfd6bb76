//! The record of a request: what every route answers with.

use vstd::prelude::*;
use vstd::utf8::encode_utf8;
use axum::http::{HeaderMap, HeaderValue};
use crate::error::ExtractionError;
use crate::header_map::{header_lines, held_texts, holds_unreadable_value};
use crate::headers::{grouped, HeaderMultiMap};
use crate::string_map::{last_wins, StringMap};
use crate::text::{pairs_view, slice_text_of, TextPair};
use crate::urlencoded::{parse_query, urlencoded_pairs};

verus! {

/// A snapshot as the contracts see it.
pub struct SnapshotView {
    pub method: Seq<char>,
    pub url: Seq<char>,
    pub origin: Seq<char>,
    pub args: Seq<TextPair>,
    pub headers: Seq<TextPair>,
}

/// The record of a request: its method, its URL, the address it came from,
/// the arguments of its query string and its headers. It is built once for a
/// request and not changed afterwards.
pub struct RequestSnapshot {
    method: String,
    url: String,
    origin: String,
    args: StringMap,
    headers: HeaderMultiMap,
}

/// The arguments of a query string, none where there is no query string.
pub open spec fn query_args(query: Option<Seq<char>>) -> Seq<TextPair> {
    match query {
        Some(q) => last_wins(urlencoded_pairs(encode_utf8(q))),
        None => Seq::empty(),
    }
}

impl View for RequestSnapshot {
    type V = SnapshotView;

    closed spec fn view(&self) -> SnapshotView {
        SnapshotView {
            method: self.method@,
            url: self.url@,
            origin: self.origin@,
            args: self.args@,
            headers: self.headers@,
        }
    }
}

impl RequestSnapshot {
    /// The snapshot that holds these parts. Without arguments it holds none.
    pub fn new(
        origin: String,
        url: String,
        method: String,
        headers: HeaderMultiMap,
        params: Option<StringMap>,
    ) -> (r: Self)
        ensures
            r@ == (SnapshotView {
                method: method@,
                url: url@,
                origin: origin@,
                args: match params {
                    Some(p) => p@,
                    None => Seq::empty(),
                },
                headers: headers@,
            }),
    {
        let args = match params {
            Some(p) => p,
            None => StringMap::new(),
        };
        RequestSnapshot { method, url, origin, args, headers }
    }

    /// The snapshot of a request, from what was received: the method as it was
    /// sent, the URL in full, the address of the sender, the header lines with
    /// their duplicates, and the query string where the URL has one.
    pub fn capture(
        method: &str,
        url: &str,
        origin: &str,
        header_lines: Vec<(String, String)>,
        query: Option<&str>,
    ) -> (r: Self)
        ensures
            r@ == (SnapshotView {
                method: method@,
                url: url@,
                origin: origin@,
                args: query_args(slice_text_of(query)),
                headers: grouped(pairs_view(header_lines@)),
            }),
    {
        let params = match query {
            Some(q) => Some(parse_query(q)),
            None => None,
        };
        let headers = HeaderMultiMap::from_lines(header_lines);
        RequestSnapshot::new(origin.to_owned(), url.to_owned(), method.to_owned(), headers, params)
    }

    /// The snapshot of a request whose headers stand in a `HeaderMap`. Fails
    /// where a header value is not text.
    pub fn from_request_parts(
        method: &str,
        url: &str,
        origin: &str,
        headers: &HeaderMap<HeaderValue>,
        query: Option<&str>,
    ) -> (r: Result<Self, ExtractionError>)
        ensures
            r is Err <==> holds_unreadable_value(header_lines(*headers)),
            r matches Err(e) ==> e == ExtractionError::HeaderValue,
            r matches Ok(s) ==> s@ == (SnapshotView {
                method: method@,
                url: url@,
                origin: origin@,
                args: query_args(slice_text_of(query)),
                headers: grouped(held_texts(header_lines(*headers))),
            }),
    {
        let params = match query {
            Some(q) => Some(parse_query(q)),
            None => None,
        };
        match HeaderMultiMap::from_header_map(headers) {
            Err(e) => Err(e),
            Ok(h) => Ok(
                RequestSnapshot::new(
                    origin.to_owned(),
                    url.to_owned(),
                    method.to_owned(),
                    h,
                    params,
                ),
            ),
        }
    }

    /// The method, as it was sent.
    pub fn method(&self) -> (r: &String)
        ensures
            r@ == self@.method,
    {
        &self.method
    }

    /// The URL.
    pub fn url(&self) -> (r: &String)
        ensures
            r@ == self@.url,
    {
        &self.url
    }

    /// The address the request came from.
    pub fn origin(&self) -> (r: &String)
        ensures
            r@ == self@.origin,
    {
        &self.origin
    }

    /// The arguments of the query string.
    pub fn args(&self) -> (r: &StringMap)
        ensures
            r@ == self@.args,
    {
        &self.args
    }

    /// The headers.
    pub fn headers(&self) -> (r: &HeaderMultiMap)
        ensures
            r@ == self@.headers,
    {
        &self.headers
    }
}

} // verus!
