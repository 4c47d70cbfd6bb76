//! The service as a whole: a request and the route it was sent to give a
//! reply, and nothing else has a part in it.

use vstd::prelude::*;
use crate::auth::{basic_outcome, is_header_text, lemma_bearer_carries_any_token, AuthConfig};
use crate::body::{parts_view, ContentKind, PartView, RawPart};
use crate::error::Failure;
use crate::handlers::{
    authorization_of, basic_credentials_of, basic_method_handler, bearer_token_of,
    declared_body_outcome, echo_outcome, form_handler, get_basic_auth_handler,
    get_bearer_auth_handler, password_outcome, post_file_handler, post_json_handler,
    token_outcome, RouteOutcome,
};
use crate::headers::{grouped, lemma_grouped_len, lemma_grouped_values, values_of};
use crate::reply::{reply_of, route_outcome_view, Reply};
use crate::response::{EndpointResponse, ExtraView};
use crate::snapshot::{query_args, RequestSnapshot, SnapshotView};
use crate::text::{pairs_view, text_of, TextPair};

verus! {

/// The routes of the service.
#[derive(Debug, Clone, Copy, PartialEq, Eq, Structural)]
pub enum Route {
    /// `/get`, `/post`, `/put`, `/patch`, `/delete`: the snapshot alone.
    Echo,
    /// `/post/json`: the snapshot and the JSON body.
    PostJson,
    /// `/post/form`: the snapshot and the form in the body.
    PostForm,
    /// `/post/file`: the snapshot and the parts of the multipart body.
    PostFile,
    /// `/basic-auth/{user}/{pass}`: the snapshot and the identifier, for the
    /// expected password.
    BasicAuth,
    /// `/bearer`: the snapshot and the token.
    Bearer,
}

/// A request as the contracts see it.
pub struct RequestView {
    pub method: Seq<char>,
    pub url: Seq<char>,
    pub origin: Seq<char>,
    pub header_lines: Seq<TextPair>,
    pub query: Option<Seq<char>>,
    pub body: Seq<u8>,
    pub parts: Seq<PartView>,
}

/// A request as it was received: the method, the URL in full, the address of
/// the sender, the header lines with their duplicates, the query string where
/// the URL has one, the bytes of the body, and, for a multipart body, its
/// parts in the order of their arrival.
pub struct RawRequest {
    pub method: String,
    pub url: String,
    pub origin: String,
    pub header_lines: Vec<(String, String)>,
    pub query: Option<String>,
    pub body: Vec<u8>,
    pub parts: Vec<RawPart>,
}

impl View for RawRequest {
    type V = RequestView;

    open spec fn view(&self) -> RequestView {
        RequestView {
            method: self.method@,
            url: self.url@,
            origin: self.origin@,
            header_lines: pairs_view(self.header_lines@),
            query: text_of(self.query),
            body: self.body@,
            parts: parts_view(self.parts@),
        }
    }
}

/// The snapshot of a request.
pub open spec fn snapshot_of(request: RequestView) -> SnapshotView {
    SnapshotView {
        method: request.method,
        url: request.url,
        origin: request.origin,
        args: query_args(request.query),
        headers: grouped(request.header_lines),
    }
}

/// What a route comes to for a request, where `expected_password` is the
/// password that the service accepts.
pub open spec fn route_outcome(
    route: Route,
    request: RequestView,
    expected_password: Seq<char>,
) -> RouteOutcome {
    let snapshot = snapshot_of(request);
    match route {
        Route::Echo => echo_outcome(snapshot),
        Route::PostJson => declared_body_outcome(
            ContentKind::Json,
            snapshot,
            request.body,
            Seq::empty(),
        ),
        Route::PostForm => declared_body_outcome(
            ContentKind::Form,
            snapshot,
            request.body,
            Seq::empty(),
        ),
        Route::PostFile => declared_body_outcome(
            ContentKind::Multipart,
            snapshot,
            Seq::empty(),
            request.parts,
        ),
        Route::BasicAuth => password_outcome(
            snapshot,
            basic_outcome(basic_credentials_of(snapshot.headers), expected_password),
        ),
        Route::Bearer => token_outcome(snapshot, bearer_token_of(snapshot.headers)),
    }
}

/// What a route comes to for a request: its response, or the failure.
pub fn respond(route: Route, request: RawRequest, config: &AuthConfig) -> (r: Result<
    EndpointResponse,
    Failure,
>)
    ensures
        route_outcome_view(r) == route_outcome(route, request@, config.expected_password@),
{
    let RawRequest { method, url, origin, header_lines, query, body, parts } = request;
    let snapshot = RequestSnapshot::capture(
        method.as_str(),
        url.as_str(),
        origin.as_str(),
        header_lines,
        match &query {
            Some(q) => Some(q.as_str()),
            None => None,
        },
    );
    match route {
        Route::Echo => Ok(basic_method_handler(snapshot)),
        Route::PostJson => post_json_handler(snapshot, body.as_slice()),
        Route::PostForm => form_handler(snapshot, body.as_slice()),
        Route::PostFile => post_file_handler(snapshot, parts),
        Route::BasicAuth => get_basic_auth_handler(snapshot, config),
        Route::Bearer => get_bearer_auth_handler(snapshot),
    }
}

/// The reply to a request that was sent to a route. It is a function of the
/// route, the request and the expected password: the service keeps nothing
/// from one request to the next.
pub fn serve(route: Route, request: RawRequest, config: &AuthConfig) -> (r: Reply)
    ensures
        r@ == reply_of(route_outcome(route, request@, config.expected_password@)),
{
    Reply::of(respond(route, request, config))
}

/// The method in a response is the method of the request, as it was sent.
pub proof fn lemma_method_is_kept(route: Route, request: RequestView, expected_password: Seq<char>)
    ensures
        route_outcome(route, request, expected_password) matches Ok(response)
            ==> response.snapshot.method == request.method,
{
}

/// The headers of a response have as many lines as the request had, and under
/// every name the values that the request had under it, each as often as it
/// was sent.
pub proof fn lemma_header_values_are_kept(
    route: Route,
    request: RequestView,
    expected_password: Seq<char>,
    name: Seq<char>,
)
    ensures
        route_outcome(route, request, expected_password) matches Ok(response) ==> {
            &&& response.snapshot.headers.len() == request.header_lines.len()
            &&& values_of(response.snapshot.headers, name) == values_of(
                request.header_lines,
                name,
            )
        },
{
    lemma_grouped_len(request.header_lines);
    lemma_grouped_values(request.header_lines, name);
}

/// A request whose first `Authorization` header is `Bearer`, a space and a
/// token is answered with that token, whatever the token is, the empty one
/// too.
pub proof fn lemma_any_token_is_accepted(
    request: RequestView,
    expected_password: Seq<char>,
    token: Seq<char>,
)
    requires
        is_header_text(token),
        authorization_of(grouped(request.header_lines)) == Some("Bearer "@ + token),
    ensures
        route_outcome(Route::Bearer, request, expected_password) matches Ok(response)
            && response.extra == (ExtraView::Bearer { authenticated: true, token }),
{
    lemma_bearer_carries_any_token(token);
}

/// The same request, sent again to the same route, gets the same reply:
/// status, headers and body.
pub proof fn lemma_same_request_same_reply(
    route: Route,
    first: RequestView,
    second: RequestView,
    expected_password: Seq<char>,
)
    requires
        first == second,
    ensures
        reply_of(route_outcome(route, first, expected_password)) == reply_of(
            route_outcome(route, second, expected_password),
        ),
{
}

} // verus!
