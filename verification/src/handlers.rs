//! The routes: what each comes to for a request.

use vstd::prelude::*;
use crate::auth::{
    basic_credentials, basic_outcome, bearer_token, read_basic, read_bearer, validate_basic,
    AuthConfig, AuthResult, AuthView,
};
use crate::body::{
    content_kind, decode_body, declared_kind, decoded_body, outcome_view, parts_view,
    BodyPayload, ContentKind, PartView, PayloadView, RawPart,
};
use crate::error::{DecodeError, ExtractionError, Failure, FailureView};
use crate::headers::{values_of, with_name};
use crate::reply::route_outcome_view;
use crate::response::{EndpointResponse, Extra, ExtraView, ResponseView};
use crate::snapshot::{RequestSnapshot, SnapshotView};
use crate::text::{text_of, TextPair};

verus! {

/// What a route comes to, as the contracts see it: a response or a failure.
pub type RouteOutcome = Result<ResponseView, FailureView>;

/// What a decoded body adds to a response: a JSON value as `json`, and its
/// text as `data`; without a body no value and an empty `data`; the fields of
/// a form as `form`; the parts of a multipart body as `files`.
pub open spec fn payload_extra(payload: PayloadView) -> ExtraView {
    match payload {
        PayloadView::NoBody => ExtraView::Json { json: None, data: Seq::empty() },
        PayloadView::Json(text) => ExtraView::Json { json: Some(text), data: text },
        PayloadView::Form(form) => ExtraView::Form { form },
        PayloadView::Files(files) => ExtraView::Files { files },
    }
}

/// What a route that echoes the request comes to.
pub open spec fn echo_outcome(snapshot: SnapshotView) -> RouteOutcome {
    Ok(ResponseView { snapshot, extra: ExtraView::Echo })
}

/// What a route that decodes a body comes to: the response with the decoded
/// body, or the failure to decode it.
pub open spec fn body_outcome(snapshot: SnapshotView, decoded: Result<PayloadView, DecodeError>) -> RouteOutcome {
    match decoded {
        Ok(payload) => Ok(ResponseView { snapshot, extra: payload_extra(payload) }),
        Err(e) => Err(FailureView::Decode(e)),
    }
}

/// What the route that asks for a password comes to: the response with the
/// identifier that was authenticated, or the challenge.
pub open spec fn password_outcome(snapshot: SnapshotView, validated: AuthView) -> RouteOutcome {
    match validated {
        AuthView::Authenticated { principal } => Ok(
            ResponseView {
                snapshot,
                extra: ExtraView::Basic { authenticated: true, user: principal },
            },
        ),
        AuthView::Rejected { challenge } => Err(FailureView::Challenge(challenge)),
    }
}

/// What the route that takes a token comes to: the response with the token,
/// whatever the token is; a request that carries none is turned away.
pub open spec fn token_outcome(snapshot: SnapshotView, token: Option<Seq<char>>) -> RouteOutcome {
    match token {
        Some(t) => Ok(
            ResponseView { snapshot, extra: ExtraView::Bearer { authenticated: true, token: t } },
        ),
        None => Err(FailureView::Extraction(ExtractionError::Authorization)),
    }
}

/// The first value that was sent under a name, if any was.
pub open spec fn first_value(headers: Seq<TextPair>, name: Seq<char>) -> Option<Seq<char>> {
    if with_name(headers, name).len() > 0 {
        Some(values_of(headers, name)[0])
    } else {
        None
    }
}

/// The value of the first `Authorization` header, if there is one.
pub open spec fn authorization_of(headers: Seq<TextPair>) -> Option<Seq<char>> {
    first_value(headers, "authorization"@)
}

/// The value of the first `Content-Type` header, if there is one.
pub open spec fn content_type_of(headers: Seq<TextPair>) -> Option<Seq<char>> {
    first_value(headers, "content-type"@)
}

/// What a route that decodes bodies of one kind comes to. Where the request
/// declares that kind, its body is decoded as that kind. Where it declares
/// another or none, the route for JSON answers as to a request without a
/// body, and the other two turn the request away.
pub open spec fn declared_body_outcome(
    expected: ContentKind,
    snapshot: SnapshotView,
    body: Seq<u8>,
    parts: Seq<PartView>,
) -> RouteOutcome {
    let declared = declared_kind(content_type_of(snapshot.headers));
    if declared == Some(expected) {
        body_outcome(snapshot, decoded_body(declared, body, parts))
    } else if expected == ContentKind::Json {
        body_outcome(snapshot, Ok(PayloadView::NoBody))
    } else {
        Err(FailureView::Extraction(ExtractionError::ContentType))
    }
}

/// The credentials that a request carries for the scheme `Basic`.
pub open spec fn basic_credentials_of(headers: Seq<TextPair>) -> Option<
    (Seq<char>, Option<Seq<char>>),
> {
    match authorization_of(headers) {
        Some(a) => basic_credentials(a),
        None => None,
    }
}

/// The token that a request carries for the scheme `Bearer`.
pub open spec fn bearer_token_of(headers: Seq<TextPair>) -> Option<Seq<char>> {
    match authorization_of(headers) {
        Some(a) => bearer_token(a),
        None => None,
    }
}

/// Puts the response of a body route together: the snapshot and what the
/// decoded body adds.
pub fn assemble_body(snapshot: RequestSnapshot, payload: BodyPayload) -> (r: EndpointResponse)
    ensures
        r@ == (ResponseView { snapshot: snapshot@, extra: payload_extra(payload@) }),
{
    let extra = match payload {
        BodyPayload::NoBody => Extra::Json { json: None, data: String::new() },
        BodyPayload::Json(text) => Extra::Json { json: Some(text.clone()), data: text },
        BodyPayload::Form(form) => Extra::Form { form },
        BodyPayload::Files(files) => Extra::Files { files },
    };
    EndpointResponse::new(snapshot, extra)
}

/// What a body route comes to, given what decoding the body came to.
pub fn respond_to_body(snapshot: RequestSnapshot, decoded: Result<BodyPayload, DecodeError>) -> (r:
    Result<EndpointResponse, Failure>)
    ensures
        route_outcome_view(r) == body_outcome(snapshot@, outcome_view(decoded)),
{
    match decoded {
        Ok(payload) => Ok(assemble_body(snapshot, payload)),
        Err(e) => Err(Failure::Decode(e)),
    }
}

/// What the route that asks for a password comes to, given what validating
/// the credentials came to.
pub fn respond_to_password(snapshot: RequestSnapshot, validated: AuthResult) -> (r: Result<
    EndpointResponse,
    Failure,
>)
    ensures
        route_outcome_view(r) == password_outcome(snapshot@, validated@),
{
    match validated {
        AuthResult::Authenticated { principal } => Ok(
            EndpointResponse::new(snapshot, Extra::Basic { authenticated: true, user: principal }),
        ),
        AuthResult::Rejected { challenge } => Err(Failure::Challenge(challenge)),
    }
}

/// What the route that takes a token comes to, given the token that the
/// request carries, if it carries one.
pub fn respond_to_token(snapshot: RequestSnapshot, token: Option<String>) -> (r: Result<
    EndpointResponse,
    Failure,
>)
    ensures
        route_outcome_view(r) == token_outcome(snapshot@, text_of(token)),
{
    match token {
        Some(t) => Ok(
            EndpointResponse::new(snapshot, Extra::Bearer { authenticated: true, token: t }),
        ),
        None => Err(Failure::Extraction(ExtractionError::Authorization)),
    }
}

/// Answers with the snapshot of the request and nothing else.
pub fn basic_method_handler(snapshot: RequestSnapshot) -> (r: EndpointResponse)
    ensures
        r@ == (ResponseView { snapshot: snapshot@, extra: ExtraView::Echo }),
{
    EndpointResponse::new(snapshot, Extra::Echo)
}

/// What a route that decodes bodies of the kind `expected` comes to.
pub fn respond_to_declared(
    expected: ContentKind,
    snapshot: RequestSnapshot,
    body: &[u8],
    parts: Vec<RawPart>,
) -> (r: Result<EndpointResponse, Failure>)
    ensures
        route_outcome_view(r) == declared_body_outcome(
            expected,
            snapshot@,
            body@,
            parts_view(parts@),
        ),
{
    let declared = content_kind(
        match snapshot.headers().first("content-type") {
            Some(value) => Some(value.as_str()),
            None => None,
        },
    );
    if declared == Some(expected) {
        respond_to_body(snapshot, decode_body(declared, body, parts))
    } else if expected == ContentKind::Json {
        respond_to_body(snapshot, Ok(BodyPayload::NoBody))
    } else {
        Err(Failure::Extraction(ExtractionError::ContentType))
    }
}

/// Answers with the snapshot and the fields of the form in the body. A
/// request that does not declare a form is turned away.
pub fn form_handler(snapshot: RequestSnapshot, body: &[u8]) -> (r: Result<
    EndpointResponse,
    Failure,
>)
    ensures
        route_outcome_view(r) == declared_body_outcome(
            ContentKind::Form,
            snapshot@,
            body@,
            Seq::empty(),
        ),
{
    let parts: Vec<RawPart> = Vec::new();
    assert(parts_view(parts@) =~= Seq::<PartView>::empty());
    respond_to_declared(ContentKind::Form, snapshot, body, parts)
}

/// Answers with the snapshot and the JSON value in the body, once as a value
/// and once as its text. An empty body, or a request that does not declare
/// JSON, gives no value and an empty text; a body that is declared as JSON
/// and is not JSON is a failure.
pub fn post_json_handler(snapshot: RequestSnapshot, body: &[u8]) -> (r: Result<
    EndpointResponse,
    Failure,
>)
    ensures
        route_outcome_view(r) == declared_body_outcome(
            ContentKind::Json,
            snapshot@,
            body@,
            Seq::empty(),
        ),
{
    let parts: Vec<RawPart> = Vec::new();
    assert(parts_view(parts@) =~= Seq::<PartView>::empty());
    respond_to_declared(ContentKind::Json, snapshot, body, parts)
}

/// Answers with the snapshot and the parts of the multipart body, each as
/// text under its field name. A part without a name, or one that is not
/// UTF-8, is a failure. A request that does not declare a multipart body is
/// turned away.
pub fn post_file_handler(snapshot: RequestSnapshot, parts: Vec<RawPart>) -> (r: Result<
    EndpointResponse,
    Failure,
>)
    ensures
        route_outcome_view(r) == declared_body_outcome(
            ContentKind::Multipart,
            snapshot@,
            Seq::empty(),
            parts_view(parts@),
        ),
{
    let body: Vec<u8> = Vec::new();
    respond_to_declared(ContentKind::Multipart, snapshot, body.as_slice(), parts)
}

/// Answers a request that has the expected password in its `Authorization`
/// header with the snapshot and the identifier, and any other request with
/// the challenge.
pub fn get_basic_auth_handler(snapshot: RequestSnapshot, config: &AuthConfig) -> (r: Result<
    EndpointResponse,
    Failure,
>)
    ensures
        route_outcome_view(r) == password_outcome(
            snapshot@,
            basic_outcome(basic_credentials_of(snapshot@.headers), config.expected_password@),
        ),
{
    let credentials = match snapshot.headers().first("authorization") {
        Some(value) => read_basic(value.as_str()),
        None => None,
    };
    let validated = validate_basic(credentials, config);
    respond_to_password(snapshot, validated)
}

/// Answers a request that carries a token in its `Authorization` header with
/// the snapshot and the token, whatever the token is.
pub fn get_bearer_auth_handler(snapshot: RequestSnapshot) -> (r: Result<EndpointResponse, Failure>)
    ensures
        route_outcome_view(r) == token_outcome(snapshot@, bearer_token_of(snapshot@.headers)),
{
    let token = match snapshot.headers().first("authorization") {
        Some(value) => read_bearer(value.as_str()),
        None => None,
    };
    respond_to_token(snapshot, token)
}

} // verus!
