//! Credentials: what an `Authorization` header carries, and whether it is
//! accepted.

use vstd::prelude::*;
use axum::http::header::AUTHORIZATION;
use axum::http::{HeaderValue, Request};
use axum_auth::{AuthBasic, AuthBasicCustom, AuthBearer, AuthBearerCustom};
use crate::text::text_of;

verus! {

/// A character that the text of a header value may hold: a tab, or a
/// printable ASCII character.
pub open spec fn is_header_char(c: char) -> bool {
    c == '\t' || (' ' <= c && c <= '~')
}

/// A text that can be the value of a header.
pub open spec fn is_header_text(s: Seq<char>) -> bool {
    forall|i: int| 0 <= i < s.len() ==> is_header_char(#[trigger] s[i])
}

/// The token that an `Authorization` header of the scheme `Bearer` carries:
/// what follows `Bearer` and one space, or the empty token where the value is
/// `Bearer` alone.
pub open spec fn bearer_token(authorization: Seq<char>) -> Option<Seq<char>> {
    if !is_header_text(authorization) {
        None
    } else if authorization.len() >= 7 && authorization.take(7) == "Bearer "@ {
        Some(authorization.skip(7))
    } else if authorization == "Bearer"@ {
        Some(Seq::empty())
    } else {
        None
    }
}

/// What an `Authorization` header of the scheme `Basic` carries, as
/// `axum-auth` reads it: an identifier, and a password where the decoded
/// text has a colon. Nothing where the value is not `Basic`, a space and the
/// base64 form of a UTF-8 text.
pub uninterp spec fn basic_credentials(authorization: Seq<char>) -> Option<
    (Seq<char>, Option<Seq<char>>),
>;

/// The identifier and the password as the contracts see them.
pub open spec fn credentials_view(c: Option<(String, Option<String>)>) -> Option<
    (Seq<char>, Option<Seq<char>>),
> {
    match c {
        Some((id, password)) => Some((id@, text_of(password))),
        None => None,
    }
}

/// Reads the token out of the value of an `Authorization` header.
///
/// Assumed of `HeaderValue::from_str` and `HeaderValue::to_str`: together they
/// pass a text exactly where each character is a tab or printable ASCII.
/// Assumed of `AuthBearer::decode_request_parts`: of a value whose part before
/// the first space is `Bearer` it gives what follows that space; of the value
/// `Bearer` it gives the empty token; any other value it refuses.
#[verifier::external_body]
pub(crate) fn read_bearer(authorization: &str) -> (r: Option<String>)
    ensures
        text_of(r) == bearer_token(authorization@),
{
    let value = HeaderValue::from_str(authorization).ok()?;
    let mut parts = Request::new(()).into_parts().0;
    parts.headers.insert(AUTHORIZATION, value);
    AuthBearer::decode_request_parts(&mut parts).ok().map(|AuthBearer(token)| token)
}

/// Reads the identifier and the password out of the value of an
/// `Authorization` header.
///
/// Assumed of `AuthBasic::decode_request_parts`, on a request with this value
/// as its only header: what it gives is `basic_credentials` of the value, and
/// where it refuses the value, or the value cannot stand in a header,
/// `basic_credentials` of it is nothing.
#[verifier::external_body]
pub(crate) fn read_basic(authorization: &str) -> (r: Option<(String, Option<String>)>)
    ensures
        credentials_view(r) == basic_credentials(authorization@),
{
    let value = HeaderValue::from_str(authorization).ok()?;
    let mut parts = Request::new(()).into_parts().0;
    parts.headers.insert(AUTHORIZATION, value);
    AuthBasic::decode_request_parts(&mut parts).ok().map(|AuthBasic(pair)| pair)
}

/// What the validator is set up with: the one password that is accepted.
pub struct AuthConfig {
    pub expected_password: String,
}

/// The outcome of validating credentials as the contracts see it.
pub enum AuthView {
    Authenticated { principal: Seq<char> },
    Rejected { challenge: Seq<char> },
}

/// The outcome of validating credentials: the principal that was
/// authenticated, or the challenge to answer the request with.
pub enum AuthResult {
    Authenticated { principal: String },
    Rejected { challenge: String },
}

impl View for AuthResult {
    type V = AuthView;

    open spec fn view(&self) -> AuthView {
        match self {
            AuthResult::Authenticated { principal } => AuthView::Authenticated {
                principal: principal@,
            },
            AuthResult::Rejected { challenge } => AuthView::Rejected { challenge: challenge@ },
        }
    }
}

/// The challenge that a request without accepted credentials is answered
/// with.
pub open spec fn basic_challenge() -> Seq<char> {
    "Basic realm=\"Fake Realm\""@
}

/// Whether credentials are accepted: they are there, they have a password,
/// and the password is the expected one.
pub open spec fn basic_outcome(
    credentials: Option<(Seq<char>, Option<Seq<char>>)>,
    expected_password: Seq<char>,
) -> AuthView {
    match credentials {
        Some((id, Some(password))) => if password == expected_password {
            AuthView::Authenticated { principal: id }
        } else {
            AuthView::Rejected { challenge: basic_challenge() }
        },
        _ => AuthView::Rejected { challenge: basic_challenge() },
    }
}

/// Validates the credentials of the scheme `Basic`. Without credentials, or
/// with a password other than the expected one, the outcome is the challenge;
/// with the expected password the identifier is authenticated. Each request
/// is judged by itself.
pub fn validate_basic(credentials: Option<(String, Option<String>)>, config: &AuthConfig) -> (r:
    AuthResult)
    ensures
        r@ == basic_outcome(credentials_view(credentials), config.expected_password@),
{
    match credentials {
        Some((id, Some(password))) => {
            if password == config.expected_password {
                AuthResult::Authenticated { principal: id }
            } else {
                AuthResult::Rejected { challenge: "Basic realm=\"Fake Realm\"".to_owned() }
            }
        },
        _ => AuthResult::Rejected { challenge: "Basic realm=\"Fake Realm\"".to_owned() },
    }
}

/// Validates a token of the scheme `Bearer`: every token is accepted, and is
/// the principal.
pub fn validate_bearer(token: String) -> (r: AuthResult)
    ensures
        r@ == (AuthView::Authenticated { principal: token@ }),
{
    AuthResult::Authenticated { principal: token }
}

/// Every token can be sent, the empty one too: the header `Bearer`, a space
/// and the token carries the token.
pub proof fn lemma_bearer_carries_any_token(token: Seq<char>)
    requires
        is_header_text(token),
    ensures
        bearer_token("Bearer "@ + token) == Some(token),
{
    reveal_strlit("Bearer ");
    let header = "Bearer "@ + token;
    assert(header.take(7) =~= "Bearer "@);
    assert(header.skip(7) =~= token);
    assert forall|i: int| 0 <= i < header.len() implies is_header_char(#[trigger] header[i]) by {
        if i >= 7 {
            assert(header[i] == token[i - 7]);
        }
    }
}

} // verus!
