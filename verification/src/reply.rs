//! What goes back to the client: a status, headers and a body.

use vstd::prelude::*;
use vstd::string::*;
use crate::error::{Failure, FailureView};
use crate::json::{json_string, quote};
use crate::response::{response_text, EndpointResponse, ResponseView};
use crate::text::{pairs_view, TextPair};

verus! {

/// A reply as the contracts see it.
pub struct ReplyView {
    pub status: u16,
    pub headers: Seq<TextPair>,
    pub body: Seq<char>,
}

/// What goes back to the client.
pub struct Reply {
    pub status: u16,
    pub headers: Vec<(String, String)>,
    pub body: String,
}

impl View for Reply {
    type V = ReplyView;

    open spec fn view(&self) -> ReplyView {
        ReplyView { status: self.status, headers: pairs_view(self.headers@), body: self.body@ }
    }
}

/// The header that says a body is JSON.
pub open spec fn json_content_type() -> TextPair {
    ("content-type"@, "application/json"@)
}

/// The reply that carries a response: status 200 and the response as JSON.
pub open spec fn ok_reply(response: ResponseView) -> ReplyView {
    ReplyView { status: 200, headers: seq![json_content_type()], body: response_text(response) }
}

/// The reply that asks for credentials: status 401, the challenge in the
/// header `WWW-Authenticate`, and no body.
pub open spec fn challenge_reply(challenge: Seq<char>) -> ReplyView {
    ReplyView {
        status: 401,
        headers: seq![("WWW-Authenticate"@, challenge)],
        body: Seq::empty(),
    }
}

/// The reply that turns a request away: status 400 and a JSON object that
/// says why.
pub open spec fn refusal_reply(message: Seq<char>) -> ReplyView {
    ReplyView {
        status: 400,
        headers: seq![json_content_type()],
        body: "{\"error\":"@ + json_string(message) + "}"@,
    }
}

/// The reply to a request, given what its route came to: a response goes out
/// with status 200; a challenge with status 401; a request that was turned
/// away, or whose body was not decoded, with status 400 and the reason.
pub open spec fn reply_of(outcome: Result<ResponseView, FailureView>) -> ReplyView {
    match outcome {
        Ok(response) => ok_reply(response),
        Err(FailureView::Challenge(challenge)) => challenge_reply(challenge),
        Err(FailureView::Extraction(e)) => refusal_reply(e.message_text()),
        Err(FailureView::Decode(e)) => refusal_reply(e.message_text()),
    }
}

/// What a route came to, as the contracts see it.
pub open spec fn route_outcome_view(outcome: Result<EndpointResponse, Failure>) -> Result<
    ResponseView,
    FailureView,
> {
    match outcome {
        Ok(response) => Ok(response@),
        Err(failure) => Err(failure@),
    }
}

impl Reply {
    /// The reply to a request, given what its route came to.
    pub fn of(outcome: Result<EndpointResponse, Failure>) -> (r: Self)
        ensures
            r@ == reply_of(route_outcome_view(outcome)),
    {
        match outcome {
            Ok(response) => Reply::ok(&response),
            Err(Failure::Challenge(challenge)) => Reply::challenge(challenge),
            Err(Failure::Extraction(e)) => Reply::refusal(e.message().as_str()),
            Err(Failure::Decode(e)) => Reply::refusal(e.message().as_str()),
        }
    }

    /// The reply that carries a response.
    pub fn ok(response: &EndpointResponse) -> (r: Self)
        ensures
            r@ == ok_reply(response@),
    {
        let mut headers: Vec<(String, String)> = Vec::new();
        headers.push(("content-type".to_owned(), "application/json".to_owned()));
        let r = Reply { status: 200, headers, body: response.render() };
        assert(r@.headers =~= seq![json_content_type()]);
        r
    }

    /// The reply that asks for credentials.
    pub fn challenge(challenge: String) -> (r: Self)
        ensures
            r@ == challenge_reply(challenge@),
    {
        let mut headers: Vec<(String, String)> = Vec::new();
        headers.push(("WWW-Authenticate".to_owned(), challenge));
        let r = Reply { status: 401, headers, body: String::new() };
        assert(r@.headers =~= seq![("WWW-Authenticate"@, challenge@)]);
        r
    }

    /// The reply that turns a request away and says why.
    pub fn refusal(message: &str) -> (r: Self)
        ensures
            r@ == refusal_reply(message@),
    {
        let mut headers: Vec<(String, String)> = Vec::new();
        headers.push(("content-type".to_owned(), "application/json".to_owned()));
        let mut body = String::new();
        body.append("{\"error\":");
        body.append(quote(message).as_str());
        body.append("}");
        let r = Reply { status: 400, headers, body };
        assert(r@.headers =~= seq![json_content_type()]);
        assert(r@.body =~= "{\"error\":"@ + json_string(message@) + "}"@);
        r
    }
}

} // verus!
