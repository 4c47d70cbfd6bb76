//! The answer to a request: the snapshot and what the route adds to it, and
//! the JSON text that says it.

use vstd::prelude::*;
use vstd::string::*;
use crate::json::{json_string, quote};
use crate::snapshot::{RequestSnapshot, SnapshotView};
use crate::string_map::StringMap;
use crate::text::{pairs_view, text_of, TextPair};

verus! {

/// What a route adds to the snapshot, as the contracts see it.
pub enum ExtraView {
    Echo,
    Json { json: Option<Seq<char>>, data: Seq<char> },
    Form { form: Seq<TextPair> },
    Files { files: Seq<TextPair> },
    Basic { authenticated: bool, user: Seq<char> },
    Bearer { authenticated: bool, token: Seq<char> },
}

/// What a route adds to the snapshot. A response has the fields of one
/// variant and of no other.
pub enum Extra {
    /// Nothing: the route echoes the snapshot.
    Echo,
    /// The JSON value of the body, as its canonical text, and that text again
    /// as a string; without a body, no value and the empty string.
    Json { json: Option<String>, data: String },
    /// The fields of the form.
    Form { form: StringMap },
    /// The parts of the multipart body.
    Files { files: StringMap },
    /// The identifier that was authenticated by its password.
    Basic { authenticated: bool, user: String },
    /// The token that was sent.
    Bearer { authenticated: bool, token: String },
}

impl View for Extra {
    type V = ExtraView;

    open spec fn view(&self) -> ExtraView {
        match self {
            Extra::Echo => ExtraView::Echo,
            Extra::Json { json, data } => ExtraView::Json { json: text_of(*json), data: data@ },
            Extra::Form { form } => ExtraView::Form { form: form@ },
            Extra::Files { files } => ExtraView::Files { files: files@ },
            Extra::Basic { authenticated, user } => ExtraView::Basic {
                authenticated: *authenticated,
                user: user@,
            },
            Extra::Bearer { authenticated, token } => ExtraView::Bearer {
                authenticated: *authenticated,
                token: token@,
            },
        }
    }
}

/// A response as the contracts see it.
pub struct ResponseView {
    pub snapshot: SnapshotView,
    pub extra: ExtraView,
}

/// The answer of a route: the snapshot of the request and what the route adds
/// to it. It is put together once and not changed afterwards.
pub struct EndpointResponse {
    snapshot: RequestSnapshot,
    extra: Extra,
}

impl View for EndpointResponse {
    type V = ResponseView;

    closed spec fn view(&self) -> ResponseView {
        ResponseView { snapshot: self.snapshot@, extra: self.extra@ }
    }
}

/// One member of a JSON object: the name and the value, both as strings.
pub open spec fn member_text(pair: TextPair) -> Seq<char> {
    json_string(pair.0) + ":"@ + json_string(pair.1)
}

/// The members of a JSON object, one for each pair and in their order, with a
/// comma between two of them. A name that occurs in two pairs is written
/// twice, which JSON allows and many readers of JSON do not keep: they show
/// the last member of a name only. The text itself carries every pair.
pub open spec fn members_text(pairs: Seq<TextPair>) -> Seq<char>
    decreases pairs.len(),
{
    if pairs.len() == 0 {
        Seq::empty()
    } else if pairs.len() == 1 {
        member_text(pairs[0])
    } else {
        members_text(pairs.drop_last()) + ","@ + member_text(pairs.last())
    }
}

/// The JSON object that says the pairs.
pub open spec fn object_text(pairs: Seq<TextPair>) -> Seq<char> {
    "{"@ + members_text(pairs) + "}"@
}

/// The JSON text of a truth value.
pub open spec fn bool_text(b: bool) -> Seq<char> {
    if b {
        "true"@
    } else {
        "false"@
    }
}

/// The members that a route adds, each with the comma before it.
pub open spec fn extra_text(extra: ExtraView) -> Seq<char> {
    match extra {
        ExtraView::Echo => Seq::empty(),
        ExtraView::Json { json, data } => ",\"json\":"@ + (match json {
            Some(text) => text,
            None => "null"@,
        }) + ",\"data\":"@ + json_string(data),
        ExtraView::Form { form } => ",\"form\":"@ + object_text(form),
        ExtraView::Files { files } => ",\"files\":"@ + object_text(files),
        ExtraView::Basic { authenticated, user } => ",\"authenticated\":"@ + bool_text(
            authenticated,
        ) + ",\"user\":"@ + json_string(user),
        ExtraView::Bearer { authenticated, token } => ",\"authenticated\":"@ + bool_text(
            authenticated,
        ) + ",\"token\":"@ + json_string(token),
    }
}

/// The members of the snapshot.
pub open spec fn snapshot_text(s: SnapshotView) -> Seq<char> {
    "\"method\":"@ + json_string(s.method) + ",\"url\":"@ + json_string(s.url) + ",\"origin\":"@
        + json_string(s.origin) + ",\"args\":"@ + object_text(s.args) + ",\"headers\":"@
        + object_text(s.headers)
}

/// The JSON text of a response: one object with the members of the snapshot
/// and then those of the route.
pub open spec fn response_text(r: ResponseView) -> Seq<char> {
    "{"@ + snapshot_text(r.snapshot) + extra_text(r.extra) + "}"@
}

/// Writes the pairs as a JSON object at the end of `out`.
fn write_object(out: &mut String, pairs: &Vec<(String, String)>)
    ensures
        final(out)@ == old(out)@ + object_text(pairs_view(pairs@)),
{
    let ghost before = out@;
    let ghost all = pairs_view(pairs@);
    out.append("{");
    let mut i: usize = 0;
    proof {
        assert(all.take(0) =~= Seq::<TextPair>::empty());
        assert(out@ =~= before + "{"@ + members_text(all.take(0)));
    }
    while i < pairs.len()
        invariant
            i <= pairs.len(),
            all == pairs_view(pairs@),
            out@ == before + "{"@ + members_text(all.take(i as int)),
        decreases pairs.len() - i,
    {
        let ghost so_far = members_text(all.take(i as int));
        let ghost next = all.take(i + 1);
        proof {
            assert(next.drop_last() =~= all.take(i as int));
            assert(next.last() == all[i as int]);
            assert(next[0] == all[0]);
        }
        if i > 0 {
            out.append(",");
        }
        let name = quote(pairs[i].0.as_str());
        let value = quote(pairs[i].1.as_str());
        out.append(name.as_str());
        out.append(":");
        out.append(value.as_str());
        proof {
            let m = member_text(all[i as int]);
            if i > 0 {
                assert(out@ =~= before + "{"@ + (so_far + ","@ + m));
            } else {
                assert(so_far =~= Seq::<char>::empty());
                assert(out@ =~= before + "{"@ + m);
            }
        }
        i += 1;
    }
    out.append("}");
    proof {
        assert(all.take(i as int) =~= all);
        assert(out@ =~= before + object_text(all));
    }
}

impl EndpointResponse {
    /// The response of a route to a request.
    pub fn new(snapshot: RequestSnapshot, extra: Extra) -> (r: Self)
        ensures
            r@ == (ResponseView { snapshot: snapshot@, extra: extra@ }),
    {
        EndpointResponse { snapshot, extra }
    }

    /// The snapshot of the request.
    pub fn snapshot(&self) -> (r: &RequestSnapshot)
        ensures
            r@ == self@.snapshot,
    {
        &self.snapshot
    }

    /// What the route adds.
    pub fn extra(&self) -> (r: &Extra)
        ensures
            r@ == self@.extra,
    {
        &self.extra
    }

    /// The response as JSON text. Every header line is a member of `headers`,
    /// so that a name with two values is written twice.
    pub fn render(&self) -> (r: String)
        ensures
            r@ == response_text(self@),
    {
        let mut out = String::new();
        out.append("{");
        out.append("\"method\":");
        out.append(quote(self.snapshot.method().as_str()).as_str());
        out.append(",\"url\":");
        out.append(quote(self.snapshot.url().as_str()).as_str());
        out.append(",\"origin\":");
        out.append(quote(self.snapshot.origin().as_str()).as_str());
        out.append(",\"args\":");
        write_object(&mut out, self.snapshot.args().entries());
        out.append(",\"headers\":");
        write_object(&mut out, self.snapshot.headers().lines());
        let ghost s = self@.snapshot;
        assert(out@ =~= "{"@ + snapshot_text(s));
        match &self.extra {
            Extra::Echo => {},
            Extra::Json { json, data } => {
                out.append(",\"json\":");
                match json {
                    Some(text) => out.append(text.as_str()),
                    None => out.append("null"),
                }
                out.append(",\"data\":");
                out.append(quote(data.as_str()).as_str());
            },
            Extra::Form { form } => {
                out.append(",\"form\":");
                write_object(&mut out, form.entries());
            },
            Extra::Files { files } => {
                out.append(",\"files\":");
                write_object(&mut out, files.entries());
            },
            Extra::Basic { authenticated, user } => {
                out.append(",\"authenticated\":");
                out.append(if *authenticated { "true" } else { "false" });
                out.append(",\"user\":");
                out.append(quote(user.as_str()).as_str());
            },
            Extra::Bearer { authenticated, token } => {
                out.append(",\"authenticated\":");
                out.append(if *authenticated { "true" } else { "false" });
                out.append(",\"token\":");
                out.append(quote(token.as_str()).as_str());
            },
        }
        assert(out@ =~= "{"@ + snapshot_text(s) + extra_text(self@.extra));
        out.append("}");
        out
    }
}

} // verus!
