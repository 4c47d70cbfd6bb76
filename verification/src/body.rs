//! The body of a request, decoded as its content type asks: as JSON, as a
//! form, or as the parts of a multipart body.

use vstd::prelude::*;
use vstd::string::*;
use vstd::utf8::{decode_utf8, valid_utf8};
use crate::error::DecodeError;
use crate::json::{canonical, json_canonical};
use crate::string_map::{last_wins, put, StringMap};
use crate::text::{names_match, same_name, slice_text_of, text_from_utf8, text_of, TextPair};
use crate::urlencoded::{decode_form, urlencoded_pairs};

verus! {

/// A decoded body as the contracts see it.
pub enum PayloadView {
    NoBody,
    Json(Seq<char>),
    Form(Seq<TextPair>),
    Files(Seq<TextPair>),
}

/// What a body was decoded to. A request has at most one of these.
pub enum BodyPayload {
    /// There was no body.
    NoBody,
    /// A JSON value, held as its canonical text.
    Json(String),
    /// The fields of a form.
    Form(StringMap),
    /// The parts of a multipart body, each as text under its field name.
    Files(StringMap),
}

impl View for BodyPayload {
    type V = PayloadView;

    open spec fn view(&self) -> PayloadView {
        match self {
            BodyPayload::NoBody => PayloadView::NoBody,
            BodyPayload::Json(text) => PayloadView::Json(text@),
            BodyPayload::Form(fields) => PayloadView::Form(fields@),
            BodyPayload::Files(files) => PayloadView::Files(files@),
        }
    }
}

/// The outcome of decoding as the contracts see it.
pub open spec fn outcome_view(r: Result<BodyPayload, DecodeError>) -> Result<
    PayloadView,
    DecodeError,
> {
    match r {
        Ok(p) => Ok(p@),
        Err(e) => Err(e),
    }
}

/// What a JSON body is decoded to, given the canonical text of its value where
/// it holds one: no payload for an empty body, the value where there is one,
/// and a failure otherwise.
pub open spec fn json_payload(body_len: nat, canonical: Option<Seq<char>>) -> Result<
    PayloadView,
    DecodeError,
> {
    if body_len == 0 {
        Ok(PayloadView::NoBody)
    } else {
        match canonical {
            Some(text) => Ok(PayloadView::Json(text)),
            None => Err(DecodeError::InvalidJson),
        }
    }
}

/// What a JSON body of `body_len` bytes is decoded to, once its bytes have been
/// read: `canonical` is the canonical text of the value they hold, if they hold
/// one.
pub fn payload_of_json(body_len: usize, canonical: Option<String>) -> (r: Result<
    BodyPayload,
    DecodeError,
>)
    ensures
        outcome_view(r) == json_payload(body_len as nat, text_of(canonical)),
{
    if body_len == 0 {
        Ok(BodyPayload::NoBody)
    } else {
        match canonical {
            Some(text) => Ok(BodyPayload::Json(text)),
            None => Err(DecodeError::InvalidJson),
        }
    }
}

/// Decodes a JSON body. An empty body is no body; bytes that are not one
/// well-formed JSON value are a failure.
pub fn decode_json(body: &[u8]) -> (r: Result<BodyPayload, DecodeError>)
    ensures
        outcome_view(r) == json_payload(body@.len(), json_canonical(body@)),
{
    if body.len() == 0 {
        payload_of_json(0, None)
    } else {
        payload_of_json(body.len(), canonical(body))
    }
}

/// Decodes a form body. Of two fields with one name the later gives the value.
pub fn decode_form_body(body: &[u8]) -> (r: BodyPayload)
    ensures
        r@ == PayloadView::Form(last_wins(urlencoded_pairs(body@))),
{
    BodyPayload::Form(decode_form(body))
}

/// One part of a multipart body, as it arrived: its field name, if it has one,
/// and its content.
pub struct RawPart {
    pub name: Option<String>,
    pub content: Vec<u8>,
}

/// A part as the contracts see it.
pub struct PartView {
    pub name: Option<Seq<char>>,
    pub content: Seq<u8>,
}

impl View for RawPart {
    type V = PartView;

    open spec fn view(&self) -> PartView {
        PartView { name: text_of(self.name), content: self.content@ }
    }
}

/// The parts of a vector of parts.
pub open spec fn parts_view(parts: Seq<RawPart>) -> Seq<PartView> {
    Seq::new(parts.len(), |i: int| parts[i]@)
}

/// What is wrong with a part, if anything: it has no field name, or it has
/// one and its content is not UTF-8.
pub open spec fn part_fault(part: PartView) -> Option<DecodeError> {
    if part.name is None {
        Some(DecodeError::MissingPartName)
    } else if !valid_utf8(part.content) {
        Some(DecodeError::InvalidUtf8)
    } else {
        None
    }
}

/// The field that a sound part stands for: its name and its content as text.
pub open spec fn part_field(part: PartView) -> TextPair {
    (part.name->0, decode_utf8(part.content))
}

/// The fields of a sequence of parts.
pub open spec fn part_fields(parts: Seq<PartView>) -> Seq<TextPair> {
    parts.map_values(|p: PartView| part_field(p))
}

/// Takes one part into the files read so far. A part without a field name is
/// refused, and so is one whose content is not UTF-8; neither changes the
/// files. A part under a name that is there already replaces the earlier one.
pub fn add_part(files: &mut StringMap, part: RawPart) -> (r: Result<(), DecodeError>)
    ensures
        match part_fault(part@) {
            Some(e) => r == Err::<(), DecodeError>(e) && final(files)@ == old(files)@,
            None => r is Ok && final(files)@ == put(
                old(files)@,
                part_field(part@).0,
                part_field(part@).1,
            ),
        },
{
    let RawPart { name, content } = part;
    match name {
        None => Err(DecodeError::MissingPartName),
        Some(name) => match text_from_utf8(content) {
            None => Err(DecodeError::InvalidUtf8),
            Some(text) => {
                files.insert(name, text);
                Ok(())
            },
        },
    }
}

/// What the parts of a multipart body are decoded to: the failure of the
/// first part that has one, and the fields of the parts where none has.
pub open spec fn files_payload(parts: Seq<PartView>) -> Result<PayloadView, DecodeError>
    decreases parts.len(),
{
    if parts.len() == 0 {
        Ok(PayloadView::Files(Seq::empty()))
    } else {
        match files_payload(parts.drop_last()) {
            Err(e) => Err(e),
            Ok(_) => match part_fault(parts.last()) {
                Some(e) => Err(e),
                None => Ok(PayloadView::Files(last_wins(part_fields(parts)))),
            },
        }
    }
}

/// Decodes the parts of a multipart body, in the order in which they arrived.
/// Each part becomes a field: its name the key, its content, read as UTF-8,
/// the value. Of two parts with one name the later gives the value.
pub fn decode_files(parts: Vec<RawPart>) -> (r: Result<BodyPayload, DecodeError>)
    ensures
        outcome_view(r) == files_payload(parts_view(parts@)),
{
    let ghost all = parts_view(parts@);
    let ghost n = parts.len();
    let mut files = StringMap::new();
    let mut queue = parts;
    let mut rest: Vec<RawPart> = Vec::new();
    // The parts are taken from the end, so they are turned round first.
    while queue.len() > 0
        invariant
            queue.len() + rest.len() == n,
            n == all.len(),
            forall|k: int| 0 <= k < queue.len() ==> (#[trigger] queue[k])@ == all[k],
            forall|k: int| 0 <= k < rest.len() ==> (#[trigger] rest[k])@ == all[n - 1 - k],
        decreases queue.len(),
    {
        let part = queue.pop().unwrap();
        rest.push(part);
    }
    let mut i: usize = 0;
    proof {
        assert(all.take(0) =~= Seq::<PartView>::empty());
        assert(part_fields(all.take(0)) =~= Seq::<TextPair>::empty());
    }
    while rest.len() > 0
        invariant
            i + rest.len() == n,
            n == all.len(),
            all == parts_view(parts@),
            forall|k: int| 0 <= k < rest.len() ==> (#[trigger] rest[k])@ == all[n - 1 - k],
            files_payload(all.take(i as int)) == Ok::<PayloadView, DecodeError>(
                PayloadView::Files(files@),
            ),
            files@ == last_wins(part_fields(all.take(i as int))),
        decreases rest.len(),
    {
        let part = rest.pop().unwrap();
        proof {
            let next = all.take(i + 1);
            assert(part@ == all[i as int]);
            assert(next.drop_last() =~= all.take(i as int));
            assert(next.last() == all[i as int]);
            assert(part_fields(next).drop_last() =~= part_fields(all.take(i as int)));
            assert(part_fields(next).last() == part_field(all[i as int]));
        }
        match add_part(&mut files, part) {
            Err(e) => {
                proof {
                    let next = all.take(i + 1);
                    assert(next.drop_last() =~= all.take(i as int));
                    assert(files_payload(next) == Err::<PayloadView, DecodeError>(e));
                    lemma_fault_stays(all, i + 1);
                }
                return Err(e);
            },
            Ok(_) => {},
        }
        i += 1;
    }
    assert(all.take(i as int) =~= all);
    Ok(BodyPayload::Files(files))
}

/// Once some part has failed, the parts that come after do not change the
/// failure.
proof fn lemma_fault_stays(parts: Seq<PartView>, i: int)
    requires
        0 <= i <= parts.len(),
        files_payload(parts.take(i)) is Err,
    ensures
        files_payload(parts) == files_payload(parts.take(i)),
    decreases parts.len() - i,
{
    if i < parts.len() {
        assert(parts.take(i + 1).drop_last() =~= parts.take(i));
        lemma_fault_stays(parts, i + 1);
    } else {
        assert(parts.take(i) =~= parts);
    }
}

/// Parts without a fault are decoded to their fields.
pub proof fn lemma_sound_parts_are_decoded(parts: Seq<PartView>)
    requires
        forall|j: int| 0 <= j < parts.len() ==> part_fault(#[trigger] parts[j]) is None,
    ensures
        files_payload(parts) == Ok::<PayloadView, DecodeError>(
            PayloadView::Files(last_wins(part_fields(parts))),
        ),
    decreases parts.len(),
{
    if parts.len() > 0 {
        let front = parts.drop_last();
        assert forall|j: int| 0 <= j < front.len() implies part_fault(#[trigger] front[j])
            is None by {
            assert(front[j] == parts[j]);
        }
        lemma_sound_parts_are_decoded(front);
        assert(part_fault(parts[parts.len() - 1]) is None);
    } else {
        assert(part_fields(parts) =~= Seq::<TextPair>::empty());
    }
}

/// Decoding fails with the fault of the first part that has one, whatever the
/// parts after it hold.
pub proof fn lemma_first_fault_decides(parts: Seq<PartView>, i: int)
    requires
        0 <= i < parts.len(),
        part_fault(parts[i]) is Some,
        forall|j: int| 0 <= j < i ==> part_fault(#[trigger] parts[j]) is None,
    ensures
        files_payload(parts) == Err::<PayloadView, DecodeError>(part_fault(parts[i])->0),
{
    let before = parts.take(i);
    assert forall|j: int| 0 <= j < before.len() implies part_fault(#[trigger] before[j])
        is None by {
        assert(before[j] == parts[j]);
    }
    lemma_sound_parts_are_decoded(before);
    let upto = parts.take(i + 1);
    assert(upto.drop_last() =~= before);
    assert(upto.last() == parts[i]);
    lemma_fault_stays(parts, i + 1);
}

/// The kinds of body that are decoded.
#[derive(Debug, Clone, Copy, PartialEq, Eq, Structural)]
pub enum ContentKind {
    /// `application/json`
    Json,
    /// `application/x-www-form-urlencoded`
    Form,
    /// `multipart/form-data`
    Multipart,
}

/// A character that may follow the media type in a content type: the
/// semicolon before the parameters, or a blank.
pub open spec fn ends_media_type(c: char) -> bool {
    c == ';' || c == ' ' || c == '\t'
}

/// Whether a content type declares the media type: it begins with it, in
/// letters of either case, and then ends or goes on with parameters.
pub open spec fn declares(content_type: Seq<char>, media_type: Seq<char>) -> bool {
    &&& content_type.len() >= media_type.len()
    &&& same_name(content_type.take(media_type.len() as int), media_type)
    &&& (content_type.len() == media_type.len() || ends_media_type(
        content_type[media_type.len() as int],
    ))
}

/// The kind of body that a content type declares, if it declares one of the
/// three.
pub open spec fn declared_kind(content_type: Option<Seq<char>>) -> Option<ContentKind> {
    match content_type {
        None => None,
        Some(t) => if declares(t, "application/json"@) {
            Some(ContentKind::Json)
        } else if declares(t, "application/x-www-form-urlencoded"@) {
            Some(ContentKind::Form)
        } else if declares(t, "multipart/form-data"@) {
            Some(ContentKind::Multipart)
        } else {
            None
        },
    }
}

/// Whether a content type declares the media type.
fn has_media_type(content_type: &str, media_type: &str) -> (r: bool)
    ensures
        r == declares(content_type@, media_type@),
{
    let n = content_type.unicode_len();
    let m = media_type.unicode_len();
    if n < m {
        return false;
    }
    if !names_match(content_type.substring_char(0, m), media_type) {
        return false;
    }
    if n == m {
        return true;
    }
    let next = content_type.get_char(m);
    next == ';' || next == ' ' || next == '\t'
}

/// The kind of body that the content type of a request declares.
pub fn content_kind(content_type: Option<&str>) -> (r: Option<ContentKind>)
    ensures
        r == declared_kind(slice_text_of(content_type)),
{
    match content_type {
        None => None,
        Some(t) => {
            if has_media_type(t, "application/json") {
                Some(ContentKind::Json)
            } else if has_media_type(t, "application/x-www-form-urlencoded") {
                Some(ContentKind::Form)
            } else if has_media_type(t, "multipart/form-data") {
                Some(ContentKind::Multipart)
            } else {
                None
            }
        },
    }
}

/// What a body is decoded to, by the kind that was declared for it alone:
/// nothing where none was declared, and else what the decoder of that kind
/// gives. The bytes serve the first two kinds and the parts the third.
pub open spec fn decoded_body(
    kind: Option<ContentKind>,
    body: Seq<u8>,
    parts: Seq<PartView>,
) -> Result<PayloadView, DecodeError> {
    match kind {
        None => Ok(PayloadView::NoBody),
        Some(ContentKind::Json) => json_payload(body.len(), json_canonical(body)),
        Some(ContentKind::Form) => Ok(PayloadView::Form(last_wins(urlencoded_pairs(body)))),
        Some(ContentKind::Multipart) => files_payload(parts),
    }
}

/// Decodes a body as the kind that was declared for it, and as no other.
pub fn decode_body(kind: Option<ContentKind>, body: &[u8], parts: Vec<RawPart>) -> (r: Result<
    BodyPayload,
    DecodeError,
>)
    ensures
        outcome_view(r) == decoded_body(kind, body@, parts_view(parts@)),
{
    match kind {
        None => Ok(BodyPayload::NoBody),
        Some(ContentKind::Json) => decode_json(body),
        Some(ContentKind::Form) => Ok(decode_form_body(body)),
        Some(ContentKind::Multipart) => decode_files(parts),
    }
}

} // verus!
