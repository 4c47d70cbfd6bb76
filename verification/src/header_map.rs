//! The headers of a request as `axum` hands them over, in a `HeaderMap`, read
//! into the multimap of this library.

use vstd::prelude::*;
use axum::http::{HeaderMap, HeaderValue};
use crate::error::ExtractionError;
use crate::headers::{grouped, HeaderMultiMap};
use crate::text::{pairs_view, text_of, TextPair};

verus! {

/// `http::HeaderMap`, as `axum` gives it out. Nothing is known of a value of
/// it but what `header_lines` says it holds.
#[verifier::external_type_specification]
#[verifier::external_body]
#[verifier::reject_recursive_types(T)]
pub struct ExHeaderMap<T>(HeaderMap<T>);

/// `http::HeaderValue`, the type of the values in a `HeaderMap`.
#[verifier::external_type_specification]
#[verifier::external_body]
pub struct ExHeaderValue(HeaderValue);

/// A line as a `HeaderMap` holds it: the name, and the value where the value
/// is text.
pub type HeldLine = (Seq<char>, Option<Seq<char>>);

/// A line as a `HeaderMap` hands it out: the name only with the first value
/// of a name, and the value where the value is text.
pub type RawItem = (Option<Seq<char>>, Option<Seq<char>>);

/// The lines that a `HeaderMap` holds, in the order in which it hands them out.
pub uninterp spec fn header_lines(map: HeaderMap<HeaderValue>) -> Seq<HeldLine>;

/// The names and values of a vector of items.
pub open spec fn items_view(v: Seq<(Option<String>, Option<String>)>) -> Seq<RawItem> {
    Seq::new(v.len(), |i: int| (text_of(v[i].0), text_of(v[i].1)))
}

/// Item `i` stands for line `i`: it has the line's value, and either the
/// line's name or no name, which it may only where the line before has the
/// same name.
pub open spec fn item_stands_for(items: Seq<RawItem>, lines: Seq<HeldLine>, i: int) -> bool {
    &&& items[i].1 == lines[i].1
    &&& match items[i].0 {
        Some(n) => n == lines[i].0,
        None => i > 0 && lines[i].0 == lines[i - 1].0,
    }
}

/// Hands out the lines of a `HeaderMap` as strings.
///
/// Assumed of `HeaderMap::into_iter`, on a clone of the map: it yields one item
/// for each line that the map holds. An item carries the line's value. It
/// carries the line's name too, unless the item before it is of the same name:
/// then it may carry no name. The first item carries a name. Assumed of
/// `HeaderName::as_str` and `HeaderValue::to_str`: they give the name, and the
/// value where it is text, as `header_lines` has them.
#[verifier::external_body]
fn read_items(map: &HeaderMap<HeaderValue>) -> (items: Vec<(Option<String>, Option<String>)>)
    ensures
        items@.len() == header_lines(*map).len(),
        forall|i: int|
            0 <= i < items@.len() ==> #[trigger] item_stands_for(
                items_view(items@),
                header_lines(*map),
                i,
            ),
{
    map.clone().into_iter().map(
        |(name, value)|
            (
                name.map(|n| n.as_str().to_string()),
                value.to_str().ok().map(|v| v.to_string()),
            ),
    ).collect()
}

/// The name of item `i`: its own, or that of the nearest item before it that
/// carries one.
pub open spec fn name_at(items: Seq<RawItem>, i: int) -> Seq<char>
    decreases i,
{
    if i < 0 {
        Seq::empty()
    } else {
        match items[i].0 {
            Some(n) => n,
            None => if i == 0 {
                Seq::empty()
            } else {
                name_at(items, i - 1)
            },
        }
    }
}

/// The items as lines, each under its name.
pub open spec fn named_lines(items: Seq<RawItem>) -> Seq<TextPair> {
    Seq::new(
        items.len(),
        |i: int|
            (
                name_at(items, i),
                match items[i].1 {
                    Some(v) => v,
                    None => Seq::empty(),
                },
            ),
    )
}

/// The first item carries no name.
pub open spec fn starts_nameless(items: Seq<RawItem>) -> bool {
    items.len() > 0 && items[0].0 is None
}

/// Some item has a value that is not text.
pub open spec fn has_unreadable_value(items: Seq<RawItem>) -> bool {
    exists|i: int| 0 <= i < items.len() && (#[trigger] items[i]).1 is None
}

/// Gives every item its name: an item that carries none is of the name of the
/// item before it. Fails where the first item carries no name, and else where
/// a value is not text.
pub fn name_lines(items: &Vec<(Option<String>, Option<String>)>) -> (r: Result<
    Vec<(String, String)>,
    ExtractionError,
>)
    ensures
        r == Err::<Vec<(String, String)>, ExtractionError>(ExtractionError::HeaderName)
            <==> starts_nameless(items_view(items@)),
        r == Err::<Vec<(String, String)>, ExtractionError>(ExtractionError::HeaderValue) <==> (
        !starts_nameless(items_view(items@)) && has_unreadable_value(items_view(items@))),
        r is Ok <==> !starts_nameless(items_view(items@)) && !has_unreadable_value(
            items_view(items@),
        ),
        r matches Ok(lines) ==> pairs_view(lines@) == named_lines(items_view(items@)),
{
    let ghost all = items_view(items@);
    if items.len() > 0 && items[0].0.is_none() {
        assert(all[0].0 is None);
        return Err(ExtractionError::HeaderName);
    }
    let mut out: Vec<(String, String)> = Vec::new();
    let mut i: usize = 0;
    while i < items.len()
        invariant
            i <= items.len(),
            all == items_view(items@),
            !starts_nameless(all),
            out@.len() == i,
            forall|k: int| 0 <= k < i ==> (#[trigger] all[k]).1 is Some,
            forall|k: int| 0 <= k < i ==> (#[trigger] pairs_view(out@)[k]) == named_lines(all)[k],
        decreases items.len() - i,
    {
        let ghost before = pairs_view(out@);
        match &items[i].1 {
            None => {
                assert(all[i as int].1 is None);
                return Err(ExtractionError::HeaderValue);
            },
            Some(value) => {
                let name = match &items[i].0 {
                    Some(n) => n.clone(),
                    None => {
                        assert(all[i as int].0 is None);
                        assert(i > 0);
                        assert(before[i - 1] == named_lines(all)[i - 1]);
                        out[i - 1].0.clone()
                    },
                };
                assert(name@ == name_at(all, i as int));
                out.push((name, value.clone()));
                assert forall|k: int| 0 <= k < i + 1 implies (#[trigger] pairs_view(out@)[k])
                    == named_lines(all)[k] by {
                    if k < i {
                        assert(pairs_view(out@)[k] == before[k]);
                    }
                }
            },
        }
        i += 1;
    }
    assert(pairs_view(out@) =~= named_lines(all));
    Ok(out)
}

/// The held lines with an empty value in place of a value that is not text.
pub open spec fn held_texts(lines: Seq<HeldLine>) -> Seq<TextPair> {
    Seq::new(
        lines.len(),
        |i: int|
            (
                lines[i].0,
                match lines[i].1 {
                    Some(v) => v,
                    None => Seq::empty(),
                },
            ),
    )
}

/// Some held line has a value that is not text.
pub open spec fn holds_unreadable_value(lines: Seq<HeldLine>) -> bool {
    exists|i: int| 0 <= i < lines.len() && (#[trigger] lines[i]).1 is None
}

/// Items that stand for lines get the lines' names.
proof fn lemma_names_follow(items: Seq<RawItem>, lines: Seq<HeldLine>, i: int)
    requires
        items.len() == lines.len(),
        0 <= i < items.len(),
        forall|k: int| 0 <= k < items.len() ==> #[trigger] item_stands_for(items, lines, k),
    ensures
        name_at(items, i) == lines[i].0,
    decreases i,
{
    assert(item_stands_for(items, lines, i));
    if items[i].0 is None {
        lemma_names_follow(items, lines, i - 1);
    }
}

impl HeaderMultiMap {
    /// The multimap of the lines that a `HeaderMap` holds, every line under its
    /// name. Fails where a value is not text.
    pub fn from_header_map(map: &HeaderMap<HeaderValue>) -> (r: Result<Self, ExtractionError>)
        ensures
            r is Err <==> holds_unreadable_value(header_lines(*map)),
            r matches Err(e) ==> e == ExtractionError::HeaderValue,
            r matches Ok(h) ==> h@ == grouped(held_texts(header_lines(*map))),
    {
        let items = read_items(map);
        let ghost held = header_lines(*map);
        let ghost raw = items_view(items@);
        proof {
            if raw.len() > 0 {
                assert(item_stands_for(raw, held, 0));
            }
            if holds_unreadable_value(held) {
                let i = choose|i: int| 0 <= i < held.len() && (#[trigger] held[i]).1 is None;
                assert(item_stands_for(raw, held, i));
                assert(raw[i].1 is None);
            }
            if has_unreadable_value(raw) {
                let i = choose|i: int| 0 <= i < raw.len() && (#[trigger] raw[i]).1 is None;
                assert(item_stands_for(raw, held, i));
                assert(held[i].1 is None);
            }
        }
        match name_lines(&items) {
            Err(e) => Err(e),
            Ok(lines) => {
                proof {
                    assert forall|i: int| 0 <= i < raw.len() implies named_lines(raw)[i]
                        == held_texts(held)[i] by {
                        lemma_names_follow(raw, held, i);
                        assert(item_stands_for(raw, held, i));
                    }
                    assert(named_lines(raw) =~= held_texts(held));
                }
                Ok(HeaderMultiMap::from_lines(lines))
            },
        }
    }
}

} // verus!
