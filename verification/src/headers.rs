//! The headers of a request as a multimap: every line that was received is
//! kept, and the lines of one name stand together, in the order in which the
//! names first occurred.

use vstd::prelude::*;
use crate::text::{names_match, pairs_view, same_name, TextPair};

verus! {

/// The test that a line has the name, whatever the case of its letters.
pub open spec fn named(name: Seq<char>) -> spec_fn(TextPair) -> bool {
    |l: TextPair| same_name(l.0, name)
}

/// The test that a line has another name.
pub open spec fn not_named(name: Seq<char>) -> spec_fn(TextPair) -> bool {
    |l: TextPair| !same_name(l.0, name)
}

/// The lines of the name, in their order.
pub open spec fn with_name(lines: Seq<TextPair>, name: Seq<char>) -> Seq<TextPair> {
    lines.filter(named(name))
}

/// The lines of all other names, in their order.
pub open spec fn without_name(lines: Seq<TextPair>, name: Seq<char>) -> Seq<TextPair> {
    lines.filter(not_named(name))
}

/// The lines with `name` written in place of each line's name.
pub open spec fn renamed(lines: Seq<TextPair>, name: Seq<char>) -> Seq<TextPair> {
    lines.map_values(|l: TextPair| (name, l.1))
}

/// The values of the lines, in their order.
pub open spec fn values(lines: Seq<TextPair>) -> Seq<Seq<char>> {
    lines.map_values(|l: TextPair| l.1)
}

/// The values that were sent under a name, one for each line of that name.
pub open spec fn values_of(lines: Seq<TextPair>, name: Seq<char>) -> Seq<Seq<char>> {
    values(with_name(lines, name))
}

/// The lines put together by name: first all lines of the first line's name,
/// written as the first line writes it, then in the same way the lines that
/// are left.
pub open spec fn grouped(lines: Seq<TextPair>) -> Seq<TextPair>
    decreases lines.len(),
    via grouped_decreases
{
    if lines.len() == 0 {
        Seq::empty()
    } else {
        let name = lines[0].0;
        renamed(with_name(lines, name), name) + grouped(without_name(lines, name))
    }
}

#[via_fn]
proof fn grouped_decreases(lines: Seq<TextPair>) {
    if lines.len() != 0 {
        lemma_first_name_leaves(lines);
    }
}

/// Lines of one name stand together and are written alike.
pub open spec fn is_grouped(lines: Seq<TextPair>) -> bool {
    forall|i: int, j: int|
        0 <= i <= j < lines.len() && same_name((#[trigger] lines[i]).0, (#[trigger] lines[j]).0)
            ==> lines[i].0 == lines[j].0 && forall|k: int|
            i <= k <= j ==> (#[trigger] lines[k]).0 == lines[i].0
}

/// A line is either of the name or of another name.
proof fn lemma_split_len(lines: Seq<TextPair>, name: Seq<char>)
    ensures
        with_name(lines, name).len() + without_name(lines, name).len() == lines.len(),
    decreases lines.len(),
{
    reveal(Seq::filter);
    if lines.len() > 0 {
        lemma_split_len(lines.drop_last(), name);
    }
}

/// Where the first line has the name, some line has it.
proof fn lemma_first_is_kept(lines: Seq<TextPair>, name: Seq<char>)
    requires
        lines.len() > 0,
        same_name(lines[0].0, name),
    ensures
        with_name(lines, name).len() > 0,
        with_name(lines, name)[0] == lines[0],
    decreases lines.len(),
{
    reveal(Seq::filter);
    if lines.len() > 1 {
        lemma_first_is_kept(lines.drop_last(), name);
    } else {
        assert(lines.drop_last().filter(named(name)).len() == 0);
    }
}

/// Taking out the lines of the first line's name leaves fewer lines.
proof fn lemma_first_name_leaves(lines: Seq<TextPair>)
    requires
        lines.len() > 0,
    ensures
        without_name(lines, lines[0].0).len() < lines.len(),
{
    lemma_split_len(lines, lines[0].0);
    lemma_first_is_kept(lines, lines[0].0);
}

/// No line is dropped and none is added: as many lines come out as went in.
pub proof fn lemma_grouped_len(lines: Seq<TextPair>)
    ensures
        grouped(lines).len() == lines.len(),
    decreases lines.len(),
{
    if lines.len() > 0 {
        let name = lines[0].0;
        lemma_first_name_leaves(lines);
        lemma_split_len(lines, name);
        lemma_grouped_len(without_name(lines, name));
    }
}

/// Two tests that agree on every line keep the same lines.
proof fn lemma_filter_agree(
    s: Seq<TextPair>,
    p: spec_fn(TextPair) -> bool,
    q: spec_fn(TextPair) -> bool,
)
    requires
        forall|x: TextPair| #[trigger] p(x) == q(x),
    ensures
        s.filter(p) == s.filter(q),
    decreases s.len(),
{
    reveal(Seq::filter);
    if s.len() > 0 {
        lemma_filter_agree(s.drop_last(), p, q);
    }
}

/// A test that every line passes keeps every line.
proof fn lemma_filter_all(s: Seq<TextPair>, p: spec_fn(TextPair) -> bool)
    requires
        forall|i: int| 0 <= i < s.len() ==> p(#[trigger] s[i]),
    ensures
        s.filter(p) == s,
    decreases s.len(),
{
    reveal(Seq::filter);
    if s.len() > 0 {
        let front = s.drop_last();
        assert forall|i: int| 0 <= i < front.len() implies p(#[trigger] front[i]) by {
            assert(front[i] == s[i]);
        }
        lemma_filter_all(front, p);
        assert(p(s[s.len() - 1]));
        assert(front.push(s.last()) =~= s);
    }
}

/// A test that no line passes keeps no line.
proof fn lemma_filter_none(s: Seq<TextPair>, p: spec_fn(TextPair) -> bool)
    requires
        forall|i: int| 0 <= i < s.len() ==> !p(#[trigger] s[i]),
    ensures
        s.filter(p) == Seq::<TextPair>::empty(),
    decreases s.len(),
{
    reveal(Seq::filter);
    if s.len() > 0 {
        let front = s.drop_last();
        assert forall|i: int| 0 <= i < front.len() implies !p(#[trigger] front[i]) by {
            assert(front[i] == s[i]);
        }
        lemma_filter_none(front, p);
        assert(!p(s[s.len() - 1]));
    } else {
        assert(s =~= Seq::<TextPair>::empty());
    }
}

/// What a test keeps of a sequence with one more line.
proof fn lemma_filter_push(s: Seq<TextPair>, x: TextPair, p: spec_fn(TextPair) -> bool)
    ensures
        s.push(x).filter(p) == if p(x) {
            s.filter(p).push(x)
        } else {
            s.filter(p)
        },
{
    reveal(Seq::filter);
    assert(s.push(x).drop_last() =~= s);
}

/// A narrower test after a wider one keeps what the narrower keeps alone.
proof fn lemma_filter_narrow(
    s: Seq<TextPair>,
    p: spec_fn(TextPair) -> bool,
    q: spec_fn(TextPair) -> bool,
)
    requires
        forall|x: TextPair| #[trigger] p(x) ==> q(x),
    ensures
        s.filter(q).filter(p) == s.filter(p),
    decreases s.len(),
{
    reveal(Seq::filter);
    if s.len() > 0 {
        let front = s.drop_last();
        lemma_filter_narrow(front, p, q);
        if q(s.last()) {
            lemma_filter_push(front.filter(q), s.last(), p);
        } else {
            assert(!p(s.last()));
        }
    }
}

/// Of what one test keeps, a test that excludes it keeps nothing.
proof fn lemma_filter_apart(
    s: Seq<TextPair>,
    p: spec_fn(TextPair) -> bool,
    q: spec_fn(TextPair) -> bool,
)
    requires
        forall|x: TextPair| #[trigger] q(x) ==> !p(x),
    ensures
        s.filter(q).filter(p) == Seq::<TextPair>::empty(),
{
    let kept = s.filter(q);
    assert forall|i: int| 0 <= i < kept.len() implies !p(#[trigger] kept[i]) by {
        s.lemma_filter_pred(q, i);
    }
    lemma_filter_none(kept, p);
}

/// Count for count: under every name, the values that stand in the grouped
/// lines are the values that were sent under it, each as often as it was sent
/// and in the order in which they were sent.
pub proof fn lemma_grouped_values(lines: Seq<TextPair>, name: Seq<char>)
    ensures
        values_of(grouped(lines), name) == values_of(lines, name),
    decreases lines.len(),
{
    if lines.len() == 0 {
        assert(lines =~= Seq::<TextPair>::empty());
    } else {
        let first = lines[0].0;
        let mine = with_name(lines, first);
        let others = without_name(lines, first);
        let head = renamed(mine, first);
        let rest = grouped(others);
        lemma_first_name_leaves(lines);
        lemma_grouped_values(others, name);
        Seq::filter_distributes_over_add(head, rest, named(name));
        assert(values(with_name(head, name) + with_name(rest, name)) =~= values(
            with_name(head, name),
        ) + values(with_name(rest, name)));
        if same_name(first, name) {
            assert forall|i: int| 0 <= i < head.len() implies named(name)(#[trigger] head[i]) by {}
            lemma_filter_all(head, named(name));
            assert(values(head) =~= values(mine));
            assert forall|x: TextPair| #[trigger] named(first)(x) == named(name)(x) by {}
            lemma_filter_agree(lines, named(first), named(name));
            assert forall|x: TextPair| #[trigger] not_named(first)(x) implies !named(name)(x) by {}
            lemma_filter_apart(lines, named(name), not_named(first));
            assert(values(with_name(others, name)) =~= Seq::<Seq<char>>::empty());
            assert(values(mine) + Seq::<Seq<char>>::empty() =~= values(mine));
        } else {
            assert forall|i: int| 0 <= i < head.len() implies !named(name)(#[trigger] head[i]) by {}
            lemma_filter_none(head, named(name));
            assert forall|x: TextPair| #[trigger] named(name)(x) implies not_named(first)(x) by {}
            lemma_filter_narrow(lines, named(name), not_named(first));
            assert(values(Seq::<TextPair>::empty()) + values(with_name(lines, name)) =~= values(
                with_name(lines, name),
            ));
        }
    }
}

/// Every grouped line is written as some line that was received writes its
/// name.
pub proof fn lemma_grouped_names(lines: Seq<TextPair>, i: int)
    requires
        0 <= i < grouped(lines).len(),
    ensures
        exists|j: int| 0 <= j < lines.len() && (#[trigger] lines[j]).0 == grouped(lines)[i].0,
    decreases lines.len(),
{
    if lines.len() > 0 {
        let first = lines[0].0;
        let others = without_name(lines, first);
        let head = renamed(with_name(lines, first), first);
        lemma_first_name_leaves(lines);
        if i < head.len() {
            assert(lines[0].0 == grouped(lines)[i].0);
        } else {
            lemma_grouped_names(others, i - head.len());
            let j = choose|j: int|
                0 <= j < others.len() && (#[trigger] others[j]).0 == grouped(others)[i
                    - head.len()].0;
            assert(others.contains(others[j]));
            lines.lemma_filter_contains_rev(not_named(first), others[j]);
            let k = choose|k: int| 0 <= k < lines.len() && lines[k] == others[j];
            assert(lines[k].0 == grouped(lines)[i].0);
        }
    }
}

/// The lines that stand after the lines of the first name are of other names.
proof fn lemma_rest_is_of_other_names(lines: Seq<TextPair>, i: int)
    requires
        lines.len() > 0,
        0 <= i < grouped(without_name(lines, lines[0].0)).len(),
    ensures
        !same_name(grouped(without_name(lines, lines[0].0))[i].0, lines[0].0),
{
    let first = lines[0].0;
    let others = without_name(lines, first);
    lemma_grouped_names(others, i);
    let j = choose|j: int|
        0 <= j < others.len() && (#[trigger] others[j]).0 == grouped(others)[i].0;
    lines.lemma_filter_pred(not_named(first), j);
}

/// In the grouped lines, the lines of one name stand together and are
/// written alike.
pub proof fn lemma_grouped_is_grouped(lines: Seq<TextPair>)
    ensures
        is_grouped(grouped(lines)),
    decreases lines.len(),
{
    if lines.len() > 0 {
        let first = lines[0].0;
        let others = without_name(lines, first);
        let head = renamed(with_name(lines, first), first);
        let rest = grouped(others);
        let all = grouped(lines);
        lemma_first_name_leaves(lines);
        lemma_grouped_is_grouped(others);
        assert forall|i: int| 0 <= i < rest.len() implies !same_name(
            (#[trigger] rest[i]).0,
            first,
        ) by {
            lemma_rest_is_of_other_names(lines, i);
        }
        assert forall|i: int, j: int|
            0 <= i <= j < all.len() && same_name(
                (#[trigger] all[i]).0,
                (#[trigger] all[j]).0,
            ) implies all[i].0 == all[j].0 && forall|k: int|
            i <= k <= j ==> (#[trigger] all[k]).0 == all[i].0 by {
            if j < head.len() {
                assert forall|k: int| i <= k <= j implies (#[trigger] all[k]).0 == all[i].0 by {
                    assert(all[k] == head[k]);
                }
            } else if i < head.len() {
                assert(all[i] == head[i]);
                assert(all[j] == rest[j - head.len()]);
                assert(false);
            } else {
                let a = i - head.len();
                let b = j - head.len();
                assert(all[i] == rest[a]);
                assert(all[j] == rest[b]);
                assert forall|k: int| i <= k <= j implies (#[trigger] all[k]).0 == all[i].0 by {
                    assert(all[k] == rest[k - head.len()]);
                }
            }
        }
    }
}

/// The place of the first line of a name, or the number of lines where no
/// line has the name.
pub open spec fn first_place(lines: Seq<TextPair>, name: Seq<char>) -> int
    decreases lines.len(),
{
    if lines.len() == 0 {
        0
    } else if same_name(lines[0].0, name) {
        0
    } else {
        1 + first_place(lines.skip(1), name)
    }
}

/// A place is not negative.
proof fn lemma_first_place_bound(lines: Seq<TextPair>, name: Seq<char>)
    ensures
        0 <= first_place(lines, name) <= lines.len(),
    decreases lines.len(),
{
    if lines.len() > 0 {
        lemma_first_place_bound(lines.skip(1), name);
    }
}

/// What a test keeps of a sequence, seen from its first line.
proof fn lemma_filter_first(s: Seq<TextPair>, p: spec_fn(TextPair) -> bool)
    requires
        s.len() > 0,
    ensures
        s.filter(p) == if p(s[0]) {
            seq![s[0]] + s.skip(1).filter(p)
        } else {
            s.skip(1).filter(p)
        },
{
    let head = seq![s[0]];
    assert(s =~= head + s.skip(1));
    Seq::filter_distributes_over_add(head, s.skip(1), p);
    assert(head =~= Seq::<TextPair>::empty().push(s[0]));
    lemma_filter_push(Seq::<TextPair>::empty(), s[0], p);
    lemma_filter_none(Seq::<TextPair>::empty(), p);
    if !p(s[0]) {
        assert(Seq::<TextPair>::empty() + s.skip(1).filter(p) =~= s.skip(1).filter(p));
    }
}

/// Taking out the lines of one name does not change which of two other names
/// comes first.
proof fn lemma_order_without(lines: Seq<TextPair>, gone: Seq<char>, a: Seq<char>, b: Seq<char>)
    requires
        !same_name(a, gone),
        !same_name(b, gone),
    ensures
        first_place(without_name(lines, gone), a) < first_place(without_name(lines, gone), b)
            <==> first_place(lines, a) < first_place(lines, b),
    decreases lines.len(),
{
    if lines.len() == 0 {
        lemma_filter_none(lines, not_named(gone));
    } else {
        let tail = lines.skip(1);
        let left = without_name(lines, gone);
        lemma_filter_first(lines, not_named(gone));
        lemma_order_without(tail, gone, a, b);
        lemma_first_place_bound(tail, a);
        lemma_first_place_bound(tail, b);
        lemma_first_place_bound(without_name(tail, gone), a);
        lemma_first_place_bound(without_name(tail, gone), b);
        if !same_name(lines[0].0, gone) {
            assert(left[0] == lines[0]);
            assert(left.skip(1) =~= without_name(tail, gone));
        }
    }
}

/// The names stand in the order in which they first occurred: of two grouped
/// lines of different names, the name of the earlier first occurred earlier
/// among the lines that were received.
pub proof fn lemma_grouped_order(lines: Seq<TextPair>, a: int, b: int)
    requires
        0 <= a < b < grouped(lines).len(),
        !same_name(grouped(lines)[a].0, grouped(lines)[b].0),
    ensures
        first_place(lines, grouped(lines)[a].0) < first_place(lines, grouped(lines)[b].0),
    decreases lines.len(),
{
    if lines.len() > 0 {
        let first = lines[0].0;
        let others = without_name(lines, first);
        let head = renamed(with_name(lines, first), first);
        let rest = grouped(others);
        let all = grouped(lines);
        lemma_first_name_leaves(lines);
        if a < head.len() {
            assert(all[a] == head[a]);
            if b < head.len() {
                assert(all[b] == head[b]);
            } else {
                assert(all[b] == rest[b - head.len()]);
                lemma_rest_is_of_other_names(lines, b - head.len());
                lemma_first_place_bound(lines.skip(1), all[b].0);
            }
        } else {
            assert(all[a] == rest[a - head.len()]);
            assert(all[b] == rest[b - head.len()]);
            lemma_rest_is_of_other_names(lines, a - head.len());
            lemma_rest_is_of_other_names(lines, b - head.len());
            lemma_grouped_order(others, a - head.len(), b - head.len());
            lemma_order_without(lines, first, all[a].0, all[b].0);
        }
    }
}

/// Puts the lines of `name` at the end of `out`, each written with `name`, and
/// hands back the other lines.
fn split_by_name(lines: &Vec<(String, String)>, name: &String, out: &mut Vec<(String, String)>) -> (others:
    Vec<(String, String)>)
    ensures
        pairs_view(final(out)@) == pairs_view(old(out)@) + renamed(
            with_name(pairs_view(lines@), name@),
            name@,
        ),
        pairs_view(others@) == without_name(pairs_view(lines@), name@),
{
    let ghost all = pairs_view(lines@);
    let ghost before = pairs_view(out@);
    let mut others: Vec<(String, String)> = Vec::new();
    let mut j: usize = 0;
    proof {
        reveal(Seq::filter);
        assert(all.take(0) =~= Seq::<TextPair>::empty());
        assert(pairs_view(out@) =~= before + renamed(with_name(all.take(0), name@), name@));
        assert(pairs_view(others@) =~= without_name(all.take(0), name@));
    }
    while j < lines.len()
        invariant
            j <= lines.len(),
            all == pairs_view(lines@),
            pairs_view(out@) == before + renamed(with_name(all.take(j as int), name@), name@),
            pairs_view(others@) == without_name(all.take(j as int), name@),
        decreases lines.len() - j,
    {
        let ghost seen = all.take(j as int);
        let ghost out_before = pairs_view(out@);
        let ghost others_before = pairs_view(others@);
        proof {
            assert(all.take(j + 1) =~= seen.push(all[j as int]));
            lemma_filter_push(seen, all[j as int], named(name@));
            lemma_filter_push(seen, all[j as int], not_named(name@));
        }
        if names_match(lines[j].0.as_str(), name.as_str()) {
            out.push((name.clone(), lines[j].1.clone()));
            assert(pairs_view(out@) =~= out_before.push((name@, all[j as int].1)));
            assert(renamed(with_name(seen, name@).push(all[j as int]), name@) =~= renamed(
                with_name(seen, name@),
                name@,
            ).push((name@, all[j as int].1)));
            assert(pairs_view(out@) =~= before + renamed(
                with_name(all.take(j + 1), name@),
                name@,
            ));
        } else {
            others.push((lines[j].0.clone(), lines[j].1.clone()));
            assert(pairs_view(others@) =~= others_before.push(all[j as int]));
        }
        j += 1;
    }
    assert(all.take(j as int) =~= all);
    others
}

/// The headers of a request. Its view is the sequence of its lines, a name
/// and a value each, in which the lines of one name stand together.
pub struct HeaderMultiMap {
    lines: Vec<(String, String)>,
}

impl View for HeaderMultiMap {
    type V = Seq<TextPair>;

    closed spec fn view(&self) -> Seq<TextPair> {
        pairs_view(self.lines@)
    }
}

impl HeaderMultiMap {
    #[verifier::type_invariant]
    spec fn lines_stand_together(self) -> bool {
        is_grouped(pairs_view(self.lines@))
    }

    /// The multimap of the header lines of a request, given as they were
    /// received. Every line is kept. The lines of one name are put together
    /// where the name first occurred and are written as it was written there.
    pub fn from_lines(lines: Vec<(String, String)>) -> (r: Self)
        ensures
            r@ == grouped(pairs_view(lines@)),
    {
        let ghost all = pairs_view(lines@);
        let mut out: Vec<(String, String)> = Vec::new();
        let mut rest = lines;
        assert(pairs_view(out@) + grouped(pairs_view(rest@)) =~= grouped(all));
        while rest.len() > 0
            invariant
                pairs_view(out@) + grouped(pairs_view(rest@)) == grouped(all),
            decreases rest.len(),
        {
            let ghost done = pairs_view(out@);
            let ghost left = pairs_view(rest@);
            let name = rest[0].0.clone();
            let others = split_by_name(&rest, &name, &mut out);
            proof {
                lemma_first_name_leaves(left);
                let head = renamed(with_name(left, name@), name@);
                assert((done + head) + grouped(pairs_view(others@)) =~= done + (head + grouped(
                    pairs_view(others@),
                )));
            }
            rest = others;
        }
        proof {
            assert(pairs_view(rest@) =~= Seq::<TextPair>::empty());
            assert(pairs_view(out@) + Seq::<TextPair>::empty() =~= pairs_view(out@));
            lemma_grouped_is_grouped(all);
        }
        HeaderMultiMap { lines: out }
    }

    /// The number of lines.
    pub fn len(&self) -> (n: usize)
        ensures
            n == self@.len(),
    {
        self.lines.len()
    }

    /// The lines as a flat sequence of names and values, a name once for each
    /// of its values. The lines of one name stand together.
    pub fn lines(&self) -> (r: &Vec<(String, String)>)
        ensures
            pairs_view(r@) == self@,
            is_grouped(self@),
    {
        proof {
            use_type_invariant(self);
        }
        &self.lines
    }

    /// The first value that was sent under a name, if any was.
    pub fn first(&self, name: &str) -> (r: Option<&String>)
        ensures
            r is Some <==> with_name(self@, name@).len() > 0,
            r matches Some(v) ==> v@ == values_of(self@, name@)[0],
    {
        let ghost all = self@;
        let mut i: usize = 0;
        proof {
            reveal(Seq::filter);
            assert(all.take(0) =~= Seq::<TextPair>::empty());
        }
        while i < self.lines.len()
            invariant
                i <= self.lines.len(),
                all == pairs_view(self.lines@),
                with_name(all.take(i as int), name@).len() == 0,
            decreases self.lines.len() - i,
        {
            proof {
                assert(all.take(i + 1) =~= all.take(i as int).push(all[i as int]));
                lemma_filter_push(all.take(i as int), all[i as int], named(name@));
            }
            if names_match(self.lines[i].0.as_str(), name) {
                proof {
                    let seen = all.take(i + 1);
                    assert(with_name(seen, name@) =~= seq![all[i as int]]);
                    assert(all =~= seen + all.skip(i + 1));
                    Seq::filter_distributes_over_add(seen, all.skip(i + 1), named(name@));
                }
                return Some(&self.lines[i].1);
            }
            i += 1;
        }
        assert(all.take(i as int) =~= all);
        None
    }
}

} // verus!
