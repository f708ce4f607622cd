//! Facts about sequences that the tables rest on.

use vstd::prelude::*;

verus! {

/// Every element stands in `rel` to every later one.
pub open spec fn pairwise<A>(s: Seq<A>, rel: spec_fn(A, A) -> bool) -> bool {
    forall|i: int, j: int| 0 <= i < j < s.len() ==> rel(#[trigger] s[i], #[trigger] s[j])
}

/// Every element satisfies `p`.
pub open spec fn each<A>(s: Seq<A>, p: spec_fn(A) -> bool) -> bool {
    forall|i: int| 0 <= i < s.len() ==> p(#[trigger] s[i])
}

/// The first element that satisfies `p`.
pub open spec fn first_match<A>(s: Seq<A>, p: spec_fn(A) -> bool) -> Option<A>
    decreases s.len(),
{
    if s.len() == 0 {
        None
    } else if p(s[0]) {
        Some(s[0])
    } else {
        first_match(s.drop_first(), p)
    }
}

/// Whether some element satisfies `p`.
pub open spec fn any<A>(s: Seq<A>, p: spec_fn(A) -> bool) -> bool {
    first_match(s, p) is Some
}

/// The element at `i` is the first match where it satisfies `p` and nothing before it does.
pub proof fn lemma_first_match_at<A>(s: Seq<A>, p: spec_fn(A) -> bool, i: int)
    requires
        0 <= i < s.len(),
        p(s[i]),
        forall|k: int| 0 <= k < i ==> !p(#[trigger] s[k]),
    ensures
        first_match(s, p) == Some(s[i]),
    decreases i,
{
    if i > 0 {
        let rest = s.drop_first();
        assert(rest[i - 1] == s[i]);
        assert forall|k: int| 0 <= k < i - 1 implies !p(#[trigger] rest[k]) by {
            assert(rest[k] == s[k + 1]);
        }
        lemma_first_match_at(rest, p, i - 1);
    }
}

/// There is no first match where nothing satisfies `p`.
pub proof fn lemma_first_match_none<A>(s: Seq<A>, p: spec_fn(A) -> bool)
    requires
        forall|k: int| 0 <= k < s.len() ==> !p(#[trigger] s[k]),
    ensures
        first_match(s, p) is None,
    decreases s.len(),
{
    if s.len() > 0 {
        let rest = s.drop_first();
        assert forall|k: int| 0 <= k < rest.len() implies !p(#[trigger] rest[k]) by {
            assert(rest[k] == s[k + 1]);
        }
        lemma_first_match_none(rest, p);
    }
}

/// A first match is an element, satisfies `p`, and nothing before it does.
pub proof fn lemma_first_match_found<A>(s: Seq<A>, p: spec_fn(A) -> bool) -> (i: int)
    requires
        first_match(s, p) is Some,
    ensures
        0 <= i < s.len(),
        first_match(s, p) == Some(s[i]),
        p(s[i]),
        forall|k: int| 0 <= k < i ==> !p(#[trigger] s[k]),
    decreases s.len(),
{
    if p(s[0]) {
        0
    } else {
        let rest = s.drop_first();
        let j = lemma_first_match_found(rest, p);
        assert(rest[j] == s[j + 1]);
        assert forall|k: int| 0 <= k < j + 1 implies !p(#[trigger] s[k]) by {
            if k > 0 {
                assert(rest[k - 1] == s[k]);
            }
        }
        j + 1
    }
}

/// Whether some element satisfies `p`, said with a quantifier.
pub proof fn lemma_any_exists<A>(s: Seq<A>, p: spec_fn(A) -> bool)
    ensures
        any(s, p) <==> exists|k: int| 0 <= k < s.len() && p(#[trigger] s[k]),
{
    if any(s, p) {
        let i = lemma_first_match_found(s, p);
        assert(0 <= i < s.len() && p(s[i]));
    } else {
        if exists|k: int| 0 <= k < s.len() && p(#[trigger] s[k]) {
            let k0 = choose|k: int| 0 <= k < s.len() && p(#[trigger] s[k]);
            lemma_some_match(s, p, k0);
        }
    }
}

/// There is a first match where some element satisfies `p`.
pub proof fn lemma_some_match<A>(s: Seq<A>, p: spec_fn(A) -> bool, k: int)
    requires
        0 <= k < s.len(),
        p(s[k]),
    ensures
        first_match(s, p) is Some,
    decreases k,
{
    if !p(s[0]) {
        let rest = s.drop_first();
        assert(rest[k - 1] == s[k]);
        lemma_some_match(rest, p, k - 1);
    }
}

/// What one more element does to a filtered sequence.
pub proof fn lemma_filter_step<A>(s: Seq<A>, p: spec_fn(A) -> bool, i: int)
    requires
        0 <= i < s.len(),
    ensures
        s.subrange(0, i + 1).filter(p) == if p(s[i]) {
            s.subrange(0, i).filter(p).push(s[i])
        } else {
            s.subrange(0, i).filter(p)
        },
{
    reveal(Seq::filter);
    assert(s.subrange(0, i + 1).drop_last() =~= s.subrange(0, i));
}

/// Filtering keeps elements of the sequence, in their order: each kept
/// element has a place in the sequence, and the places rise.
pub proof fn lemma_filter_places<A>(s: Seq<A>, p: spec_fn(A) -> bool) -> (places: Seq<int>)
    ensures
        places.len() == s.filter(p).len(),
        forall|k: int|
            0 <= k < places.len() ==> 0 <= #[trigger] places[k] < s.len() && s.filter(p)[k]
                == s[places[k]] && p(s[places[k]]),
        forall|k: int, l: int| 0 <= k < l < places.len() ==> places[k] < places[l],
        forall|i: int|
            0 <= i < s.len() && p(s[i]) ==> exists|k: int|
                0 <= k < places.len() && #[trigger] places[k] == i,
    decreases s.len(),
{
    reveal(Seq::filter);
    if s.len() == 0 {
        Seq::empty()
    } else {
        let front = s.drop_last();
        let before = lemma_filter_places(front, p);
        let last = s.len() - 1;
        if p(s.last()) {
            let places = before.push(last);
            assert forall|i: int| 0 <= i < s.len() && p(s[i]) implies exists|k: int|
                0 <= k < places.len() && #[trigger] places[k] == i by {
                if i < last {
                    assert(front[i] == s[i]);
                    let k0 = choose|k: int| 0 <= k < before.len() && #[trigger] before[k] == i;
                    assert(places[k0] == i);
                } else {
                    assert(places[before.len() as int] == i);
                }
            }
            places
        } else {
            assert forall|i: int| 0 <= i < s.len() && p(s[i]) implies exists|k: int|
                0 <= k < before.len() && #[trigger] before[k] == i by {
                assert(front[i] == s[i]);
            }
            before
        }
    }
}

/// Filtering keeps what holds between every element and every later one.
pub proof fn lemma_filter_pairwise<A>(s: Seq<A>, p: spec_fn(A) -> bool, rel: spec_fn(A, A) -> bool)
    requires
        pairwise(s, rel),
    ensures
        pairwise(s.filter(p), rel),
{
    let places = lemma_filter_places(s, p);
    let f = s.filter(p);
    assert forall|i: int, j: int| 0 <= i < j < f.len() implies rel(
        #[trigger] f[i],
        #[trigger] f[j],
    ) by {
        assert(places[i] < places[j]);
        assert(rel(s[places[i]], s[places[j]]));
    }
}

/// Filtering keeps what holds of every element, and adds the filter itself.
pub proof fn lemma_filter_each<A>(s: Seq<A>, p: spec_fn(A) -> bool, q: spec_fn(A) -> bool)
    requires
        each(s, q),
    ensures
        each(s.filter(p), q),
        each(s.filter(p), p),
{
    let places = lemma_filter_places(s, p);
    let f = s.filter(p);
    assert forall|i: int| 0 <= i < f.len() implies q(#[trigger] f[i]) && p(f[i]) by {
        assert(f[i] == s[places[i]]);
    }
}

/// Putting a row in place of the rows that it stands in for keeps what holds
/// between every row and every later one, where it holds between every
/// other row and the new one.
pub proof fn lemma_put_pairwise<A>(
    table: Seq<A>,
    other: spec_fn(A) -> bool,
    row: A,
    rel: spec_fn(A, A) -> bool,
)
    requires
        pairwise(table, rel),
        forall|k: int| 0 <= k < table.len() && other(#[trigger] table[k]) ==> rel(table[k], row),
    ensures
        pairwise(table.filter(other).push(row), rel),
{
    lemma_filter_pairwise(table, other, rel);
    let places = lemma_filter_places(table, other);
    let kept = table.filter(other);
    let put = kept.push(row);
    assert forall|i: int, j: int| 0 <= i < j < put.len() implies rel(
        #[trigger] put[i],
        #[trigger] put[j],
    ) by {
        if j < kept.len() {
            assert(rel(kept[i], kept[j]));
        } else {
            assert(kept[i] == table[places[i]]);
        }
    }
}

/// Putting a row in place of others keeps what holds of every row, where it
/// holds of the new one.
pub proof fn lemma_put_each<A>(table: Seq<A>, other: spec_fn(A) -> bool, row: A, q: spec_fn(A) -> bool)
    requires
        each(table, q),
        q(row),
    ensures
        each(table.filter(other).push(row), q),
{
    lemma_filter_each(table, other, q);
    let kept = table.filter(other);
    let put = kept.push(row);
    assert forall|i: int| 0 <= i < put.len() implies q(#[trigger] put[i]) by {
        if i < kept.len() {
            assert(q(kept[i]));
        }
    }
}

/// After a row was put in place of the rows that are not `other`, it is the
/// one row that is not `other`.
pub proof fn lemma_put_finds<A>(table: Seq<A>, other: spec_fn(A) -> bool, row: A, p: spec_fn(A) -> bool)
    requires
        forall|k: int| 0 <= k < table.len() && p(#[trigger] table[k]) ==> !other(table[k]),
        p(row),
    ensures
        first_match(table.filter(other).push(row), p) == Some(row),
{
    let places = lemma_filter_places(table, other);
    let kept = table.filter(other);
    let put = kept.push(row);
    assert forall|k: int| 0 <= k < kept.len() implies !p(#[trigger] put[k]) by {
        assert(kept[k] == table[places[k]]);
    }
    lemma_first_match_at(put, p, kept.len() as int);
}

/// A row that was put in place of others leaves the search for any of the
/// others as it was.
pub proof fn lemma_put_keeps<A>(table: Seq<A>, other: spec_fn(A) -> bool, row: A, p: spec_fn(A) -> bool)
    requires
        forall|k: int| 0 <= k < table.len() && p(#[trigger] table[k]) ==> other(table[k]),
        !p(row),
    ensures
        first_match(table.filter(other).push(row), p) == first_match(table, p),
{
    lemma_filter_keeps(table, other, p);
    lemma_push_keeps(table.filter(other), row, p);
}

/// A row that does not match leaves a search as it was.
pub proof fn lemma_push_keeps<A>(table: Seq<A>, row: A, p: spec_fn(A) -> bool)
    requires
        !p(row),
    ensures
        first_match(table.push(row), p) == first_match(table, p),
{
    let put = table.push(row);
    if first_match(table, p) is Some {
        let i = lemma_first_match_found(table, p);
        assert(put[i] == table[i]);
        assert forall|k: int| 0 <= k < i implies !p(#[trigger] put[k]) by {
            assert(put[k] == table[k]);
        }
        lemma_first_match_at(put, p, i);
    } else {
        lemma_any_exists(table, p);
        assert forall|k: int| 0 <= k < put.len() implies !p(#[trigger] put[k]) by {
            if k < table.len() {
                assert(put[k] == table[k]);
                assert(!p(table[k]));
            }
        }
        lemma_first_match_none(put, p);
    }
}

/// Filtering leaves the search for a row as it was, where every row that
/// the search could find passes the filter.
pub proof fn lemma_filter_keeps<A>(table: Seq<A>, keep: spec_fn(A) -> bool, p: spec_fn(A) -> bool)
    requires
        forall|k: int| 0 <= k < table.len() && p(#[trigger] table[k]) ==> keep(table[k]),
    ensures
        first_match(table.filter(keep), p) == first_match(table, p),
{
    let places = lemma_filter_places(table, keep);
    let kept = table.filter(keep);
    if first_match(table, p) is Some {
        let i = lemma_first_match_found(table, p);
        let k = choose|k: int| 0 <= k < places.len() && #[trigger] places[k] == i;
        assert forall|l: int| 0 <= l < k implies !p(#[trigger] kept[l]) by {
            assert(places[l] < places[k]);
            assert(kept[l] == table[places[l]]);
        }
        assert(kept[k] == table[i]);
        lemma_first_match_at(kept, p, k);
    } else {
        lemma_any_exists(table, p);
        assert forall|l: int| 0 <= l < kept.len() implies !p(#[trigger] kept[l]) by {
            assert(kept[l] == table[places[l]]);
            assert(!p(table[places[l]]));
        }
        lemma_first_match_none(kept, p);
    }
}

/// A new last row keeps what holds between every row and every later one,
/// where it holds between every row and the new one.
pub proof fn lemma_push_pairwise<A>(table: Seq<A>, row: A, rel: spec_fn(A, A) -> bool)
    requires
        pairwise(table, rel),
        forall|k: int| 0 <= k < table.len() ==> rel(#[trigger] table[k], row),
    ensures
        pairwise(table.push(row), rel),
{
    let put = table.push(row);
    assert forall|i: int, j: int| 0 <= i < j < put.len() implies rel(
        #[trigger] put[i],
        #[trigger] put[j],
    ) by {
        if j < table.len() {
            assert(rel(table[i], table[j]));
        } else {
            assert(rel(table[i], row));
        }
    }
}

/// Filtering takes away as many rows as fail the filter: none where every
/// row passes, and at least one where some row fails.
pub proof fn lemma_filter_loss<A>(table: Seq<A>, keep: spec_fn(A) -> bool)
    ensures
        table.filter(keep).len() <= table.len(),
        table.filter(keep).len() == table.len() <==> each(table, keep),
    decreases table.len(),
{
    reveal(Seq::filter);
    if table.len() > 0 {
        let front = table.drop_last();
        lemma_filter_loss(front, keep);
        if each(table, keep) {
            assert forall|i: int| 0 <= i < front.len() implies keep(#[trigger] front[i]) by {
                assert(front[i] == table[i]);
            }
            assert(keep(table[table.len() - 1]));
        } else {
            if each(front, keep) && keep(table.last()) {
                assert forall|i: int| 0 <= i < table.len() implies keep(#[trigger] table[i]) by {
                    if i < front.len() {
                        assert(front[i] == table[i]);
                    }
                }
            }
        }
    }
}

/// A new last row keeps what holds of every row, where it holds of the new one.
pub proof fn lemma_push_each<A>(table: Seq<A>, row: A, q: spec_fn(A) -> bool)
    requires
        each(table, q),
        q(row),
    ensures
        each(table.push(row), q),
{
    let put = table.push(row);
    assert forall|i: int| 0 <= i < put.len() implies q(#[trigger] put[i]) by {
        if i < table.len() {
            assert(q(table[i]));
        }
    }
}

/// The sum of what `weigh` gives for each element.
pub open spec fn total<A>(s: Seq<A>, weigh: spec_fn(A) -> nat) -> nat
    decreases s.len(),
{
    if s.len() == 0 {
        0
    } else {
        total(s.drop_last(), weigh) + weigh(s.last())
    }
}

/// A count as far as 64 bits hold it.
pub open spec fn clipped(count: nat) -> u64 {
    if count > u64::MAX {
        u64::MAX
    } else {
        count as u64
    }
}

/// The element itself.
pub open spec fn itself<A>() -> spec_fn(A) -> A {
    |a: A| a
}

/// Taking each element for itself changes nothing.
pub proof fn lemma_map_itself<A>(s: Seq<A>)
    ensures
        s.map_values(itself::<A>()) == s,
{
    assert(s.map_values(itself::<A>()) =~= s);
}

/// A row that does not match, put in anywhere, leaves a search as it was.
pub proof fn lemma_insert_keeps<A>(table: Seq<A>, place: int, row: A, p: spec_fn(A) -> bool)
    requires
        0 <= place <= table.len(),
        !p(row),
    ensures
        first_match(table.insert(place, row), p) == first_match(table, p),
{
    let put = table.insert(place, row);
    if first_match(table, p) is Some {
        let i = lemma_first_match_found(table, p);
        let at = if i < place {
            i
        } else {
            i + 1
        };
        assert(put[at] == table[i]);
        assert forall|k: int| 0 <= k < at implies !p(#[trigger] put[k]) by {
            if k < place {
                assert(put[k] == table[k]);
            } else if k > place {
                assert(put[k] == table[k - 1]);
            }
        }
        lemma_first_match_at(put, p, at);
    } else {
        lemma_any_exists(table, p);
        assert forall|k: int| 0 <= k < put.len() implies !p(#[trigger] put[k]) by {
            if k < place {
                assert(put[k] == table[k]);
                assert(!p(table[k]));
            } else if k > place {
                assert(put[k] == table[k - 1]);
                assert(!p(table[k - 1]));
            }
        }
        lemma_first_match_none(put, p);
    }
}

/// A row that matches, put in anywhere among rows that do not, is found.
pub proof fn lemma_insert_finds<A>(table: Seq<A>, place: int, row: A, p: spec_fn(A) -> bool)
    requires
        0 <= place <= table.len(),
        p(row),
        !any(table, p),
    ensures
        first_match(table.insert(place, row), p) == Some(row),
{
    let put = table.insert(place, row);
    lemma_any_exists(table, p);
    assert forall|k: int| 0 <= k < place implies !p(#[trigger] put[k]) by {
        assert(put[k] == table[k]);
        assert(!p(table[k]));
    }
    lemma_first_match_at(put, p, place);
}

/// A first match is a row of the table.
pub proof fn lemma_first_match_each<A>(table: Seq<A>, p: spec_fn(A) -> bool, q: spec_fn(A) -> bool)
    requires
        each(table, q),
        first_match(table, p) is Some,
    ensures
        q(first_match(table, p)->Some_0),
        p(first_match(table, p)->Some_0),
{
    let i = lemma_first_match_found(table, p);
    assert(q(table[i]));
}

/// What is left after filtering passes the filter.
pub proof fn lemma_filter_passes<A>(s: Seq<A>, p: spec_fn(A) -> bool)
    ensures
        each(s.filter(p), p),
{
    let places = lemma_filter_places(s, p);
    let f = s.filter(p);
    assert forall|i: int| 0 <= i < f.len() implies p(#[trigger] f[i]) by {
        assert(f[i] == s[places[i]]);
    }
}

/// How many elements at the front satisfy `stays`, one after the other.
pub open spec fn lead<A>(s: Seq<A>, stays: spec_fn(A) -> bool) -> int
    decreases s.len(),
{
    if s.len() == 0 {
        0
    } else if !stays(s[0]) {
        0
    } else {
        1 + lead(s.drop_first(), stays)
    }
}

/// The lead ends inside the sequence, every element of it satisfies
/// `stays`, and the element behind it does not.
pub proof fn lemma_lead<A>(s: Seq<A>, stays: spec_fn(A) -> bool)
    ensures
        0 <= lead(s, stays) <= s.len(),
        forall|k: int| 0 <= k < lead(s, stays) ==> stays(#[trigger] s[k]),
        lead(s, stays) < s.len() ==> !stays(s[lead(s, stays)]),
    decreases s.len(),
{
    if s.len() > 0 && stays(s[0]) {
        let rest = s.drop_first();
        lemma_lead(rest, stays);
        let n = lead(rest, stays);
        assert forall|k: int| 0 <= k < n + 1 implies stays(#[trigger] s[k]) by {
            if k > 0 {
                assert(s[k] == rest[k - 1]);
            }
        }
        if n < rest.len() {
            assert(s[n + 1] == rest[n]);
        }
    }
}

/// The one place before which every element satisfies `stays` and at
/// which none does.
pub proof fn lemma_lead_is<A>(s: Seq<A>, stays: spec_fn(A) -> bool, place: int)
    requires
        0 <= place <= s.len(),
        forall|k: int| 0 <= k < place ==> stays(#[trigger] s[k]),
        place < s.len() ==> !stays(s[place]),
    ensures
        lead(s, stays) == place,
    decreases place,
{
    if place > 0 {
        let rest = s.drop_first();
        assert(stays(s[0]));
        assert forall|k: int| 0 <= k < place - 1 implies stays(#[trigger] rest[k]) by {
            assert(rest[k] == s[k + 1]);
        }
        if place < s.len() {
            assert(rest[place - 1] == s[place]);
        }
        lemma_lead_is(rest, stays, place - 1);
    }
}

/// A row put in at `place` keeps what holds between every row and every
/// later one, where it holds between every row before the place and the new
/// row, and between the new row and every row from the place on.
pub proof fn lemma_insert_pairwise<A>(table: Seq<A>, place: int, row: A, rel: spec_fn(A, A) -> bool)
    requires
        pairwise(table, rel),
        0 <= place <= table.len(),
        forall|k: int| 0 <= k < place ==> rel(#[trigger] table[k], row),
        forall|k: int| place <= k < table.len() ==> rel(row, #[trigger] table[k]),
    ensures
        pairwise(table.insert(place, row), rel),
{
    let put = table.insert(place, row);
    assert forall|i: int, j: int| 0 <= i < j < put.len() implies rel(
        #[trigger] put[i],
        #[trigger] put[j],
    ) by {
        if j < place {
            assert(rel(table[i], table[j]));
        } else if j == place {
            assert(rel(table[i], row));
        } else if i < place {
            assert(rel(table[i], table[j - 1]));
        } else if i == place {
            assert(rel(row, table[j - 1]));
        } else {
            assert(rel(table[i - 1], table[j - 1]));
        }
    }
}

} // verus!
