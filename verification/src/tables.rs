//! Walking a table: finding a row, picking rows out, and throwing rows away.

use vstd::prelude::*;

use crate::seqs::{
    clipped, first_match, lead, lemma_filter_step, lemma_first_match_at, lemma_first_match_none,
    lemma_lead_is, total,
};

verus! {

/// What the rows of a table hold.
pub open spec fn views<T: View>(rows: Seq<T>) -> Seq<T::V> {
    rows.map_values(|t: T| t@)
}

/// A test on rows that computes `p` of what a row holds.
pub open spec fn decides<T: View, P: Fn(&T) -> bool>(test: P, p: spec_fn(T::V) -> bool) -> bool {
    &&& forall|t: T| call_requires(test, (&t,))
    &&& forall|t: T, b: bool| call_ensures(test, (&t,), b) ==> b == p(t@)
}

/// A function on rows that computes `f` of what a row holds.
pub open spec fn computes<T: View, U: View, M: Fn(&T) -> U>(
    make: M,
    f: spec_fn(T::V) -> U::V,
) -> bool {
    &&& forall|t: T| call_requires(make, (&t,))
    &&& forall|t: T, u: U| call_ensures(make, (&t,), u) ==> u@ == f(t@)
}

/// No row before `place` satisfies `p`.
pub open spec fn nothing_before<A>(rows: Seq<A>, p: spec_fn(A) -> bool, place: int) -> bool {
    forall|k: int| 0 <= k < place ==> !p(#[trigger] rows[k])
}

/// The place of the first row that passes `test`.
pub(crate) fn find_row<T: View, P: Fn(&T) -> bool>(
    rows: &Vec<T>,
    test: P,
    Ghost(p): Ghost<spec_fn(T::V) -> bool>,
) -> (place: Option<usize>)
    requires
        decides(test, p),
    ensures
        match place {
            Some(i) => i < rows@.len() && p(rows@[i as int]@) && first_match(views(rows@), p)
                == Some(rows@[i as int]@) && nothing_before(views(rows@), p, i as int),
            None => first_match(views(rows@), p) is None,
        },
{
    let mut i: usize = 0;
    while i < rows.len()
        invariant
            decides(test, p),
            i <= rows@.len(),
            forall|k: int| 0 <= k < i ==> !p(#[trigger] views(rows@)[k]),
        decreases rows.len() - i,
    {
        if test(&rows[i]) {
            proof {
                assert(views(rows@)[i as int] == rows@[i as int]@);
                lemma_first_match_at(views(rows@), p, i as int);
            }
            return Some(i);
        }
        assert(views(rows@)[i as int] == rows@[i as int]@);
        i += 1;
    }
    proof {
        lemma_first_match_none(views(rows@), p);
    }
    None
}

/// What `make` turns the rows into that pass `test`, in the order of the table.
pub(crate) fn select_rows<T: View, U: View, P: Fn(&T) -> bool, M: Fn(&T) -> U>(
    rows: &Vec<T>,
    test: P,
    make: M,
    Ghost(p): Ghost<spec_fn(T::V) -> bool>,
    Ghost(f): Ghost<spec_fn(T::V) -> U::V>,
) -> (picked: Vec<U>)
    requires
        decides(test, p),
        computes(make, f),
    ensures
        views(picked@) == views(rows@).filter(p).map_values(f),
{
    let mut picked: Vec<U> = Vec::new();
    let mut i: usize = 0;
    proof {
        reveal(Seq::filter);
        assert(views(rows@).subrange(0, 0) =~= Seq::<T::V>::empty());
        assert(views(picked@) =~= views(rows@).subrange(0, 0).filter(p).map_values(f));
    }
    while i < rows.len()
        invariant
            decides(test, p),
            computes(make, f),
            i <= rows@.len(),
            views(picked@) == views(rows@).subrange(0, i as int).filter(p).map_values(f),
        decreases rows.len() - i,
    {
        proof {
            lemma_filter_step(views(rows@), p, i as int);
            assert(views(rows@)[i as int] == rows@[i as int]@);
        }
        if test(&rows[i]) {
            let ghost so_far = views(picked@);
            let ghost passed = views(rows@).subrange(0, i as int).filter(p);
            let made = make(&rows[i]);
            picked.push(made);
            assert(views(picked@) =~= so_far.push(made@));
            assert(passed.push(rows@[i as int]@).map_values(f) =~= passed.map_values(f).push(
                f(rows@[i as int]@),
            ));
        }
        i += 1;
    }
    assert(views(rows@).subrange(0, i as int) =~= views(rows@));
    picked
}

/// Throws away the rows that fail `test`, and says how many went.
pub(crate) fn retain_rows<T: View, P: Fn(&T) -> bool>(
    rows: &mut Vec<T>,
    test: P,
    Ghost(p): Ghost<spec_fn(T::V) -> bool>,
) -> (gone: usize)
    requires
        decides(test, p),
    ensures
        views(final(rows)@) == views(old(rows)@).filter(p),
        gone == old(rows)@.len() - final(rows)@.len(),
{
    let ghost before = views(rows@);
    let total = rows.len();
    let mut i: usize = 0;
    let mut gone: usize = 0;
    proof {
        reveal(Seq::filter);
        assert(before.subrange(0, 0) =~= Seq::<T::V>::empty());
        assert(views(rows@).subrange(0, 0) =~= before.subrange(0, 0).filter(p));
        assert(views(rows@).subrange(0, rows@.len() as int) =~= before.subrange(
            0,
            before.len() as int,
        ));
        assert(before.len() == rows@.len());
    }
    while i < rows.len()
        invariant
            decides(test, p),
            i <= rows@.len(),
            before.len() == total,
            i + gone <= before.len(),
            rows@.len() + gone == before.len(),
            views(rows@).subrange(0, i as int) == before.subrange(0, i + gone).filter(p),
            views(rows@).subrange(i as int, rows@.len() as int) == before.subrange(
                i + gone,
                before.len() as int,
            ),
        decreases rows.len() - i,
    {
        let ghost now = views(rows@);
        proof {
            lemma_filter_step(before, p, i + gone);
            assert(now.subrange(i as int, rows@.len() as int)[0] == now[i as int]);
            assert(before.subrange(i + gone, before.len() as int)[0] == before[i + gone]);
            assert(now[i as int] == rows@[i as int]@);
        }
        if test(&rows[i]) {
            i += 1;
            proof {
                assert(now.subrange(0, i as int) =~= now.subrange(0, i - 1).push(now[i - 1]));
                assert(now.subrange(i as int, rows@.len() as int) =~= now.subrange(
                    i - 1,
                    rows@.len() as int,
                ).drop_first());
                assert(before.subrange(i + gone, before.len() as int) =~= before.subrange(
                    i - 1 + gone,
                    before.len() as int,
                ).drop_first());
            }
        } else {
            rows.remove(i);
            gone += 1;
            proof {
                assert(views(rows@) =~= now.remove(i as int));
                assert(views(rows@).subrange(0, i as int) =~= now.subrange(0, i as int));
                assert(views(rows@).subrange(i as int, rows@.len() as int) =~= now.subrange(
                    i as int,
                    now.len() as int,
                ).drop_first());
                assert(before.subrange(i + gone, before.len() as int) =~= before.subrange(
                    i + gone - 1,
                    before.len() as int,
                ).drop_first());
            }
        }
    }
    proof {
        assert(views(rows@).subrange(0, i as int) =~= views(rows@));
        assert(before.subrange(0, i + gone) =~= before);
    }
    gone
}

/// A measure on rows that computes `w` of what a row holds.
pub open spec fn weighs<T: View, W: Fn(&T) -> u64>(weigh: W, w: spec_fn(T::V) -> nat) -> bool {
    &&& forall|t: T| call_requires(weigh, (&t,))
    &&& forall|t: T, n: u64| call_ensures(weigh, (&t,), n) ==> n == w(t@)
}

/// How many rows pass `test`, and what they weigh together, as far as 64
/// bits hold it.
pub(crate) fn tally_rows<T: View, P: Fn(&T) -> bool, W: Fn(&T) -> u64>(
    rows: &Vec<T>,
    test: P,
    weigh: W,
    Ghost(p): Ghost<spec_fn(T::V) -> bool>,
    Ghost(w): Ghost<spec_fn(T::V) -> nat>,
) -> (tally: (usize, u64))
    requires
        decides(test, p),
        weighs(weigh, w),
    ensures
        tally.0 == views(rows@).filter(p).len(),
        tally.1 == clipped(total(views(rows@).filter(p), w)),
{
    let mut count: usize = 0;
    let mut weight: u64 = 0;
    let mut i: usize = 0;
    proof {
        reveal(Seq::filter);
        assert(views(rows@).subrange(0, 0) =~= Seq::<T::V>::empty());
    }
    while i < rows.len()
        invariant
            decides(test, p),
            weighs(weigh, w),
            i <= rows@.len(),
            count <= i,
            count == views(rows@).subrange(0, i as int).filter(p).len(),
            weight == clipped(total(views(rows@).subrange(0, i as int).filter(p), w)),
        decreases rows.len() - i,
    {
        proof {
            lemma_filter_step(views(rows@), p, i as int);
            assert(views(rows@)[i as int] == rows@[i as int]@);
        }
        if test(&rows[i]) {
            let ghost passed = views(rows@).subrange(0, i as int).filter(p);
            assert(passed.push(rows@[i as int]@).drop_last() =~= passed);
            let n = weigh(&rows[i]);
            count += 1;
            weight = weight.saturating_add(n);
        }
        i += 1;
    }
    assert(views(rows@).subrange(0, i as int) =~= views(rows@));
    (count, weight)
}

/// Puts a row into a table that is kept in order: behind the rows at the
/// front that pass `stays`, and before the first that does not.
pub(crate) fn insert_behind<T: View, P: Fn(&T) -> bool>(
    rows: &mut Vec<T>,
    row: T,
    stays: P,
    Ghost(p): Ghost<spec_fn(T::V) -> bool>,
)
    requires
        decides(stays, p),
    ensures
        views(final(rows)@) == views(old(rows)@).insert(lead(views(old(rows)@), p), row@),
{
    let ghost before = views(rows@);
    let mut place: usize = 0;
    while place < rows.len() && stays(&rows[place])
        invariant
            decides(stays, p),
            place <= rows@.len(),
            before == views(rows@),
            forall|k: int| 0 <= k < place ==> p(#[trigger] before[k]),
        decreases rows.len() - place,
    {
        assert(before[place as int] == rows@[place as int]@);
        place += 1;
    }
    proof {
        if place < rows@.len() {
            assert(before[place as int] == rows@[place as int]@);
        }
        lemma_lead_is(before, p, place as int);
    }
    let ghost new = row@;
    rows.insert(place, row);
    assert(views(rows@) =~= before.insert(place as int, new));
}

} // verus!
