//! Bounded collection of one page of results.
//!
//! A listing walks its rows in time order and hands each to a `Paginator`,
//! which maps it, filters it, keeps it while there is room, and says whether
//! the walk should go on. When the walk ran from old to new, the page is
//! turned round at the end, so that a page always reads newest first.

use std::marker::PhantomData;
use vstd::prelude::*;

use crate::time::{TimeSpan, Timestamp};

verus! {

/// Query parameters that control pagination.
#[derive(Clone, Copy, Debug)]
pub struct Pagination {
    /// Time before which to show items.
    pub before: Option<i64>,
    /// Time after which to show items. Ignored when `before` is set.
    pub after: Option<i64>,
    /// Limit on how many items appear on a page.
    pub count: Option<usize>,
}

/// `input` raised to `lower` and then cut to `upper`.
pub open spec fn spec_bound(input: int, lower: int, upper: int) -> int {
    let raised = if lower >= input { lower } else { input };
    if raised <= upper { raised } else { upper }
}

/// Set lower and upper bounds for `input`. The upper bound wins where the two cross.
pub fn bound(input: usize, lower: usize, upper: usize) -> (r: usize)
    ensures
        r == spec_bound(input as int, lower as int, upper as int),
{
    let raised: usize = if lower >= input { lower } else { input };
    if raised <= upper { raised } else { upper }
}

/// The number of items a page may hold: the requested count held between one
/// and `max_items`, or `max_items` where no count was requested.
pub open spec fn page_limit(params: Pagination, max_items: usize) -> int {
    match params.count {
        Some(c) => spec_bound(c as int, 1, max_items as int),
        None => max_items as int,
    }
}

/// The window that the parameters ask for. `before` wins over `after`; with
/// neither, the window is everything before `now`.
pub open spec fn requested_span(params: Pagination, now: Timestamp) -> TimeSpan {
    match params.before {
        Some(b) => TimeSpan::Before(Timestamp { unix_utc_ms: b }),
        None => match params.after {
            Some(a) => TimeSpan::After(Timestamp { unix_utc_ms: a }),
            None => TimeSpan::Before(now),
        },
    }
}

/// Whether the parameters ask for a walk from old to new.
pub open spec fn walks_forward(params: Pagination) -> bool {
    params.before is None && params.after is Some
}

/// What one accepted row does to a page: the items after it, the `has_more`
/// flag after it, and whether the walk goes on.
pub open spec fn page_step<T>(items: Seq<T>, has_more: bool, limit: int, item: T, keep: bool) -> (
    Seq<T>,
    bool,
    bool,
) {
    if !keep {
        (items, has_more, true)
    } else if items.len() >= limit {
        (items, true, false)
    } else {
        (items.push(item), has_more, true)
    }
}

/// Collects one page from the rows of a listing.
///
/// `mapper` turns a row into an item of the page, `filter` decides whether
/// the item belongs on it.
#[verifier::reject_recursive_types(T)]
#[verifier::reject_recursive_types(In)]
#[verifier::reject_recursive_types(E)]
#[verifier::reject_recursive_types(Mapper)]
#[verifier::reject_recursive_types(Filter)]
pub struct Paginator<T, In, E, Mapper, Filter> where
    Mapper: Fn(In) -> Result<T, E>,
    Filter: Fn(&T) -> bool,
 {
    items: Vec<T>,
    pub has_more: bool,
    pub params: Pagination,
    pub max_items: usize,
    mapper: Mapper,
    filter: Filter,
    have_flipped: bool,
    _in: PhantomData<In>,
    _err: PhantomData<E>,
}

impl<T, In, E, Mapper, Filter> Paginator<T, In, E, Mapper, Filter> where
    Mapper: Fn(In) -> Result<T, E>,
    Filter: Fn(&T) -> bool,
 {
    /// The items collected so far, in the order of the walk.
    pub closed spec fn collected(&self) -> Seq<T> {
        self.items@
    }

    /// Whether the walk was stopped because the page was full.
    pub closed spec fn more(&self) -> bool {
        self.has_more
    }

    /// The parameters of the request.
    pub closed spec fn query(&self) -> Pagination {
        self.params
    }

    /// The cap on the page size.
    pub closed spec fn cap(&self) -> usize {
        self.max_items
    }

    /// Whether the page has been turned round already.
    pub closed spec fn flipped(&self) -> bool {
        self.have_flipped
    }

    /// The function that turns a row into an item of the page.
    pub closed spec fn map_fn(&self) -> Mapper {
        self.mapper
    }

    /// The function that decides whether an item belongs on the page.
    pub closed spec fn filter_fn(&self) -> Filter {
        self.filter
    }

    /// Everything but the collected items and the `has_more` flag is the same.
    pub open spec fn same_setup(&self, other: &Self) -> bool {
        &&& self.query() == other.query()
        &&& self.cap() == other.cap()
        &&& self.flipped() == other.flipped()
        &&& self.map_fn() == other.map_fn()
        &&& self.filter_fn() == other.filter_fn()
    }

    /// The number of items this page may hold.
    pub open spec fn limit(&self) -> int {
        page_limit(self.query(), self.cap())
    }

    /// The page as it is handed out: newest first.
    pub open spec fn page(&self) -> Seq<T> {
        if walks_forward(self.query()) && !self.flipped() {
            self.collected().reverse()
        } else {
            self.collected()
        }
    }

    /// The mapper turned `input` down with `e`, and the page is as it was.
    pub open spec fn refused(&self, before: &Self, input: In, e: E) -> bool {
        &&& call_ensures(before.map_fn(), (input,), Err::<T, E>(e))
        &&& self.collected() == before.collected()
        &&& self.more() == before.more()
    }

    /// The mapper made `item` of `input`, the filter answered `keep`, and the
    /// page went from `before` to `self` by that one step.
    pub open spec fn took(&self, before: &Self, input: In, item: T, keep: bool, go_on: bool) -> bool {
        &&& call_ensures(before.map_fn(), (input,), Ok::<T, E>(item))
        &&& call_ensures(before.filter_fn(), (&item,), keep)
        &&& (self.collected(), self.more(), go_on) == page_step(
            before.collected(),
            before.more(),
            before.limit(),
            item,
            keep,
        )
    }

    /// The mapper made an item of `input`, and the page went from `before`
    /// to `self` by the step that the filter's answer on that item asks for.
    pub open spec fn accepted(&self, before: &Self, input: In, go_on: bool) -> bool {
        exists|item: T, keep: bool| #[trigger] self.took(before, input, item, keep, go_on)
    }

    /// Takes one row: maps it, and keeps the item if the filter passes it
    /// and the page has room.
    fn accept(&mut self, input: In) -> (r: Result<bool, E>)
        requires
            call_requires(old(self).map_fn(), (input,)),
            forall|t: T| call_requires(old(self).filter_fn(), (&t,)),
        ensures
            final(self).same_setup(old(self)),
            r matches Err(e) ==> final(self).refused(old(self), input, e),
            r matches Ok(go_on) ==> final(self).accepted(old(self), input, go_on),
    {
        let max_len = match self.params.count {
            Some(c) => bound(c, 1, self.max_items),
            None => self.max_items,
        };
        let item = match (self.mapper)(input) {
            Ok(item) => item,
            Err(e) => {
                return Err(e);
            },
        };
        let ghost made = item;
        assert(call_requires(old(self).filter_fn(), (&made,)));
        let keep = (self.filter)(&item);
        if !keep {
            assert(self.took(old(self), input, made, keep, true));
            return Ok(true);
        }
        if self.items.len() >= max_len {
            self.has_more = true;
            assert(self.took(old(self), input, made, keep, false));
            return Ok(false);
        }
        self.items.push(item);
        assert(self.took(old(self), input, made, keep, true));
        Ok(true)
    }

    /// Takes one row of the walk. `Ok(true)` asks for the next row,
    /// `Ok(false)` ends the walk, an error of the mapper is passed on.
    pub fn callback(&mut self, input: In) -> (r: Result<bool, E>)
        requires
            call_requires(old(self).map_fn(), (input,)),
            forall|t: T| call_requires(old(self).filter_fn(), (&t,)),
        ensures
            final(self).same_setup(old(self)),
            r matches Err(e) ==> final(self).refused(old(self), input, e),
            r matches Ok(go_on) ==> final(self).accepted(old(self), input, go_on),
    {
        self.accept(input)
    }

    /// Creates a new paginator for collecting the rows of a listing.
    pub fn new(params: Pagination, mapper: Mapper, filter: Filter) -> (p: Self)
        ensures
            p.collected() == Seq::<T>::empty(),
            p.cap() == 100,
            !p.more(),
            !p.flipped(),
            p.query() == params,
            p.map_fn() == mapper,
            p.filter_fn() == filter,
    {
        Self {
            params,
            items: Vec::new(),
            max_items: 100,
            has_more: false,
            mapper,
            filter,
            have_flipped: false,
            _in: PhantomData,
            _err: PhantomData,
        }
    }

    /// Whether the walk was stopped because the page was full, and not
    /// because the rows ended.
    pub fn has_more(&self) -> (b: bool)
        ensures
            b == self.more(),
    {
        self.has_more
    }

    /// The parameters of the request.
    pub fn params(&self) -> (p: Pagination)
        ensures
            p == self.query(),
    {
        self.params
    }

    /// The cap on the page size.
    pub fn max_items(&self) -> (n: usize)
        ensures
            n == self.cap(),
    {
        self.max_items
    }

    /// Sets the cap on the page size, and leaves the rest as it is.
    pub fn set_max_items(&mut self, max_items: usize)
        ensures
            final(self).cap() == max_items,
            final(self).collected() == old(self).collected(),
            final(self).more() == old(self).more(),
            final(self).query() == old(self).query(),
            final(self).flipped() == old(self).flipped(),
            final(self).map_fn() == old(self).map_fn(),
            final(self).filter_fn() == old(self).filter_fn(),
    {
        self.max_items = max_items;
    }

    /// The time before which a listing should look for items: the `before`
    /// of the request, or `now` without one.
    pub fn before(&self, now: Timestamp) -> (t: Timestamp)
        ensures
            t == match self.query().before {
                Some(b) => (Timestamp { unix_utc_ms: b }),
                None => now,
            },
    {
        match self.params.before {
            Some(b) => Timestamp { unix_utc_ms: b },
            None => now,
        }
    }

    /// The time span that the request asks for, where `now` is the current time.
    pub fn time_span(&self, now: Timestamp) -> (span: TimeSpan)
        ensures
            span == requested_span(self.query(), now),
            self.query().before is Some ==> span is Before,
            span is After <==> walks_forward(self.query()),
    {
        if let Some(before) = self.params.before {
            return TimeSpan::Before(Timestamp { unix_utc_ms: before });
        }
        if let Some(after) = self.params.after {
            return TimeSpan::After(Timestamp { unix_utc_ms: after });
        }
        TimeSpan::Before(now)
    }

    /// Turns the page round, once, if it was walked from old to new.
    fn flip_items(&mut self)
        ensures
            final(self).page() == old(self).page(),
            final(self).collected() == old(self).page(),
            final(self).more() == old(self).more(),
            final(self).query() == old(self).query(),
            final(self).cap() == old(self).cap(),
            final(self).map_fn() == old(self).map_fn(),
            final(self).filter_fn() == old(self).filter_fn(),
            final(self).flipped() == (old(self).flipped() || walks_forward(old(self).query())),
    {
        let forward = self.params.before.is_none() && self.params.after.is_some();
        if forward && !self.have_flipped {
            let ghost before = self.items@;
            let mut turned: Vec<T> = Vec::new();
            while self.items.len() > 0
                invariant
                    self.has_more == old(self).has_more,
                    self.params == old(self).params,
                    self.max_items == old(self).max_items,
                    self.mapper == old(self).mapper,
                    self.filter == old(self).filter,
                    self.have_flipped == old(self).have_flipped,
                    self.items@.len() <= before.len(),
                    turned@.len() + self.items@.len() == before.len(),
                    self.items@ == before.subrange(0, self.items@.len() as int),
                    forall|k: int|
                        0 <= k < turned@.len() ==> turned@[k] == before[before.len() - 1 - k],
                decreases self.items.len(),
            {
                let last = self.items.pop();
                match last {
                    Some(x) => {
                        turned.push(x);
                    },
                    None => {},
                }
            }
            assert(turned@ =~= before.reverse());
            self.items = turned;
            self.have_flipped = true;
        }
    }

    /// Ends the collection and hands out the page, newest first.
    pub fn into_items(self) -> (items: Vec<T>)
        ensures
            items@ == self.page(),
    {
        let mut done = self;
        done.flip_items();
        done.items
    }
}

} // verus!
