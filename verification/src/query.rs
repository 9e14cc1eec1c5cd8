//! Listings and groups of rows.

use crate::sql::{
    add_value, ints, key_views, order_of, stable_order, tally, DbError, SortKey, SortKeyView, Tally,
};
use vstd::prelude::*;

verus! {

// ── Listings ─────────────────────────────────────────────────────────────────

/// A row of a listing: what it is ordered by, and what is handed out for it.
pub trait Listed: Sized {
    type Out: View;

    spec fn order_key(&self) -> SortKeyView;

    spec fn outcome(&self) -> Result<<Self::Out as View>::V, DbError>;

    fn make_key(&self) -> (k: SortKey)
        ensures
            k@ == self.order_key(),
    ;

    fn show(&self) -> (r: Result<Self::Out, DbError>)
        ensures
            match r {
                Ok(o) => self.outcome() == Ok::<<Self::Out as View>::V, DbError>(o@),
                Err(e) => self.outcome() == Err::<<Self::Out as View>::V, DbError>(e),
            },
    ;
}

/// The rows in the order of their keys; rows of level keys stay in the order in
/// which they came.
pub open spec fn arranged<A: Listed>(rows: Seq<A>) -> Seq<A> {
    let p = order_of(rows.map_values(|a: A| a.order_key()));
    Seq::new(p.len(), |i: int| rows[p[i]])
}

/// What is handed out for each of the rows, or the first error among them.
pub open spec fn shown<A: Listed>(rows: Seq<A>) -> Result<Seq<<A::Out as View>::V>, DbError>
    decreases rows.len(),
{
    if rows.len() == 0 {
        Ok(Seq::empty())
    } else {
        match shown(rows.drop_last()) {
            Ok(v) => match rows.last().outcome() {
                Ok(o) => Ok(v.push(o)),
                Err(e) => Err(e),
            },
            Err(e) => Err(e),
        }
    }
}

/// How many of `n` rows a limit lets through; a negative one lets all through.
pub open spec fn limited(n: int, limit: int) -> int {
    if limit < 0 || n <= limit {
        n
    } else {
        limit
    }
}

/// The listing of some rows: in order, no more than the limit.
pub open spec fn listing<A: Listed>(rows: Seq<A>, limit: int) -> Result<
    Seq<<A::Out as View>::V>,
    DbError,
> {
    shown(arranged(rows).take(limited(rows.len() as int, limit)))
}

pub open spec fn out_views<T: View>(v: Seq<T>) -> Seq<T::V> {
    v.map_values(|x: T| x@)
}

pub open spec fn result_view<T: View>(r: Result<Vec<T>, DbError>) -> Result<Seq<T::V>, DbError> {
    match r {
        Ok(v) => Ok(out_views(v@)),
        Err(e) => Err(e),
    }
}

/// The positions of the rows, in the order of their keys.
pub fn sort_rows<A: Listed>(rows: &Vec<A>) -> (p: Vec<usize>)
    ensures
        p@.len() == rows@.len(),
        arranged(rows@).len() == rows@.len(),
        forall|j: int|
            0 <= j < rows@.len() ==> 0 <= #[trigger] p@[j] < rows@.len() && arranged(rows@)[j]
                == rows@[p@[j] as int],
{
    let n: usize = rows.len();
    let mut keys: Vec<SortKey> = Vec::new();
    let mut i: usize = 0;
    while i < n
        invariant
            i <= n == rows@.len(),
            keys@.len() == i,
            forall|j: int| 0 <= j < i ==> (#[trigger] keys@[j])@ == rows@[j].order_key(),
        decreases n - i,
    {
        keys.push(rows[i].make_key());
        i = i + 1;
    }
    let p = stable_order(&keys);
    proof {
        assert(key_views(keys@) =~= rows@.map_values(|a: A| a.order_key()));
        assert forall|j: int| 0 <= j < n implies 0 <= #[trigger] p@[j] < n && arranged(rows@)[j]
            == rows@[p@[j] as int] by {
            assert(ints(p@)[j] == p@[j]);
        }
    }
    p
}

pub fn list_rows<A: Listed>(rows: &Vec<A>, limit: i64) -> (r: Result<Vec<A::Out>, DbError>)
    ensures
        result_view(r) == listing(rows@, limit as int),
{
    let n: usize = rows.len();
    let p = sort_rows(rows);
    let ghost all = arranged(rows@);
    let count: usize = if limit < 0 || (n as u128) <= (limit as u128) {
        n
    } else {
        limit as usize
    };
    let mut out: Vec<A::Out> = Vec::new();
    let mut k: usize = 0;
    let ghost list = all.take(count as int);
    assert(list.take(0) =~= Seq::<A>::empty());
    assert(out_views(out@) =~= Seq::empty());
    while k < count
        invariant
            k <= count <= n == rows@.len(),
            p@.len() == n,
            all.len() == n,
            list == all.take(count as int),
            forall|j: int| 0 <= j < n ==> 0 <= #[trigger] p@[j] < n && all[j] == rows@[p@[j] as int],
            shown(list.take(k as int)) == Ok::<Seq<<A::Out as View>::V>, DbError>(out_views(out@)),
            listing(rows@, limit as int) == shown(list),
        decreases count - k,
    {
        let row = &rows[p[k]];
        assert(list[k as int] == row);
        assert(list.take(k + 1).drop_last() =~= list.take(k as int));
        assert(list.take(k + 1).last() == row);
        match row.show() {
            Ok(o) => {
                let ghost was = out@;
                out.push(o);
                assert(out_views(out@) =~= out_views(was).push(o@));
            },
            Err(e) => {
                proof {
                    lemma_shown_error(list, k + 1, e);
                }
                return Err(e);
            },
        }
        k = k + 1;
    }
    assert(list.take(count as int) =~= list);
    Ok(out)
}

/// An error at the front is the error of the whole.
proof fn lemma_shown_error<A: Listed>(rows: Seq<A>, k: int, e: DbError)
    requires
        0 <= k <= rows.len(),
        shown(rows.take(k)) == Err::<Seq<<A::Out as View>::V>, DbError>(e),
    ensures
        shown(rows) == Err::<Seq<<A::Out as View>::V>, DbError>(e),
    decreases rows.len() - k,
{
    if k == rows.len() {
        assert(rows.take(k) =~= rows);
    } else {
        assert(rows.take(k + 1).drop_last() =~= rows.take(k));
        lemma_shown_error(rows, k + 1, e);
    }
}

// ── Rows out of rows ─────────────────────────────────────────────────────────

/// For each of the rows in turn, the rows that `f` makes of it.
pub open spec fn gathered<A, B>(rows: Seq<A>, f: spec_fn(A) -> Seq<B>) -> Seq<B>
    decreases rows.len(),
{
    if rows.len() == 0 {
        Seq::empty()
    } else {
        gathered(rows.drop_last(), f) + f(rows.last())
    }
}

/// Two ways to make rows that agree on every row make the same rows.
pub proof fn lemma_gathered_alike<A, B>(
    rows: Seq<A>,
    f: spec_fn(A) -> Seq<B>,
    g: spec_fn(A) -> Seq<B>,
)
    requires
        forall|i: int| 0 <= i < rows.len() ==> f(#[trigger] rows[i]) == g(rows[i]),
    ensures
        gathered(rows, f) == gathered(rows, g),
    decreases rows.len(),
{
    if rows.len() > 0 {
        assert forall|i: int| 0 <= i < rows.drop_last().len() implies f(
            #[trigger] rows.drop_last()[i],
        ) == g(rows.drop_last()[i]) by {
            assert(rows.drop_last()[i] == rows[i]);
        }
        assert(rows.last() == rows[rows.len() - 1]);
        lemma_gathered_alike(rows.drop_last(), f, g);
    }
}

/// A row of a table, taken out of it.
pub struct Item<'a, R> {
    pub row: &'a R,
}

/// A condition on the rows of a table.
pub trait Pick<R> {
    spec fn picks(&self, row: &R) -> bool;

    fn is_pick(&self, row: &R) -> (r: bool)
        ensures
            r == self.picks(row),
    ;
}

pub open spec fn picked_row<'a, R, P: Pick<R>>(p: &P, row: &'a R) -> Seq<Item<'a, R>> {
    if p.picks(row) {
        seq![Item { row }]
    } else {
        Seq::empty()
    }
}

/// The rows that meet a condition.
pub open spec fn picked<'a, R, P: Pick<R>>(rows: Seq<R>, p: &P) -> Seq<Item<'a, R>> {
    gathered(rows, |row: R| picked_row(p, &row))
}

pub fn pick_rows<'a, R, P: Pick<R>>(rows: &'a Vec<R>, p: &P) -> (r: Vec<Item<'a, R>>)
    ensures
        r@ == picked(rows@, p),
{
    let mut out: Vec<Item<'a, R>> = Vec::new();
    let ghost f = |row: R| picked_row(p, &row);
    let n: usize = rows.len();
    let mut i: usize = 0;
    assert(rows@.take(0) =~= Seq::<R>::empty());
    while i < n
        invariant
            i <= n == rows@.len(),
            f == (|row: R| picked_row(p, &row)),
            out@ =~= gathered(rows@.take(i as int), f),
        decreases n - i,
    {
        assert(rows@.take(i + 1).drop_last() =~= rows@.take(i as int));
        assert(f(rows@[i as int]) == picked_row(p, &rows@[i as int]));
        if p.is_pick(&rows[i]) {
            out.push(Item { row: &rows[i] });
        }
        i = i + 1;
    }
    assert(rows@.take(n as int) =~= rows@);
    out
}

// ── Groups ───────────────────────────────────────────────────────────────────

/// What is summed up over the rows of a group.
#[derive(Clone, Copy)]
pub enum Side {
    /// The amounts.
    All,
    /// The amounts above zero.
    Income,
    /// The amounts below zero.
    Expenses,
    /// One for each row.
    Count,
}

pub open spec fn measured(amount: Option<i64>, side: Side) -> Option<i64> {
    match side {
        Side::All => amount,
        Side::Income => Some(
            match amount {
                Some(v) => if v > 0 {
                    v
                } else {
                    0
                },
                None => 0,
            },
        ),
        Side::Expenses => Some(
            match amount {
                Some(v) => if v < 0 {
                    v
                } else {
                    0
                },
                None => 0,
            },
        ),
        Side::Count => Some(1),
    }
}

fn measure(amount: Option<i64>, side: Side) -> (r: Option<i64>)
    ensures
        r == measured(amount, side),
{
    match side {
        Side::All => amount,
        Side::Income => match amount {
            Some(v) => if v > 0 {
                Some(v)
            } else {
                Some(0)
            },
            None => Some(0),
        },
        Side::Expenses => match amount {
            Some(v) => if v < 0 {
                Some(v)
            } else {
                Some(0)
            },
            None => Some(0),
        },
        Side::Count => Some(1),
    }
}

/// A row that is summed up with others.
pub trait Grouped: Sized {
    spec fn alike(&self, other: &Self) -> bool;

    spec fn amount(&self) -> Option<i64>;

    fn same_group(&self, other: &Self) -> (r: bool)
        ensures
            r == self.alike(other),
    ;

    fn get_amount(&self) -> (r: Option<i64>)
        ensures
            r == self.amount(),
    ;
}

/// The rows that are not alike to one before them: one for each group.
pub open spec fn leaders<A: Grouped>(rows: Seq<A>) -> Seq<A>
    decreases rows.len(),
{
    if rows.len() == 0 {
        Seq::empty()
    } else {
        let found = leaders(rows.drop_last());
        if exists|i: int| 0 <= i < found.len() && (#[trigger] found[i]).alike(&rows.last()) {
            found
        } else {
            found.push(rows.last())
        }
    }
}

/// What the rows of the group of `leader` are measured at.
pub open spec fn group_values<A: Grouped>(rows: Seq<A>, leader: A, side: Side) -> Seq<Option<i64>>
    decreases rows.len(),
{
    if rows.len() == 0 {
        Seq::empty()
    } else {
        let found = group_values(rows.drop_last(), leader, side);
        if leader.alike(&rows.last()) {
            found.push(measured(rows.last().amount(), side))
        } else {
            found
        }
    }
}

/// A group of rows, with what they sum up to.
pub struct Group<'a, A> {
    pub leader: &'a A,
    pub all: Tally,
    pub income: Tally,
    pub expenses: Tally,
    pub count: Tally,
}

pub open spec fn group_of<'a, A: Grouped>(rows: Seq<A>, leader: &'a A) -> Group<'a, A> {
    Group {
        leader,
        all: tally(Tally::Empty, group_values(rows, *leader, Side::All)),
        income: tally(Tally::Empty, group_values(rows, *leader, Side::Income)),
        expenses: tally(Tally::Empty, group_values(rows, *leader, Side::Expenses)),
        count: tally(Tally::Empty, group_values(rows, *leader, Side::Count)),
    }
}

/// The groups of some rows, in the order in which they first occur.
pub open spec fn groups<'a, A: Grouped>(rows: Seq<A>) -> Seq<Group<'a, A>> {
    leaders(rows).map_values(|a: A| group_of(rows, &a))
}

fn sum_group<A: Grouped>(rows: &Vec<A>, leader: &A, side: Side) -> (r: Tally)
    ensures
        r == tally(Tally::Empty, group_values(rows@, *leader, side)),
{
    let n: usize = rows.len();
    let mut acc = Tally::Empty;
    let mut i: usize = 0;
    assert(rows@.take(0) =~= Seq::<A>::empty());
    while i < n
        invariant
            i <= n == rows@.len(),
            acc == tally(Tally::Empty, group_values(rows@.take(i as int), *leader, side)),
        decreases n - i,
    {
        assert(rows@.take(i + 1).drop_last() =~= rows@.take(i as int));
        if leader.same_group(&rows[i]) {
            let value = measure(rows[i].get_amount(), side);
            acc = add_value(acc, value);
            proof {
                let found = group_values(rows@.take(i as int), *leader, side);
                assert(found.push(value).drop_last() =~= found);
            }
        }
        i = i + 1;
    }
    assert(rows@.take(n as int) =~= rows@);
    acc
}

pub fn group_rows<'a, A: Grouped>(rows: &'a Vec<A>) -> (r: Vec<Group<'a, A>>)
    ensures
        r@ == groups(rows@),
{
    let n: usize = rows.len();
    let mut out: Vec<Group<'a, A>> = Vec::new();
    let mut i: usize = 0;
    assert(rows@.take(0) =~= Seq::<A>::empty());
    while i < n
        invariant
            i <= n == rows@.len(),
            out@ =~= leaders(rows@.take(i as int)).map_values(|a: A| group_of(rows@, &a)),
        decreases n - i,
    {
        let ghost found = leaders(rows@.take(i as int));
        assert(rows@.take(i + 1).drop_last() =~= rows@.take(i as int));
        let row = &rows[i];
        assert(rows@.take(i + 1).last() == row);
        let mut known = false;
        let mut j: usize = 0;
        while j < out.len()
            invariant
                j <= out@.len() == found.len(),
                out@ =~= found.map_values(|a: A| group_of(rows@, &a)),
                known == exists|k: int| 0 <= k < j && (#[trigger] found[k]).alike(row),
            decreases out@.len() - j,
        {
            assert(out@[j as int].leader == found[j as int]);
            if out[j].leader.same_group(row) {
                known = true;
            }
            j = j + 1;
        }
        if !known {
            out.push(
                Group {
                    leader: row,
                    all: sum_group(rows, row, Side::All),
                    income: sum_group(rows, row, Side::Income),
                    expenses: sum_group(rows, row, Side::Expenses),
                    count: sum_group(rows, row, Side::Count),
                },
            );
        }
        i = i + 1;
    }
    assert(rows@.take(n as int) =~= rows@);
    out
}

/// A group that is listed. It is spoiled where a sum that is shown overflowed.
pub trait Summed: Listed {
    spec fn spoiled(&self) -> bool;

    fn is_spoiled(&self) -> (r: bool)
        ensures
            r == self.spoiled(),
    ;
}

/// The listing of all of some groups: a spoiled one spoils it.
pub open spec fn summary<G: Summed>(rows: Seq<G>) -> Result<Seq<<G::Out as View>::V>, DbError> {
    if exists|i: int| 0 <= i < rows.len() && (#[trigger] rows[i]).spoiled() {
        Err(DbError::IntegerOverflow)
    } else {
        listing(rows, -1)
    }
}

pub fn list_groups<G: Summed>(rows: &Vec<G>) -> (r: Result<Vec<G::Out>, DbError>)
    ensures
        result_view(r) == summary(rows@),
{
    let mut i: usize = 0;
    while i < rows.len()
        invariant
            i <= rows@.len(),
            forall|j: int| 0 <= j < i ==> !(#[trigger] rows@[j]).spoiled(),
        decreases rows@.len() - i,
    {
        if rows[i].is_spoiled() {
            assert(rows@[i as int].spoiled());
            return Err(DbError::IntegerOverflow);
        }
        i = i + 1;
    }
    list_rows(rows, -1)
}

} // verus!
