//! Sums over rows, and how listings, groups and joins keep them.

use crate::query::{
    arranged, gathered, group_values, leaders, limited, listing, measured, shown, Grouped, Listed,
    Side,
};
use crate::sql::{
    hits, is_order, left_join, lemma_key_order, lemma_order_exists, listed_before, meets_key,
    order_of, value_sum, DbError, Keyed,
};
use vstd::prelude::*;

verus! {

// ── Sums over rows ───────────────────────────────────────────────────────────

/// The sum of `f` over some rows.
pub open spec fn total<A>(rows: Seq<A>, f: spec_fn(A) -> int) -> int
    decreases rows.len(),
{
    if rows.len() == 0 {
        0
    } else {
        total(rows.drop_last(), f) + f(rows.last())
    }
}

pub proof fn lemma_total_alike<A>(rows: Seq<A>, f: spec_fn(A) -> int, g: spec_fn(A) -> int)
    requires
        forall|i: int| 0 <= i < rows.len() ==> f(#[trigger] rows[i]) == g(rows[i]),
    ensures
        total(rows, f) == total(rows, g),
    decreases rows.len(),
{
    if rows.len() > 0 {
        assert forall|i: int| 0 <= i < rows.drop_last().len() implies f(
            #[trigger] rows.drop_last()[i],
        ) == g(rows.drop_last()[i]) by {
            assert(rows.drop_last()[i] == rows[i]);
        }
        assert(rows.last() == rows[rows.len() - 1]);
        lemma_total_alike(rows.drop_last(), f, g);
    }
}

pub proof fn lemma_total_append<A>(a: Seq<A>, b: Seq<A>, f: spec_fn(A) -> int)
    ensures
        total(a + b, f) == total(a, f) + total(b, f),
    decreases b.len(),
{
    if b.len() == 0 {
        assert(a + b =~= a);
    } else {
        assert((a + b).drop_last() =~= a + b.drop_last());
        lemma_total_append(a, b.drop_last(), f);
    }
}

pub proof fn lemma_total_remove<A>(rows: Seq<A>, j: int, f: spec_fn(A) -> int)
    requires
        0 <= j < rows.len(),
    ensures
        total(rows, f) == total(rows.remove(j), f) + f(rows[j]),
{
    let a = rows.take(j);
    let b = rows.skip(j + 1);
    assert(rows =~= a.push(rows[j]) + b);
    assert(rows.remove(j) =~= a + b);
    lemma_total_append(a.push(rows[j]), b, f);
    lemma_total_append(a, b, f);
    assert(a.push(rows[j]).drop_last() =~= a);
}

/// Counting up to `n` in any order gives the same sum.
pub proof fn lemma_total_permuted<A>(rows: Seq<A>, p: Seq<int>, f: spec_fn(A) -> int)
    requires
        p.len() == rows.len(),
        forall|i: int| 0 <= i < p.len() ==> 0 <= #[trigger] p[i] < rows.len(),
        forall|x: int| 0 <= x < rows.len() ==> #[trigger] p.contains(x),
        forall|i: int, j: int| 0 <= i < j < p.len() ==> #[trigger] p[i] != #[trigger] p[j],
    ensures
        total(Seq::new(p.len(), |i: int| rows[p[i]]), f) == total(rows, f),
    decreases rows.len(),
{
    let n = rows.len() as int;
    let listed = Seq::new(p.len(), |i: int| rows[p[i]]);
    if n > 0 {
        assert(p.contains(n - 1));
        let j = choose|j: int| 0 <= j < p.len() && p[j] == n - 1;
        let q = p.remove(j);
        let rest = rows.drop_last();
        assert forall|i: int| 0 <= i < q.len() implies 0 <= #[trigger] q[i] < rest.len() by {
            if i < j {
                assert(q[i] == p[i]);
                assert(p[i] != p[j]);
            } else {
                assert(q[i] == p[i + 1]);
                assert(p[j] != p[i + 1]);
            }
        }
        assert forall|x: int| 0 <= x < rest.len() implies #[trigger] q.contains(x) by {
            assert(p.contains(x));
            let k = choose|k: int| 0 <= k < p.len() && p[k] == x;
            if k < j {
                assert(q[k] == x);
            } else {
                assert(q[k - 1] == x);
            }
        }
        assert forall|a: int, b: int| 0 <= a < b < q.len() implies #[trigger] q[a]
            != #[trigger] q[b] by {
            let a2 = if a < j { a } else { a + 1 };
            let b2 = if b < j { b } else { b + 1 };
            assert(q[a] == p[a2] && q[b] == p[b2]);
        }
        lemma_total_permuted(rest, q, f);
        lemma_total_remove(listed, j, f);
        assert(listed.remove(j) =~= Seq::new(q.len(), |i: int| rest[q[i]]));
    } else {
        assert(listed =~= rows);
    }
}

/// A listing holds every row once: sums over it are sums over the rows.
pub proof fn law_arranging_keeps_sums<A: Listed>(rows: Seq<A>, f: spec_fn(A) -> int)
    ensures
        arranged(rows).len() == rows.len(),
        total(arranged(rows), f) == total(rows, f),
{
    let keys = rows.map_values(|a: A| a.order_key());
    let p = order_of(keys);
    lemma_order_exists(keys);
    assert(is_order(keys, p));
    assert forall|i: int, j: int| 0 <= i < j < p.len() implies #[trigger] p[i]
        != #[trigger] p[j] by {
        assert(listed_before(keys, p[i], p[j]));
        lemma_key_order(keys[p[i]], keys[p[i]], keys[p[i]]);
    }
    lemma_total_permuted(rows, p, f);
}

// ── Groups ───────────────────────────────────────────────────────────────────

/// `alike` relates every row to itself, in both directions, and through others.
pub open spec fn sorts_into_groups<A: Grouped>() -> bool {
    &&& forall|a: A| #[trigger] a.alike(&a)
    &&& forall|a: A, b: A| #[trigger] a.alike(&b) ==> b.alike(&a)
    &&& forall|a: A, b: A, c: A| #[trigger] a.alike(&b) && #[trigger] b.alike(&c) ==> a.alike(&c)
}

pub open spec fn number_of(value: Option<i64>) -> int {
    match value {
        Some(v) => v as int,
        None => 0,
    }
}

/// What a row adds to a sum.
pub open spec fn share<A: Grouped>(row: A, side: Side, w: spec_fn(A) -> bool) -> int {
    if w(row) {
        number_of(measured(row.amount(), side))
    } else {
        0
    }
}

/// What the group of a row adds to a sum.
pub open spec fn group_share<A: Grouped>(rows: Seq<A>, leader: A, side: Side, w: spec_fn(A) -> bool) -> int {
    if w(leader) {
        value_sum(group_values(rows, leader, side))
    } else {
        0
    }
}

pub proof fn lemma_leaders<A: Grouped>(rows: Seq<A>)
    requires
        sorts_into_groups::<A>(),
    ensures
        forall|i: int, j: int|
            #![trigger leaders(rows)[i], leaders(rows)[j]]
            0 <= i < j < leaders(rows).len() ==> !leaders(rows)[i].alike(&leaders(rows)[j]),
        forall|k: int|
            #![trigger rows[k]]
            0 <= k < rows.len() ==> exists|i: int|
                0 <= i < leaders(rows).len() && (#[trigger] leaders(rows)[i]).alike(&rows[k]),
        forall|i: int| 0 <= i < leaders(rows).len() ==> rows.contains(#[trigger] leaders(rows)[i]),
    decreases rows.len(),
{
    if rows.len() > 0 {
        let before = rows.drop_last();
        let r = rows.last();
        lemma_leaders(before);
        let old_leaders = leaders(before);
        let new_leaders = leaders(rows);
        assert forall|k: int|
            #![trigger rows[k]]
            0 <= k < rows.len() implies exists|i: int|
            0 <= i < new_leaders.len() && (#[trigger] new_leaders[i]).alike(&rows[k]) by {
            if k < before.len() {
                assert(rows[k] == before[k]);
                let i = choose|i: int|
                    0 <= i < old_leaders.len() && (#[trigger] old_leaders[i]).alike(&before[k]);
                assert(new_leaders[i] == old_leaders[i]);
            } else if new_leaders.len() > old_leaders.len() {
                assert(new_leaders[new_leaders.len() - 1] == r);
                assert(r.alike(&r));
            }
        }
        assert forall|i: int| 0 <= i < new_leaders.len() implies rows.contains(
            #[trigger] new_leaders[i],
        ) by {
            if i < old_leaders.len() {
                assert(new_leaders[i] == old_leaders[i]);
                let k = choose|k: int| 0 <= k < before.len() && before[k] == old_leaders[i];
                assert(rows[k] == new_leaders[i]);
            } else {
                assert(rows[rows.len() - 1] == new_leaders[i]);
            }
        }
    }
}

/// Of rows that are pairwise not alike, no more than one is alike to a row.
pub proof fn lemma_one_group_grows<A: Grouped>(
    found: Seq<A>,
    rows: Seq<A>,
    r: A,
    side: Side,
    w: spec_fn(A) -> bool,
)
    requires
        sorts_into_groups::<A>(),
        forall|i: int, j: int|
            #![trigger found[i], found[j]]
            0 <= i < j < found.len() ==> !found[i].alike(&found[j]),
        forall|a: A, b: A| #[trigger] a.alike(&b) ==> w(a) == w(b),
    ensures
        total(found, |l: A| group_share(rows.push(r), l, side, w)) == total(
            found,
            |l: A| group_share(rows, l, side, w),
        ) + (if exists|i: int| 0 <= i < found.len() && (#[trigger] found[i]).alike(&r) {
            share(r, side, w)
        } else {
            0
        }),
    decreases found.len(),
{
    let f = |l: A| group_share(rows.push(r), l, side, w);
    let g = |l: A| group_share(rows, l, side, w);
    if found.len() > 0 {
        let rest = found.drop_last();
        let l = found.last();
        lemma_one_group_grows(rest, rows, r, side, w);
        assert(rows.push(r).drop_last() =~= rows);
        let was = group_values(rows, l, side);
        assert(was.push(measured(r.amount(), side)).drop_last() =~= was);
        assert(f(l) == g(l) + (if l.alike(&r) {
            share(r, side, w)
        } else {
            0
        }));
        if l.alike(&r) {
            assert(found[found.len() - 1] == l);
            assert forall|i: int| 0 <= i < rest.len() implies !(#[trigger] rest[i]).alike(&r) by {
                assert(rest[i] == found[i]);
                if rest[i].alike(&r) {
                    assert(r.alike(&l));
                    assert(found[i].alike(&found[found.len() - 1]));
                }
            }
        } else if exists|i: int| 0 <= i < found.len() && (#[trigger] found[i]).alike(&r) {
            let i = choose|i: int| 0 <= i < found.len() && (#[trigger] found[i]).alike(&r);
            assert(rest[i].alike(&r));
        } else {
            assert forall|i: int| 0 <= i < rest.len() implies !(#[trigger] rest[i]).alike(&r) by {
                assert(rest[i] == found[i]);
            }
        }
    }
}

pub proof fn lemma_no_member<A: Grouped>(rows: Seq<A>, leader: A, side: Side)
    requires
        forall|k: int| #![trigger rows[k]] 0 <= k < rows.len() ==> !leader.alike(&rows[k]),
    ensures
        group_values(rows, leader, side).len() == 0,
    decreases rows.len(),
{
    if rows.len() > 0 {
        assert(!leader.alike(&rows[rows.len() - 1]));
        assert forall|k: int|
            #![trigger rows.drop_last()[k]]
            0 <= k < rows.drop_last().len() implies !leader.alike(&rows.drop_last()[k]) by {
            assert(rows.drop_last()[k] == rows[k]);
        }
        lemma_no_member(rows.drop_last(), leader, side);
    }
}

/// The groups of some rows share them out: what the groups of a kind sum up to is
/// what the rows of that kind sum up to.
#[verifier::rlimit(40)]
pub proof fn law_groups_share_out<A: Grouped>(rows: Seq<A>, side: Side, w: spec_fn(A) -> bool)
    requires
        sorts_into_groups::<A>(),
        forall|a: A, b: A| #[trigger] a.alike(&b) ==> w(a) == w(b),
    ensures
        total(leaders(rows), |l: A| group_share(rows, l, side, w)) == total(
            rows,
            |r: A| share(r, side, w),
        ),
    decreases rows.len(),
{
    if rows.len() > 0 {
        let before = rows.drop_last();
        let r = rows.last();
        assert(before.push(r) =~= rows);
        law_groups_share_out(before, side, w);
        lemma_leaders(before);
        let found = leaders(before);
        lemma_one_group_grows(found, before, r, side, w);
        let f = |l: A| group_share(rows, l, side, w);
        if !exists|i: int| 0 <= i < found.len() && (#[trigger] found[i]).alike(&r) {
            assert forall|k: int|
                #![trigger before[k]]
                0 <= k < before.len() implies !r.alike(&before[k]) by {
                if r.alike(&before[k]) {
                    let i = choose|i: int|
                        0 <= i < found.len() && (#[trigger] found[i]).alike(&before[k]);
                    assert(before[k].alike(&r));
                    assert(found[i].alike(&r));
                }
            }
            lemma_no_member(before, r, side);
            let none = group_values(before, r, side);
            assert(r.alike(&r));
            assert(none.push(measured(r.amount(), side)).drop_last() =~= none);
            assert(group_values(rows, r, side) == none.push(measured(r.amount(), side)));
            assert(value_sum(none) == 0);
            assert(f(r) == share(r, side, w));
            assert(found.push(r).drop_last() =~= found);
        }
    }
}

// ── Sums through joins ───────────────────────────────────────────────────────

pub proof fn lemma_total_parallel<A, B>(
    a: Seq<A>,
    b: Seq<B>,
    f: spec_fn(A) -> int,
    g: spec_fn(B) -> int,
)
    requires
        a.len() == b.len(),
        forall|i: int| 0 <= i < a.len() ==> f(#[trigger] a[i]) == g(#[trigger] b[i]),
    ensures
        total(a, f) == total(b, g),
    decreases a.len(),
{
    if a.len() > 0 {
        assert forall|i: int| 0 <= i < a.drop_last().len() implies f(#[trigger] a.drop_last()[i])
            == g(#[trigger] b.drop_last()[i]) by {
            assert(a.drop_last()[i] == a[i] && b.drop_last()[i] == b[i]);
        }
        assert(f(a[a.len() - 1]) == g(b[b.len() - 1]));
        lemma_total_parallel(a.drop_last(), b.drop_last(), f, g);
    }
}

pub proof fn lemma_total_gathered<A, B>(rows: Seq<A>, f: spec_fn(A) -> Seq<B>, g: spec_fn(B) -> int)
    ensures
        total(gathered(rows, f), g) == total(rows, |r: A| total(f(r), g)),
    decreases rows.len(),
{
    if rows.len() > 0 {
        lemma_total_gathered(rows.drop_last(), f, g);
        lemma_total_append(gathered(rows.drop_last(), f), f(rows.last()), g);
    }
}

pub proof fn lemma_total_zero<A>(rows: Seq<A>, f: spec_fn(A) -> int)
    requires
        forall|i: int| 0 <= i < rows.len() ==> f(#[trigger] rows[i]) == 0,
    ensures
        total(rows, f) == 0,
    decreases rows.len(),
{
    if rows.len() > 0 {
        assert forall|i: int| 0 <= i < rows.drop_last().len() implies f(
            #[trigger] rows.drop_last()[i],
        ) == 0 by {
            assert(rows.drop_last()[i] == rows[i]);
        }
        assert(f(rows[rows.len() - 1]) == 0);
        lemma_total_zero(rows.drop_last(), f);
    }
}

pub proof fn lemma_total_plus<A>(rows: Seq<A>, f: spec_fn(A) -> int, g: spec_fn(A) -> int)
    ensures
        total(rows, |r: A| f(r) + g(r)) == total(rows, f) + total(rows, g),
    decreases rows.len(),
{
    if rows.len() > 0 {
        lemma_total_plus(rows.drop_last(), f, g);
    }
}

/// A table of numbers sums up to the same by rows and by columns.
pub proof fn lemma_total_swapped<A, B>(a: Seq<A>, b: Seq<B>, cell: spec_fn(A, B) -> int)
    ensures
        total(a, |x: A| total(b, |y: B| cell(x, y))) == total(b, |y: B| total(a, |x: A| cell(x, y))),
    decreases a.len(),
{
    let by_row = |x: A| total(b, |y: B| cell(x, y));
    let by_column = |y: B| total(a, |x: A| cell(x, y));
    if a.len() == 0 {
        lemma_total_zero(b, by_column);
    } else {
        let rest = a.drop_last();
        let last = a.last();
        lemma_total_swapped(rest, b, cell);
        let g = |y: B| total(rest, |x: A| cell(x, y));
        let h = |y: B| cell(last, y);
        lemma_total_plus(b, g, h);
        lemma_total_alike(b, by_column, |y: B| g(y) + h(y));
        assert(by_row(last) == total(b, h));
    }
}

pub proof fn lemma_value_sum(values: Seq<Option<i64>>)
    ensures
        value_sum(values) == total(values, |v: Option<i64>| number_of(v)),
    decreases values.len(),
{
    if values.len() > 0 {
        lemma_value_sum(values.drop_last());
    }
}

pub proof fn lemma_total_hits<'a, R: Keyed>(
    rows: Seq<R>,
    key: Option<Seq<char>>,
    f: spec_fn(&'a R) -> int,
)
    ensures
        total(hits(rows, key), f) == total(
            rows,
            |r: R|
                if meets_key(&r, key) {
                    f(&r)
                } else {
                    0
                },
        ),
    decreases rows.len(),
{
    if rows.len() > 0 {
        lemma_total_hits(rows.drop_last(), key, f);
        let found = hits(rows.drop_last(), key);
        assert(found.push(&rows.last()).drop_last() =~= found);
    }
}

pub proof fn lemma_total_left_join<'a, R: Keyed>(
    rows: Seq<R>,
    key: Option<Seq<char>>,
    f: spec_fn(Option<&'a R>) -> int,
)
    requires
        f(None) == 0,
    ensures
        total(left_join(rows, key), f) == total(
            rows,
            |r: R|
                if meets_key(&r, key) {
                    f(Some(&r))
                } else {
                    0
                },
        ),
{
    let found = hits(rows, key);
    let g = |r: &'a R| f(Some(r));
    lemma_total_hits(rows, key, g);
    if found.len() == 0 {
        let joined = left_join(rows, key);
        assert(joined.drop_last() =~= Seq::empty());
        assert(total(joined.drop_last(), f) == 0);
    } else {
        lemma_total_parallel(left_join(rows, key), found, f, g);
    }
    lemma_total_alike(
        rows,
        |r: R|
            if meets_key(&r, key) {
                g(&r)
            } else {
                0
            },
        |r: R|
            if meets_key(&r, key) {
                f(Some(&r))
            } else {
                0
            },
    );
}

// ── Listings ─────────────────────────────────────────────────────────────────

pub proof fn lemma_shown<A: Listed>(rows: Seq<A>, v: Seq<<A::Out as View>::V>)
    requires
        shown(rows) == Ok::<Seq<<A::Out as View>::V>, DbError>(v),
    ensures
        v.len() == rows.len(),
        forall|i: int|
            #![trigger rows[i]]
            #![trigger v[i]]
            0 <= i < rows.len() ==> rows[i].outcome() == Ok::<<A::Out as View>::V, DbError>(v[i]),
    decreases rows.len(),
{
    if rows.len() > 0 {
        let before = rows.drop_last();
        match shown(before) {
            Ok(w) => {
                lemma_shown(before, w);
                assert forall|i: int|
                    #![trigger rows[i]]
                    #![trigger v[i]]
                    0 <= i < rows.len() implies rows[i].outcome() == Ok::<
                    <A::Out as View>::V,
                    DbError,
                >(v[i]) by {
                    if i < before.len() {
                        assert(before[i] == rows[i]);
                        assert(v[i] == w[i]);
                    }
                }
            },
            Err(_) => {},
        }
    }
}

/// A listing without an error has as many entries as there are rows, up to the
/// limit.
pub proof fn law_listing_is_limited<A: Listed>(
    rows: Seq<A>,
    limit: int,
    v: Seq<<A::Out as View>::V>,
)
    requires
        listing(rows, limit) == Ok::<Seq<<A::Out as View>::V>, DbError>(v),
    ensures
        v.len() == limited(rows.len() as int, limit),
{
    law_arranging_keeps_sums(rows, |a: A| 0);
    lemma_shown(arranged(rows).take(limited(rows.len() as int, limit)), v);
}

/// A listing without a limit, summed up, is the sum over the rows.
pub proof fn lemma_listing_total<A: Listed>(
    rows: Seq<A>,
    v: Seq<<A::Out as View>::V>,
    f: spec_fn(A) -> int,
    g: spec_fn(<A::Out as View>::V) -> int,
)
    requires
        listing(rows, -1) == Ok::<Seq<<A::Out as View>::V>, DbError>(v),
        forall|a: A, o: <A::Out as View>::V|
            rows.contains(a) && #[trigger] a.outcome() == Ok::<<A::Out as View>::V, DbError>(o)
                ==> f(a) == #[trigger] g(o),
    ensures
        total(v, g) == total(rows, f),
{
    let all = arranged(rows);
    law_arranging_keeps_sums(rows, f);
    assert(all.take(rows.len() as int) =~= all);
    lemma_shown(all, v);
    lemma_arranged_rows(rows);
    assert forall|i: int| 0 <= i < all.len() implies f(#[trigger] all[i]) == g(#[trigger] v[i]) by {
        assert(rows.contains(all[i]));
        assert(all[i].outcome() == Ok::<<A::Out as View>::V, DbError>(v[i]));
    }
    lemma_total_parallel(all, v, f, g);
}

pub proof fn lemma_arranged_rows<A: Listed>(rows: Seq<A>)
    ensures
        forall|i: int| 0 <= i < arranged(rows).len() ==> rows.contains(#[trigger] arranged(rows)[i]),
{
    let keys = rows.map_values(|a: A| a.order_key());
    lemma_order_exists(keys);
    let p = order_of(keys);
    assert forall|i: int| 0 <= i < arranged(rows).len() implies rows.contains(
        #[trigger] arranged(rows)[i],
    ) by {
        assert(0 <= p[i] < keys.len());
        assert(arranged(rows)[i] == rows[p[i]]);
    }
}

/// Each of the rows has its place in a listing.
pub proof fn lemma_arranged_holds<A: Listed>(rows: Seq<A>, k: int) -> (i: int)
    requires
        0 <= k < rows.len(),
    ensures
        0 <= i < arranged(rows).len(),
        arranged(rows)[i] == rows[k],
{
    let keys = rows.map_values(|a: A| a.order_key());
    lemma_order_exists(keys);
    let p = order_of(keys);
    assert(p.contains(k));
    choose|i: int| 0 <= i < p.len() && p[i] == k
}

pub proof fn lemma_gathered_members<A, B>(rows: Seq<A>, f: spec_fn(A) -> Seq<B>, x: B)
    requires
        gathered(rows, f).contains(x),
    ensures
        exists|i: int| 0 <= i < rows.len() && f(#[trigger] rows[i]).contains(x),
    decreases rows.len(),
{
    if rows.len() > 0 {
        let before = gathered(rows.drop_last(), f);
        let k = choose|k: int| 0 <= k < gathered(rows, f).len() && gathered(rows, f)[k] == x;
        if k < before.len() {
            assert(before[k] == x);
            lemma_gathered_members(rows.drop_last(), f, x);
            let i = choose|i: int|
                0 <= i < rows.drop_last().len() && f(#[trigger] rows.drop_last()[i]).contains(x);
            assert(rows[i] == rows.drop_last()[i]);
        } else {
            assert(f(rows.last())[k - before.len()] == x);
            assert(f(rows[rows.len() - 1]).contains(x));
        }
    }
}

pub proof fn lemma_gathered_contains<A, B>(rows: Seq<A>, f: spec_fn(A) -> Seq<B>, i: int, x: B)
    requires
        0 <= i < rows.len(),
        f(rows[i]).contains(x),
    ensures
        gathered(rows, f).contains(x),
    decreases rows.len(),
{
    let before = gathered(rows.drop_last(), f);
    if i == rows.len() - 1 {
        let made = f(rows.last());
        let k = choose|k: int| 0 <= k < made.len() && made[k] == x;
        assert(gathered(rows, f)[before.len() + k] == x);
    } else {
        assert(rows.drop_last()[i] == rows[i]);
        lemma_gathered_contains(rows.drop_last(), f, i, x);
        let k = choose|k: int| 0 <= k < before.len() && before[k] == x;
        assert(gathered(rows, f)[k] == x);
    }
}

/// What the rows of a group are measured at is the sum over the rows that are
/// alike to its leader.
pub proof fn lemma_group_total<A: Grouped>(rows: Seq<A>, leader: A, side: Side)
    ensures
        value_sum(group_values(rows, leader, side)) == total(
            rows,
            |r: A|
                if leader.alike(&r) {
                    number_of(measured(r.amount(), side))
                } else {
                    0
                },
        ),
    decreases rows.len(),
{
    if rows.len() > 0 {
        let before = rows.drop_last();
        lemma_group_total(before, leader, side);
        let found = group_values(before, leader, side);
        assert(found.push(measured(rows.last().amount(), side)).drop_last() =~= found);
    }
}

} // verus!
