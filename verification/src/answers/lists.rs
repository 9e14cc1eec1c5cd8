//! Listings and groups, by what they hold.

use crate::db::sums::{
    lemma_gathered_contains, lemma_gathered_members, lemma_leaders, lemma_shown, sorts_into_groups,
};
use crate::query::{
    arranged, gathered, group_of, groups, leaders, limited, listing, shown, summary, Group, Grouped,
    Listed, Summed,
};
use crate::sql::{
    is_order, key_before, lemma_key_order, lemma_order_exists, listed_before, order_of, DbError,
};
use vstd::prelude::*;

verus! {

/// The places in `rows` of those that a listing holds, in its order.
pub open spec fn is_listed<A: Listed>(
    rows: Seq<A>,
    limit: int,
    v: Seq<<A::Out as View>::V>,
    at: Seq<int>,
) -> bool {
    &&& at.len() == v.len()
    &&& limit >= 0 ==> v.len() <= limit
    &&& forall|i: int|
        #![trigger v[i]]
        #![trigger at[i]]
        0 <= i < v.len() ==> is_shown(rows, at[i], v[i])
    &&& forall|i: int, j: int|
        #![trigger at[i], at[j]]
        0 <= i < j < at.len() ==> at[i] != at[j] && !key_before(
            rows[at[j]].order_key(),
            rows[at[i]].order_key(),
        )
    &&& forall|k: int|
        0 <= k < rows.len() ==> #[trigger] at.contains(k) || (limit == v.len() && is_behind(rows, at, k))
}

/// The row `k` is shown as `x`.
pub open spec fn is_shown<A: Listed>(rows: Seq<A>, k: int, x: <A::Out as View>::V) -> bool {
    &&& 0 <= k < rows.len()
    &&& rows[k].outcome() == Ok::<<A::Out as View>::V, DbError>(x)
}

/// The row `k` stands before none of the others.
pub open spec fn is_behind<A: Listed>(rows: Seq<A>, at: Seq<int>, k: int) -> bool {
    forall|i: int|
        #![trigger at[i]]
        0 <= i < at.len() ==> !key_before(rows[k].order_key(), rows[at[i]].order_key())
}

pub proof fn lemma_listed<A: Listed>(
    rows: Seq<A>,
    limit: int,
    v: Seq<<A::Out as View>::V>,
) -> (at: Seq<int>)
    requires
        listing(rows, limit) == Ok::<Seq<<A::Out as View>::V>, DbError>(v),
    ensures
        is_listed(rows, limit, v, at),
{
    let keys = rows.map_values(|a: A| a.order_key());
    let p = order_of(keys);
    lemma_order_exists(keys);
    let n = limited(rows.len() as int, limit);
    let all = arranged(rows);
    lemma_shown(all.take(n), v);
    let at = p.take(n);
    assert forall|i: int|
        #![trigger v[i]]
        #![trigger at[i]]
        0 <= i < v.len() implies is_shown(rows, at[i], v[i]) by {
        assert(all.take(n)[i] == rows[p[i]]);
        assert(0 <= p[i] < keys.len());
    }
    assert forall|i: int, j: int|
        #![trigger at[i], at[j]]
        0 <= i < j < at.len() implies at[i] != at[j] && !key_before(
        rows[at[j]].order_key(),
        rows[at[i]].order_key(),
    ) by {
        lemma_place_order(keys, p, i, j);
        assert(0 <= p[i] < keys.len() && 0 <= p[j] < keys.len());
    }
    assert forall|k: int|
        0 <= k < rows.len() implies #[trigger] at.contains(k) || (limit == v.len() && is_behind(
        rows,
        at,
        k,
    )) by {
        assert(p.contains(k));
        let j = choose|j: int| 0 <= j < p.len() && p[j] == k;
        if j < n {
            assert(at[j] == k);
        } else {
            assert forall|i: int|
                #![trigger at[i]]
                0 <= i < at.len() implies !key_before(
                rows[k].order_key(),
                rows[at[i]].order_key(),
            ) by {
                lemma_place_order(keys, p, i, j);
                assert(0 <= p[i] < keys.len());
            }
            assert(is_behind(rows, at, k));
        }
    }
    at
}

proof fn lemma_place_order(keys: Seq<crate::sql::SortKeyView>, p: Seq<int>, i: int, j: int)
    requires
        is_order(keys, p),
        0 <= i < j < p.len(),
    ensures
        p[i] != p[j],
        !key_before(keys[p[j]], keys[p[i]]),
{
    assert(listed_before(keys, p[i], p[j]));
    lemma_key_order(keys[p[i]], keys[p[j]], keys[p[i]]);
}

/// A listing fails only with the error of one of its rows.
pub proof fn lemma_listing_error<A: Listed>(rows: Seq<A>, limit: int, e: DbError)
    requires
        listing(rows, limit) == Err::<Seq<<A::Out as View>::V>, DbError>(e),
    ensures
        exists|k: int|
            0 <= k < rows.len() && (#[trigger] rows[k]).outcome() == Err::<
                <A::Out as View>::V,
                DbError,
            >(e),
{
    let keys = rows.map_values(|a: A| a.order_key());
    let p = order_of(keys);
    lemma_order_exists(keys);
    let list = arranged(rows).take(limited(rows.len() as int, limit));
    let i = lemma_shown_error_at(list, e);
    assert(0 <= p[i] < keys.len());
    assert(rows[p[i]].outcome() == list[i].outcome());
}

proof fn lemma_shown_error_at<A: Listed>(rows: Seq<A>, e: DbError) -> (i: int)
    requires
        shown(rows) == Err::<Seq<<A::Out as View>::V>, DbError>(e),
    ensures
        0 <= i < rows.len(),
        rows[i].outcome() == Err::<<A::Out as View>::V, DbError>(e),
    decreases rows.len(),
{
    match shown(rows.drop_last()) {
        Ok(_) => rows.len() - 1,
        Err(_) => lemma_shown_error_at(rows.drop_last(), e),
    }
}

/// What is gathered of some rows is what is made of one of them.
pub proof fn lemma_gathered_is<A, B>(rows: Seq<A>, f: spec_fn(A) -> Seq<B>, x: B)
    ensures
        gathered(rows, f).contains(x) <==> exists|i: int|
            0 <= i < rows.len() && f(#[trigger] rows[i]).contains(x),
{
    if gathered(rows, f).contains(x) {
        lemma_gathered_members(rows, f, x);
    }
    if exists|i: int| 0 <= i < rows.len() && f(#[trigger] rows[i]).contains(x) {
        let i = choose|i: int| 0 <= i < rows.len() && f(#[trigger] rows[i]).contains(x);
        lemma_gathered_contains(rows, f, i, x);
    }
}

// ── Groups ───────────────────────────────────────────────────────────────────

/// The rows that lead the groups of a summary, in its order: one for each group.
pub open spec fn is_summed<'a, A: Grouped>(
    rows: Seq<A>,
    v: Seq<<<Group<'a, A> as Listed>::Out as View>::V>,
    at: Seq<A>,
) -> bool where Group<'a, A>: Summed {
    &&& at.len() == v.len()
    &&& forall|i: int|
        #![trigger v[i]]
        #![trigger at[i]]
        0 <= i < v.len() ==> rows.contains(at[i]) && group_of(rows, &at[i]).outcome() == Ok::<
            <<Group<'a, A> as Listed>::Out as View>::V,
            DbError,
        >(v[i])
    &&& forall|i: int, j: int|
        #![trigger at[i], at[j]]
        0 <= i < j < at.len() ==> !at[i].alike(&at[j]) && !key_before(
            group_of(rows, &at[j]).order_key(),
            group_of(rows, &at[i]).order_key(),
        )
    &&& forall|k: int|
        #![trigger rows[k]]
        0 <= k < rows.len() ==> exists|i: int|
            0 <= i < at.len() && (#[trigger] at[i]).alike(&rows[k])
}

pub proof fn lemma_summed<'a, A: Grouped>(
    rows: Seq<A>,
    v: Seq<<<Group<'a, A> as Listed>::Out as View>::V>,
) -> (at: Seq<A>) where Group<'a, A>: Summed
    requires
        sorts_into_groups::<A>(),
        summary(groups::<'a, A>(rows)) == Ok::<
            Seq<<<Group<'a, A> as Listed>::Out as View>::V>,
            DbError,
        >(v),
    ensures
        is_summed(rows, v, at),
{
    let all = groups::<'a, A>(rows);
    let lead = leaders(rows);
    lemma_leaders(rows);
    let places = lemma_listed(all, -1, v);
    let at = Seq::new(places.len(), |i: int| lead[places[i]]);
    assert forall|i: int|
        #![trigger v[i]]
        #![trigger at[i]]
        0 <= i < v.len() implies rows.contains(at[i]) && group_of(rows, &at[i]).outcome() == Ok::<
        <<Group<'a, A> as Listed>::Out as View>::V,
        DbError,
    >(v[i]) by {
        assert(is_shown(all, places[i], v[i]));
        assert(all[places[i]] == group_of(rows, &lead[places[i]]));
    }
    assert forall|i: int, j: int|
        #![trigger at[i], at[j]]
        0 <= i < j < at.len() implies !at[i].alike(&at[j]) && !key_before(
        group_of(rows, &at[j]).order_key(),
        group_of(rows, &at[i]).order_key(),
    ) by {
        let (x, y) = (places[i], places[j]);
        assert(x != y);
        assert(is_shown(all, x, v[i]) && is_shown(all, y, v[j]));
        assert(all[x] == group_of(rows, &lead[x]) && all[y] == group_of(rows, &lead[y]));
        if x < y {
            assert(!lead[x].alike(&lead[y]));
        } else {
            assert(!lead[y].alike(&lead[x]));
            if lead[x].alike(&lead[y]) {
                assert(lead[y].alike(&lead[x]));
            }
        }
    }
    assert forall|k: int|
        #![trigger rows[k]]
        0 <= k < rows.len() implies exists|i: int|
        0 <= i < at.len() && (#[trigger] at[i]).alike(&rows[k]) by {
        let l = choose|l: int| 0 <= l < lead.len() && (#[trigger] lead[l]).alike(&rows[k]);
        assert(all[l] == group_of(rows, &lead[l]));
        assert(places.contains(l));
        let i = choose|i: int| 0 <= i < places.len() && places[i] == l;
        assert(at[i] == lead[l]);
    }
    at
}

} // verus!
