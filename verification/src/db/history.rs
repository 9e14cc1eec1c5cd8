//! What holds of balances over time.

use crate::db::months::{
    balances, entry_of, history, month_of, months, net_of, nets, starts_by, UpTo,
};
use crate::db::sums::{
    group_share, law_arranging_keeps_sums, law_groups_share_out, lemma_arranged_holds,
    lemma_arranged_rows, lemma_gathered_contains, lemma_gathered_members, lemma_group_total,
    lemma_leaders, lemma_total_alike, lemma_total_append, lemma_total_parallel, lemma_total_zero,
    lemma_value_sum, number_of, share, total,
};
use crate::models::{month_text, BalanceHistoryEntryView};
use crate::query::{
    group_of, group_values, groups, leaders, measured, picked, picked_row, Group, Grouped, Item,
    Listed, Pick, Side,
};
use crate::sql::{
    lemma_key_order, lemma_order_exists, lemma_tally_is_sum, listed_before, order_of, sum_or_zero,
    tally, DbError, Tally,
};
use crate::tables::{Budget, TransactionRow};
use vstd::prelude::*;

verus! {

/// The months of a history follow each other.
proof fn lemma_months_in_order<'a>(b: &'a Budget, account_id: Option<&'a str>, end: i64)
    ensures
        forall|i: int|
            0 <= i < months(b, account_id, end).len() ==> month_of(
                (#[trigger] months(b, account_id, end)[i]).leader.row,
            ) is Some,
        forall|i: int, j: int|
            #![trigger months(b, account_id, end)[i], months(b, account_id, end)[j]]
            0 <= i < j < months(b, account_id, end).len() ==> month_of(
                months(b, account_id, end)[i].leader.row,
            )->0 < month_of(months(b, account_id, end)[j].leader.row)->0,
{
    let p = UpTo { account_id, end };
    let rows = picked(b.transactions@, &p);
    let all = groups(rows);
    let m = months(b, account_id, end);
    let keys = all.map_values(|g: Group<Item<TransactionRow>>| g.order_key());
    let q = order_of(keys);
    lemma_order_exists(keys);
    lemma_leaders(rows);
    assert forall|k: int| 0 <= k < all.len() implies month_of(
        (#[trigger] all[k]).leader.row,
    ) is Some by {
        let leader = leaders(rows)[k];
        assert(rows.contains(leader));
        lemma_gathered_members(b.transactions@, |row: TransactionRow| picked_row(&p, &row), leader);
    }
    assert forall|i: int| 0 <= i < m.len() implies month_of(
        (#[trigger] m[i]).leader.row,
    ) is Some by {
        assert(0 <= q[i] < keys.len());
        assert(m[i] == all[q[i]]);
    }
    assert forall|i: int, j: int|
        #![trigger m[i], m[j]]
        0 <= i < j < m.len() implies month_of(m[i].leader.row)->0 < month_of(
        m[j].leader.row,
    )->0 by {
        let (x, y) = (q[i], q[j]);
        assert(listed_before(keys, x, y));
        lemma_key_order(keys[x], keys[y], keys[x]);
        assert(m[i] == all[x] && m[j] == all[y]);
        assert(x != y);
        assert(leaders(rows)[x] == *all[x].leader && leaders(rows)[y] == *all[y].leader);
        if x < y {
            assert(!leaders(rows)[x].alike(&leaders(rows)[y]));
        } else {
            assert(!leaders(rows)[y].alike(&leaders(rows)[x]));
        }
    }
}

/// What the transactions up to and with a month sum up to.
pub open spec fn sum_up_to<'a>(rows: Seq<Item<'a, TransactionRow>>, month: int) -> int {
    total(
        rows,
        |x: Item<'a, TransactionRow>|
            if month_of(x.row) is Some && month_of(x.row)->0 <= month {
                number_of(x.row.amount)
            } else {
                0
            },
    )
}

/// The balance at the end of a month counts every transaction of the account up
/// to and with that month, from the beginning of its history.
pub proof fn law_balance_counts_all_history<'a>(
    b: &'a Budget,
    account_id: Option<&'a str>,
    end: i64,
    i: int,
    balance: int,
)
    requires
        0 <= i < months(b, account_id, end).len(),
        forall|k: int|
            0 <= k <= i ==> !((#[trigger] months(b, account_id, end)[k]).all is Overflow),
        sum_or_zero(tally(Tally::Empty, nets(months(b, account_id, end).take(i + 1)))) == Ok::<
            int,
            DbError,
        >(balance),
    ensures
        balance == sum_up_to(
            picked(b.transactions@, &(UpTo { account_id, end })),
            month_of(months(b, account_id, end)[i].leader.row)->0,
        ),
{
    let rows = picked(b.transactions@, &(UpTo { account_id, end }));
    let all = groups(rows);
    let m = months(b, account_id, end);
    let month = month_of(m[i].leader.row)->0;
    let w = |x: Item<'a, TransactionRow>| month_of(x.row) is Some && month_of(x.row)->0 <= month;
    let by_group = |g: Group<'a, Item<'a, TransactionRow>>|
        group_share(rows, *g.leader, Side::All, w);
    lemma_months_in_order(b, account_id, end);
    law_groups_share_out(rows, Side::All, w);
    lemma_total_alike(
        rows,
        |x: Item<'a, TransactionRow>| share(x, Side::All, w),
        |x: Item<'a, TransactionRow>|
            if month_of(x.row) is Some && month_of(x.row)->0 <= month {
                number_of(x.row.amount)
            } else {
                0
            },
    );
    lemma_total_parallel(
        all,
        leaders(rows),
        by_group,
        |l: Item<'a, TransactionRow>| group_share(rows, l, Side::All, w),
    );
    law_arranging_keeps_sums(all, by_group);
    lemma_arranged_rows(all);
    let early = m.take(i + 1);
    let late = m.skip(i + 1);
    assert(m =~= early + late);
    lemma_total_append(early, late, by_group);
    assert forall|k: int| 0 <= k < late.len() implies by_group(#[trigger] late[k]) == 0 by {
        assert(late[k] == m[i + 1 + k]);
    }
    lemma_total_zero(late, by_group);
    let n = |v: Option<i64>| number_of(v);
    assert forall|k: int| 0 <= k < early.len() implies by_group(#[trigger] early[k]) == n(
        #[trigger] nets(early)[k],
    ) by {
        assert(early[k] == m[k]);
        assert(k < i ==> month_of(m[k].leader.row)->0 < month_of(m[i].leader.row)->0);
        assert(all.contains(m[k]));
        let j = choose|j: int| 0 <= j < all.len() && all[j] == m[k];
        let leader = leaders(rows)[j];
        assert(m[k] == group_of(rows, &leader));
        lemma_tally_is_sum(
            group_values(rows, leader, Side::All),
            n(net_of(m[k])),
        );
    }
    lemma_total_parallel(early, nets(early), by_group, n);
    lemma_tally_is_sum(nets(early), balance);
    lemma_value_sum(nets(early));
}

proof fn lemma_history_of_none<'a>(m: Seq<Group<'a, Item<'a, TransactionRow>>>, start: int)
    requires
        forall|i: int| 0 <= i < m.len() ==> !starts_by(#[trigger] m[i], start),
    ensures
        history(m, start) == Ok::<Seq<BalanceHistoryEntryView>, DbError>(Seq::empty()),
    decreases m.len(),
{
    if m.len() > 0 {
        assert(!starts_by(m[m.len() - 1], start));
        assert forall|i: int| 0 <= i < m.drop_last().len() implies !starts_by(
            #[trigger] m.drop_last()[i],
            start,
        ) by {
            assert(m.drop_last()[i] == m[i]);
        }
        lemma_history_of_none(m.drop_last(), start);
    }
}

proof fn lemma_history_start<'a>(
    m: Seq<Group<'a, Item<'a, TransactionRow>>>,
    start: int,
    later: int,
    v: Seq<BalanceHistoryEntryView>,
)
    requires
        start <= later,
        history(m, start) == Ok::<Seq<BalanceHistoryEntryView>, DbError>(v),
        forall|i: int, j: int|
            #![trigger m[i], m[j]]
            0 <= i < j < m.len() ==> month_of(m[i].leader.row)->0 < month_of(m[j].leader.row)->0,
    ensures
        match history(m, later) {
            Ok(w) => w.is_suffix_of(v),
            Err(_) => false,
        },
    decreases m.len(),
{
    if m.len() > 0 {
        let before = m.drop_last();
        assert forall|i: int, j: int|
            #![trigger before[i], before[j]]
            0 <= i < j < before.len() implies month_of(before[i].leader.row)->0 < month_of(
            before[j].leader.row,
        )->0 by {
            assert(before[i] == m[i] && before[j] == m[j]);
        }
        match history(before, start) {
            Ok(v2) => {
                lemma_history_start(before, start, later, v2);
                if !starts_by(m.last(), later) {
                    if month_of(m.last().leader.row) is Some {
                        assert forall|i: int| 0 <= i < m.len() implies !starts_by(
                            #[trigger] m[i],
                            later,
                        ) by {
                            assert(m[m.len() - 1] == m.last());
                        }
                        lemma_history_of_none(m, later);
                    } else {
                        assert(!starts_by(m.last(), start));
                    }
                }
            },
            Err(_) => {},
        }
    }
}

/// A history that starts later holds the same entries, without the months before:
/// what came before still counts in the balances.
pub proof fn law_later_start_gives_same_balances(
    b: &Budget,
    account_id: Option<&str>,
    start: int,
    later: int,
    end: i64,
    v: Seq<BalanceHistoryEntryView>,
)
    requires
        start <= later,
        balances(months(b, account_id, end), start) == Ok::<Seq<BalanceHistoryEntryView>, DbError>(
            v,
        ),
    ensures
        match balances(months(b, account_id, end), later) {
            Ok(w) => w.is_suffix_of(v),
            Err(_) => false,
        },
{
    lemma_months_in_order(b, account_id, end);
    lemma_history_start(months(b, account_id, end), start, later, v);
}

// ── The entries of a history ─────────────────────────────────────────────────

/// What the transactions of a month sum up to.
pub open spec fn sum_of_month<'a>(rows: Seq<Item<'a, TransactionRow>>, month: int) -> int {
    total(
        rows,
        |x: Item<'a, TransactionRow>|
            if month_of(x.row) == Some(month) {
                number_of(x.row.amount)
            } else {
                0
            },
    )
}

/// The table holds a transaction of this month that counts in the history.
pub open spec fn is_month_of(b: &Budget, account_id: Option<&str>, end: i64, month: int) -> bool {
    exists|k: int|
        #![trigger b.transactions@[k]]
        0 <= k < b.transactions@.len() && (UpTo { account_id, end }).picks(&b.transactions@[k])
            && month_of(&b.transactions@[k]) == Some(month)
}

/// The entries stand for the months `at`: each from `start` on that has a
/// transaction, once, the oldest first. Each has what its month adds, and the
/// balance of everything up to its end, which is the one before and what the month
/// adds.
pub open spec fn is_history(
    b: &Budget,
    account_id: Option<&str>,
    start: int,
    end: i64,
    v: Seq<BalanceHistoryEntryView>,
    at: Seq<int>,
) -> bool {
    let rows = picked(b.transactions@, &(UpTo { account_id, end }));
    &&& at.len() == v.len()
    &&& forall|i: int, j: int| 0 <= i < j < at.len() ==> at[i] < at[j]
    &&& forall|month: int|
        at.contains(month) <==> start <= month && #[trigger] is_month_of(
            b,
            account_id,
            end,
            month,
        )
    &&& forall|i: int|
        #![trigger v[i]]
        0 <= i < v.len() ==> {
            &&& v[i].month == month_text(at[i])
            &&& v[i].net_change_cents == sum_of_month(rows, at[i])
            &&& v[i].balance_cents == sum_up_to(rows, at[i])
        }
    &&& forall|i: int, j: int|
        #![trigger v[i], v[j]]
        0 <= i && j == i + 1 && j < v.len() ==> v[j].balance_cents == v[i].balance_cents
            + v[j].net_change_cents
}

/// The entries are those of the months from `from` on.
spec fn shows<'a>(
    m: Seq<Group<'a, Item<'a, TransactionRow>>>,
    start: int,
    v: Seq<BalanceHistoryEntryView>,
    from: int,
) -> bool {
    &&& 0 <= from <= m.len()
    &&& v.len() == m.len() - from
    &&& forall|i: int| 0 <= i < m.len() ==> (starts_by(#[trigger] m[i], start) <==> from <= i)
    &&& forall|i: int|
        #![trigger m[i]]
        from <= i < m.len() ==> entry_of(m[i], tally(Tally::Empty, nets(m.take(i + 1)))) == Ok::<
            BalanceHistoryEntryView,
            DbError,
        >(v[i - from])
}

/// The months that the entries stand for.
spec fn shown_months<'a>(
    m: Seq<Group<'a, Item<'a, TransactionRow>>>,
    v: Seq<BalanceHistoryEntryView>,
    from: int,
) -> Seq<int> {
    Seq::new(v.len(), |i: int| month_of(m[from + i].leader.row)->0)
}

proof fn lemma_history_months<'a>(
    m: Seq<Group<'a, Item<'a, TransactionRow>>>,
    start: int,
    v: Seq<BalanceHistoryEntryView>,
) -> (from: int)
    requires
        history(m, start) == Ok::<Seq<BalanceHistoryEntryView>, DbError>(v),
        forall|i: int| 0 <= i < m.len() ==> month_of((#[trigger] m[i]).leader.row) is Some,
        forall|i: int, j: int|
            #![trigger m[i], m[j]]
            0 <= i < j < m.len() ==> month_of(m[i].leader.row)->0 < month_of(m[j].leader.row)->0,
    ensures
        shows(m, start, v, from),
    decreases m.len(),
{
    if m.len() == 0 {
        0
    } else {
        let before = m.drop_last();
        let n = before.len() as int;
        assert forall|i: int| 0 <= i < n implies month_of(
            (#[trigger] before[i]).leader.row,
        ) is Some by {
            assert(before[i] == m[i]);
        }
        assert forall|i: int, j: int|
            #![trigger before[i], before[j]]
            0 <= i < j < n implies month_of(before[i].leader.row)->0 < month_of(
            before[j].leader.row,
        )->0 by {
            assert(before[i] == m[i] && before[j] == m[j]);
        }
        let w = history(before, start)->Ok_0;
        let from = lemma_history_months(before, start, w);
        assert(m[n] == m.last());
        assert(month_of(m[n].leader.row) is Some);
        assert(m.take(n + 1) =~= m);
        assert forall|i: int| 0 <= i < n implies before.take(i + 1) == #[trigger] m.take(i + 1) by {
            assert(before.take(i + 1) =~= m.take(i + 1));
        }
        if starts_by(m.last(), start) {
            assert forall|i: int| 0 <= i < m.len() implies (starts_by(#[trigger] m[i], start)
                <==> from <= i) by {
                if i < n {
                    assert(before[i] == m[i]);
                }
            }
            assert forall|i: int|
                #![trigger m[i]]
                from <= i < m.len() implies entry_of(
                m[i],
                tally(Tally::Empty, nets(m.take(i + 1))),
            ) == Ok::<BalanceHistoryEntryView, DbError>(v[i - from]) by {
                if i < n {
                    assert(before[i] == m[i]);
                    assert(before.take(i + 1) == m.take(i + 1));
                    assert(v[i - from] == w[i - from]);
                }
            }
            from
        } else {
            assert forall|i: int| 0 <= i < m.len() implies !starts_by(#[trigger] m[i], start) by {
                if i < n {
                    assert(month_of(m[i].leader.row)->0 < month_of(m[n].leader.row)->0);
                }
            }
            if from < n {
                assert(before[from] == m[from]);
                assert(starts_by(before[from], start));
            }
            m.len() as int
        }
    }
}

/// A transaction that counts in a history has its month there.
proof fn lemma_month_listed<'a>(
    b: &'a Budget,
    account_id: Option<&'a str>,
    end: i64,
    k: int,
) -> (i: int)
    requires
        0 <= k < b.transactions@.len(),
        (UpTo { account_id, end }).picks(&b.transactions@[k]),
    ensures
        0 <= i < months(b, account_id, end).len(),
        month_of(months(b, account_id, end)[i].leader.row) == month_of(&b.transactions@[k]),
{
    let p = UpTo { account_id, end };
    let f = |row: TransactionRow| picked_row(&p, &row);
    let rows = picked(b.transactions@, &p);
    let all = groups(rows);
    let x = Item { row: &b.transactions@[k] };
    assert(f(b.transactions@[k])[0] == x);
    lemma_gathered_contains(b.transactions@, f, k, x);
    let r = choose|r: int| 0 <= r < rows.len() && rows[r] == x;
    lemma_leaders(rows);
    assert(rows[r] == x);
    let l = choose|l: int|
        0 <= l < leaders(rows).len() && (#[trigger] leaders(rows)[l]).alike(&rows[r]);
    assert(*all[l].leader == leaders(rows)[l]);
    lemma_arranged_holds(all, l)
}

/// A month of a history has a transaction that counts there.
proof fn lemma_listed_month<'a>(b: &'a Budget, account_id: Option<&'a str>, end: i64, i: int)
    requires
        0 <= i < months(b, account_id, end).len(),
    ensures
        is_month_of(
            b,
            account_id,
            end,
            month_of(months(b, account_id, end)[i].leader.row)->0,
        ),
{
    let p = UpTo { account_id, end };
    let f = |row: TransactionRow| picked_row(&p, &row);
    let rows = picked(b.transactions@, &p);
    let all = groups(rows);
    let m = months(b, account_id, end);
    lemma_arranged_rows(all);
    assert(all.contains(m[i]));
    let l = choose|l: int| 0 <= l < all.len() && all[l] == m[i];
    let leader = leaders(rows)[l];
    assert(*m[i].leader == leader);
    lemma_leaders(rows);
    assert(rows.contains(leader));
    lemma_gathered_members(b.transactions@, f, leader);
    let k = choose|k: int|
        0 <= k < b.transactions@.len() && f(#[trigger] b.transactions@[k]).contains(leader);
    assert(p.picks(&b.transactions@[k]));
    assert(month_of(&b.transactions@[k]) == month_of(m[i].leader.row));
}

/// What a month of a history adds is the sum of its transactions.
proof fn lemma_month_net<'a>(
    b: &'a Budget,
    account_id: Option<&'a str>,
    end: i64,
    i: int,
    net: int,
)
    requires
        0 <= i < months(b, account_id, end).len(),
        month_of(months(b, account_id, end)[i].leader.row) is Some,
        sum_or_zero(months(b, account_id, end)[i].all) == Ok::<int, DbError>(net),
    ensures
        net == sum_of_month(
            picked(b.transactions@, &(UpTo { account_id, end })),
            month_of(months(b, account_id, end)[i].leader.row)->0,
        ),
{
    let rows = picked(b.transactions@, &(UpTo { account_id, end }));
    let all = groups(rows);
    let m = months(b, account_id, end);
    let month = month_of(m[i].leader.row)->0;
    lemma_arranged_rows(all);
    assert(all.contains(m[i]));
    let l = choose|l: int| 0 <= l < all.len() && all[l] == m[i];
    let leader = leaders(rows)[l];
    assert(m[i] == group_of(rows, &leader));
    lemma_tally_is_sum(group_values(rows, leader, Side::All), net);
    lemma_group_total(rows, leader, Side::All);
    lemma_total_alike(
        rows,
        |r: Item<'a, TransactionRow>|
            if leader.alike(&r) {
                number_of(measured(r.amount(), Side::All))
            } else {
                0
            },
        |x: Item<'a, TransactionRow>|
            if month_of(x.row) == Some(month) {
                number_of(x.row.amount)
            } else {
                0
            },
    );
}

proof fn lemma_shown_months<'a>(
    b: &'a Budget,
    account_id: Option<&'a str>,
    start: int,
    end: i64,
    v: Seq<BalanceHistoryEntryView>,
    from: int,
    month: int,
)
    requires
        shows(months(b, account_id, end), start, v, from),
    ensures
        shown_months(months(b, account_id, end), v, from).contains(month) <==> start <= month
            && is_month_of(b, account_id, end, month),
{
    let m = months(b, account_id, end);
    let at = shown_months(m, v, from);
    if at.contains(month) {
        let i = choose|i: int| 0 <= i < at.len() && at[i] == month;
        assert(starts_by(m[from + i], start));
        lemma_listed_month(b, account_id, end, from + i);
    }
    if start <= month && is_month_of(b, account_id, end, month) {
        let k = choose|k: int|
            #![trigger b.transactions@[k]]
            0 <= k < b.transactions@.len() && (UpTo { account_id, end }).picks(&b.transactions@[k])
                && month_of(&b.transactions@[k]) == Some(month);
        let i = lemma_month_listed(b, account_id, end, k);
        assert(starts_by(m[i], start));
        assert(at[i - from] == month);
    }
}

proof fn lemma_history_entry<'a>(
    b: &'a Budget,
    account_id: Option<&'a str>,
    start: int,
    end: i64,
    v: Seq<BalanceHistoryEntryView>,
    from: int,
    i: int,
)
    requires
        shows(months(b, account_id, end), start, v, from),
        forall|k: int|
            0 <= k < months(b, account_id, end).len() ==> !((
            #[trigger] months(b, account_id, end)[k]).all is Overflow),
        0 <= i < v.len(),
    ensures
        ({
            let rows = picked(b.transactions@, &(UpTo { account_id, end }));
            let month = shown_months(months(b, account_id, end), v, from)[i];
            &&& v[i].month == month_text(month)
            &&& v[i].net_change_cents == sum_of_month(rows, month)
            &&& v[i].balance_cents == sum_up_to(rows, month)
        }),
{
    let m = months(b, account_id, end);
    let k = from + i;
    assert(entry_of(m[k], tally(Tally::Empty, nets(m.take(k + 1)))) == Ok::<
        BalanceHistoryEntryView,
        DbError,
    >(v[i]));
    lemma_month_net(b, account_id, end, k, v[i].net_change_cents);
    law_balance_counts_all_history(b, account_id, end, k, v[i].balance_cents);
}

proof fn lemma_history_step<'a>(
    m: Seq<Group<'a, Item<'a, TransactionRow>>>,
    start: int,
    v: Seq<BalanceHistoryEntryView>,
    from: int,
    i: int,
)
    requires
        shows(m, start, v, from),
        0 <= i < v.len() - 1,
    ensures
        v[i + 1].balance_cents == v[i].balance_cents + v[i + 1].net_change_cents,
{
    let k = from + i;
    assert(entry_of(m[k], tally(Tally::Empty, nets(m.take(k + 1)))) == Ok::<
        BalanceHistoryEntryView,
        DbError,
    >(v[i]));
    assert(entry_of(m[k + 1], tally(Tally::Empty, nets(m.take(k + 2)))) == Ok::<
        BalanceHistoryEntryView,
        DbError,
    >(v[i + 1]));
    assert(nets(m.take(k + 2)).drop_last() =~= nets(m.take(k + 1)));
    assert(nets(m.take(k + 2)).last() == net_of(m[k + 1]));
}

/// A history has one entry for each month from its start on that has a
/// transaction, the oldest first. The net change is the sum of the month, the
/// balance the sum of all history up to its end: each balance is the one before and
/// the net change.
pub proof fn law_history_entries<'a>(
    b: &'a Budget,
    account_id: Option<&'a str>,
    start: int,
    end: i64,
    v: Seq<BalanceHistoryEntryView>,
)
    requires
        balances(months(b, account_id, end), start) == Ok::<Seq<BalanceHistoryEntryView>, DbError>(
            v,
        ),
    ensures
        exists|at: Seq<int>| #[trigger] is_history(b, account_id, start, end, v, at),
{
    let rows = picked(b.transactions@, &(UpTo { account_id, end }));
    let m = months(b, account_id, end);
    lemma_months_in_order(b, account_id, end);
    let from = lemma_history_months(m, start, v);
    let at = shown_months(m, v, from);
    assert forall|i: int, j: int| 0 <= i < j < at.len() implies at[i] < at[j] by {
        assert(month_of(m[from + i].leader.row)->0 < month_of(m[from + j].leader.row)->0);
    }
    assert forall|month: int|
        at.contains(month) <==> start <= month && #[trigger] is_month_of(
            b,
            account_id,
            end,
            month,
        ) by {
        lemma_shown_months(b, account_id, start, end, v, from, month);
    }
    assert forall|i: int| #![trigger v[i]] 0 <= i < v.len() implies {
        &&& v[i].month == month_text(at[i])
        &&& v[i].net_change_cents == sum_of_month(rows, at[i])
        &&& v[i].balance_cents == sum_up_to(rows, at[i])
    } by {
        lemma_history_entry(b, account_id, start, end, v, from, i);
    }
    assert forall|i: int, j: int|
        #![trigger v[i], v[j]]
        0 <= i && j == i + 1 && j < v.len() implies v[j].balance_cents == v[i].balance_cents
        + v[j].net_change_cents by {
        lemma_history_step(m, start, v, from, i);
    }
    assert(is_history(b, account_id, start, end, v, at));
}

} // verus!
