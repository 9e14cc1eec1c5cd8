//! What sums by month and balances say.

use crate::answers::lists::{lemma_gathered_is, lemma_summed};
use crate::answers::rows::{is_entire, is_on, number};
use crate::db::history::{is_history, is_month_of, law_history_entries, sum_of_month, sum_up_to};
use crate::db::months::{history, month_of, months, Between, UpTo};
use crate::db::sums::{lemma_group_total, lemma_total_alike, lemma_total_gathered, number_of, total};
use crate::models::{amount_text, month_text, BalanceHistoryEntryView, MonthSummaryView};
use crate::query::{
    group_of, group_values, measured, picked, picked_row, Group, Grouped, Item, Listed, Pick, Side,
};
use crate::server::errors::ToolErrorView;
use crate::server::reads::{answer_of, FoundView, Query};
use crate::sql::{lemma_tally_is_sum, value_sum, DbError};
use crate::tables::{Budget, TransactionRow};
use vstd::prelude::*;

verus! {

/// The month YYYYMM of a day YYYYMMDD.
pub open spec fn month_of_day(day: int) -> int {
    if day < 0 {
        -((-day) / 100)
    } else {
        day / 100
    }
}

/// The sum of the amounts of the transactions that count.
pub open spec fn sum_where(b: &Budget, counts: spec_fn(TransactionRow) -> bool) -> int {
    total(
        b.transactions@,
        |t: TransactionRow|
            if counts(t) {
                number(t.amount)
            } else {
                0
            },
    )
}

/// A whole transaction of the account with a date.
pub open spec fn moves(t: TransactionRow, account_id: Option<&str>) -> bool {
    is_entire(t) && is_on(t, account_id) && t.date is Some
}

/// Some transaction of the account lies in the month.
pub open spec fn is_active(b: &Budget, account_id: Option<&str>, month: int) -> bool {
    exists|k: int|
        #![trigger b.transactions@[k]]
        0 <= k < b.transactions@.len() && moves(b.transactions@[k], account_id) && month_of_day(
            b.transactions@[k].date->0 as int,
        ) == month
}

/// The entries of a balance history: one for each month `at` from `start` to `end`
/// in which the account moved, the oldest first. What a month adds is the sum of
/// the transactions of the account in it, and the balance is the sum of all of them
/// up to its end.
pub open spec fn is_balance_history(
    b: &Budget,
    account_id: Option<&str>,
    start: int,
    end: int,
    v: Seq<BalanceHistoryEntryView>,
    at: Seq<int>,
) -> bool {
    &&& at.len() == v.len()
    &&& forall|i: int, j: int| 0 <= i < j < at.len() ==> at[i] < at[j]
    &&& forall|month: int| #[trigger]
        at.contains(month) <==> start <= month <= end && is_active(b, account_id, month)
    &&& forall|i: int|
        #![trigger v[i]]
        0 <= i < v.len() ==> {
            &&& v[i].month == month_text(at[i])
            &&& v[i].net_change_cents == sum_where(
                b,
                |t: TransactionRow|
                    moves(t, account_id) && month_of_day(t.date->0 as int) == at[i],
            )
            &&& v[i].balance_cents == sum_where(
                b,
                |t: TransactionRow|
                    moves(t, account_id) && month_of_day(t.date->0 as int) <= at[i],
            )
            &&& v[i].net_change_display == amount_text(v[i].net_change_cents)
            &&& v[i].balance_display == amount_text(v[i].balance_cents)
        }
}

/// A sum over the rows that a condition picks is a sum over the table.
proof fn lemma_total_picked<P: Pick<TransactionRow>>(
    b: &Budget,
    p: &P,
    g: spec_fn(Item<TransactionRow>) -> int,
)
    ensures
        total(picked(b.transactions@, p), g) == total(
            b.transactions@,
            |t: TransactionRow|
                if p.picks(&t) {
                    g(Item { row: &t })
                } else {
                    0
                },
        ),
{
    let f = |row: TransactionRow| picked_row(p, &row);
    let h = |t: TransactionRow| total(f(t), g);
    let by_row = |t: TransactionRow|
        if p.picks(&t) {
            g(Item { row: &t })
        } else {
            0
        };
    lemma_total_gathered(b.transactions@, f, g);
    assert forall|i: int| 0 <= i < b.transactions@.len() implies h(#[trigger] b.transactions@[i])
        == by_row(b.transactions@[i]) by {
        let t = b.transactions@[i];
        if p.picks(&t) {
            let one = seq![Item { row: &t }];
            assert(one.drop_last() =~= Seq::empty());
            assert(total(one.drop_last(), g) == 0);
            assert(f(t) == one);
        } else {
            assert(f(t) == Seq::<Item<TransactionRow>>::empty());
        }
    }
    lemma_total_alike(b.transactions@, h, by_row);
}

proof fn lemma_displays<'a>(
    m: Seq<Group<'a, Item<'a, TransactionRow>>>,
    start: int,
    v: Seq<BalanceHistoryEntryView>,
    i: int,
)
    requires
        history(m, start) == Ok::<Seq<BalanceHistoryEntryView>, DbError>(v),
        0 <= i < v.len(),
    ensures
        v[i].net_change_display == amount_text(v[i].net_change_cents),
        v[i].balance_display == amount_text(v[i].balance_cents),
    decreases m.len(),
{
    let w = history(m.drop_last(), start)->Ok_0;
    if i < w.len() {
        lemma_displays(m.drop_last(), start, w, i);
    }
}

/// The months of a history, by the rows of the table.
proof fn lemma_active(b: &Budget, account_id: Option<&str>, end: i64, month: int)
    ensures
        is_month_of(b, account_id, end, month) <==> month <= end && is_active(b, account_id, month),
{
    if is_month_of(b, account_id, end, month) {
        let k = choose|k: int|
            #![trigger b.transactions@[k]]
            0 <= k < b.transactions@.len() && (UpTo { account_id, end }).picks(&b.transactions@[k])
                && month_of(&b.transactions@[k]) == Some(month);
        assert(moves(b.transactions@[k], account_id));
    }
    if month <= end && is_active(b, account_id, month) {
        let k = choose|k: int|
            #![trigger b.transactions@[k]]
            0 <= k < b.transactions@.len() && moves(b.transactions@[k], account_id) && month_of_day(
                b.transactions@[k].date->0 as int,
            ) == month;
        assert((UpTo { account_id, end }).picks(&b.transactions@[k]));
    }
}

proof fn lemma_month_sums(b: &Budget, account_id: Option<&str>, end: i64, month: int)
    requires
        month <= end,
    ensures
        sum_of_month(picked(b.transactions@, &(UpTo { account_id, end })), month) == sum_where(
            b,
            |t: TransactionRow| moves(t, account_id) && month_of_day(t.date->0 as int) == month,
        ),
        sum_up_to(picked(b.transactions@, &(UpTo { account_id, end })), month) == sum_where(
            b,
            |t: TransactionRow| moves(t, account_id) && month_of_day(t.date->0 as int) <= month,
        ),
{
    let p = UpTo { account_id, end };
    let in_month = |x: Item<TransactionRow>|
        if month_of(x.row) == Some(month) {
            number_of(x.row.amount)
        } else {
            0
        };
    let up_to = |x: Item<TransactionRow>|
        if month_of(x.row) is Some && month_of(x.row)->0 <= month {
            number_of(x.row.amount)
        } else {
            0
        };
    lemma_total_picked(b, &p, in_month);
    lemma_total_picked(b, &p, up_to);
    lemma_total_alike(
        b.transactions@,
        |t: TransactionRow|
            if p.picks(&t) {
                in_month(Item { row: &t })
            } else {
                0
            },
        |t: TransactionRow|
            if moves(t, account_id) && month_of_day(t.date->0 as int) == month {
                number(t.amount)
            } else {
                0
            },
    );
    lemma_total_alike(
        b.transactions@,
        |t: TransactionRow|
            if p.picks(&t) {
                up_to(Item { row: &t })
            } else {
                0
            },
        |t: TransactionRow|
            if moves(t, account_id) && month_of_day(t.date->0 as int) <= month {
                number(t.amount)
            } else {
                0
            },
    );
    let counts = |t: TransactionRow| moves(t, account_id) && month_of_day(t.date->0 as int) == month;
    lemma_total_alike(
        b.transactions@,
        |t: TransactionRow|
            if counts(t) {
                number(t.amount)
            } else {
                0
            },
        |t: TransactionRow|
            if moves(t, account_id) && month_of_day(t.date->0 as int) == month {
                number(t.amount)
            } else {
                0
            },
    );
    let counts = |t: TransactionRow| moves(t, account_id) && month_of_day(t.date->0 as int) <= month;
    lemma_total_alike(
        b.transactions@,
        |t: TransactionRow|
            if counts(t) {
                number(t.amount)
            } else {
                0
            },
        |t: TransactionRow|
            if moves(t, account_id) && month_of_day(t.date->0 as int) <= month {
                number(t.amount)
            } else {
                0
            },
    );
}

/// The answer to the question for a balance history counts the transactions of the
/// account that is asked for, and of all accounts where none is.
#[verifier::rlimit(40)]
pub proof fn law_balance_history_is_of_the_account(
    b: &Budget,
    account_id: Option<&str>,
    start: i64,
    end: i64,
    v: Seq<BalanceHistoryEntryView>,
) -> (at: Seq<int>)
    requires
        answer_of(b, Query::BalanceHistory { account_id, start, end }) == Ok::<
            FoundView,
            ToolErrorView,
        >(FoundView::Balances(v)),
    ensures
        is_balance_history(b, account_id, start as int, end as int, v, at),
{
    law_history_entries(b, account_id, start as int, end, v);
    let at = choose|at: Seq<int>| #[trigger] is_history(b, account_id, start as int, end, v, at);
    assert forall|month: int| #[trigger]
        at.contains(month) <==> start <= month <= end && is_active(b, account_id, month) by {
        lemma_active(b, account_id, end, month);
        assert(at.contains(month) <==> start <= month && is_month_of(b, account_id, end, month));
    }
    assert forall|i: int| #![trigger v[i]] 0 <= i < v.len() implies {
        &&& v[i].month == month_text(at[i])
        &&& v[i].net_change_cents == sum_where(
            b,
            |t: TransactionRow| moves(t, account_id) && month_of_day(t.date->0 as int) == at[i],
        )
        &&& v[i].balance_cents == sum_where(
            b,
            |t: TransactionRow| moves(t, account_id) && month_of_day(t.date->0 as int) <= at[i],
        )
        &&& v[i].net_change_display == amount_text(v[i].net_change_cents)
        &&& v[i].balance_display == amount_text(v[i].balance_cents)
    } by {
        lemma_displays(months(b, account_id, end), start as int, v, i);
        assert(at.contains(at[i]));
        lemma_month_sums(b, account_id, end, at[i]);
    }
    at
}

// ── Sums by month ────────────────────────────────────────────────────────────

/// A whole transaction of a day from `start` up to, but without, `end`.
pub open spec fn is_between(t: TransactionRow, start: i64, end: i64) -> bool {
    is_entire(t) && t.date is Some && start <= t.date->0 < end
}

/// A transaction of the range lies in the month.
pub open spec fn is_summed_up(b: &Budget, start: i64, end: i64, month: int) -> bool {
    exists|k: int|
        #![trigger b.transactions@[k]]
        0 <= k < b.transactions@.len() && is_between(b.transactions@[k], start, end)
            && month_of_day(b.transactions@[k].date->0 as int) == month
}

/// The entries of a summary: one for each month `at` that has a transaction in the
/// range, the oldest first. The income of a month is the sum of its amounts above
/// zero, the expenses that of its amounts below zero, and the net that of all.
pub open spec fn is_monthly_summary(
    b: &Budget,
    start: i64,
    end: i64,
    v: Seq<MonthSummaryView>,
    at: Seq<int>,
) -> bool {
    &&& at.len() == v.len()
    &&& forall|i: int, j: int| 0 <= i < j < at.len() ==> at[i] < at[j]
    &&& forall|month: int| #[trigger]
        at.contains(month) <==> is_summed_up(b, start, end, month)
    &&& forall|i: int|
        #![trigger v[i]]
        0 <= i < v.len() ==> is_month_summary(b, start, end, v[i], at[i])
}

pub open spec fn is_month_summary(
    b: &Budget,
    start: i64,
    end: i64,
    x: MonthSummaryView,
    month: int,
) -> bool {
    &&& x.month == month_text(month)
    &&& x.income_cents == sum_where(
        b,
        |t: TransactionRow|
            is_between(t, start, end) && month_of_day(t.date->0 as int) == month && number(
                t.amount,
            ) > 0,
    )
    &&& x.expenses_cents == sum_where(
        b,
        |t: TransactionRow|
            is_between(t, start, end) && month_of_day(t.date->0 as int) == month && number(
                t.amount,
            ) < 0,
    )
    &&& x.net_cents == x.income_cents + x.expenses_cents
    &&& x.income_display == amount_text(x.income_cents)
    &&& x.expenses_display == amount_text(x.expenses_cents)
    &&& x.net_display == amount_text(x.net_cents)
}

/// What a side of a month sums up to, by the rows of the table.
proof fn lemma_month_side(
    b: &Budget,
    start: i64,
    end: i64,
    leader: Item<TransactionRow>,
    side: Side,
    counts: spec_fn(TransactionRow) -> bool,
    cents: int,
)
    requires
        value_sum(
            group_values(picked(b.transactions@, &(Between { start, end })), leader, side),
        ) == cents,
        forall|t: TransactionRow| #[trigger]
            counts(t) ==> is_between(t, start, end) && month_of(&t) == month_of(leader.row)
                && number_of(measured(t.amount, side)) == number(t.amount),
        forall|t: TransactionRow|
            is_between(t, start, end) && month_of(&t) == month_of(leader.row) && !#[trigger] counts(
                t,
            ) ==> number_of(measured(t.amount, side)) == 0,
    ensures
        cents == sum_where(b, counts),
{
    let p = Between { start, end };
    let rows = picked(b.transactions@, &p);
    let g = |r: Item<TransactionRow>|
        if leader.alike(&r) {
            number_of(measured(r.amount(), side))
        } else {
            0
        };
    lemma_group_total(rows, leader, side);
    lemma_total_picked(b, &p, g);
    lemma_total_alike(
        b.transactions@,
        |t: TransactionRow|
            if p.picks(&t) {
                g(Item { row: &t })
            } else {
                0
            },
        |t: TransactionRow|
            if counts(t) {
                number(t.amount)
            } else {
                0
            },
    );
}

proof fn lemma_month_entry(
    b: &Budget,
    start: i64,
    end: i64,
    leader: Item<TransactionRow>,
    x: MonthSummaryView,
)
    requires
        is_between(*leader.row, start, end),
        group_of(picked(b.transactions@, &(Between { start, end })), &leader).outcome() == Ok::<
            MonthSummaryView,
            DbError,
        >(x),
    ensures
        is_month_summary(b, start, end, x, month_of(leader.row)->0),
{
    let rows = picked(b.transactions@, &(Between { start, end }));
    let month = month_of(leader.row)->0;
    lemma_tally_is_sum(group_values(rows, leader, Side::Income), x.income_cents);
    lemma_tally_is_sum(group_values(rows, leader, Side::Expenses), x.expenses_cents);
    lemma_month_side(
        b,
        start,
        end,
        leader,
        Side::Income,
        |t: TransactionRow|
            is_between(t, start, end) && month_of_day(t.date->0 as int) == month && number(
                t.amount,
            ) > 0,
        x.income_cents,
    );
    lemma_month_side(
        b,
        start,
        end,
        leader,
        Side::Expenses,
        |t: TransactionRow|
            is_between(t, start, end) && month_of_day(t.date->0 as int) == month && number(
                t.amount,
            ) < 0,
        x.expenses_cents,
    );
}

/// The transactions of the range, by the rows of the table.
proof fn lemma_in_range(b: &Budget, start: i64, end: i64, x: Item<TransactionRow>)
    ensures
        picked(b.transactions@, &(Between { start, end })).contains(x) <==> is_between(
            *x.row,
            start,
            end,
        ) && b.transactions@.contains(*x.row),
{
    let p = Between { start, end };
    let f = |row: TransactionRow| picked_row(&p, &row);
    lemma_gathered_is(b.transactions@, f, x);
    if picked(b.transactions@, &p).contains(x) {
        let k = choose|k: int|
            0 <= k < b.transactions@.len() && f(#[trigger] b.transactions@[k]).contains(x);
        assert(b.transactions@[k] == *x.row);
    }
    if is_between(*x.row, start, end) && b.transactions@.contains(*x.row) {
        let k = choose|k: int| 0 <= k < b.transactions@.len() && b.transactions@[k] == *x.row;
        assert(f(b.transactions@[k])[0] == x);
    }
}

/// The answer to the question for sums by month sums up the transactions of the
/// range, month by month.
#[verifier::rlimit(40)]
pub proof fn law_monthly_summary_is_of_the_range(
    b: &Budget,
    start: i64,
    end: i64,
    v: Seq<MonthSummaryView>,
) -> (at: Seq<int>)
    requires
        answer_of(b, Query::MonthlySummary { start, end }) == Ok::<FoundView, ToolErrorView>(
            FoundView::Months(v),
        ),
    ensures
        is_monthly_summary(b, start, end, v, at),
{
    let rows = picked(b.transactions@, &(Between { start, end }));
    let lead = lemma_summed(rows, v);
    let at = Seq::new(lead.len(), |i: int| month_of(lead[i].row)->0);
    assert forall|i: int| 0 <= i < lead.len() implies is_between(
        *(#[trigger] lead[i]).row,
        start,
        end,
    ) by {
        lemma_in_range(b, start, end, lead[i]);
    }
    assert forall|i: int, j: int| 0 <= i < j < at.len() implies at[i] < at[j] by {
        assert(!lead[i].alike(&lead[j]));
        assert(is_between(*lead[i].row, start, end) && is_between(*lead[j].row, start, end));
    }
    assert forall|month: int| #[trigger]
        at.contains(month) <==> is_summed_up(b, start, end, month) by {
        if at.contains(month) {
            let i = choose|i: int| 0 <= i < at.len() && at[i] == month;
            lemma_in_range(b, start, end, lead[i]);
            let k = choose|k: int|
                0 <= k < b.transactions@.len() && b.transactions@[k] == *lead[i].row;
            assert(is_between(b.transactions@[k], start, end));
        }
        if is_summed_up(b, start, end, month) {
            let k = choose|k: int|
                #![trigger b.transactions@[k]]
                0 <= k < b.transactions@.len() && is_between(b.transactions@[k], start, end)
                    && month_of_day(b.transactions@[k].date->0 as int) == month;
            let x = Item { row: &b.transactions@[k] };
            assert(b.transactions@.contains(*x.row));
            lemma_in_range(b, start, end, x);
            let r = choose|r: int| 0 <= r < rows.len() && rows[r] == x;
            assert(rows[r] == x);
            let i = choose|i: int| 0 <= i < lead.len() && (#[trigger] lead[i]).alike(&rows[r]);
            assert(at[i] == month);
        }
    }
    assert forall|i: int| #![trigger v[i]] 0 <= i < v.len() implies is_month_summary(
        b,
        start,
        end,
        v[i],
        at[i],
    ) by {
        assert(is_between(*lead[i].row, start, end));
        lemma_month_entry(b, start, end, lead[i], v[i]);
    }
    at
}

} // verus!
