//! When sums are told.

use crate::answers::accounts::{
    amounts_fit, lemma_at_most, lemma_group_size, lemma_tally_fits, size,
};
use crate::answers::balances::moves;
use crate::answers::budgets::is_spent_in;
use crate::answers::lists::lemma_gathered_is;
use crate::answers::once::{allotments_are_unique, lemma_one_budget_line};
use crate::answers::rows::{is_live, is_single, lemma_left_join, refers};
use crate::answers::spending::{
    categories_are_unique, groups_are_unique, is_purchase, is_spent, lemma_one_spending,
    lemma_purchase_line, mappings_are_unique, payees_are_unique,
};
use crate::db::budgets::{
    activity, allotments, budget_lines, budget_lines_through, counts_for, lines_of_budget,
    month_number, running_total, BudgetLine,
};
use crate::db::laws::{
    law_category_spending, law_monthly_summary_succeeds, law_payee_spending, lemma_summary_succeeds,
};
use crate::db::months::{history, month_of, months, net_of, nets, Between, UpTo};
use crate::db::spending::{category_lines, lines_of_purchase, lines_of_spending, payee_lines};
use crate::db::sums::{
    group_share, law_arranging_keeps_sums, law_groups_share_out, lemma_arranged_rows, lemma_leaders,
    lemma_listing_total, lemma_total_alike, lemma_total_gathered, lemma_total_parallel,
    lemma_total_plus, lemma_total_swapped, number_of, share, sorts_into_groups, total,
};
use crate::models::BudgetCategoryView;
use crate::query::{
    gathered, group_of, group_values, groups, leaders, measured, picked, picked_row, summary, Group,
    Grouped, Item, Listed, Side, Summed,
};
use crate::server::reads::{answer_of, Query};
use crate::sql::{left_join, lemma_tally_is_sum, sum_or_zero, tally, value_sum, Tally};
use crate::tables::{Budget, BudgetRow, CategoryGroupRow, CategoryRow, TransactionRow};
use crate::text::string_view;
use vstd::prelude::*;

verus! {

/// What a line adds to a sum, at most.
spec fn weight(amount: Option<i64>, side: Side) -> int {
    if side == Side::Count {
        1
    } else {
        size(amount)
    }
}

proof fn lemma_weight(amount: Option<i64>, side: Side)
    ensures
        0 <= size(measured(amount, side)) <= weight(amount, side),
{
}

/// The transactions can be counted and summed up.
pub open spec fn sums_fit(b: &Budget) -> bool {
    amounts_fit(b) && b.transactions@.len() <= i64::MAX
}

proof fn lemma_count<A>(rows: Seq<A>)
    ensures
        total(rows, |r: A| 1) == rows.len(),
    decreases rows.len(),
{
    if rows.len() > 0 {
        lemma_count(rows.drop_last());
    }
}

proof fn lemma_weights(b: &Budget, side: Side)
    requires
        sums_fit(b),
    ensures
        total(b.transactions@, |t: TransactionRow| weight(t.amount, side)) <= i64::MAX,
{
    let by_row = |t: TransactionRow| weight(t.amount, side);
    if side == Side::Count {
        lemma_count(b.transactions@);
        lemma_total_alike(b.transactions@, by_row, |t: TransactionRow| 1);
    } else {
        lemma_total_alike(b.transactions@, by_row, |t: TransactionRow| size(t.amount));
    }
}

/// Where no transaction brings more than one row, every sum over a group fits.
proof fn lemma_sum_fits<A: Grouped>(
    b: &Budget,
    f: spec_fn(TransactionRow) -> Seq<A>,
    leader: A,
    side: Side,
)
    requires
        sums_fit(b),
        forall|i: int|
            0 <= i < b.transactions@.len() ==> f(#[trigger] b.transactions@[i]).len() <= 1,
        forall|i: int|
            0 <= i < b.transactions@.len() && f(#[trigger] b.transactions@[i]).len() == 1 ==> f(
                b.transactions@[i],
            )[0].amount() == b.transactions@[i].amount,
    ensures
        !(tally(Tally::Empty, group_values(gathered(b.transactions@, f), leader, side)) is Overflow),
{
    let rows = gathered(b.transactions@, f);
    let g = |r: A| size(measured(r.amount(), side));
    let by_row = |t: TransactionRow| total(f(t), g);
    lemma_group_size(rows, leader, side);
    lemma_total_gathered(b.transactions@, f, g);
    assert forall|i: int| 0 <= i < b.transactions@.len() implies by_row(
        #[trigger] b.transactions@[i],
    ) <= weight(b.transactions@[i].amount, side) by {
        let t = b.transactions@[i];
        lemma_weight(t.amount, side);
        let one = f(t);
        if one.len() == 1 {
            assert(one.drop_last() =~= Seq::empty());
            assert(total(one.drop_last(), g) == 0);
            assert(one.last() == one[0]);
        }
    }
    lemma_at_most(
        b.transactions@,
        by_row,
        |t: TransactionRow| weight(t.amount, side),
    );
    lemma_weights(b, side);
    lemma_tally_fits(group_values(rows, leader, side));
}

/// Sums by month are told unless the amounts are too large to be summed up.
pub proof fn law_monthly_summary_fails_only_on_overflow(b: &Budget, start: i64, end: i64)
    requires
        sums_fit(b),
    ensures
        answer_of(b, Query::MonthlySummary { start, end }) is Ok,
{
    let p = Between { start, end };
    let f = |row: TransactionRow| picked_row(&p, &row);
    let rows = picked(b.transactions@, &p);
    let all = groups(rows);
    assert forall|i: int| 0 <= i < all.len() implies !(#[trigger] all[i]).spoiled() by {
        let leader = leaders(rows)[i];
        assert(all[i] == group_of(rows, &leader));
        lemma_sum_fits(b, f, leader, Side::Income);
        lemma_sum_fits(b, f, leader, Side::Expenses);
    }
    law_monthly_summary_succeeds(b, start, end);
}

/// Spending by category is told unless the amounts are too large to be summed up.
pub proof fn law_category_spending_fails_only_on_overflow(b: &Budget, start: i64, end: i64)
    requires
        categories_are_unique(b),
        groups_are_unique(b),
        sums_fit(b),
    ensures
        answer_of(b, Query::SpendingByCategory { start, end }) is Ok,
{
    let f = |t: TransactionRow| lines_of_spending(b, &t, start, end);
    let rows = category_lines(b, start, end);
    let all = groups(rows);
    assert forall|i: int| 0 <= i < b.transactions@.len() implies f(
        #[trigger] b.transactions@[i],
    ).len() <= 1 && (f(b.transactions@[i]).len() == 1 ==> f(b.transactions@[i])[0].amount()
        == b.transactions@[i].amount) by {
        let t = b.transactions@[i];
        if is_single(t) && is_spent(t, start, end) {
            let l = lemma_one_spending(b, t, start, end);
            assert(f(t) == seq![l]);
        } else {
            assert(f(t) =~= Seq::empty());
        }
    }
    assert forall|i: int| 0 <= i < all.len() implies !(#[trigger] all[i]).spoiled() by {
        let leader = leaders(rows)[i];
        assert(all[i] == group_of(rows, &leader));
        lemma_sum_fits(b, f, leader, Side::All);
        lemma_sum_fits(b, f, leader, Side::Count);
    }
    law_category_spending(b, start, end);
}

/// Spending by payee is told unless the amounts are too large to be summed up.
pub proof fn law_payee_spending_fails_only_on_overflow(b: &Budget, start: i64, end: i64)
    requires
        payees_are_unique(b),
        mappings_are_unique(b),
        sums_fit(b),
    ensures
        answer_of(b, Query::SpendingByPayee { start, end }) is Ok,
{
    let f = |t: TransactionRow| lines_of_purchase(b, &t, start, end);
    let rows = payee_lines(b, start, end);
    let all = groups(rows);
    assert forall|i: int| 0 <= i < b.transactions@.len() implies f(
        #[trigger] b.transactions@[i],
    ).len() <= 1 && (f(b.transactions@[i]).len() == 1 ==> f(b.transactions@[i])[0].amount()
        == b.transactions@[i].amount) by {
        let t = b.transactions@[i];
        if is_purchase(t, start, end) {
            let l = lemma_purchase_line(b, t, start, end);
            assert(f(t) == seq![l]);
        } else {
            assert(f(t) =~= Seq::empty());
        }
    }
    assert forall|i: int| 0 <= i < all.len() implies !(#[trigger] all[i]).spoiled() by {
        let leader = leaders(rows)[i];
        assert(all[i] == group_of(rows, &leader));
        lemma_sum_fits(b, f, leader, Side::All);
        lemma_sum_fits(b, f, leader, Side::Count);
    }
    law_payee_spending(b, start, end);
}

// ── Balances ─────────────────────────────────────────────────────────────────

proof fn lemma_not_empty<A: Grouped>(rows: Seq<A>, leader: A, k: int)
    requires
        0 <= k < rows.len(),
        leader.alike(&rows[k]),
        rows[k].amount() is Some,
    ensures
        !(tally(Tally::Empty, group_values(rows, leader, Side::All)) is Empty),
    decreases rows.len(),
{
    let before = rows.drop_last();
    let found = group_values(before, leader, Side::All);
    let last = rows.last();
    assert(found.push(measured(last.amount(), Side::All)).drop_last() =~= found);
    if k < before.len() {
        assert(before[k] == rows[k]);
        lemma_not_empty(before, leader, k);
    }
}

/// What the rows of a group add up to, whatever their signs.
spec fn group_weight<A: Grouped>(rows: Seq<A>, leader: A) -> int {
    value_sum(group_values(rows, leader, Side::Income)) - value_sum(
        group_values(rows, leader, Side::Expenses),
    )
}

proof fn lemma_group_weight<A: Grouped>(rows: Seq<A>, leader: A)
    ensures
        -group_weight(rows, leader) <= value_sum(group_values(rows, leader, Side::All))
            <= group_weight(rows, leader),
    decreases rows.len(),
{
    if rows.len() > 0 {
        let before = rows.drop_last();
        let last = rows.last();
        lemma_group_weight(before, leader);
        if leader.alike(&last) {
            lemma_pushed_sum(before, last, leader, Side::All);
            lemma_pushed_sum(before, last, leader, Side::Income);
            lemma_pushed_sum(before, last, leader, Side::Expenses);
        }
        assert(before.push(last) =~= rows);
    }
}

proof fn lemma_pushed_sum<A: Grouped>(before: Seq<A>, last: A, leader: A, side: Side)
    requires
        leader.alike(&last),
    ensures
        value_sum(group_values(before.push(last), leader, side)) == value_sum(
            group_values(before, leader, side),
        ) + number_of(measured(last.amount(), side)),
{
    let rows = before.push(last);
    let found = group_values(before, leader, side);
    assert(rows.drop_last() =~= before);
    assert(found.push(measured(last.amount(), side)).drop_last() =~= found);
}

/// The groups weigh together what the rows do.
proof fn lemma_weights_of_groups<A: Grouped>(rows: Seq<A>)
    requires
        sorts_into_groups::<A>(),
    ensures
        total(leaders(rows), |l: A| group_weight(rows, l)) == total(
            rows,
            |r: A| size(r.amount()),
        ),
{
    let w = |r: A| true;
    let (income, expenses) = (
        |l: A| group_share(rows, l, Side::Income, w),
        |l: A| group_share(rows, l, Side::Expenses, w),
    );
    law_groups_share_out(rows, Side::Income, w);
    law_groups_share_out(rows, Side::Expenses, w);
    let weight_of = |l: A| group_weight(rows, l);
    lemma_total_plus(leaders(rows), weight_of, expenses);
    lemma_total_alike(leaders(rows), |l: A| weight_of(l) + expenses(l), income);
    let (earned, spent) = (
        |r: A| share(r, Side::Income, w),
        |r: A| share(r, Side::Expenses, w),
    );
    let sizes = |r: A| size(r.amount());
    lemma_total_plus(rows, sizes, spent);
    lemma_total_alike(rows, |r: A| sizes(r) + spent(r), earned);
}

proof fn lemma_history_told<'a>(m: Seq<Group<'a, Item<'a, TransactionRow>>>, start: int)
    requires
        total(nets(m), |v: Option<i64>| size(v)) <= i64::MAX,
        forall|i: int|
            0 <= i < m.len() ==> (#[trigger] m[i]).all is Sum && month_of(m[i].leader.row) is Some,
    ensures
        history(m, start) is Ok,
    decreases m.len(),
{
    if m.len() > 0 {
        let before = m.drop_last();
        let last = m[m.len() - 1];
        assert(nets(m).drop_last() =~= nets(before));
        assert(nets(m).last() == net_of(last));
        lemma_tally_fits(nets(m));
        assert forall|i: int| 0 <= i < before.len() implies (#[trigger] before[i]).all is Sum
            && month_of(before[i].leader.row) is Some by {
            assert(before[i] == m[i]);
        }
        lemma_history_told(before, start);
        assert(last.all is Sum && month_of(last.leader.row) is Some);
        assert(!(tally(Tally::Empty, nets(m)) is Empty));
    }
}

/// What the months add up to, whatever their signs, fits.
proof fn lemma_nets_fit(b: &Budget, account_id: Option<&str>, end: i64)
    requires
        sums_fit(b),
        forall|l: Item<TransactionRow>| #[trigger]
            leaders(picked(b.transactions@, &(UpTo { account_id, end }))).contains(l) ==> size(
                net_of(group_of(picked(b.transactions@, &(UpTo { account_id, end })), &l)),
            ) <= group_weight(picked(b.transactions@, &(UpTo { account_id, end })), l),
    ensures
        total(nets(months(b, account_id, end)), |v: Option<i64>| size(v)) <= i64::MAX,
{
    let p = UpTo { account_id, end };
    let f = |row: TransactionRow| picked_row(&p, &row);
    let rows = picked(b.transactions@, &p);
    let all = groups(rows);
    let lead = leaders(rows);
    let m = months(b, account_id, end);
    let sizes = |v: Option<i64>| size(v);
    let by_month = |g: Group<Item<TransactionRow>>| size(net_of(g));
    let by_leader = |l: Item<TransactionRow>| size(net_of(group_of(rows, &l)));
    let by_row = |r: Item<TransactionRow>| size(r.amount());
    lemma_total_parallel(nets(m), m, sizes, by_month);
    law_arranging_keeps_sums(all, by_month);
    lemma_total_parallel(all, lead, by_month, by_leader);
    assert forall|i: int| 0 <= i < lead.len() implies by_leader(#[trigger] lead[i])
        <= group_weight(rows, lead[i]) by {
        assert(lead.contains(lead[i]));
    }
    lemma_at_most(lead, by_leader, |l: Item<TransactionRow>| group_weight(rows, l));
    lemma_weights_of_groups(rows);
    lemma_total_gathered(b.transactions@, f, by_row);
    let by_entry = |t: TransactionRow| total(f(t), by_row);
    assert forall|i: int| 0 <= i < b.transactions@.len() implies by_entry(
        #[trigger] b.transactions@[i],
    ) <= size(b.transactions@[i].amount) by {
        let t = b.transactions@[i];
        let one = f(t);
        if one.len() == 1 {
            assert(one.drop_last() =~= Seq::empty());
            assert(total(one.drop_last(), by_row) == 0);
            assert(one.last() == one[0]);
        }
    }
    lemma_at_most(b.transactions@, by_entry, |t: TransactionRow| size(t.amount));
}

/// Balances are told unless the amounts are too large to be summed up, or a whole
/// transaction with a date lacks an amount.
#[verifier::rlimit(40)]
pub proof fn law_balance_history_fails_only_on_nulls_and_overflow(
    b: &Budget,
    account_id: Option<&str>,
    start: i64,
    end: i64,
)
    requires
        sums_fit(b),
        forall|k: int|
            0 <= k < b.transactions@.len() && moves(#[trigger] b.transactions@[k], account_id)
                ==> b.transactions@[k].amount is Some,
    ensures
        answer_of(b, Query::BalanceHistory { account_id, start, end }) is Ok,
{
    let p = UpTo { account_id, end };
    let f = |row: TransactionRow| picked_row(&p, &row);
    let rows = picked(b.transactions@, &p);
    let all = groups(rows);
    let m = months(b, account_id, end);
    let lead = leaders(rows);
    lemma_leaders(rows);
    assert forall|i: int| 0 <= i < all.len() implies (#[trigger] all[i]).all is Sum && month_of(
        all[i].leader.row,
    ) is Some && size(net_of(all[i])) <= group_weight(rows, lead[i]) by {
        let leader = lead[i];
        assert(all[i] == group_of(rows, &leader));
        assert(rows.contains(leader));
        lemma_gathered_is(b.transactions@, f, leader);
        let k = choose|k: int|
            0 <= k < b.transactions@.len() && f(#[trigger] b.transactions@[k]).contains(leader);
        assert(b.transactions@[k] == *leader.row);
        assert(moves(b.transactions@[k], account_id));
        let r = choose|r: int| 0 <= r < rows.len() && rows[r] == leader;
        lemma_not_empty(rows, leader, r);
        lemma_sum_fits(b, f, leader, Side::All);
        let values = group_values(rows, leader, Side::All);
        lemma_group_weight(rows, leader);
        match tally(Tally::Empty, values) {
            Tally::Sum(s) => lemma_tally_is_sum(values, s as int),
            _ => {},
        }
    }
    assert forall|l: Item<TransactionRow>| #[trigger] lead.contains(l) implies size(
        net_of(group_of(rows, &l)),
    ) <= group_weight(rows, l) by {
        let i = choose|i: int| 0 <= i < lead.len() && lead[i] == l;
        assert(all[i] == group_of(rows, &lead[i]));
    }
    lemma_nets_fit(b, account_id, end);
    lemma_arranged_rows(all);
    law_arranging_keeps_sums(all, |g: Group<Item<TransactionRow>>| 0);
    assert forall|i: int| 0 <= i < m.len() implies (#[trigger] m[i]).all is Sum && month_of(
        m[i].leader.row,
    ) is Some by {
        assert(all.contains(m[i]));
    }
    lemma_tally_fits(nets(m));
    lemma_history_told(m, start as int);
}

// ── Budgets ──────────────────────────────────────────────────────────────────

pub open spec fn absolute(n: int) -> int {
    if n < 0 {
        -n
    } else {
        n
    }
}

/// All amounts and all that the month allots, together, fit 64 bits.
pub open spec fn budget_fits(b: &Budget, month: int) -> bool {
    total(b.transactions@, |t: TransactionRow| size(t.amount)) + total(
        allotments(b, month),
        |a: Item<BudgetRow>| size(a.row.amount),
    ) <= i64::MAX
}

/// What belongs to no more than one is shared out no more than once.
proof fn lemma_one_owner<A>(rows: Seq<A>, owns: spec_fn(A) -> bool, w: int)
    requires
        w >= 0,
        forall|i: int, j: int|
            #![trigger rows[i], rows[j]]
            0 <= i < j < rows.len() ==> !(owns(rows[i]) && owns(rows[j])),
    ensures
        0 <= total(
            rows,
            |r: A|
                if owns(r) {
                    w
                } else {
                    0
                },
        ) <= w,
        (forall|i: int| 0 <= i < rows.len() ==> !owns(#[trigger] rows[i])) ==> total(
            rows,
            |r: A|
                if owns(r) {
                    w
                } else {
                    0
                },
        ) == 0,
    decreases rows.len(),
{
    if rows.len() > 0 {
        let before = rows.drop_last();
        let last = rows.len() - 1;
        assert forall|i: int, j: int|
            #![trigger before[i], before[j]]
            0 <= i < j < before.len() implies !(owns(before[i]) && owns(before[j])) by {
            assert(before[i] == rows[i] && before[j] == rows[j]);
        }
        lemma_one_owner(before, owns, w);
        if owns(rows[last]) {
            assert forall|i: int| 0 <= i < before.len() implies !owns(#[trigger] before[i]) by {
                assert(before[i] == rows[i]);
            }
        }
        if forall|i: int| 0 <= i < rows.len() ==> !owns(#[trigger] rows[i]) {
            assert forall|i: int| 0 <= i < before.len() implies !owns(#[trigger] before[i]) by {
                assert(before[i] == rows[i]);
            }
            assert(!owns(rows[last]));
        }
    }
}

/// What things share out to rows, each to no more than one, is no more than they
/// weigh.
proof fn lemma_shared_out<A, B>(
    rows: Seq<A>,
    things: Seq<B>,
    owns: spec_fn(A, B) -> bool,
    w: spec_fn(B) -> int,
)
    requires
        forall|k: int| 0 <= k < things.len() ==> w(#[trigger] things[k]) >= 0,
        forall|i: int, j: int, k: int|
            #![trigger rows[i], rows[j], things[k]]
            0 <= i < j < rows.len() && 0 <= k < things.len() ==> !(owns(rows[i], things[k])
                && owns(rows[j], things[k])),
    ensures
        total(
            rows,
            |r: A|
                total(
                    things,
                    |x: B|
                        if owns(r, x) {
                            w(x)
                        } else {
                            0
                        },
                ),
        ) <= total(things, w),
{
    let cell = |r: A, x: B|
        if owns(r, x) {
            w(x)
        } else {
            0
        };
    lemma_total_swapped(rows, things, cell);
    let by_row = |r: A| total(things, |x: B| cell(r, x));
    let by_thing = |x: B| total(rows, |r: A| cell(r, x));
    assert forall|k: int| 0 <= k < things.len() implies by_thing(#[trigger] things[k]) <= w(
        things[k],
    ) by {
        let x = things[k];
        let own = |r: A| owns(r, x);
        assert forall|i: int, j: int|
            #![trigger rows[i], rows[j]]
            0 <= i < j < rows.len() implies !(own(rows[i]) && own(rows[j])) by {
            assert(things[k] == x);
        }
        lemma_one_owner(rows, own, w(x));
        lemma_total_alike(
            rows,
            |r: A| cell(r, x),
            |r: A|
                if own(r) {
                    w(x)
                } else {
                    0
                },
        );
    }
    lemma_at_most(things, by_thing, w);
    let plain = |r: A|
        total(
            things,
            |x: B|
                if owns(r, x) {
                    w(x)
                } else {
                    0
                },
        );
    assert forall|i: int| 0 <= i < rows.len() implies plain(#[trigger] rows[i]) == by_row(
        rows[i],
    ) by {
        let r = rows[i];
        lemma_total_alike(
            things,
            |x: B|
                if owns(r, x) {
                    w(x)
                } else {
                    0
                },
            |x: B| cell(r, x),
        );
    }
    lemma_total_alike(rows, plain, by_row);
}

/// The amounts that are spent in a category.
spec fn spent_size(b: &Budget, c: CategoryRow, start: i64, end: i64) -> int {
    total(
        b.transactions@,
        |t: TransactionRow|
            if is_live(c.tombstone) && is_spent_in(t, c, start, end) {
                size(t.amount)
            } else {
                0
            },
    )
}

/// The amounts that the month allots to a category.
spec fn allotted_size(b: &Budget, month: int, c: CategoryRow) -> int {
    total(
        allotments(b, month),
        |a: Item<BudgetRow>|
            if is_live(c.tombstone) && refers(a.row.category, c.id) {
                size(a.row.amount)
            } else {
                0
            },
    )
}

spec fn spent_by(line: BudgetLine) -> int {
    match sum_or_zero(line.spent) {
        Ok(s) => absolute(s),
        Err(_) => 0,
    }
}

proof fn lemma_spent_size(b: &Budget, c: CategoryRow, start: i64, end: i64)
    requires
        is_live(c.tombstone),
    ensures
        total(activity(b, string_view(c.id), start, end), |v: Option<i64>| size(v)) == spent_size(
            b,
            c,
            start,
            end,
        ),
{
    let f = |t: TransactionRow|
        if counts_for(&t, string_view(c.id), start, end) {
            seq![t.amount]
        } else {
            Seq::empty()
        };
    let n = |v: Option<i64>| size(v);
    lemma_total_gathered(b.transactions@, f, n);
    let by_row = |t: TransactionRow|
        if is_live(c.tombstone) && is_spent_in(t, c, start, end) {
            size(t.amount)
        } else {
            0
        };
    let h = |t: TransactionRow| total(f(t), n);
    assert forall|i: int| 0 <= i < b.transactions@.len() implies h(#[trigger] b.transactions@[i])
        == by_row(b.transactions@[i]) by {
        let t = b.transactions@[i];
        let one = seq![t.amount];
        assert(one.drop_last() =~= Seq::empty());
        assert(total(one.drop_last(), n) == 0);
        assert(total(Seq::<Option<i64>>::empty(), n) == 0);
    }
    lemma_total_alike(b.transactions@, h, by_row);
}

/// A part of what the amounts weigh is no more than all of it.
proof fn lemma_parts(b: &Budget, month: int, c: CategoryRow, start: i64, end: i64)
    ensures
        spent_size(b, c, start, end) <= total(
            b.transactions@,
            |t: TransactionRow| size(t.amount),
        ),
        allotted_size(b, month, c) <= total(
            allotments(b, month),
            |a: Item<BudgetRow>| size(a.row.amount),
        ),
{
    lemma_at_most(
        b.transactions@,
        |t: TransactionRow|
            if is_live(c.tombstone) && is_spent_in(t, c, start, end) {
                size(t.amount)
            } else {
                0
            },
        |t: TransactionRow| size(t.amount),
    );
    lemma_at_most(
        allotments(b, month),
        |a: Item<BudgetRow>|
            if is_live(c.tombstone) && refers(a.row.category, c.id) {
                size(a.row.amount)
            } else {
                0
            },
        |a: Item<BudgetRow>| size(a.row.amount),
    );
}

/// What a line of the budget weighs.
proof fn lemma_line_fits<'a>(
    b: &'a Budget,
    month: int,
    start: i64,
    end: i64,
    c: CategoryRow,
    line: BudgetLine<'a>,
)
    requires
        budget_fits(b, month),
        lines_of_budget(b, &c, month, start, end).contains(line),
    ensures
        is_live(c.tombstone),
        *line.category == c,
        !(line.spent is Overflow),
        spent_by(line) <= spent_size(b, c, start, end),
        absolute(line.budgeted as int) <= allotted_size(b, month, c),
{
    let f = |g: Option<&'a CategoryGroupRow>| budget_lines_through(b, &c, g, month, start, end);
    let found = left_join::<'a, CategoryGroupRow>(b.category_groups@, string_view(c.cat_group));
    lemma_gathered_is(found, f, line);
    let j = choose|j: int| 0 <= j < found.len() && f(#[trigger] found[j]).contains(line);
    let made = f(found[j]);
    let i = choose|i: int| 0 <= i < made.len() && made[i] == line;
    let joined = left_join::<'a, Item<'a, BudgetRow>>(allotments(b, month), string_view(c.id));
    let a = joined[i];
    assert(joined.contains(a));
    lemma_spent_size(b, c, start, end);
    lemma_parts(b, month, c, start, end);
    lemma_sizes_of(allotments(b, month));
    lemma_tally_fits(activity(b, string_view(c.id), start, end));
    lemma_left_join(allotments(b, month), string_view(c.id), a);
    match a {
        Some(x) => lemma_one_of(
            allotments(b, month),
            *x,
            |a: Item<BudgetRow>|
                if is_live(c.tombstone) && refers(a.row.category, c.id) {
                    size(a.row.amount)
                } else {
                    0
                },
        ),
        None => lemma_some_of(
            allotments(b, month),
            |a: Item<BudgetRow>|
                if is_live(c.tombstone) && refers(a.row.category, c.id) {
                    size(a.row.amount)
                } else {
                    0
                },
        ),
    }
}

proof fn lemma_sizes_of(rows: Seq<Item<BudgetRow>>)
    ensures
        total(rows, |a: Item<BudgetRow>| size(a.row.amount)) >= 0,
{
    lemma_some_of(rows, |a: Item<BudgetRow>| size(a.row.amount));
}

proof fn lemma_some_of<A>(rows: Seq<A>, f: spec_fn(A) -> int)
    requires
        forall|i: int| 0 <= i < rows.len() ==> f(#[trigger] rows[i]) >= 0,
    ensures
        total(rows, f) >= 0,
    decreases rows.len(),
{
    if rows.len() > 0 {
        let before = rows.drop_last();
        assert forall|i: int| 0 <= i < before.len() implies f(#[trigger] before[i]) >= 0 by {
            assert(before[i] == rows[i]);
        }
        lemma_some_of(before, f);
        assert(f(rows[rows.len() - 1]) >= 0);
    }
}

/// One of the rows weighs no more than all.
proof fn lemma_one_of<A>(rows: Seq<A>, x: A, f: spec_fn(A) -> int)
    requires
        rows.contains(x),
        forall|i: int| 0 <= i < rows.len() ==> f(#[trigger] rows[i]) >= 0,
    ensures
        f(x) <= total(rows, f),
    decreases rows.len(),
{
    let before = rows.drop_last();
    let k = choose|k: int| 0 <= k < rows.len() && rows[k] == x;
    assert forall|i: int| 0 <= i < before.len() implies f(#[trigger] before[i]) >= 0 by {
        assert(before[i] == rows[i]);
    }
    assert(f(rows[rows.len() - 1]) >= 0);
    if k < before.len() {
        assert(before[k] == x);
        lemma_one_of(before, x, f);
    } else {
        lemma_some_of(before, f);
    }
}

proof fn lemma_running_fits(values: Seq<int>)
    requires
        total(values, |x: int| absolute(x)) <= i64::MAX,
    ensures
        running_total(values) is Ok,
        absolute(running_total(values)->Ok_0) <= total(values, |x: int| absolute(x)),
    decreases values.len(),
{
    if values.len() > 0 {
        lemma_running_fits(values.drop_last());
    }
}

/// The lines of the budget weigh no more than the amounts that they are made of.
proof fn lemma_budget_weighs<'a>(b: &'a Budget, month: int, start: i64, end: i64)
    requires
        categories_are_unique(b),
        groups_are_unique(b),
        allotments_are_unique(b, month),
        budget_fits(b, month),
    ensures
        total(
            budget_lines(b, month, start, end),
            |l: BudgetLine<'a>| absolute(l.budgeted as int),
        ) <= total(allotments(b, month), |a: Item<BudgetRow>| size(a.row.amount)),
        total(budget_lines(b, month, start, end), |l: BudgetLine<'a>| spent_by(l)) <= total(
            b.transactions@,
            |t: TransactionRow| size(t.amount),
        ),
{
    let f = |c: CategoryRow| lines_of_budget(b, &c, month, start, end);
    let budgeted = |l: BudgetLine<'a>| absolute(l.budgeted as int);
    let spent = |l: BudgetLine<'a>| spent_by(l);
    lemma_total_gathered(b.categories@, f, budgeted);
    lemma_total_gathered(b.categories@, f, spent);
    let gets = |c: CategoryRow, a: Item<BudgetRow>|
        is_live(c.tombstone) && refers(a.row.category, c.id);
    let takes = |c: CategoryRow, t: TransactionRow|
        is_live(c.tombstone) && is_spent_in(t, c, start, end);
    let (given, amounts) = (
        |a: Item<BudgetRow>| size(a.row.amount),
        |t: TransactionRow| size(t.amount),
    );
    let by_gift = |c: CategoryRow|
        total(
            allotments(b, month),
            |a: Item<BudgetRow>|
                if gets(c, a) {
                    given(a)
                } else {
                    0
                },
        );
    let by_entry = |c: CategoryRow|
        total(
            b.transactions@,
            |t: TransactionRow|
                if takes(c, t) {
                    amounts(t)
                } else {
                    0
                },
        );
    let (by_budgeted, by_spent) = (
        |c: CategoryRow| total(f(c), budgeted),
        |c: CategoryRow| total(f(c), spent),
    );
    assert forall|i: int| 0 <= i < b.categories@.len() implies by_budgeted(
        #[trigger] b.categories@[i],
    ) <= by_gift(b.categories@[i]) && by_spent(b.categories@[i]) <= by_entry(
        b.categories@[i],
    ) by {
        let c = b.categories@[i];
        lemma_one_budget_line(b, c, month, start, end);
        lemma_total_alike(
            allotments(b, month),
            |a: Item<BudgetRow>|
                if gets(c, a) {
                    given(a)
                } else {
                    0
                },
            |a: Item<BudgetRow>|
                if is_live(c.tombstone) && refers(a.row.category, c.id) {
                    size(a.row.amount)
                } else {
                    0
                },
        );
        lemma_total_alike(
            b.transactions@,
            |t: TransactionRow|
                if takes(c, t) {
                    amounts(t)
                } else {
                    0
                },
            |t: TransactionRow|
                if is_live(c.tombstone) && is_spent_in(t, c, start, end) {
                    size(t.amount)
                } else {
                    0
                },
        );
        let made = f(c);
        if made.len() == 1 {
            assert(made.drop_last() =~= Seq::empty());
            assert(total(made.drop_last(), budgeted) == 0 && total(made.drop_last(), spent) == 0);
            assert(made.last() == made[0]);
            assert(made.contains(made[0]));
            lemma_line_fits(b, month, start, end, c, made[0]);
        } else {
            lemma_some_of(
                allotments(b, month),
                |a: Item<BudgetRow>|
                    if gets(c, a) {
                        given(a)
                    } else {
                        0
                    },
            );
            lemma_some_of(
                b.transactions@,
                |t: TransactionRow|
                    if takes(c, t) {
                        amounts(t)
                    } else {
                        0
                    },
            );
        }
    }
    lemma_at_most(b.categories@, by_budgeted, by_gift);
    lemma_at_most(b.categories@, by_spent, by_entry);
    lemma_shared_out(b.categories@, allotments(b, month), gets, given);
    lemma_shared_out(b.categories@, b.transactions@, takes, amounts);
}

/// The budget of a month is told unless a category that is not deleted lacks an id
/// or a name, or the amounts are too large to be summed up.
#[verifier::rlimit(40)]
pub proof fn law_budget_fails_only_on_nulls_and_overflow(
    b: &Budget,
    month: &str,
    start: i64,
    end: i64,
)
    requires
        categories_are_unique(b),
        groups_are_unique(b),
        allotments_are_unique(b, month_number(month@)),
        budget_fits(b, month_number(month@)),
        forall|k: int|
            0 <= k < b.categories@.len() && is_live((#[trigger] b.categories@[k]).tombstone)
                ==> b.categories@[k].id is Some && b.categories@[k].name is Some,
    ensures
        answer_of(b, Query::BudgetMonth { month, start, end }) is Ok,
{
    let n = month_number(month@);
    let rows = budget_lines(b, n, start, end);
    let f = |c: CategoryRow| lines_of_budget(b, &c, n, start, end);
    assert forall|i: int| 0 <= i < rows.len() implies (#[trigger] rows[i]).outcome() is Ok
        && !rows[i].spoiled() by {
        let line = rows[i];
        assert(rows.contains(line));
        lemma_gathered_is(b.categories@, f, line);
        let k = choose|k: int|
            0 <= k < b.categories@.len() && f(#[trigger] b.categories@[k]).contains(line);
        lemma_line_fits(b, n, start, end, b.categories@[k], line);
        lemma_parts(b, n, b.categories@[k], start, end);
    }
    lemma_summary_succeeds(rows);
    lemma_budget_weighs(b, n, start, end);
    let v = summary(rows)->Ok_0;
    let budgeted = |c: BudgetCategoryView| absolute(c.budgeted_cents);
    let spent = |c: BudgetCategoryView| absolute(c.spent_cents);
    lemma_listing_total(rows, v, |l: BudgetLine| absolute(l.budgeted as int), budgeted);
    lemma_listing_total(rows, v, |l: BudgetLine| spent_by(l), spent);
    let (some, others) = (
        v.map_values(|c: BudgetCategoryView| c.budgeted_cents),
        v.map_values(|c: BudgetCategoryView| c.spent_cents),
    );
    lemma_total_parallel(some, v, |x: int| absolute(x), budgeted);
    lemma_total_parallel(others, v, |x: int| absolute(x), spent);
    lemma_some_of(b.transactions@, |t: TransactionRow| size(t.amount));
    lemma_sizes_of(allotments(b, n));
    lemma_running_fits(some);
    lemma_running_fits(others);
}

} // verus!
