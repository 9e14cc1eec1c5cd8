//! What holds between the queries.

use crate::db::accounts::{account_lines, lines_of_account, open_entries, worth_values, AccountLine};
use crate::db::budgets::{
    activity, allotments, budget_lines, budget_lines_through, budget_of_month, counts_for,
    lines_of_budget, month_number, running_total, BudgetLine,
};
use crate::db::lines::{
    chosen, kept, lines, lines_through, links_through, matching, payee_links, whole, ByCategory,
    Filter, Line, PayeeLink, TransactionFilter, Uncategorized,
};
use crate::db::months::{balances, months, Between, UpTo};
use crate::db::spending::{
    category_lines, category_lines_through, lines_of_purchase, lines_of_spending, payee_lines,
    CategoryLine, PayeeLine,
};
use crate::db::sums::{
    group_share, law_arranging_keeps_sums, law_groups_share_out, lemma_arranged_rows,
    lemma_gathered_contains, lemma_gathered_members, lemma_leaders, lemma_listing_total,
    lemma_shown, lemma_total_alike, lemma_total_gathered, lemma_total_hits, lemma_total_left_join,
    lemma_total_parallel, lemma_total_plus, lemma_total_swapped, lemma_total_zero, lemma_value_sum,
    number_of, share, sorts_into_groups, total,
};
use crate::models::{
    AccountView, BudgetCategoryView, BudgetMonthView, CategorySpendingView, MonthSummaryView,
    PayeeSpendingView,
};
use crate::query::{
    arranged, gathered, group_of, group_values, groups, leaders, lemma_gathered_alike, measured,
    picked, picked_row, shown, summary, Group, Grouped, Item, Listed, Pick, Side, Summed,
};
use crate::sql::{
    ascending, equal, hits, is_zero, left_join, lemma_key_order, lemma_order_exists,
    lemma_tally_is_sum, listed_before, meets_key, optional_before, order_of, sum_or_zero, tally,
    unset, DbError, Keyed, Tally,
};
use crate::tables::{
    AccountRow, Budget, CategoryGroupRow, CategoryRow, PayeeMappingRow, TransactionRow,
};
use crate::text::string_view;
use vstd::prelude::*;

verus! {

// ── Accounts ─────────────────────────────────────────────────────────────────

/// What an account adds to the net worth.
pub open spec fn open_balance(a: AccountView) -> int {
    if a.closed || a.offbudget {
        0
    } else {
        a.balance_cents
    }
}

/// What a transaction adds to an account that is open and on budget.
spec fn cell(a: AccountRow, t: TransactionRow) -> int {
    if a.present() && t.present() && equal(string_view(a.id), string_view(t.acct)) {
        number_of(t.amount)
    } else {
        0
    }
}

spec fn open_line<'a>(l: AccountLine<'a>) -> bool {
    is_zero(l.account.closed) && is_zero(l.account.offbudget)
}

proof fn lemma_lines_of_account<'a>(b: &'a Budget, a: AccountRow)
    ensures
        total(lines_of_account(b, &a), |l: AccountLine<'a>| share(l, Side::All, |l: AccountLine<'a>| open_line(l)))
            == total(b.transactions@, |t: TransactionRow| cell(a, t)),
{
    let w = |l: AccountLine<'a>| open_line(l);
    let g = |l: AccountLine<'a>| share(l, Side::All, w);
    let by_entry = |t: TransactionRow| cell(a, t);
    if is_zero(a.tombstone) {
        let joined = left_join(b.transactions@, string_view(a.id));
        let h = |t: Option<&'a TransactionRow>| g(AccountLine { account: &a, entry: t });
        lemma_total_parallel(lines_of_account(b, &a), joined, g, h);
        lemma_total_left_join(b.transactions@, string_view(a.id), h);
        lemma_total_alike(
            b.transactions@,
            |t: TransactionRow|
                if meets_key(&t, string_view(a.id)) {
                    h(Some(&t))
                } else {
                    0
                },
            by_entry,
        );
    } else {
        assert(lines_of_account(b, &a) =~= Seq::empty());
        lemma_total_zero(b.transactions@, by_entry);
    }
}

proof fn lemma_open_entries<'a>(b: &'a Budget, t: TransactionRow)
    ensures
        total(open_entries(b, &t), |v: Option<i64>| number_of(v)) == total(
            b.accounts@,
            |a: AccountRow| cell(a, t),
        ),
{
    let by_account = |a: AccountRow| cell(a, t);
    let g = |v: Option<i64>| number_of(v);
    if whole(&t) {
        let found = hits(b.accounts@, string_view(t.acct));
        let h = |a: &'a AccountRow| number_of(t.amount);
        lemma_total_parallel(open_entries(b, &t), found, g, h);
        lemma_total_hits(b.accounts@, string_view(t.acct), h);
        lemma_total_alike(
            b.accounts@,
            |a: AccountRow|
                if meets_key(&a, string_view(t.acct)) {
                    h(&a)
                } else {
                    0
                },
            by_account,
        );
    } else {
        assert(open_entries(b, &t) =~= Seq::empty());
        lemma_total_zero(b.accounts@, by_account);
    }
}

/// The net worth is the sum of the balances of the accounts that are listed as
/// open and on budget.
pub proof fn law_net_worth_is_sum_of_open_balances(
    b: &Budget,
    accounts: Seq<AccountView>,
    worth: int,
)
    requires
        summary(groups(account_lines(b))) == Ok::<Seq<AccountView>, DbError>(accounts),
        sum_or_zero(tally(Tally::Empty, worth_values(b))) == Ok::<int, DbError>(worth),
    ensures
        worth == total(accounts, |a: AccountView| open_balance(a)),
{
    let lines = account_lines(b);
    let all = groups(lines);
    let w = |l: AccountLine| open_line(l);
    let by_group = |g: Group<AccountLine>| group_share(lines, *g.leader, Side::All, w);
    lemma_leaders(lines);
    assert forall|g: Group<AccountLine>, o: AccountView|
        all.contains(g) && #[trigger] g.outcome() == Ok::<AccountView, DbError>(o) implies by_group(g)
        == #[trigger] open_balance(o) by {
        let i = choose|i: int| 0 <= i < all.len() && all[i] == g;
        let leader = leaders(lines)[i];
        assert(g == group_of(lines, &leader));
        assert(lines.contains(leader));
        lemma_tally_is_sum(group_values(lines, leader, Side::All), o.balance_cents);
    }
    lemma_listing_total(all, accounts, by_group, |a: AccountView| open_balance(a));
    lemma_total_parallel(
        all,
        leaders(lines),
        by_group,
        |l: AccountLine| group_share(lines, l, Side::All, w),
    );
    law_groups_share_out(lines, Side::All, w);
    let g = |l: AccountLine| share(l, Side::All, w);
    let f = |a: AccountRow| lines_of_account(b, &a);
    let c = |a: AccountRow, t: TransactionRow| cell(a, t);
    let by_account = |a: AccountRow| total(b.transactions@, |t: TransactionRow| c(a, t));
    lemma_total_gathered(b.accounts@, f, g);
    assert forall|i: int| 0 <= i < b.accounts@.len() implies total(f(#[trigger] b.accounts@[i]), g)
        == by_account(b.accounts@[i]) by {
        let a = b.accounts@[i];
        lemma_lines_of_account(b, a);
        lemma_total_alike(
            b.transactions@,
            |t: TransactionRow| cell(a, t),
            |t: TransactionRow| c(a, t),
        );
    }
    lemma_total_alike(b.accounts@, |a: AccountRow| total(f(a), g), by_account);
    lemma_total_swapped(b.accounts@, b.transactions@, c);
    let n = |v: Option<i64>| number_of(v);
    let e = |t: TransactionRow| open_entries(b, &t);
    let by_entry = |t: TransactionRow| total(b.accounts@, |a: AccountRow| c(a, t));
    lemma_tally_is_sum(worth_values(b), worth);
    lemma_value_sum(worth_values(b));
    lemma_total_gathered(b.transactions@, e, n);
    assert forall|i: int| 0 <= i < b.transactions@.len() implies total(
        e(#[trigger] b.transactions@[i]),
        n,
    ) == by_entry(b.transactions@[i]) by {
        let t = b.transactions@[i];
        lemma_open_entries(b, t);
        lemma_total_alike(b.accounts@, |a: AccountRow| cell(a, t), |a: AccountRow| c(a, t));
    }
    lemma_total_alike(b.transactions@, |t: TransactionRow| total(e(t), n), by_entry);
}

// ── What does not count ──────────────────────────────────────────────────────

/// `more` is the budget `b` with the transaction `t` added to it.
pub open spec fn adds(b: &Budget, more: &Budget, t: TransactionRow) -> bool {
    &&& more.transactions@ == b.transactions@.push(t)
    &&& more.accounts@ == b.accounts@
    &&& more.category_groups@ == b.category_groups@
    &&& more.categories@ == b.categories@
    &&& more.payees@ == b.payees@
    &&& more.payee_mapping@ == b.payee_mapping@
    &&& more.zero_budgets@ == b.zero_budgets@
    &&& more.reflect_budgets@ == b.reflect_budgets@
}

proof fn lemma_gathered_push<A, B>(
    rows: Seq<A>,
    r: A,
    f: spec_fn(A) -> Seq<B>,
    g: spec_fn(A) -> Seq<B>,
)
    requires
        forall|i: int| 0 <= i < rows.len() ==> f(#[trigger] rows[i]) == g(rows[i]),
        g(r).len() == 0,
    ensures
        gathered(rows.push(r), g) == gathered(rows, f),
{
    lemma_gathered_alike(rows, f, g);
    assert(rows.push(r).drop_last() =~= rows);
    assert(gathered(rows.push(r), g) =~= gathered(rows, f));
}

proof fn lemma_same_picked<P: Pick<TransactionRow>>(b: &Budget, more: &Budget, t: TransactionRow, p: &P)
    requires
        adds(b, more, t),
        !p.picks(&t),
    ensures
        picked(more.transactions@, p) == picked(b.transactions@, p),
{
    let f = |row: TransactionRow| picked_row(p, &row);
    lemma_gathered_push(b.transactions@, t, f, f);
}

proof fn lemma_same_accounts(b: &Budget, more: &Budget, t: TransactionRow)
    requires
        adds(b, more, t),
        !whole(&t),
    ensures
        account_lines(more) == account_lines(b),
        worth_values(more) == worth_values(b),
{
    assert(more.transactions@.drop_last() =~= b.transactions@);
    let f = |a: AccountRow| lines_of_account(b, &a);
    let g = |a: AccountRow| lines_of_account(more, &a);
    assert forall|i: int| 0 <= i < b.accounts@.len() implies f(#[trigger] b.accounts@[i])
        == g(b.accounts@[i]) by {
        let a = b.accounts@[i];
        assert(hits(more.transactions@, string_view(a.id)) == hits(
            b.transactions@,
            string_view(a.id),
        ));
        assert(f(a) =~= g(a));
    }
    lemma_gathered_alike(b.accounts@, f, g);
    let e = |x: TransactionRow| open_entries(b, &x);
    let h = |x: TransactionRow| open_entries(more, &x);
    assert forall|i: int| 0 <= i < b.transactions@.len() implies e(#[trigger] b.transactions@[i])
        == h(b.transactions@[i]) by {
        assert(e(b.transactions@[i]) =~= h(b.transactions@[i]));
    }
    lemma_gathered_push(b.transactions@, t, e, h);
}

proof fn lemma_same_links<'a>(b: &'a Budget, more: &'a Budget, t: TransactionRow, x: &'a TransactionRow)
    requires
        adds(b, more, t),
    ensures
        payee_links(more, x) == payee_links(b, x),
{
    let f = |m: Option<&'a PayeeMappingRow>| links_through(b, x, m);
    let g = |m: Option<&'a PayeeMappingRow>| links_through(more, x, m);
    let mappings = left_join(b.payee_mapping@, string_view(x.description));
    assert forall|i: int| 0 <= i < mappings.len() implies f(#[trigger] mappings[i]) == g(
        mappings[i],
    ) by {
        assert(f(mappings[i]) =~= g(mappings[i]));
    }
    lemma_gathered_alike(mappings, f, g);
}

proof fn lemma_same_lines<'a>(b: &'a Budget, more: &'a Budget, t: TransactionRow, x: &'a TransactionRow)
    requires
        adds(b, more, t),
    ensures
        lines(more, x) == lines(b, x),
{
    lemma_same_links(b, more, t, x);
    let f = |l: PayeeLink<'a>| lines_through(b, x, l);
    let g = |l: PayeeLink<'a>| lines_through(more, x, l);
    let links = payee_links(b, x);
    assert forall|i: int| 0 <= i < links.len() implies f(#[trigger] links[i]) == g(links[i]) by {
        assert(f(links[i]) =~= g(links[i]));
    }
    lemma_gathered_alike(links, f, g);
}

proof fn lemma_same_matching<F: Filter>(b: &Budget, more: &Budget, t: TransactionRow, filter: &F)
    requires
        adds(b, more, t),
        !filter.takes_entry(&t),
    ensures
        matching(more, filter) == matching(b, filter),
{
    let f = |x: TransactionRow| chosen(b, filter, &x);
    let g = |x: TransactionRow| chosen(more, filter, &x);
    assert forall|i: int| 0 <= i < b.transactions@.len() implies f(#[trigger] b.transactions@[i])
        == g(b.transactions@[i]) by {
        lemma_same_lines(b, more, t, &b.transactions@[i]);
    }
    lemma_gathered_push(b.transactions@, t, f, g);
}

proof fn lemma_same_purchases(b: &Budget, more: &Budget, t: TransactionRow, start: i64, end: i64)
    requires
        adds(b, more, t),
        !whole(&t),
    ensures
        payee_lines(more, start, end) == payee_lines(b, start, end),
{
    let f = |x: TransactionRow| lines_of_purchase(b, &x, start, end);
    let g = |x: TransactionRow| lines_of_purchase(more, &x, start, end);
    assert forall|i: int| 0 <= i < b.transactions@.len() implies f(#[trigger] b.transactions@[i])
        == g(b.transactions@[i]) by {
        lemma_same_links(b, more, t, &b.transactions@[i]);
    }
    lemma_gathered_push(b.transactions@, t, f, g);
}

/// A transaction that counts for categories: not deleted, and not the whole of a
/// split.
pub open spec fn counts_by_category(t: &TransactionRow) -> bool {
    is_zero(t.tombstone) && unset(t.is_parent)
}

proof fn lemma_same_category_lines(b: &Budget, more: &Budget, t: TransactionRow, start: i64, end: i64)
    requires
        adds(b, more, t),
        !counts_by_category(&t),
    ensures
        category_lines(more, start, end) == category_lines(b, start, end),
{
    let f = |x: TransactionRow| lines_of_spending(b, &x, start, end);
    let g = |x: TransactionRow| lines_of_spending(more, &x, start, end);
    assert forall|i: int| 0 <= i < b.transactions@.len() implies f(#[trigger] b.transactions@[i])
        == g(b.transactions@[i]) by {
        let x = b.transactions@[i];
        let found = left_join(b.categories@, string_view(x.category));
        let f2 = |c: Option<&CategoryRow>| category_lines_through(b, &x, c);
        let g2 = |c: Option<&CategoryRow>| category_lines_through(more, &x, c);
        assert forall|k: int| 0 <= k < found.len() implies f2(#[trigger] found[k]) == g2(
            found[k],
        ) by {
            assert(f2(found[k]) =~= g2(found[k]));
        }
        lemma_gathered_alike(found, f2, g2);
    }
    lemma_gathered_push(b.transactions@, t, f, g);
}

proof fn lemma_same_budget(
    b: &Budget,
    more: &Budget,
    t: TransactionRow,
    month: Seq<char>,
    start: i64,
    end: i64,
)
    requires
        adds(b, more, t),
        !counts_by_category(&t),
    ensures
        budget_of_month(more, month, start, end) == budget_of_month(b, month, start, end),
{
    let n = month_number(month);
    assert(allotments(more, n) == allotments(b, n));
    let f = |c: CategoryRow| lines_of_budget(b, &c, n, start, end);
    let g = |c: CategoryRow| lines_of_budget(more, &c, n, start, end);
    assert forall|i: int| 0 <= i < b.categories@.len() implies f(#[trigger] b.categories@[i]) == g(
        b.categories@[i],
    ) by {
        let c = b.categories@[i];
        lemma_same_activity(b, more, t, string_view(c.id), start, end);
        let found = left_join(b.category_groups@, string_view(c.cat_group));
        let f2 = |x: Option<&CategoryGroupRow>| budget_lines_through(b, &c, x, n, start, end);
        let g2 = |x: Option<&CategoryGroupRow>| budget_lines_through(more, &c, x, n, start, end);
        assert forall|k: int| 0 <= k < found.len() implies f2(#[trigger] found[k]) == g2(
            found[k],
        ) by {
            assert(f2(found[k]) =~= g2(found[k]));
        }
        lemma_gathered_alike(found, f2, g2);
    }
    lemma_gathered_alike(b.categories@, f, g);
}

proof fn lemma_same_activity(
    b: &Budget,
    more: &Budget,
    t: TransactionRow,
    category: Option<Seq<char>>,
    start: i64,
    end: i64,
)
    requires
        adds(b, more, t),
        !counts_by_category(&t),
    ensures
        activity(more, category, start, end) == activity(b, category, start, end),
{
    let f = |x: TransactionRow|
        if counts_for(&x, category, start, end) {
            seq![x.amount]
        } else {
            Seq::empty()
        };
    lemma_gathered_push(b.transactions@, t, f, f);
}

/// A transaction that is deleted, or a part of a split, changes no balance and
/// no net worth, no sum by month or by payee, and no list of transactions: of a
/// split only the whole counts there.
pub proof fn law_parts_count_in_no_balance(
    b: &Budget,
    more: &Budget,
    t: TransactionRow,
    account_id: Option<&str>,
    start: i64,
    end: i64,
    filter: TransactionFilter,
    uncategorized: Uncategorized,
    by_category: ByCategory,
)
    requires
        adds(b, more, t),
        !whole(&t),
    ensures
        summary(groups(account_lines(more))) == summary(groups(account_lines(b))),
        worth_values(more) == worth_values(b),
        summary(groups(picked(more.transactions@, &(Between { start, end })))) == summary(
            groups(picked(b.transactions@, &(Between { start, end }))),
        ),
        summary(groups(payee_lines(more, start, end))) == summary(
            groups(payee_lines(b, start, end)),
        ),
        balances(months(more, account_id, end), start as int) == balances(
            months(b, account_id, end),
            start as int,
        ),
        matching(more, &filter) == matching(b, &filter),
        matching(more, &uncategorized) == matching(b, &uncategorized),
        matching(more, &by_category) == matching(b, &by_category),
{
    lemma_same_accounts(b, more, t);
    lemma_same_picked(b, more, t, &(Between { start, end }));
    lemma_same_picked(b, more, t, &(UpTo { account_id, end }));
    lemma_same_purchases(b, more, t, start, end);
    lemma_same_matching(b, more, t, &filter);
    lemma_same_matching(b, more, t, &uncategorized);
    lemma_same_matching(b, more, t, &by_category);
}

/// A transaction that is deleted, or the whole of a split, changes nothing of
/// what is spent in the categories: of a split only the parts count there.
pub proof fn law_wholes_count_in_no_category(
    b: &Budget,
    more: &Budget,
    t: TransactionRow,
    month: Seq<char>,
    start: i64,
    end: i64,
    uncategorized: Uncategorized,
)
    requires
        adds(b, more, t),
        !counts_by_category(&t),
    ensures
        summary(groups(category_lines(more, start, end))) == summary(
            groups(category_lines(b, start, end)),
        ),
        budget_of_month(more, month, start, end) == budget_of_month(b, month, start, end),
        matching(more, &uncategorized) == matching(b, &uncategorized),
{
    lemma_same_category_lines(b, more, t, start, end);
    lemma_same_budget(b, more, t, month, start, end);
    lemma_same_matching(b, more, t, &uncategorized);
}

// ── Lists of transactions ────────────────────────────────────────────────────

/// The newest transactions come first, and those of one day by their ids.
pub proof fn law_newest_first(found: Seq<Line>, i: int, j: int)
    requires
        0 <= i < j < found.len(),
    ensures
        arranged(found).len() == found.len(),
        ascending(arranged(found)[i].entry.date) >= ascending(arranged(found)[j].entry.date),
        arranged(found)[i].entry.date == arranged(found)[j].entry.date ==> !optional_before(
            string_view(arranged(found)[j].entry.id),
            string_view(arranged(found)[i].entry.id),
        ),
{
    let keys = found.map_values(|a: Line| a.order_key());
    lemma_order_exists(keys);
    let p = order_of(keys);
    assert(listed_before(keys, p[i], p[j]));
    lemma_key_order(keys[p[i]], keys[p[j]], keys[p[i]]);
}

/// A filter finds the transactions that it takes, and no others.
pub proof fn law_matching_is_exact<F: Filter>(b: &Budget, filter: &F, line: Line)
    ensures
        matching(b, filter).contains(line) <==> (filter.takes_line(&line) && exists|i: int|
            #![trigger b.transactions@[i]]
            0 <= i < b.transactions@.len() && filter.takes_entry(&b.transactions@[i])
                && lines(b, &b.transactions@[i]).contains(line)),
{
    let f = |t: TransactionRow| chosen(b, filter, &t);
    let g = |l: Line| kept(filter, l);
    if matching(b, filter).contains(line) {
        lemma_gathered_members(b.transactions@, f, line);
        let i = choose|i: int|
            0 <= i < b.transactions@.len() && f(#[trigger] b.transactions@[i]).contains(line);
        let t = b.transactions@[i];
        assert(filter.takes_entry(&t));
        lemma_gathered_members(lines(b, &t), g, line);
        let k = choose|k: int|
            0 <= k < lines(b, &t).len() && g(#[trigger] lines(b, &t)[k]).contains(line);
        assert(lines(b, &t)[k] == line);
        assert(filter.takes_entry(&b.transactions@[i]) && lines(
            b,
            &b.transactions@[i],
        ).contains(line));
    }
    if filter.takes_line(&line) && exists|i: int|
        #![trigger b.transactions@[i]]
        0 <= i < b.transactions@.len() && filter.takes_entry(&b.transactions@[i])
            && lines(b, &b.transactions@[i]).contains(line) {
        let i = choose|i: int|
            #![trigger b.transactions@[i]]
            0 <= i < b.transactions@.len() && filter.takes_entry(&b.transactions@[i])
                && lines(b, &b.transactions@[i]).contains(line);
        let t = b.transactions@[i];
        let k = choose|k: int| 0 <= k < lines(b, &t).len() && lines(b, &t)[k] == line;
        assert(g(line)[0] == line);
        lemma_gathered_contains(lines(b, &t), g, k, line);
        lemma_gathered_contains(b.transactions@, f, i, line);
    }
}

// ── Months ───────────────────────────────────────────────────────────────────

/// A sum of values that are not null and lie on one side of zero lies there too.
proof fn lemma_tally_signed(values: Seq<Option<i64>>, sign: int, low: int)
    requires
        values.len() > 0,
        sign == 1 || sign == -1,
        low >= 0,
        forall|i: int|
            0 <= i < values.len() ==> (#[trigger] values[i]) is Some && sign * values[i]->0 >= low,
    ensures
        match tally(Tally::Empty, values) {
            Tally::Empty => false,
            Tally::Sum(s) => sign * s >= low,
            Tally::Overflow => true,
        },
    decreases values.len(),
{
    let before = values.drop_last();
    assert(values[values.len() - 1] is Some);
    if before.len() > 0 {
        assert forall|i: int| 0 <= i < before.len() implies (#[trigger] before[i]) is Some && sign
            * before[i]->0 >= low by {
            assert(before[i] == values[i]);
        }
        lemma_tally_signed(before, sign, low);
    } else {
        assert(tally(Tally::Empty, before) == Tally::Empty);
    }
}

proof fn lemma_group_values<A: Grouped>(rows: Seq<A>, leader: A, side: Side)
    ensures
        forall|i: int|
            0 <= i < group_values(rows, leader, side).len() ==> exists|k: int|
                0 <= k < rows.len() && (#[trigger] group_values(rows, leader, side)[i]) == measured(
                    (#[trigger] rows[k]).amount(),
                    side,
                ),
        forall|k: int|
            #![trigger rows[k]]
            0 <= k < rows.len() && leader.alike(&rows[k]) ==> group_values(
                rows,
                leader,
                side,
            ).len() > 0,
    decreases rows.len(),
{
    if rows.len() > 0 {
        let before = rows.drop_last();
        lemma_group_values(before, leader, side);
        let v = group_values(rows, leader, side);
        let w = group_values(before, leader, side);
        assert forall|i: int| 0 <= i < v.len() implies exists|k: int|
            0 <= k < rows.len() && (#[trigger] v[i]) == measured(
                (#[trigger] rows[k]).amount(),
                side,
            ) by {
            if i < w.len() {
                assert(v[i] == w[i]);
                let k = choose|k: int|
                    0 <= k < before.len() && w[i] == measured((#[trigger] before[k]).amount(), side);
                assert(v[i] == measured(rows[k].amount(), side));
            } else {
                assert(v[i] == measured(rows[rows.len() - 1].amount(), side));
            }
        }
        assert forall|k: int|
            #![trigger rows[k]]
            0 <= k < rows.len() && leader.alike(&rows[k]) implies v.len() > 0 by {
            if k < before.len() {
                assert(before[k] == rows[k]);
            }
        }
    }
}

/// The group of a row is not empty: sums that are not null have a value.
proof fn lemma_group_sum<A: Grouped>(rows: Seq<A>, leader: A, side: Side, sign: int, low: int)
    requires
        rows.contains(leader),
        leader.alike(&leader),
        sign == 1 || sign == -1,
        low >= 0,
        forall|k: int|
            0 <= k < rows.len() ==> measured((#[trigger] rows[k]).amount(), side) is Some && sign
                * measured(rows[k].amount(), side)->0 >= low,
    ensures
        match tally(Tally::Empty, group_values(rows, leader, side)) {
            Tally::Empty => false,
            Tally::Sum(s) => sign * s >= low,
            Tally::Overflow => true,
        },
{
    let v = group_values(rows, leader, side);
    lemma_group_values(rows, leader, side);
    let k = choose|k: int| 0 <= k < rows.len() && rows[k] == leader;
    assert(leader.alike(&rows[k]));
    assert forall|i: int| 0 <= i < v.len() implies (#[trigger] v[i]) is Some && sign * v[i]->0
        >= low by {
        let k = choose|k: int|
            0 <= k < rows.len() && v[i] == measured((#[trigger] rows[k]).amount(), side);
        assert(measured(rows[k].amount(), side) is Some);
    }
    lemma_tally_signed(v, sign, low);
}

/// Where every row can be shown, the listing has no error.
proof fn lemma_all_shown<A: Listed>(rows: Seq<A>)
    requires
        forall|i: int| 0 <= i < rows.len() ==> (#[trigger] rows[i]).outcome() is Ok,
    ensures
        shown(rows) is Ok,
    decreases rows.len(),
{
    if rows.len() > 0 {
        assert(rows[rows.len() - 1].outcome() is Ok);
        assert forall|i: int| 0 <= i < rows.drop_last().len() implies (
        #[trigger] rows.drop_last()[i]).outcome() is Ok by {
            assert(rows.drop_last()[i] == rows[i]);
        }
        lemma_all_shown(rows.drop_last());
    }
}

pub proof fn lemma_summary_succeeds<G: Summed>(rows: Seq<G>)
    requires
        forall|i: int| 0 <= i < rows.len() ==> !(#[trigger] rows[i]).spoiled(),
        forall|i: int| 0 <= i < rows.len() ==> (#[trigger] rows[i]).outcome() is Ok,
    ensures
        summary(rows) is Ok,
{
    law_arranging_keeps_sums(rows, |a: G| 0);
    lemma_arranged_rows(rows);
    let all = arranged(rows);
    assert(all.take(rows.len() as int) =~= all);
    assert forall|i: int| 0 <= i < all.len() implies (#[trigger] all[i]).outcome() is Ok by {
        assert(rows.contains(all[i]));
    }
    lemma_all_shown(all);
}

proof fn lemma_month_group(b: &Budget, start: i64, end: i64, i: int)
    requires
        0 <= i < groups(picked(b.transactions@, &(Between { start, end }))).len(),
    ensures
        ({
            let g = groups(picked(b.transactions@, &(Between { start, end })))[i];
            &&& !g.spoiled() ==> g.outcome() is Ok
            &&& g.income matches Tally::Sum(s) ==> s >= 0
            &&& g.expenses matches Tally::Sum(s) ==> s <= 0
        }),
{
    let p = Between { start, end };
    let rows = picked(b.transactions@, &p);
    lemma_leaders(rows);
    let leader = leaders(rows)[i];
    assert(rows.contains(leader));
    lemma_gathered_members(b.transactions@, |row: TransactionRow| picked_row(&p, &row), leader);
    lemma_group_sum(rows, leader, Side::Income, 1, 0);
    lemma_group_sum(rows, leader, Side::Expenses, -1, 0);
}

/// The monthly summary fails only where the income or the expenses of a month
/// overflow: their difference never does.
pub proof fn law_monthly_summary_succeeds(b: &Budget, start: i64, end: i64)
    requires
        forall|i: int|
            0 <= i < groups(picked(b.transactions@, &(Between { start, end }))).len() ==> !(
            #[trigger] groups(picked(b.transactions@, &(Between { start, end })))[i]).spoiled(),
    ensures
        summary(groups(picked(b.transactions@, &(Between { start, end })))) is Ok,
{
    let all = groups(picked(b.transactions@, &(Between { start, end })));
    assert forall|i: int| 0 <= i < all.len() implies (#[trigger] all[i]).outcome() is Ok by {
        lemma_month_group(b, start, end, i);
    }
    lemma_summary_succeeds(all);
}

/// The months of a summary account for every transaction in the range: their nets
/// sum up to what the transactions sum up to.
pub proof fn law_months_account_for_all(
    b: &Budget,
    start: i64,
    end: i64,
    v: Seq<MonthSummaryView>,
)
    requires
        summary(groups(picked(b.transactions@, &(Between { start, end })))) == Ok::<
            Seq<MonthSummaryView>,
            DbError,
        >(v),
    ensures
        total(v, |m: MonthSummaryView| m.net_cents) == total(
            picked(b.transactions@, &(Between { start, end })),
            |x: Item<TransactionRow>| number_of(x.row.amount),
        ),
{
    let rows = picked(b.transactions@, &(Between { start, end }));
    let all = groups(rows);
    let w = |x: Item<TransactionRow>| true;
    let earned = |l: Item<TransactionRow>| group_share(rows, l, Side::Income, w);
    let spent = |l: Item<TransactionRow>| group_share(rows, l, Side::Expenses, w);
    let by_group = |g: Group<Item<TransactionRow>>| earned(*g.leader) + spent(*g.leader);
    let net = |m: MonthSummaryView| m.net_cents;
    assert forall|g: Group<Item<TransactionRow>>, o: MonthSummaryView|
        all.contains(g) && #[trigger] g.outcome() == Ok::<MonthSummaryView, DbError>(
            o,
        ) implies by_group(g) == #[trigger] net(o) by {
        let i = choose|i: int| 0 <= i < all.len() && all[i] == g;
        let leader = leaders(rows)[i];
        assert(g == group_of(rows, &leader));
        lemma_tally_is_sum(group_values(rows, leader, Side::Income), o.income_cents);
        lemma_tally_is_sum(group_values(rows, leader, Side::Expenses), o.expenses_cents);
    }
    lemma_listing_total(all, v, by_group, net);
    lemma_total_parallel(
        all,
        leaders(rows),
        by_group,
        |l: Item<TransactionRow>| earned(l) + spent(l),
    );
    lemma_total_plus(leaders(rows), earned, spent);
    law_groups_share_out(rows, Side::Income, w);
    law_groups_share_out(rows, Side::Expenses, w);
    let a = |x: Item<TransactionRow>| share(x, Side::Income, w);
    let c = |x: Item<TransactionRow>| share(x, Side::Expenses, w);
    lemma_total_plus(rows, a, c);
    lemma_total_alike(
        rows,
        |x: Item<TransactionRow>| a(x) + c(x),
        |x: Item<TransactionRow>| number_of(x.row.amount),
    );
}

// ── Spending ─────────────────────────────────────────────────────────────────

proof fn lemma_category_group(b: &Budget, start: i64, end: i64, i: int)
    requires
        0 <= i < groups(category_lines(b, start, end)).len(),
    ensures
        ({
            let g = groups(category_lines(b, start, end))[i];
            &&& !g.spoiled() ==> g.outcome() is Ok
            &&& g.all matches Tally::Sum(s) ==> s < 0
            &&& g.count matches Tally::Sum(s) ==> s > 0
        }),
{
    let rows = category_lines(b, start, end);
    lemma_leaders(rows);
    let leader = leaders(rows)[i];
    assert(rows.contains(leader));
    assert forall|k: int| 0 <= k < rows.len() implies (#[trigger] rows[k]).entry.amount is Some
        && rows[k].entry.amount->0 < 0 by {
        lemma_category_line(b, start, end, rows[k]);
    }
    lemma_group_sum(rows, leader, Side::All, -1, 1);
    lemma_group_sum(rows, leader, Side::Count, 1, 1);
}

proof fn lemma_category_line(b: &Budget, start: i64, end: i64, line: CategoryLine)
    requires
        category_lines(b, start, end).contains(line),
    ensures
        line.entry.amount is Some && line.entry.amount->0 < 0,
{
    let f = |t: TransactionRow| lines_of_spending(b, &t, start, end);
    lemma_gathered_members(b.transactions@, f, line);
    let i = choose|i: int|
        0 <= i < b.transactions@.len() && f(#[trigger] b.transactions@[i]).contains(line);
    let t = b.transactions@[i];
    let g = |c: Option<&CategoryRow>| category_lines_through(b, &t, c);
    lemma_gathered_members(left_join(b.categories@, string_view(t.category)), g, line);
}

/// Spending by category fails only where a sum overflows, and every total is
/// below zero.
pub proof fn law_category_spending(b: &Budget, start: i64, end: i64)
    ensures
        match summary(groups(category_lines(b, start, end))) {
            Ok(v) => forall|i: int| 0 <= i < v.len() ==> (#[trigger] v[i]).total_cents < 0,
            Err(e) => exists|i: int|
                0 <= i < groups(category_lines(b, start, end)).len() && (#[trigger] groups(
                    category_lines(b, start, end),
                )[i]).spoiled(),
        },
{
    let all = groups(category_lines(b, start, end));
    if forall|i: int| 0 <= i < all.len() ==> !(#[trigger] all[i]).spoiled() {
        assert forall|i: int| 0 <= i < all.len() implies (#[trigger] all[i]).outcome() is Ok by {
            lemma_category_group(b, start, end, i);
        }
        lemma_summary_succeeds(all);
        match summary(all) {
            Ok(v) => {
                law_arranging_keeps_sums(all, |a: Group<CategoryLine>| 0);
                assert(arranged(all).take(all.len() as int) =~= arranged(all));
                lemma_shown(arranged(all), v);
                lemma_arranged_rows(all);
                assert forall|i: int| 0 <= i < v.len() implies (#[trigger] v[i]).total_cents < 0 by {
                    assert(all.contains(arranged(all)[i]));
                    let k = choose|k: int| 0 <= k < all.len() && all[k] == arranged(all)[i];
                    lemma_category_group(b, start, end, k);
                }
            },
            Err(_) => {},
        }
    }
}

/// The categories account for every line of spending: their totals sum up to
/// what was spent, and their counts to how often.
pub proof fn law_categories_account_for_all(
    b: &Budget,
    start: i64,
    end: i64,
    v: Seq<CategorySpendingView>,
)
    requires
        summary(groups(category_lines(b, start, end))) == Ok::<Seq<CategorySpendingView>, DbError>(
            v,
        ),
    ensures
        total(v, |x: CategorySpendingView| x.total_cents) == total(
            category_lines(b, start, end),
            |l: CategoryLine| number_of(l.entry.amount),
        ),
        total(v, |x: CategorySpendingView| x.transaction_count) == category_lines(
            b,
            start,
            end,
        ).len(),
{
    let rows = category_lines(b, start, end);
    let all = groups(rows);
    let w = |l: CategoryLine| true;
    let spent = |g: Group<CategoryLine>| group_share(rows, *g.leader, Side::All, w);
    let often = |g: Group<CategoryLine>| group_share(rows, *g.leader, Side::Count, w);
    let cents = |x: CategorySpendingView| x.total_cents;
    let count = |x: CategorySpendingView| x.transaction_count;
    assert forall|g: Group<CategoryLine>, o: CategorySpendingView|
        all.contains(g) && #[trigger] g.outcome() == Ok::<CategorySpendingView, DbError>(
            o,
        ) implies spent(g) == #[trigger] cents(o) by {
        let i = choose|i: int| 0 <= i < all.len() && all[i] == g;
        let leader = leaders(rows)[i];
        assert(g == group_of(rows, &leader));
        lemma_tally_is_sum(group_values(rows, leader, Side::All), o.total_cents);
    }
    assert forall|g: Group<CategoryLine>, o: CategorySpendingView|
        all.contains(g) && #[trigger] g.outcome() == Ok::<CategorySpendingView, DbError>(
            o,
        ) implies often(g) == #[trigger] count(o) by {
        let i = choose|i: int| 0 <= i < all.len() && all[i] == g;
        let leader = leaders(rows)[i];
        assert(g == group_of(rows, &leader));
        lemma_tally_is_sum(group_values(rows, leader, Side::Count), o.transaction_count);
    }
    lemma_listing_total(all, v, spent, cents);
    lemma_listing_total(all, v, often, count);
    lemma_total_parallel(
        all,
        leaders(rows),
        spent,
        |l: CategoryLine| group_share(rows, l, Side::All, w),
    );
    lemma_total_parallel(
        all,
        leaders(rows),
        often,
        |l: CategoryLine| group_share(rows, l, Side::Count, w),
    );
    law_groups_share_out(rows, Side::All, w);
    law_groups_share_out(rows, Side::Count, w);
    lemma_total_alike(
        rows,
        |l: CategoryLine| share(l, Side::All, w),
        |l: CategoryLine| number_of(l.entry.amount),
    );
    lemma_total_count(rows, |l: CategoryLine| share(l, Side::Count, w));
}

proof fn lemma_total_count<A>(rows: Seq<A>, f: spec_fn(A) -> int)
    requires
        forall|a: A| #[trigger] f(a) == 1,
    ensures
        total(rows, f) == rows.len(),
    decreases rows.len(),
{
    if rows.len() > 0 {
        lemma_total_count(rows.drop_last(), f);
    }
}

proof fn lemma_payee_group(b: &Budget, start: i64, end: i64, i: int)
    requires
        0 <= i < groups(payee_lines(b, start, end)).len(),
    ensures
        ({
            let g = groups(payee_lines(b, start, end))[i];
            &&& !g.spoiled() ==> g.outcome() is Ok
            &&& g.all matches Tally::Sum(s) ==> s < 0
            &&& g.count matches Tally::Sum(s) ==> s > 0
        }),
{
    let rows = payee_lines(b, start, end);
    lemma_leaders(rows);
    let leader = leaders(rows)[i];
    assert(rows.contains(leader));
    let f = |t: TransactionRow| lines_of_purchase(b, &t, start, end);
    assert forall|k: int| 0 <= k < rows.len() implies (#[trigger] rows[k]).entry.amount is Some
        && rows[k].entry.amount->0 < 0 by {
        lemma_gathered_members(b.transactions@, f, rows[k]);
    }
    lemma_group_sum(rows, leader, Side::All, -1, 1);
    lemma_group_sum(rows, leader, Side::Count, 1, 1);
}

/// Spending by payee fails only where a sum overflows, and every total is below
/// zero.
pub proof fn law_payee_spending(b: &Budget, start: i64, end: i64)
    ensures
        match summary(groups(payee_lines(b, start, end))) {
            Ok(v) => forall|i: int| 0 <= i < v.len() ==> (#[trigger] v[i]).total_cents < 0,
            Err(e) => exists|i: int|
                0 <= i < groups(payee_lines(b, start, end)).len() && (#[trigger] groups(
                    payee_lines(b, start, end),
                )[i]).spoiled(),
        },
{
    let all = groups(payee_lines(b, start, end));
    if forall|i: int| 0 <= i < all.len() ==> !(#[trigger] all[i]).spoiled() {
        assert forall|i: int| 0 <= i < all.len() implies (#[trigger] all[i]).outcome() is Ok by {
            lemma_payee_group(b, start, end, i);
        }
        lemma_summary_succeeds(all);
        match summary(all) {
            Ok(v) => {
                law_arranging_keeps_sums(all, |a: Group<PayeeLine>| 0);
                assert(arranged(all).take(all.len() as int) =~= arranged(all));
                lemma_shown(arranged(all), v);
                lemma_arranged_rows(all);
                assert forall|i: int| 0 <= i < v.len() implies (#[trigger] v[i]).total_cents < 0 by {
                    assert(all.contains(arranged(all)[i]));
                    let k = choose|k: int| 0 <= k < all.len() && all[k] == arranged(all)[i];
                    lemma_payee_group(b, start, end, k);
                }
            },
            Err(_) => {},
        }
    }
}

/// The payees account for every purchase: their totals sum up to what was spent,
/// and their counts to how often.
pub proof fn law_payees_account_for_all(
    b: &Budget,
    start: i64,
    end: i64,
    v: Seq<PayeeSpendingView>,
)
    requires
        summary(groups(payee_lines(b, start, end))) == Ok::<Seq<PayeeSpendingView>, DbError>(v),
    ensures
        total(v, |x: PayeeSpendingView| x.total_cents) == total(
            payee_lines(b, start, end),
            |l: PayeeLine| number_of(l.entry.amount),
        ),
        total(v, |x: PayeeSpendingView| x.transaction_count) == payee_lines(b, start, end).len(),
{
    let rows = payee_lines(b, start, end);
    let all = groups(rows);
    let w = |l: PayeeLine| true;
    let spent = |g: Group<PayeeLine>| group_share(rows, *g.leader, Side::All, w);
    let often = |g: Group<PayeeLine>| group_share(rows, *g.leader, Side::Count, w);
    let cents = |x: PayeeSpendingView| x.total_cents;
    let count = |x: PayeeSpendingView| x.transaction_count;
    assert forall|g: Group<PayeeLine>, o: PayeeSpendingView|
        all.contains(g) && #[trigger] g.outcome() == Ok::<PayeeSpendingView, DbError>(
            o,
        ) implies spent(g) == #[trigger] cents(o) by {
        let i = choose|i: int| 0 <= i < all.len() && all[i] == g;
        let leader = leaders(rows)[i];
        assert(g == group_of(rows, &leader));
        lemma_tally_is_sum(group_values(rows, leader, Side::All), o.total_cents);
    }
    assert forall|g: Group<PayeeLine>, o: PayeeSpendingView|
        all.contains(g) && #[trigger] g.outcome() == Ok::<PayeeSpendingView, DbError>(
            o,
        ) implies often(g) == #[trigger] count(o) by {
        let i = choose|i: int| 0 <= i < all.len() && all[i] == g;
        let leader = leaders(rows)[i];
        assert(g == group_of(rows, &leader));
        lemma_tally_is_sum(group_values(rows, leader, Side::Count), o.transaction_count);
    }
    lemma_listing_total(all, v, spent, cents);
    lemma_listing_total(all, v, often, count);
    lemma_total_parallel(
        all,
        leaders(rows),
        spent,
        |l: PayeeLine| group_share(rows, l, Side::All, w),
    );
    lemma_total_parallel(
        all,
        leaders(rows),
        often,
        |l: PayeeLine| group_share(rows, l, Side::Count, w),
    );
    law_groups_share_out(rows, Side::All, w);
    law_groups_share_out(rows, Side::Count, w);
    lemma_total_alike(
        rows,
        |l: PayeeLine| share(l, Side::All, w),
        |l: PayeeLine| number_of(l.entry.amount),
    );
    lemma_total_count(rows, |l: PayeeLine| share(l, Side::Count, w));
}

/// A listing holds each row once.
proof fn lemma_arranged_apart<A: Listed>(rows: Seq<A>, i: int, j: int) -> (places: (int, int))
    requires
        0 <= i < j < arranged(rows).len(),
    ensures
        0 <= places.0 < rows.len(),
        0 <= places.1 < rows.len(),
        places.0 != places.1,
        arranged(rows)[i] == rows[places.0],
        arranged(rows)[j] == rows[places.1],
{
    let keys = rows.map_values(|a: A| a.order_key());
    lemma_order_exists(keys);
    let p = order_of(keys);
    assert(listed_before(keys, p[i], p[j]));
    lemma_key_order(keys[p[i]], keys[p[j]], keys[p[i]]);
    (p[i], p[j])
}

/// Two groups of some rows have leaders that are not alike.
proof fn lemma_groups_apart<'a, A: Grouped>(rows: Seq<A>, x: int, y: int)
    requires
        sorts_into_groups::<A>(),
        0 <= x < groups::<'a, A>(rows).len(),
        0 <= y < groups::<'a, A>(rows).len(),
        x != y,
    ensures
        !groups::<'a, A>(rows)[x].leader.alike(groups::<'a, A>(rows)[y].leader),
{
    lemma_leaders(rows);
    let (l, m) = (leaders(rows)[x], leaders(rows)[y]);
    assert(*groups::<'a, A>(rows)[x].leader == l && *groups::<'a, A>(rows)[y].leader == m);
    if x < y {
        assert(!l.alike(&m));
    } else {
        assert(!m.alike(&l));
        if l.alike(&m) {
            assert(m.alike(&l));
        }
    }
}

/// A name stands in the summary by payee no more than once.
pub proof fn law_payee_names_distinct(
    b: &Budget,
    start: i64,
    end: i64,
    v: Seq<PayeeSpendingView>,
    i: int,
    j: int,
)
    requires
        summary(groups(payee_lines(b, start, end))) == Ok::<Seq<PayeeSpendingView>, DbError>(v),
        0 <= i < j < v.len(),
    ensures
        v[i].payee_name != v[j].payee_name,
{
    let rows = payee_lines(b, start, end);
    let all = groups(rows);
    law_arranging_keeps_sums(all, |g: Group<PayeeLine>| 0);
    assert(arranged(all).take(all.len() as int) =~= arranged(all));
    lemma_shown(arranged(all), v);
    assert(arranged(all)[i].outcome() == Ok::<PayeeSpendingView, DbError>(v[i]));
    assert(arranged(all)[j].outcome() == Ok::<PayeeSpendingView, DbError>(v[j]));
    let (x, y) = lemma_arranged_apart(all, i, j);
    lemma_groups_apart(rows, x, y);
}

// ── Budgets ──────────────────────────────────────────────────────────────────

proof fn lemma_running_total(values: Seq<int>, s: int)
    requires
        running_total(values) == Ok::<int, DbError>(s),
    ensures
        s == total(values, |v: int| v),
    decreases values.len(),
{
    if values.len() > 0 {
        match running_total(values.drop_last()) {
            Ok(before) => lemma_running_total(values.drop_last(), before),
            Err(_) => {},
        }
    }
}

/// The totals of a month are the sums over its categories, and in every category
/// and in the totals the balance is what was budgeted and what was spent.
pub proof fn law_budget_totals(
    b: &Budget,
    month: Seq<char>,
    start: i64,
    end: i64,
    m: BudgetMonthView,
)
    requires
        budget_of_month(b, month, start, end) == Ok::<BudgetMonthView, DbError>(m),
    ensures
        m.month == month,
        m.total_budgeted_cents == total(
            m.categories,
            |c: BudgetCategoryView| c.budgeted_cents,
        ),
        m.total_spent_cents == total(m.categories, |c: BudgetCategoryView| c.spent_cents),
        m.total_balance_cents == total(m.categories, |c: BudgetCategoryView| c.balance_cents),
        m.total_balance_cents == m.total_budgeted_cents + m.total_spent_cents,
{
    let rows = budget_lines(b, month_number(month), start, end);
    let v = m.categories;
    let budgeted = |c: BudgetCategoryView| c.budgeted_cents;
    let spent = |c: BudgetCategoryView| c.spent_cents;
    let balance = |c: BudgetCategoryView| c.balance_cents;
    law_arranging_keeps_sums(rows, |l: BudgetLine| 0);
    assert(arranged(rows).take(rows.len() as int) =~= arranged(rows));
    lemma_shown(arranged(rows), v);
    lemma_running_total(v.map_values(budgeted), m.total_budgeted_cents);
    lemma_running_total(v.map_values(spent), m.total_spent_cents);
    lemma_total_parallel(v.map_values(budgeted), v, |x: int| x, budgeted);
    lemma_total_parallel(v.map_values(spent), v, |x: int| x, spent);
    lemma_total_plus(v, budgeted, spent);
    assert forall|i: int| 0 <= i < v.len() implies balance(#[trigger] v[i]) == budgeted(v[i])
        + spent(v[i]) by {
        assert(arranged(rows)[i].outcome() == Ok::<BudgetCategoryView, DbError>(v[i]));
    }
    lemma_total_alike(v, balance, |c: BudgetCategoryView| budgeted(c) + spent(c));
}

} // verus!
