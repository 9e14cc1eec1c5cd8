//! What the budget of a month says.

use crate::answers::balances::sum_where;
use crate::answers::lists::{is_shown, lemma_gathered_is, lemma_listed};
use crate::answers::rows::{
    has_group, is_live, is_off, is_single, lemma_group_join, lemma_left_join, number, refers,
    shown_as,
};
use crate::db::budgets::{
    activity, allotments, budget_lines, budget_lines_through, counts_for, lines_of_budget,
    month_number, BudgetLine, InMonth,
};
use crate::db::laws::law_budget_totals;
use crate::db::sums::{lemma_total_alike, lemma_total_gathered, lemma_value_sum, number_of, total};
use crate::models::{
    amount_text, month_text, quotient, remainder, BudgetCategoryView, BudgetMonthView,
};
use crate::query::{picked, picked_row, Item};
use crate::server::errors::ToolErrorView;
use crate::server::reads::{answer_of, FoundView, Query};
use crate::sql::{left_join, lemma_tally_is_sum, meets_key, tally, value_sum, Tally};
use crate::tables::{Budget, BudgetRow, CategoryGroupRow, CategoryRow, TransactionRow};
use crate::text::{
    all_digits, digit_run, digits, digits_value, is_digit, leading_int, lemma_padded_round_trip,
    padded, string_view, text_before, without_char,
};
use vstd::prelude::*;
use vstd::string::*;

verus! {

// ── Rows ─────────────────────────────────────────────────────────────────────

/// A category with its group and with what a month allots to it.
pub struct BudgetedRow {
    pub category: CategoryRow,
    pub group: Option<CategoryGroupRow>,
    pub allotment: Option<BudgetRow>,
}

pub open spec fn group_ref<'a>(g: Option<CategoryGroupRow>) -> Option<&'a CategoryGroupRow> {
    match g {
        Some(g) => Some(&g),
        None => None,
    }
}

/// The row allots an amount to the category in the month.
pub open spec fn allots(a: BudgetRow, month: int, category: CategoryRow) -> bool {
    a.month is Some && a.month->0 == month && refers(a.category, category.id)
}

/// A row of either of the two tables that keep what is budgeted.
pub open spec fn is_kept(b: &Budget, a: BudgetRow) -> bool {
    b.zero_budgets@.contains(a) || b.reflect_budgets@.contains(a)
}

/// What the month allots to the category, or none where it allots nothing.
pub open spec fn is_allotment(
    b: &Budget,
    month: int,
    category: CategoryRow,
    a: Option<BudgetRow>,
) -> bool {
    match a {
        Some(a) => is_kept(b, a) && allots(a, month, category),
        None => forall|a: BudgetRow| #[trigger] is_kept(b, a) ==> !allots(a, month, category),
    }
}

/// A category that is neither deleted nor hidden, with its group and its
/// allotment.
pub open spec fn is_budgeted(b: &Budget, month: int, row: BudgetedRow) -> bool {
    &&& b.categories@.contains(row.category)
    &&& is_live(row.category.tombstone)
    &&& is_off(row.category.hidden)
    &&& has_group(b, row.category.cat_group, group_ref(row.group))
    &&& is_allotment(b, month, row.category, row.allotment)
}

/// A transaction that is spent in the category: not the whole of a split, of a day
/// from `start` up to, but without, `end`.
pub open spec fn is_spent_in(t: TransactionRow, c: CategoryRow, start: i64, end: i64) -> bool {
    &&& is_single(t)
    &&& t.date is Some && start <= t.date->0 < end
    &&& refers(t.category, c.id)
}

pub open spec fn allotted_cents(a: Option<BudgetRow>) -> int {
    match a {
        Some(a) => number(a.amount),
        None => 0,
    }
}

/// What is shown of a category: what the month allots to it, what was spent in it,
/// and what is left, each with its text.
pub open spec fn shows_budget(
    b: &Budget,
    start: i64,
    end: i64,
    row: BudgetedRow,
    x: BudgetCategoryView,
) -> bool {
    &&& row.category.id is Some && x.category_id == row.category.id->0@
    &&& row.category.name is Some && x.category_name == row.category.name->0@
    &&& x.group_name == match row.group {
        Some(g) => shown_as(g.name, ""@),
        None => ""@,
    }
    &&& x.budgeted_cents == allotted_cents(row.allotment)
    &&& x.spent_cents == sum_where(
        b,
        |t: TransactionRow| is_spent_in(t, row.category, start, end),
    )
    &&& x.balance_cents == x.budgeted_cents + x.spent_cents
    &&& x.budgeted_display == amount_text(x.budgeted_cents)
    &&& x.spent_display == amount_text(x.spent_cents)
    &&& x.balance_display == amount_text(x.balance_cents)
}

/// The place of a nullable number; null goes first.
pub open spec fn place(column: Option<i64>) -> int {
    match column {
        Some(v) => v as int,
        None => i64::MIN - 1,
    }
}

pub open spec fn group_place(g: Option<CategoryGroupRow>) -> int {
    match g {
        Some(g) => place(g.sort_order),
        None => i64::MIN - 1,
    }
}

/// By the order of the groups, then that of the categories, then by name.
pub open spec fn is_in_order(a: BudgetedRow, b: BudgetedRow) -> bool {
    ||| group_place(a.group) < group_place(b.group)
    ||| {
        &&& group_place(a.group) == group_place(b.group)
        &&& place(a.category.sort_order) < place(b.category.sort_order)
    }
    ||| {
        &&& group_place(a.group) == group_place(b.group)
        &&& place(a.category.sort_order) == place(b.category.sort_order)
        &&& !text_before(b.category.name->0@, a.category.name->0@)
    }
}

/// The categories of the month, each that is neither deleted nor hidden, in order;
/// and the totals, which are the sums over them.
pub open spec fn is_budget(
    b: &Budget,
    month: Seq<char>,
    start: i64,
    end: i64,
    m: BudgetMonthView,
    at: Seq<BudgetedRow>,
) -> bool {
    &&& m.month == month
    &&& at.len() == m.categories.len()
    &&& forall|i: int|
        #![trigger m.categories[i]]
        #![trigger at[i]]
        0 <= i < at.len() ==> is_budgeted(b, month_number(month), at[i]) && shows_budget(
            b,
            start,
            end,
            at[i],
            m.categories[i],
        )
    &&& forall|i: int, j: int|
        #![trigger at[i], at[j]]
        0 <= i < j < at.len() ==> is_in_order(at[i], at[j])
    &&& forall|row: BudgetedRow| #[trigger]
        is_budgeted(b, month_number(month), row) ==> exists|i: int|
            0 <= i < at.len() && (#[trigger] at[i]).category == row.category && at[i].group
                == row.group && allotted_cents(at[i].allotment) == allotted_cents(row.allotment)
    &&& m.total_budgeted_cents == total(m.categories, |c: BudgetCategoryView| c.budgeted_cents)
    &&& m.total_spent_cents == total(m.categories, |c: BudgetCategoryView| c.spent_cents)
    &&& m.total_balance_cents == m.total_budgeted_cents + m.total_spent_cents
    &&& m.total_budgeted_display == amount_text(m.total_budgeted_cents)
    &&& m.total_spent_display == amount_text(m.total_spent_cents)
    &&& m.total_balance_display == amount_text(m.total_balance_cents)
}

// ── Joins ────────────────────────────────────────────────────────────────────

proof fn lemma_value_of_digits(s: Seq<char>)
    requires
        all_digits(s),
    ensures
        digits_value(s) >= 0,
    decreases s.len(),
{
    if s.len() > 0 {
        assert(is_digit(s[s.len() - 1]));
        assert forall|i: int| 0 <= i < s.drop_last().len() implies is_digit(
            #[trigger] s.drop_last()[i],
        ) by {
            assert(s.drop_last()[i] == s[i]);
        }
        lemma_value_of_digits(s.drop_last());
    }
}

proof fn lemma_run_of_digits(s: Seq<char>)
    ensures
        0 <= digit_run(s) <= s.len(),
        all_digits(s.take(digit_run(s))),
    decreases s.len(),
{
    if s.len() > 0 && is_digit(s[0]) {
        let rest = s.drop_first();
        lemma_run_of_digits(rest);
        let run = s.take(digit_run(s));
        assert forall|i: int| 0 <= i < run.len() implies is_digit(#[trigger] run[i]) by {
            if i > 0 {
                assert(run[i] == rest.take(digit_run(rest))[i - 1]);
            }
        }
    }
}

proof fn lemma_leading_int(s: Seq<char>)
    ensures
        i64::MIN <= leading_int(s) <= i64::MAX,
    decreases s.len(),
{
    lemma_run_of_digits(s);
    lemma_value_of_digits(s.take(digit_run(s)));
    if s.len() > 0 {
        let rest = s.drop_first();
        lemma_run_of_digits(rest);
        lemma_value_of_digits(rest.take(digit_run(rest)));
        lemma_leading_int(rest);
    }
}

proof fn lemma_allotments<'a>(b: &'a Budget, month: int, a: BudgetRow)
    requires
        i64::MIN <= month <= i64::MAX,
    ensures
        allotments(b, month).contains(Item { row: &a }) <==> is_kept(b, a) && a.month is Some
            && a.month->0 == month,
{
    let x = Item { row: &a };
    let p = InMonth { month: month as i64 };
    let f = |row: BudgetRow| picked_row(&p, &row);
    let (zero, reflect) = (
        picked::<BudgetRow, InMonth>(b.zero_budgets@, &p),
        picked::<BudgetRow, InMonth>(b.reflect_budgets@, &p),
    );
    let all = allotments(b, month);
    lemma_gathered_is(b.zero_budgets@, f, x);
    lemma_gathered_is(b.reflect_budgets@, f, x);
    assert(all =~= zero + reflect);
    if all.contains(x) {
        let i = choose|i: int| 0 <= i < all.len() && all[i] == x;
        if i < zero.len() {
            assert(zero[i] == x);
            let k = choose|k: int|
                0 <= k < b.zero_budgets@.len() && f(#[trigger] b.zero_budgets@[k]).contains(x);
            assert(b.zero_budgets@[k] == a);
        } else {
            assert(reflect[i - zero.len()] == x);
            let k = choose|k: int|
                0 <= k < b.reflect_budgets@.len() && f(#[trigger] b.reflect_budgets@[k]).contains(x);
            assert(b.reflect_budgets@[k] == a);
        }
    }
    if is_kept(b, a) && a.month is Some && a.month->0 == month {
        if b.zero_budgets@.contains(a) {
            let k = choose|k: int| 0 <= k < b.zero_budgets@.len() && b.zero_budgets@[k] == a;
            assert(f(b.zero_budgets@[k])[0] == x);
            assert(zero.contains(x));
            let i = choose|i: int| 0 <= i < zero.len() && zero[i] == x;
            assert(all[i] == x);
        } else {
            let k = choose|k: int| 0 <= k < b.reflect_budgets@.len() && b.reflect_budgets@[k] == a;
            assert(f(b.reflect_budgets@[k])[0] == x);
            assert(reflect.contains(x));
            let i = choose|i: int| 0 <= i < reflect.len() && reflect[i] == x;
            assert(all[zero.len() + i] == x);
        }
    }
}

pub open spec fn item_row<'a>(a: Option<&'a Item<'a, BudgetRow>>) -> Option<BudgetRow> {
    match a {
        Some(a) => Some(*a.row),
        None => None,
    }
}

proof fn lemma_allotment_join<'a>(
    b: &'a Budget,
    month: int,
    c: CategoryRow,
    a: Option<&'a Item<'a, BudgetRow>>,
)
    requires
        i64::MIN <= month <= i64::MAX,
    ensures
        left_join(allotments(b, month), string_view(c.id)).contains(a) <==> is_allotment(
            b,
            month,
            c,
            item_row(a),
        ),
{
    let all = allotments(b, month);
    lemma_left_join(all, string_view(c.id), a);
    match a {
        Some(x) => lemma_allotments(b, month, *x.row),
        None => {
            if is_allotment(b, month, c, None) {
                assert forall|r: Item<BudgetRow>| #[trigger] all.contains(r) implies !meets_key(
                    &r,
                    string_view(c.id),
                ) by {
                    lemma_allotments(b, month, *r.row);
                    assert(is_kept(b, *r.row));
                }
            } else {
                let r = choose|r: BudgetRow| #[trigger] is_kept(b, r) && allots(r, month, c);
                lemma_allotments(b, month, r);
                let x = Item { row: &r };
                assert(all.contains(x));
                assert(meets_key(&x, string_view(c.id)));
            }
        },
    }
}

/// The lines of the budget, by the rows of the tables.
proof fn lemma_budget_line<'a>(
    b: &'a Budget,
    month: int,
    start: i64,
    end: i64,
    line: BudgetLine<'a>,
) -> (row: BudgetedRow)
    requires
        i64::MIN <= month <= i64::MAX,
        budget_lines(b, month, start, end).contains(line),
    ensures
        is_budgeted(b, month, row),
        row.category == *line.category,
        group_ref(row.group) == line.group,
        line.budgeted == allotted_cents(row.allotment),
        line.spent == tally(Tally::Empty, activity(b, string_view(line.category.id), start, end)),
{
    let f = |c: CategoryRow| lines_of_budget(b, &c, month, start, end);
    lemma_gathered_is(b.categories@, f, line);
    let k = choose|k: int|
        0 <= k < b.categories@.len() && f(#[trigger] b.categories@[k]).contains(line);
    let c = b.categories@[k];
    assert(b.categories@.contains(c));
    let found = left_join::<'a, CategoryGroupRow>(b.category_groups@, string_view(c.cat_group));
    let g = |x: Option<&'a CategoryGroupRow>| budget_lines_through(b, &c, x, month, start, end);
    lemma_gathered_is(found, g, line);
    let j = choose|j: int| 0 <= j < found.len() && g(#[trigger] found[j]).contains(line);
    let made = g(found[j]);
    let i = choose|i: int| 0 <= i < made.len() && made[i] == line;
    let joined = left_join::<'a, Item<'a, BudgetRow>>(allotments(b, month), string_view(c.id));
    let a = joined[i];
    assert(joined.contains(a));
    assert(found.contains(found[j]));
    lemma_allotment_join(b, month, c, a);
    lemma_group_join(b, c.cat_group, found[j]);
    let group: Option<CategoryGroupRow> = match found[j] {
        Some(g) => Some(*g),
        None => None,
    };
    BudgetedRow { category: c, group, allotment: item_row(a) }
}

proof fn lemma_budget_line_of<'a>(
    b: &'a Budget,
    month: int,
    start: i64,
    end: i64,
    row: BudgetedRow,
) -> (line: BudgetLine<'a>)
    requires
        i64::MIN <= month <= i64::MAX,
        is_budgeted(b, month, row),
    ensures
        budget_lines(b, month, start, end).contains(line),
        row.category == *line.category,
        group_ref(row.group) == line.group,
        line.budgeted == allotted_cents(row.allotment),
{
    let c = row.category;
    let f = |c: CategoryRow| lines_of_budget(b, &c, month, start, end);
    let found = left_join::<'a, CategoryGroupRow>(b.category_groups@, string_view(c.cat_group));
    let g = |x: Option<&'a CategoryGroupRow>| budget_lines_through(b, &c, x, month, start, end);
    let joined = left_join::<'a, Item<'a, BudgetRow>>(allotments(b, month), string_view(c.id));
    let a: Option<&'a Item<'a, BudgetRow>> = match row.allotment {
        Some(a) => Some(&Item { row: &a }),
        None => None,
    };
    lemma_allotment_join(b, month, c, a);
    lemma_group_join(b, c.cat_group, group_ref(row.group));
    let i = choose|i: int| 0 <= i < joined.len() && joined[i] == a;
    let j = choose|j: int| 0 <= j < found.len() && found[j] == group_ref(row.group);
    let line = g(found[j])[i];
    assert(g(found[j]).contains(line));
    lemma_gathered_is(found, g, line);
    let k = choose|k: int| 0 <= k < b.categories@.len() && b.categories@[k] == c;
    assert(f(b.categories@[k]).contains(line));
    lemma_gathered_is(b.categories@, f, line);
    line
}

/// What was spent in a category, by the rows of the table.
proof fn lemma_spent(b: &Budget, c: CategoryRow, start: i64, end: i64)
    ensures
        value_sum(activity(b, string_view(c.id), start, end)) == sum_where(
            b,
            |t: TransactionRow| is_spent_in(t, c, start, end),
        ),
{
    let f = |t: TransactionRow|
        if counts_for(&t, string_view(c.id), start, end) {
            seq![t.amount]
        } else {
            Seq::empty()
        };
    let n = |v: Option<i64>| number_of(v);
    let counts = |t: TransactionRow| is_spent_in(t, c, start, end);
    lemma_value_sum(activity(b, string_view(c.id), start, end));
    lemma_total_gathered(b.transactions@, f, n);
    let by_row = |t: TransactionRow|
        if counts(t) {
            number(t.amount)
        } else {
            0
        };
    let h = |t: TransactionRow| total(f(t), n);
    assert forall|i: int| 0 <= i < b.transactions@.len() implies h(#[trigger] b.transactions@[i])
        == by_row(b.transactions@[i]) by {
        let t = b.transactions@[i];
        let one = seq![t.amount];
        assert(one.drop_last() =~= Seq::empty());
        assert(total(one.drop_last(), n) == 0);
        assert(total(Seq::<Option<i64>>::empty(), n) == 0);
    }
    lemma_total_alike(b.transactions@, h, by_row);
}

// ── Laws ─────────────────────────────────────────────────────────────────────

/// The answer to the question for the budget of a month shows, for each category
/// that is neither deleted nor hidden, what the tables allot to it in the month,
/// what its transactions of the month sum up to, and what is left; and the totals
/// of them. Every text stands beside the amount that it is the text of.
#[verifier::rlimit(40)]
pub proof fn law_budget_is_of_the_month(
    b: &Budget,
    month: &str,
    start: i64,
    end: i64,
    m: BudgetMonthView,
) -> (at: Seq<BudgetedRow>)
    requires
        answer_of(b, Query::BudgetMonth { month, start, end }) == Ok::<FoundView, ToolErrorView>(
            FoundView::BudgetMonth(m),
        ),
    ensures
        is_budget(b, month@, start, end, m, at),
{
    let n = month_number(month@);
    lemma_leading_int(without_char(month@, '-'));
    let rows = budget_lines(b, n, start, end);
    let v = m.categories;
    law_budget_totals(b, month@, start, end, m);
    let places = lemma_listed(rows, -1, v);
    let at = Seq::new(places.len(), |i: int| row_of(b, n, start, end, rows[places[i]]));
    assert forall|i: int|
        #![trigger v[i]]
        #![trigger at[i]]
        0 <= i < at.len() implies is_budgeted(b, n, at[i]) && shows_budget(
        b,
        start,
        end,
        at[i],
        v[i],
    ) && is_row_of(b, n, start, end, rows[places[i]], at[i]) by {
        assert(is_shown(rows, places[i], v[i]));
        let line = rows[places[i]];
        assert(rows.contains(line));
        let row = lemma_budget_line(b, n, start, end, line);
        assert(is_row_of(b, n, start, end, line, row));
        lemma_tally_is_sum(activity(b, string_view(line.category.id), start, end), v[i].spent_cents);
        lemma_spent(b, at[i].category, start, end);
    }
    assert forall|i: int, j: int|
        #![trigger at[i], at[j]]
        0 <= i < j < at.len() implies is_in_order(at[i], at[j]) by {
        assert(is_shown(rows, places[i], v[i]) && is_shown(rows, places[j], v[j]));
        assert(places[i] != places[j]);
        assert(is_row_of(b, n, start, end, rows[places[i]], at[i]));
        assert(is_row_of(b, n, start, end, rows[places[j]], at[j]));
    }
    assert forall|row: BudgetedRow| #[trigger] is_budgeted(b, n, row) implies exists|i: int|
        0 <= i < at.len() && (#[trigger] at[i]).category == row.category && at[i].group == row.group
            && allotted_cents(at[i].allotment) == allotted_cents(row.allotment) by {
        let line = lemma_budget_line_of(b, n, start, end, row);
        let k = choose|k: int| 0 <= k < rows.len() && rows[k] == line;
        assert(places.contains(k));
        let i = choose|i: int| 0 <= i < places.len() && places[i] == k;
        assert(is_row_of(b, n, start, end, rows[places[i]], at[i]));
        assert(at[i].category == row.category);
    }
    at
}

proof fn lemma_without_digits(a: Seq<char>)
    requires
        all_digits(a),
    ensures
        without_char(a, '-') == a,
    decreases a.len(),
{
    if a.len() > 0 {
        let before = a.drop_last();
        assert(is_digit(a[a.len() - 1]));
        assert forall|i: int| 0 <= i < before.len() implies is_digit(#[trigger] before[i]) by {
            assert(before[i] == a[i]);
        }
        lemma_without_digits(before);
        assert(before.push(a.last()) =~= a);
    }
}

proof fn lemma_without_joined(a: Seq<char>, b: Seq<char>)
    ensures
        without_char(a + b, '-') == without_char(a, '-') + without_char(b, '-'),
    decreases b.len(),
{
    if b.len() == 0 {
        assert(a + b =~= a);
        assert(without_char(a, '-') + b =~= without_char(a, '-'));
    } else {
        let before = b.drop_last();
        assert((a + b).drop_last() =~= a + before);
        assert((a + b).last() == b.last());
        lemma_without_joined(a, before);
        if b.last() != '-' {
            assert((without_char(a, '-') + without_char(before, '-')).push(b.last())
                =~= without_char(a, '-') + without_char(before, '-').push(b.last()));
        }
    }
}

proof fn lemma_all_run(s: Seq<char>)
    requires
        all_digits(s),
    ensures
        digit_run(s) == s.len(),
    decreases s.len(),
{
    if s.len() > 0 {
        assert(is_digit(s[0]));
        let rest = s.drop_first();
        assert forall|i: int| 0 <= i < rest.len() implies is_digit(#[trigger] rest[i]) by {
            assert(rest[i] == s[i + 1]);
        }
        lemma_all_run(rest);
    }
}

/// The month of a budget is looked up under its number YYYYMM.
pub proof fn law_month_is_looked_up_by_its_number(ym: int)
    requires
        0 <= ym <= i64::MAX,
    ensures
        month_number(month_text(ym)) == ym,
{
    let (y, m) = (quotient(ym, 100), remainder(ym, 100));
    let (a, b) = (padded(y, 4), padded(m, 2));
    lemma_padded_round_trip(y, 4);
    lemma_padded_round_trip(m, 2);
    reveal_with_fuel(digits, 3);
    assert(b.len() == 2);
    reveal_strlit("-");
    let dash = "-"@;
    assert(dash =~= seq!['-']);
    reveal_with_fuel(without_char, 2);
    assert(dash.drop_last() =~= Seq::empty());
    assert(without_char(dash, '-') =~= Seq::empty());
    lemma_without_joined(a + dash, b);
    lemma_without_joined(a, dash);
    lemma_without_digits(a);
    lemma_without_digits(b);
    let s = a + b;
    assert(without_char(month_text(ym), '-') =~= s);
    assert forall|i: int| 0 <= i < s.len() implies is_digit(#[trigger] s[i]) by {
        if i < a.len() {
            assert(s[i] == a[i]);
        } else {
            assert(s[i] == b[i - a.len()]);
        }
    }
    lemma_all_run(s);
    assert(s.take(digit_run(s)) =~= s);
    assert(s.drop_last().drop_last() =~= a);
    assert(b.drop_last().drop_last() =~= Seq::empty());
    assert(s.last() == b.last() && s.drop_last().last() == b.drop_last().last());
    reveal_with_fuel(digits_value, 3);
    assert(digits_value(s) == digits_value(a) * 100 + digits_value(b));
    assert(is_digit(s[0]));
}

/// The row is the one that the line was made of.
spec fn is_row_of(
    b: &Budget,
    month: int,
    start: i64,
    end: i64,
    line: BudgetLine,
    row: BudgetedRow,
) -> bool {
    &&& is_budgeted(b, month, row)
    &&& row.category == *line.category
    &&& group_ref(row.group) == line.group
    &&& line.budgeted == allotted_cents(row.allotment)
    &&& line.spent == tally(Tally::Empty, activity(b, string_view(line.category.id), start, end))
}

spec fn row_of(b: &Budget, month: int, start: i64, end: i64, line: BudgetLine) -> BudgetedRow {
    choose|row: BudgetedRow| #[trigger] is_row_of(b, month, start, end, line, row)
}

} // verus!
