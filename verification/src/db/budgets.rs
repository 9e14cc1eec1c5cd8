//! What months budget and what was spent in them.

use crate::db::months::{in_range, is_in_range};
use crate::db::spending::{get_group_name, group_name};
use crate::models::{
    amount_text, format_amount, in_i64, BudgetCategory, BudgetCategoryView, BudgetMonth,
    BudgetMonthView,
};
use crate::query::{
    gathered, list_groups, out_views, pick_rows, picked, summary, Item, Listed, Pick, Summed,
};
use crate::sql::{
    add_value, ascending, equal, equal_text, finish_sum, is_zero, join_left, left_join, not_set,
    rank, sum_or_zero, tally, unset, zero, DbError, Keyed, SortKey, SortKeyView, Tally,
};
use crate::tables::{Budget, BudgetRow, CategoryGroupRow, CategoryRow, TransactionRow};
use crate::text::{
    as_text, copy_optional, leading_int, read_leading_int, remove_char, str_or, string_view,
    text_or, text_view, without_char,
};
use vstd::prelude::*;
use vstd::string::*;

verus! {

/// What is allotted in one month.
pub struct InMonth {
    pub month: i64,
}

impl Pick<BudgetRow> for InMonth {
    open spec fn picks(&self, row: &BudgetRow) -> bool {
        row.month == Some(self.month)
    }

    fn is_pick(&self, row: &BudgetRow) -> (r: bool) {
        match row.month {
            Some(m) => m == self.month,
            None => false,
        }
    }
}

impl<'a> Keyed for Item<'a, BudgetRow> {
    open spec fn key(&self) -> Option<Seq<char>> {
        string_view(self.row.category)
    }

    open spec fn present(&self) -> bool {
        true
    }

    fn meets(&self, key: Option<&str>) -> (r: bool) {
        equal_text(key, as_text(&self.row.category))
    }
}

/// What a month allots. A category has its amount in one of the two tables.
pub open spec fn allotments<'a>(b: &'a Budget, month: int) -> Seq<Item<'a, BudgetRow>> {
    picked(b.zero_budgets@, &(InMonth { month: month as i64 })) + picked(
        b.reflect_budgets@,
        &(InMonth { month: month as i64 }),
    )
}

fn find_allotments<'a>(b: &'a Budget, month: i64) -> (r: Vec<Item<'a, BudgetRow>>)
    ensures
        r@ == allotments(b, month as int),
{
    let mut out = pick_rows(&b.zero_budgets, &InMonth { month });
    let tracked_rows = pick_rows(&b.reflect_budgets, &InMonth { month });
    let ghost was = out@;
    let n: usize = tracked_rows.len();
    let mut i: usize = 0;
    while i < n
        invariant
            i <= n == tracked_rows@.len(),
            out@ =~= was + tracked_rows@.take(i as int),
        decreases n - i,
    {
        out.push(Item { row: tracked_rows[i].row });
        i = i + 1;
    }
    assert(tracked_rows@.take(n as int) =~= tracked_rows@);
    out
}

pub open spec fn allotted(row: Option<&Item<BudgetRow>>) -> int {
    match row {
        Some(item) => match item.row.amount {
            Some(v) => v as int,
            None => 0,
        },
        None => 0,
    }
}

fn get_allotted(row: Option<&Item<BudgetRow>>) -> (r: i64)
    ensures
        r == allotted(row),
{
    match row {
        Some(item) => match item.row.amount {
            Some(v) => v,
            None => 0,
        },
        None => 0,
    }
}

/// A transaction that counts for a category: not deleted, and a part of a split
/// but not its whole.
pub open spec fn counts_for(t: &TransactionRow, category: Option<Seq<char>>, start: i64, end: i64) -> bool {
    &&& is_zero(t.tombstone)
    &&& unset(t.is_parent)
    &&& in_range(t.date, start, end)
    &&& equal(string_view(t.category), category)
}

/// The amounts that count for a category from `start` up to, but without, `end`.
pub open spec fn activity(b: &Budget, category: Option<Seq<char>>, start: i64, end: i64) -> Seq<
    Option<i64>,
> {
    gathered(
        b.transactions@,
        |t: TransactionRow|
            if counts_for(&t, category, start, end) {
                seq![t.amount]
            } else {
                Seq::empty()
            },
    )
}

fn sum_activity(b: &Budget, category: Option<&str>, start: i64, end: i64) -> (r: Tally)
    ensures
        r == tally(Tally::Empty, activity(b, text_view(category), start, end)),
{
    let ghost f = |t: TransactionRow|
        if counts_for(&t, text_view(category), start, end) {
            seq![t.amount]
        } else {
            Seq::empty()
        };
    let mut acc = Tally::Empty;
    let n: usize = b.transactions.len();
    let mut i: usize = 0;
    assert(b.transactions@.take(0) =~= Seq::<TransactionRow>::empty());
    while i < n
        invariant
            i <= n == b.transactions@.len(),
            f == (|t: TransactionRow|
                if counts_for(&t, text_view(category), start, end) {
                    seq![t.amount]
                } else {
                    Seq::empty()
                }),
            acc == tally(Tally::Empty, gathered(b.transactions@.take(i as int), f)),
        decreases n - i,
    {
        let ghost before = gathered(b.transactions@.take(i as int), f);
        assert(b.transactions@.take(i + 1).drop_last() =~= b.transactions@.take(i as int));
        let t = &b.transactions[i];
        assert(before + Seq::<Option<i64>>::empty() =~= before);
        assert((before + seq![t.amount]).drop_last() =~= before);
        if zero(&t.tombstone) && not_set(&t.is_parent) && is_in_range(&t.date, start, end)
            && equal_text(as_text(&t.category), category) {
            acc = add_value(acc, t.amount);
        }
        i = i + 1;
    }
    assert(b.transactions@.take(n as int) =~= b.transactions@);
    acc
}

/// A category in a month.
pub struct BudgetLine<'a> {
    pub category: &'a CategoryRow,
    pub group: Option<&'a CategoryGroupRow>,
    pub budgeted: i64,
    pub spent: Tally,
}

pub open spec fn budget_lines_through<'a>(
    b: &'a Budget,
    c: &'a CategoryRow,
    group: Option<&'a CategoryGroupRow>,
    month: int,
    start: i64,
    end: i64,
) -> Seq<BudgetLine<'a>> {
    left_join(allotments(b, month), string_view(c.id)).map_values(
        |a: Option<&'a Item<'a, BudgetRow>>|
            BudgetLine {
                category: c,
                group,
                budgeted: allotted(a) as i64,
                spent: tally(Tally::Empty, activity(b, string_view(c.id), start, end)),
            },
    )
}

pub open spec fn lines_of_budget<'a>(
    b: &'a Budget,
    c: &'a CategoryRow,
    month: int,
    start: i64,
    end: i64,
) -> Seq<BudgetLine<'a>> {
    if is_zero(c.tombstone) && unset(c.hidden) {
        gathered(
            left_join(b.category_groups@, string_view(c.cat_group)),
            |g: Option<&'a CategoryGroupRow>| budget_lines_through(b, c, g, month, start, end),
        )
    } else {
        Seq::empty()
    }
}

/// The categories that are neither deleted nor hidden, with what the month
/// allots to them and what was spent in it.
pub open spec fn budget_lines<'a>(b: &'a Budget, month: int, start: i64, end: i64) -> Seq<
    BudgetLine<'a>,
> {
    gathered(b.categories@, |c: CategoryRow| lines_of_budget(b, &c, month, start, end))
}

fn find_lines_of_budget<'a>(
    b: &'a Budget,
    c: &'a CategoryRow,
    allotments_of_month: &Vec<Item<'a, BudgetRow>>,
    month: i64,
    start: i64,
    end: i64,
) -> (r: Vec<BudgetLine<'a>>)
    requires
        allotments_of_month@ == allotments(b, month as int),
        is_zero(c.tombstone) && unset(c.hidden),
    ensures
        r@ == lines_of_budget(b, c, month as int, start, end),
{
    let spent = sum_activity(b, as_text(&c.id), start, end);
    let found = join_left(&b.category_groups, as_text(&c.cat_group));
    let amounts = join_left(allotments_of_month, as_text(&c.id));
    let mut out: Vec<BudgetLine<'a>> = Vec::new();
    let ghost f = |g: Option<&'a CategoryGroupRow>|
        budget_lines_through(b, c, g, month as int, start, end);
    let n: usize = found.len();
    let mut i: usize = 0;
    assert(found@.take(0) =~= Seq::<Option<&'a CategoryGroupRow>>::empty());
    while i < n
        invariant
            i <= n == found@.len(),
            f == (|g: Option<&'a CategoryGroupRow>|
                budget_lines_through(b, c, g, month as int, start, end)),
            amounts@ == left_join(allotments(b, month as int), string_view(c.id)),
            spent == tally(Tally::Empty, activity(b, string_view(c.id), start, end)),
            out@ =~= gathered(found@.take(i as int), f),
        decreases n - i,
    {
        assert(found@.take(i + 1).drop_last() =~= found@.take(i as int));
        let group = found[i];
        let ghost was = out@;
        let mut j: usize = 0;
        while j < amounts.len()
            invariant
                j <= amounts@.len(),
                amounts@ == left_join(allotments(b, month as int), string_view(c.id)),
                spent == tally(Tally::Empty, activity(b, string_view(c.id), start, end)),
                out@ =~= was + budget_lines_through(b, c, group, month as int, start, end).take(
                    j as int,
                ),
            decreases amounts@.len() - j,
        {
            out.push(BudgetLine { category: c, group, budgeted: get_allotted(amounts[j]), spent });
            j = j + 1;
        }
        i = i + 1;
    }
    assert(found@.take(n as int) =~= found@);
    out
}

fn find_budget_lines<'a>(b: &'a Budget, month: i64, start: i64, end: i64) -> (r: Vec<BudgetLine<'a>>)
    ensures
        r@ == budget_lines(b, month as int, start, end),
{
    let amounts = find_allotments(b, month);
    let mut out: Vec<BudgetLine<'a>> = Vec::new();
    let ghost f = |c: CategoryRow| lines_of_budget(b, &c, month as int, start, end);
    let n: usize = b.categories.len();
    let mut i: usize = 0;
    assert(b.categories@.take(0) =~= Seq::<CategoryRow>::empty());
    while i < n
        invariant
            i <= n == b.categories@.len(),
            amounts@ == allotments(b, month as int),
            f == (|c: CategoryRow| lines_of_budget(b, &c, month as int, start, end)),
            out@ =~= gathered(b.categories@.take(i as int), f),
        decreases n - i,
    {
        assert(b.categories@.take(i + 1).drop_last() =~= b.categories@.take(i as int));
        let c = &b.categories[i];
        assert(f(b.categories@[i as int]) == lines_of_budget(b, c, month as int, start, end));
        if zero(&c.tombstone) && not_set(&c.hidden) {
            let found = find_lines_of_budget(b, c, &amounts, month, start, end);
            let ghost was = out@;
            let ghost all = found@;
            for line in it: found
                invariant
                    it.seq() == all,
                    out@ =~= was + all.take(it.index()),
            {
                out.push(line);
            }
            assert(all.take(all.len() as int) =~= all);
        }
        i = i + 1;
    }
    assert(b.categories@.take(n as int) =~= b.categories@);
    out
}

impl<'a> Listed for BudgetLine<'a> {
    type Out = BudgetCategory;

    open spec fn order_key(&self) -> SortKeyView {
        SortKeyView {
            first: match self.group {
                Some(g) => ascending(g.sort_order),
                None => ascending(None),
            },
            second: ascending(self.category.sort_order),
            text: string_view(self.category.name),
        }
    }

    open spec fn outcome(&self) -> Result<BudgetCategoryView, DbError> {
        match (sum_or_zero(self.spent), self.category.id, self.category.name) {
            (Err(e), _, _) => Err(e),
            (Ok(spent), id, name) => if !in_i64(self.budgeted + spent) {
                Err(DbError::IntegerOverflow)
            } else {
                match (id, name) {
                    (None, _) => Err(DbError::NullColumn(0)),
                    (Some(_), None) => Err(DbError::NullColumn(1)),
                    (Some(id), Some(name)) => Ok(
                        BudgetCategoryView {
                            category_id: id@,
                            category_name: name@,
                            group_name: text_or(group_name(self.group), ""@),
                            budgeted_cents: self.budgeted as int,
                            budgeted_display: amount_text(self.budgeted as int),
                            spent_cents: spent,
                            spent_display: amount_text(spent),
                            balance_cents: self.budgeted + spent,
                            balance_display: amount_text(self.budgeted + spent),
                        },
                    ),
                }
            },
        }
    }

    fn make_key(&self) -> (k: SortKey) {
        let first: i128 = match self.group {
            Some(g) => rank(&g.sort_order),
            None => rank(&None),
        };
        SortKey {
            first,
            second: rank(&self.category.sort_order),
            text: copy_optional(&self.category.name),
        }
    }

    fn show(&self) -> (r: Result<BudgetCategory, DbError>) {
        let spent: i64 = match finish_sum(self.spent) {
            Ok(v) => v,
            Err(e) => return Err(e),
        };
        let balance: i64 = match self.budgeted.checked_add(spent) {
            Some(v) => v,
            None => return Err(DbError::IntegerOverflow),
        };
        match (&self.category.id, &self.category.name) {
            (None, _) => Err(DbError::NullColumn(0)),
            (Some(_), None) => Err(DbError::NullColumn(1)),
            (Some(id), Some(name)) => {
                let shown = BudgetCategory {
                    category_id: id.clone(),
                    category_name: name.clone(),
                    group_name: str_or(get_group_name(self.group), "").to_string(),
                    budgeted_cents: self.budgeted,
                    budgeted_display: format_amount(self.budgeted),
                    spent_cents: spent,
                    spent_display: format_amount(spent),
                    balance_cents: balance,
                    balance_display: format_amount(balance),
                };
                assert(shown@.spent_cents == spent);
                Ok(shown)
            },
        }
    }
}

impl<'a> Summed for BudgetLine<'a> {
    open spec fn spoiled(&self) -> bool {
        self.spent is Overflow
    }

    fn is_spoiled(&self) -> (r: bool) {
        matches!(self.spent, Tally::Overflow)
    }
}

/// The sum of some numbers, none of whose parts leaves the range of 64 bits.
pub open spec fn running_total(values: Seq<int>) -> Result<int, DbError>
    decreases values.len(),
{
    if values.len() == 0 {
        Ok(0)
    } else {
        match running_total(values.drop_last()) {
            Ok(s) => if in_i64(s + values.last()) {
                Ok(s + values.last())
            } else {
                Err(DbError::IntegerOverflow)
            },
            Err(e) => Err(e),
        }
    }
}

proof fn lemma_running_total_error(values: Seq<int>, k: int)
    requires
        0 <= k <= values.len(),
        running_total(values.take(k)) is Err,
    ensures
        running_total(values) == Err::<int, DbError>(DbError::IntegerOverflow),
    decreases values.len() - k,
{
    if k == values.len() {
        assert(values.take(k) =~= values);
        lemma_running_total_errors(values);
    } else {
        assert(values.take(k + 1).drop_last() =~= values.take(k));
        lemma_running_total_error(values, k + 1);
    }
}

proof fn lemma_running_total_errors(values: Seq<int>)
    ensures
        match running_total(values) {
            Ok(s) => in_i64(s),
            Err(e) => e == DbError::IntegerOverflow,
        },
    decreases values.len(),
{
    if values.len() > 0 {
        lemma_running_total_errors(values.drop_last());
    }
}

fn add_up(values: &Vec<i64>) -> (r: Result<i64, DbError>)
    ensures
        match r {
            Ok(v) => running_total(values@.map_values(|x: i64| x as int)) == Ok::<int, DbError>(
                v as int,
            ),
            Err(e) => running_total(values@.map_values(|x: i64| x as int)) == Err::<int, DbError>(
                e,
            ),
        },
{
    let ghost all = values@.map_values(|x: i64| x as int);
    let n: usize = values.len();
    let mut total: i64 = 0;
    let mut i: usize = 0;
    assert(all.take(0) =~= Seq::<int>::empty());
    while i < n
        invariant
            i <= n == values@.len(),
            all == values@.map_values(|x: i64| x as int),
            running_total(all.take(i as int)) == Ok::<int, DbError>(total as int),
        decreases n - i,
    {
        assert(all.take(i + 1).drop_last() =~= all.take(i as int));
        assert(all.take(i + 1).last() == values@[i as int]);
        match total.checked_add(values[i]) {
            Some(t) => {
                total = t;
            },
            None => {
                proof {
                    lemma_running_total_error(all, i + 1);
                }
                return Err(DbError::IntegerOverflow);
            },
        }
        i = i + 1;
    }
    assert(all.take(n as int) =~= all);
    Ok(total)
}

/// A month with the totals of its categories.
pub open spec fn with_totals(month: Seq<char>, categories: Seq<BudgetCategoryView>) -> Result<
    BudgetMonthView,
    DbError,
> {
    let budgeted = running_total(categories.map_values(|c: BudgetCategoryView| c.budgeted_cents));
    let spent = running_total(categories.map_values(|c: BudgetCategoryView| c.spent_cents));
    match (budgeted, spent) {
        (Err(e), _) => Err(e),
        (Ok(_), Err(e)) => Err(e),
        (Ok(budgeted), Ok(spent)) => if in_i64(budgeted + spent) {
            Ok(
                BudgetMonthView {
                    month,
                    categories,
                    total_budgeted_cents: budgeted,
                    total_budgeted_display: amount_text(budgeted),
                    total_spent_cents: spent,
                    total_spent_display: amount_text(spent),
                    total_balance_cents: budgeted + spent,
                    total_balance_display: amount_text(budgeted + spent),
                },
            )
        } else {
            Err(DbError::IntegerOverflow)
        },
    }
}

/// The number under which the budget tables keep a month: its text without the
/// dashes.
pub open spec fn month_number(month: Seq<char>) -> int {
    leading_int(without_char(month, '-'))
}

/// What a month budgets and what was spent in it.
pub open spec fn budget_of_month(b: &Budget, month: Seq<char>, start: i64, end: i64) -> Result<
    BudgetMonthView,
    DbError,
> {
    match summary(budget_lines(b, month_number(month), start, end)) {
        Ok(categories) => with_totals(month, categories),
        Err(e) => Err(e),
    }
}

/// `month` is "YYYY-MM" (it is shown, and looked up as YYYYMM in the budget
/// tables); the month lasts from the day `start` up to, but without, `end`.
pub fn get_budget_month(budget: &Budget, month: &str, start: i64, end: i64) -> (r: Result<
    BudgetMonth,
    DbError,
>)
    ensures
        match r {
            Ok(m) => budget_of_month(budget, month@, start, end) == Ok::<BudgetMonthView, DbError>(
                m@,
            ),
            Err(e) => budget_of_month(budget, month@, start, end) == Err::<
                BudgetMonthView,
                DbError,
            >(e),
        },
{
    let number = read_leading_int(remove_char(month, '-').as_str());
    let categories = match list_groups(&find_budget_lines(budget, number, start, end)) {
        Ok(v) => v,
        Err(e) => return Err(e),
    };
    let mut budgeted_parts: Vec<i64> = Vec::new();
    let mut spent_parts: Vec<i64> = Vec::new();
    let n: usize = categories.len();
    let mut i: usize = 0;
    while i < n
        invariant
            i <= n == categories@.len(),
            budgeted_parts@.len() == i,
            spent_parts@.len() == i,
            forall|j: int| 0 <= j < i ==> #[trigger] budgeted_parts@[j] == categories@[j].budgeted_cents,
            forall|j: int| 0 <= j < i ==> #[trigger] spent_parts@[j] == categories@[j].spent_cents,
        decreases n - i,
    {
        budgeted_parts.push(categories[i].budgeted_cents);
        spent_parts.push(categories[i].spent_cents);
        i = i + 1;
    }
    proof {
        let views = out_views(categories@);
        assert(budgeted_parts@.map_values(|x: i64| x as int) =~= views.map_values(
            |c: BudgetCategoryView| c.budgeted_cents,
        ));
        assert(spent_parts@.map_values(|x: i64| x as int) =~= views.map_values(
            |c: BudgetCategoryView| c.spent_cents,
        ));
        assert(views =~= categories@.map_values(|x: BudgetCategory| x@));
    }
    let total_budgeted: i64 = match add_up(&budgeted_parts) {
        Ok(v) => v,
        Err(e) => return Err(e),
    };
    let total_spent: i64 = match add_up(&spent_parts) {
        Ok(v) => v,
        Err(e) => return Err(e),
    };
    match total_budgeted.checked_add(total_spent) {
        Some(total_balance) => Ok(
            BudgetMonth {
                month: month.to_string(),
                categories,
                total_budgeted_cents: total_budgeted,
                total_budgeted_display: format_amount(total_budgeted),
                total_spent_cents: total_spent,
                total_spent_display: format_amount(total_spent),
                total_balance_cents: total_balance,
                total_balance_display: format_amount(total_balance),
            },
        ),
        None => Err(DbError::IntegerOverflow),
    }
}

} // verus!
