//! Spending by category and by payee.

use crate::db::lines::{
    category_name, find_payee_links, get_category_name, get_payee_name, payee_links, payee_name,
    PayeeLink,
};
use crate::db::months::{get_sum, summed};
use crate::models::{
    amount_text, format_amount, CategorySpending, CategorySpendingView, PayeeSpending,
    PayeeSpendingView,
};
use crate::query::{
    gathered, group_rows, groups, list_groups, result_view, summary, Group, Grouped, Listed, Summed,
};
use crate::sql::{
    is_zero, join_left, left_join, not_set, unset, zero, DbError, SortKey, SortKeyView, Tally,
};
use crate::tables::{Budget, CategoryGroupRow, CategoryRow, TransactionRow};
use crate::text::{as_text, same_str, same_text, str_or, string_view, text_or, text_view};
use vstd::prelude::*;
use vstd::string::*;

verus! {

/// An amount that was spent on a day from `start` to `end`.
pub open spec fn spent_between(t: &TransactionRow, start: i64, end: i64) -> bool {
    &&& is_zero(t.tombstone)
    &&& t.amount is Some && t.amount->0 < 0
    &&& t.date is Some && start <= t.date->0 <= end
}

fn is_spent_between(t: &TransactionRow, start: i64, end: i64) -> (r: bool)
    ensures
        r == spent_between(t, start, end),
{
    zero(&t.tombstone) && match t.amount {
        Some(a) => a < 0,
        None => false,
    } && match t.date {
        Some(d) => start <= d && d <= end,
        None => false,
    }
}

/// A transaction joined with its category and the group of that.
pub struct CategoryLine<'a> {
    pub entry: &'a TransactionRow,
    pub category: Option<&'a CategoryRow>,
    pub group: Option<&'a CategoryGroupRow>,
}

pub open spec fn category_id(category: Option<&CategoryRow>) -> Option<Seq<char>> {
    match category {
        Some(c) => string_view(c.id),
        None => None,
    }
}

pub open spec fn group_key(category: Option<&CategoryRow>) -> Option<Seq<char>> {
    match category {
        Some(c) => string_view(c.cat_group),
        None => None,
    }
}

pub fn get_group_key<'a>(category: Option<&'a CategoryRow>) -> (r: Option<&'a str>)
    ensures
        text_view(r) == group_key(category),
{
    match category {
        Some(c) => as_text(&c.cat_group),
        None => None,
    }
}

fn get_category_id<'a>(category: Option<&'a CategoryRow>) -> (r: Option<&'a str>)
    ensures
        text_view(r) == category_id(category),
{
    match category {
        Some(c) => as_text(&c.id),
        None => None,
    }
}

pub open spec fn category_lines_through<'a>(
    b: &'a Budget,
    t: &'a TransactionRow,
    category: Option<&'a CategoryRow>,
) -> Seq<CategoryLine<'a>> {
    left_join(b.category_groups@, group_key(category)).map_values(
        |g: Option<&'a CategoryGroupRow>| CategoryLine { entry: t, category, group: g },
    )
}

pub open spec fn lines_of_spending<'a>(
    b: &'a Budget,
    t: &'a TransactionRow,
    start: i64,
    end: i64,
) -> Seq<CategoryLine<'a>> {
    if spent_between(t, start, end) && unset(t.is_parent) {
        gathered(
            left_join(b.categories@, string_view(t.category)),
            |c: Option<&'a CategoryRow>| category_lines_through(b, t, c),
        )
    } else {
        Seq::empty()
    }
}

/// What was spent, the parts of a split and not its whole, by category.
pub open spec fn category_lines<'a>(b: &'a Budget, start: i64, end: i64) -> Seq<CategoryLine<'a>> {
    gathered(b.transactions@, |t: TransactionRow| lines_of_spending(b, &t, start, end))
}

fn find_category_lines<'a>(b: &'a Budget, start: i64, end: i64) -> (r: Vec<CategoryLine<'a>>)
    ensures
        r@ == category_lines(b, start, end),
{
    let mut out: Vec<CategoryLine<'a>> = Vec::new();
    let ghost f = |t: TransactionRow| lines_of_spending(b, &t, start, end);
    let n: usize = b.transactions.len();
    let mut i: usize = 0;
    assert(b.transactions@.take(0) =~= Seq::<TransactionRow>::empty());
    while i < n
        invariant
            i <= n == b.transactions@.len(),
            f == (|t: TransactionRow| lines_of_spending(b, &t, start, end)),
            out@ =~= gathered(b.transactions@.take(i as int), f),
        decreases n - i,
    {
        assert(b.transactions@.take(i + 1).drop_last() =~= b.transactions@.take(i as int));
        let t = &b.transactions[i];
        assert(f(b.transactions@[i as int]) == lines_of_spending(b, t, start, end));
        if is_spent_between(t, start, end) && not_set(&t.is_parent) {
            let found = find_lines_of_category(b, t);
            let ghost was = out@;
            let ghost all = found@;
            for line in it: found
                invariant
                    it.seq() == all,
                    out@ =~= was + all.take(it.index()),
            {
                out.push(line);
            }
            assert(all.take(all.len() as int) =~= all);
        }
        i = i + 1;
    }
    assert(b.transactions@.take(n as int) =~= b.transactions@);
    out
}

fn find_lines_of_category<'a>(b: &'a Budget, t: &'a TransactionRow) -> (r: Vec<CategoryLine<'a>>)
    ensures
        r@ == gathered(
            left_join(b.categories@, string_view(t.category)),
            |c: Option<&'a CategoryRow>| category_lines_through(b, t, c),
        ),
{
    let categories = join_left(&b.categories, as_text(&t.category));
    let mut out: Vec<CategoryLine<'a>> = Vec::new();
    let ghost f = |c: Option<&'a CategoryRow>| category_lines_through(b, t, c);
    let n: usize = categories.len();
    let mut i: usize = 0;
    assert(categories@.take(0) =~= Seq::<Option<&'a CategoryRow>>::empty());
    while i < n
        invariant
            i <= n == categories@.len(),
            f == (|c: Option<&'a CategoryRow>| category_lines_through(b, t, c)),
            out@ =~= gathered(categories@.take(i as int), f),
        decreases n - i,
    {
        assert(categories@.take(i + 1).drop_last() =~= categories@.take(i as int));
        let category = categories[i];
        let found = join_left(&b.category_groups, get_group_key(category));
        let ghost was = out@;
        let mut j: usize = 0;
        while j < found.len()
            invariant
                j <= found@.len(),
                found@ == left_join(b.category_groups@, group_key(category)),
                out@ =~= was + category_lines_through(b, t, category).take(j as int),
            decreases found@.len() - j,
        {
            out.push(CategoryLine { entry: t, category, group: found[j] });
            j = j + 1;
        }
        i = i + 1;
    }
    assert(categories@.take(n as int) =~= categories@);
    out
}

impl<'a> Grouped for CategoryLine<'a> {
    open spec fn alike(&self, other: &Self) -> bool {
        category_id(self.category) == category_id(other.category)
    }

    open spec fn amount(&self) -> Option<i64> {
        self.entry.amount
    }

    fn same_group(&self, other: &Self) -> (r: bool) {
        same_str(get_category_id(self.category), get_category_id(other.category))
    }

    fn get_amount(&self) -> (r: Option<i64>) {
        self.entry.amount
    }
}

/// The place of a sum in ascending order.
pub open spec fn sum_place(t: Tally) -> int {
    match t {
        Tally::Sum(s) => s as int,
        _ => i64::MIN - 1,
    }
}

fn get_sum_place(t: Tally) -> (r: i128)
    ensures
        r == sum_place(t),
{
    match t {
        Tally::Sum(s) => s as i128,
        _ => -9223372036854775809,
    }
}

pub open spec fn group_name(group: Option<&CategoryGroupRow>) -> Option<Seq<char>> {
    match group {
        Some(g) => string_view(g.name),
        None => None,
    }
}

pub fn get_group_name<'a>(group: Option<&'a CategoryGroupRow>) -> (r: Option<&'a str>)
    ensures
        text_view(r) == group_name(group),
{
    match group {
        Some(g) => as_text(&g.name),
        None => None,
    }
}

impl<'a, 'b> Listed for Group<'a, CategoryLine<'b>> {
    type Out = CategorySpending;

    /// The most spent first.
    open spec fn order_key(&self) -> SortKeyView {
        SortKeyView { first: sum_place(self.all), second: 0, text: None }
    }

    open spec fn outcome(&self) -> Result<CategorySpendingView, DbError> {
        match (summed(self.all, 2), summed(self.count, 3)) {
            (Err(e), _) => Err(e),
            (Ok(_), Err(e)) => Err(e),
            (Ok(total), Ok(count)) => Ok(
                CategorySpendingView {
                    category_name: text_or(category_name(self.leader.category), "Uncategorized"@),
                    group_name: text_or(group_name(self.leader.group), ""@),
                    total_cents: total,
                    total_display: amount_text(total),
                    transaction_count: count,
                },
            ),
        }
    }

    fn make_key(&self) -> (k: SortKey) {
        SortKey { first: get_sum_place(self.all), second: 0, text: None }
    }

    fn show(&self) -> (r: Result<CategorySpending, DbError>) {
        let total: i64 = match get_sum(self.all, 2) {
            Ok(v) => v,
            Err(e) => return Err(e),
        };
        let count: i64 = match get_sum(self.count, 3) {
            Ok(v) => v,
            Err(e) => return Err(e),
        };
        Ok(
            CategorySpending {
                category_name: str_or(
                    get_category_name(self.leader.category),
                    "Uncategorized",
                ).to_string(),
                group_name: str_or(get_group_name(self.leader.group), "").to_string(),
                total_cents: total,
                total_display: format_amount(total),
                transaction_count: count,
            },
        )
    }
}

impl<'a, 'b> Summed for Group<'a, CategoryLine<'b>> {
    open spec fn spoiled(&self) -> bool {
        self.all is Overflow || self.count is Overflow
    }

    fn is_spoiled(&self) -> (r: bool) {
        matches!(self.all, Tally::Overflow) || matches!(self.count, Tally::Overflow)
    }
}

/// What was spent from `start_date` to `end_date` in each category, the most
/// first.
pub fn spending_by_category(budget: &Budget, start_date: i64, end_date: i64) -> (r: Result<
    Vec<CategorySpending>,
    DbError,
>)
    ensures
        result_view(r) == summary(groups(category_lines(budget, start_date, end_date))),
{
    let lines = find_category_lines(budget, start_date, end_date);
    list_groups(&group_rows(&lines))
}

/// A transaction with the way to its payee.
pub struct PayeeLine<'a> {
    pub entry: &'a TransactionRow,
    pub link: PayeeLink<'a>,
}

pub open spec fn lines_of_purchase<'a>(
    b: &'a Budget,
    t: &'a TransactionRow,
    start: i64,
    end: i64,
) -> Seq<PayeeLine<'a>> {
    if spent_between(t, start, end) && unset(t.is_child) {
        payee_links(b, t).map_values(|l: PayeeLink<'a>| PayeeLine { entry: t, link: l })
    } else {
        Seq::empty()
    }
}

/// What was spent, the whole of a split and not its parts, by payee.
pub open spec fn payee_lines<'a>(b: &'a Budget, start: i64, end: i64) -> Seq<PayeeLine<'a>> {
    gathered(b.transactions@, |t: TransactionRow| lines_of_purchase(b, &t, start, end))
}

fn find_payee_lines<'a>(b: &'a Budget, start: i64, end: i64) -> (r: Vec<PayeeLine<'a>>)
    ensures
        r@ == payee_lines(b, start, end),
{
    let mut out: Vec<PayeeLine<'a>> = Vec::new();
    let ghost f = |t: TransactionRow| lines_of_purchase(b, &t, start, end);
    let n: usize = b.transactions.len();
    let mut i: usize = 0;
    assert(b.transactions@.take(0) =~= Seq::<TransactionRow>::empty());
    while i < n
        invariant
            i <= n == b.transactions@.len(),
            f == (|t: TransactionRow| lines_of_purchase(b, &t, start, end)),
            out@ =~= gathered(b.transactions@.take(i as int), f),
        decreases n - i,
    {
        assert(b.transactions@.take(i + 1).drop_last() =~= b.transactions@.take(i as int));
        let t = &b.transactions[i];
        assert(f(b.transactions@[i as int]) == lines_of_purchase(b, t, start, end));
        if is_spent_between(t, start, end) && not_set(&t.is_child) {
            let found = find_payee_links(b, t);
            let ghost was = out@;
            let ghost all = found@;
            for link in it: found
                invariant
                    it.seq() == all,
                    out@ =~= was + all.take(it.index()).map_values(
                        |l: PayeeLink<'a>| PayeeLine { entry: t, link: l },
                    ),
            {
                out.push(PayeeLine { entry: t, link });
            }
            assert(all.take(all.len() as int) =~= all);
        }
        i = i + 1;
    }
    assert(b.transactions@.take(n as int) =~= b.transactions@);
    out
}

/// The name that a purchase is summed up under: that of its payee, once merged
/// payees are resolved.
pub open spec fn shown_payee(line: &PayeeLine) -> Seq<char> {
    text_or(payee_name(line.link.payee), "No Payee"@)
}

fn get_shown_payee<'a>(line: &PayeeLine<'a>) -> (r: &'a str)
    ensures
        r@ == shown_payee(line),
{
    str_or(get_payee_name(line.link.payee), "No Payee")
}

/// Purchases from payees of one name are summed up together.
impl<'a> Grouped for PayeeLine<'a> {
    open spec fn alike(&self, other: &Self) -> bool {
        shown_payee(self) == shown_payee(other)
    }

    open spec fn amount(&self) -> Option<i64> {
        self.entry.amount
    }

    fn same_group(&self, other: &Self) -> (r: bool) {
        same_text(get_shown_payee(self), get_shown_payee(other))
    }

    fn get_amount(&self) -> (r: Option<i64>) {
        self.entry.amount
    }
}

impl<'a, 'b> Listed for Group<'a, PayeeLine<'b>> {
    type Out = PayeeSpending;

    /// The most spent first.
    open spec fn order_key(&self) -> SortKeyView {
        SortKeyView { first: sum_place(self.all), second: 0, text: None }
    }

    open spec fn outcome(&self) -> Result<PayeeSpendingView, DbError> {
        match (summed(self.all, 1), summed(self.count, 2)) {
            (Err(e), _) => Err(e),
            (Ok(_), Err(e)) => Err(e),
            (Ok(total), Ok(count)) => Ok(
                PayeeSpendingView {
                    payee_name: shown_payee(self.leader),
                    total_cents: total,
                    total_display: amount_text(total),
                    transaction_count: count,
                },
            ),
        }
    }

    fn make_key(&self) -> (k: SortKey) {
        SortKey { first: get_sum_place(self.all), second: 0, text: None }
    }

    fn show(&self) -> (r: Result<PayeeSpending, DbError>) {
        let total: i64 = match get_sum(self.all, 1) {
            Ok(v) => v,
            Err(e) => return Err(e),
        };
        let count: i64 = match get_sum(self.count, 2) {
            Ok(v) => v,
            Err(e) => return Err(e),
        };
        Ok(
            PayeeSpending {
                payee_name: get_shown_payee(self.leader).to_string(),
                total_cents: total,
                total_display: format_amount(total),
                transaction_count: count,
            },
        )
    }
}

impl<'a, 'b> Summed for Group<'a, PayeeLine<'b>> {
    open spec fn spoiled(&self) -> bool {
        self.all is Overflow || self.count is Overflow
    }

    fn is_spoiled(&self) -> (r: bool) {
        matches!(self.all, Tally::Overflow) || matches!(self.count, Tally::Overflow)
    }
}

/// What was spent from `start_date` to `end_date` under each payee name, the most
/// first. Purchases without a payee are one entry, "No Payee". A split counts once, as a whole.
pub fn spending_by_payee(budget: &Budget, start_date: i64, end_date: i64) -> (r: Result<
    Vec<PayeeSpending>,
    DbError,
>)
    ensures
        result_view(r) == summary(groups(payee_lines(budget, start_date, end_date))),
{
    let lines = find_payee_lines(budget, start_date, end_date);
    list_groups(&group_rows(&lines))
}

} // verus!
