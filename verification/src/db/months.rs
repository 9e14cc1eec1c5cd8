//! Sums by month, and balances at the end of months.

use crate::db::lines::{is_whole, whole};
use crate::models::{
    amount_text, div_to_zero, format_amount, format_month, in_i64, month_text, quotient,
    BalanceHistoryEntry, BalanceHistoryEntryView, MonthSummary, MonthSummaryView,
};
use crate::query::{
    arranged, group_rows, groups, list_groups, out_views, pick_rows, picked, result_view, sort_rows,
    summary, Group, Grouped, Item, Listed, Pick, Summed,
};
use crate::sql::{
    add_value, equal, equal_text, rank, same_number, tally, DbError, SortKey, SortKeyView, Tally,
};
use crate::tables::{Budget, TransactionRow};
use crate::text::{as_text, string_view, text_view};
use vstd::prelude::*;
use vstd::string::*;

verus! {

/// The month YYYYMM of a transaction.
pub open spec fn month_of(t: &TransactionRow) -> Option<int> {
    match t.date {
        Some(d) => Some(quotient(d as int, 100)),
        None => None,
    }
}

fn get_month(t: &TransactionRow) -> (r: Option<i64>)
    ensures
        match r {
            Some(m) => month_of(t) == Some(m as int),
            None => month_of(t) is None,
        },
{
    match t.date {
        Some(d) => Some(div_to_zero(d, 100)),
        None => None,
    }
}

/// Transactions of one month are summed up together.
impl<'a> Grouped for Item<'a, TransactionRow> {
    open spec fn alike(&self, other: &Self) -> bool {
        month_of(self.row) == month_of(other.row)
    }

    open spec fn amount(&self) -> Option<i64> {
        self.row.amount
    }

    fn same_group(&self, other: &Self) -> (r: bool) {
        same_number(&get_month(self.row), &get_month(other.row))
    }

    fn get_amount(&self) -> (r: Option<i64>) {
        self.row.amount
    }
}

/// A sum that is called for; null where nothing was summed up.
pub open spec fn summed(t: Tally, column: usize) -> Result<int, DbError> {
    match t {
        Tally::Empty => Err(DbError::NullColumn(column)),
        Tally::Sum(s) => Ok(s as int),
        Tally::Overflow => Err(DbError::IntegerOverflow),
    }
}

pub fn get_sum(t: Tally, column: usize) -> (r: Result<i64, DbError>)
    ensures
        match r {
            Ok(v) => summed(t, column) == Ok::<int, DbError>(v as int),
            Err(e) => summed(t, column) == Err::<int, DbError>(e),
        },
{
    match t {
        Tally::Empty => Err(DbError::NullColumn(column)),
        Tally::Sum(s) => Ok(s),
        Tally::Overflow => Err(DbError::IntegerOverflow),
    }
}

impl<'a, 'b> Listed for Group<'a, Item<'b, TransactionRow>> {
    type Out = MonthSummary;

    open spec fn order_key(&self) -> SortKeyView {
        SortKeyView {
            first: match month_of(self.leader.row) {
                Some(m) => m,
                None => i64::MIN - 1,
            },
            second: 0,
            text: None,
        }
    }

    open spec fn outcome(&self) -> Result<MonthSummaryView, DbError> {
        match (month_of(self.leader.row), summed(self.income, 1), summed(self.expenses, 2)) {
            (None, _, _) => Err(DbError::NullColumn(0)),
            (Some(_), Err(e), _) => Err(e),
            (Some(_), Ok(_), Err(e)) => Err(e),
            (Some(m), Ok(income), Ok(expenses)) => if in_i64(income + expenses) {
                Ok(
                    MonthSummaryView {
                        month: month_text(m),
                        income_cents: income,
                        income_display: amount_text(income),
                        expenses_cents: expenses,
                        expenses_display: amount_text(expenses),
                        net_cents: income + expenses,
                        net_display: amount_text(income + expenses),
                    },
                )
            } else {
                Err(DbError::IntegerOverflow)
            },
        }
    }

    fn make_key(&self) -> (k: SortKey) {
        SortKey { first: rank(&get_month(self.leader.row)), second: 0, text: None }
    }

    fn show(&self) -> (r: Result<MonthSummary, DbError>) {
        let month: i64 = match get_month(self.leader.row) {
            Some(m) => m,
            None => return Err(DbError::NullColumn(0)),
        };
        let income: i64 = match get_sum(self.income, 1) {
            Ok(v) => v,
            Err(e) => return Err(e),
        };
        let expenses: i64 = match get_sum(self.expenses, 2) {
            Ok(v) => v,
            Err(e) => return Err(e),
        };
        match income.checked_add(expenses) {
            Some(net) => {
                let shown = MonthSummary {
                    month: format_month(month),
                    income_cents: income,
                    income_display: format_amount(income),
                    expenses_cents: expenses,
                    expenses_display: format_amount(expenses),
                    net_cents: net,
                    net_display: format_amount(net),
                };
                assert(shown@.net_cents == net);
                Ok(shown)
            },
            None => Err(DbError::IntegerOverflow),
        }
    }
}

impl<'a, 'b> Summed for Group<'a, Item<'b, TransactionRow>> {
    open spec fn spoiled(&self) -> bool {
        self.income is Overflow || self.expenses is Overflow
    }

    fn is_spoiled(&self) -> (r: bool) {
        matches!(self.income, Tally::Overflow) || matches!(self.expenses, Tally::Overflow)
    }
}

/// Whole transactions from `start` up to, but without, `end`.
pub struct Between {
    pub start: i64,
    pub end: i64,
}

pub open spec fn in_range(date: Option<i64>, start: i64, end: i64) -> bool {
    date is Some && start <= date->0 < end
}

pub fn is_in_range(date: &Option<i64>, start: i64, end: i64) -> (r: bool)
    ensures
        r == in_range(*date, start, end),
{
    match date {
        Some(d) => start <= *d && *d < end,
        None => false,
    }
}

impl Pick<TransactionRow> for Between {
    open spec fn picks(&self, row: &TransactionRow) -> bool {
        whole(row) && in_range(row.date, self.start, self.end)
    }

    fn is_pick(&self, row: &TransactionRow) -> (r: bool) {
        is_whole(row) && is_in_range(&row.date, self.start, self.end)
    }
}

/// Income, expenses and their sum for each month that has transactions from
/// `start_date` up to, but without, `end_date`.
pub fn monthly_summary(budget: &Budget, start_date: i64, end_date: i64) -> (r: Result<
    Vec<MonthSummary>,
    DbError,
>)
    ensures
        result_view(r) == summary(
            groups(
                picked(budget.transactions@, &(Between { start: start_date, end: end_date })),
            ),
        ),
{
    let rows = pick_rows(&budget.transactions, &Between { start: start_date, end: end_date });
    list_groups(&group_rows(&rows))
}


// ── Balances over time ───────────────────────────────────────────────────────

/// Whole transactions of an account, or of all, up to and with the month `end`.
pub struct UpTo<'f> {
    pub account_id: Option<&'f str>,
    pub end: i64,
}

impl<'f> Pick<TransactionRow> for UpTo<'f> {
    open spec fn picks(&self, row: &TransactionRow) -> bool {
        &&& whole(row)
        &&& self.account_id is Some ==> equal(string_view(row.acct), text_view(self.account_id))
        &&& month_of(row) is Some && month_of(row)->0 <= self.end
    }

    fn is_pick(&self, row: &TransactionRow) -> (r: bool) {
        is_whole(row) && (self.account_id.is_none() || equal_text(
            as_text(&row.acct),
            self.account_id,
        )) && match get_month(row) {
            Some(m) => m <= self.end,
            None => false,
        }
    }
}

/// The months of an account, or of all, up to and with `end`, the oldest first.
pub open spec fn months<'a>(b: &'a Budget, account_id: Option<&'a str>, end: i64) -> Seq<
    Group<'a, Item<'a, TransactionRow>>,
> {
    arranged(groups(picked(b.transactions@, &(UpTo { account_id, end }))))
}

/// What a month adds to the balance; null where none of its amounts is known.
pub open spec fn net_of<'a>(month: Group<'a, Item<'a, TransactionRow>>) -> Option<i64> {
    match month.all {
        Tally::Sum(s) => Some(s),
        _ => None,
    }
}

pub open spec fn nets<'a>(m: Seq<Group<'a, Item<'a, TransactionRow>>>) -> Seq<Option<i64>> {
    m.map_values(|g: Group<'a, Item<'a, TransactionRow>>| net_of(g))
}

pub open spec fn entry_of<'a>(month: Group<'a, Item<'a, TransactionRow>>, balance: Tally) -> Result<
    BalanceHistoryEntryView,
    DbError,
> {
    match (month_of(month.leader.row), summed(month.all, 1), summed(balance, 2)) {
        (None, _, _) => Err(DbError::NullColumn(0)),
        (Some(_), Err(e), _) => Err(e),
        (Some(_), Ok(_), Err(e)) => Err(e),
        (Some(m), Ok(net), Ok(balance)) => Ok(
            BalanceHistoryEntryView {
                month: month_text(m),
                net_change_cents: net,
                net_change_display: amount_text(net),
                balance_cents: balance,
                balance_display: amount_text(balance),
            },
        ),
    }
}

fn make_entry<'a>(month: &Group<'a, Item<'a, TransactionRow>>, balance: Tally) -> (r: Result<
    BalanceHistoryEntry,
    DbError,
>)
    ensures
        match r {
            Ok(x) => entry_of(*month, balance) == Ok::<BalanceHistoryEntryView, DbError>(x@),
            Err(e) => entry_of(*month, balance) == Err::<BalanceHistoryEntryView, DbError>(e),
        },
{
    let m: i64 = match get_month(month.leader.row) {
        Some(m) => m,
        None => return Err(DbError::NullColumn(0)),
    };
    let net: i64 = match get_sum(month.all, 1) {
        Ok(v) => v,
        Err(e) => return Err(e),
    };
    let balance: i64 = match get_sum(balance, 2) {
        Ok(v) => v,
        Err(e) => return Err(e),
    };
    Ok(
        BalanceHistoryEntry {
            month: format_month(m),
            net_change_cents: net,
            net_change_display: format_amount(net),
            balance_cents: balance,
            balance_display: format_amount(balance),
        },
    )
}

pub open spec fn starts_by<'a>(month: Group<'a, Item<'a, TransactionRow>>, start: int) -> bool {
    month_of(month.leader.row) is Some && month_of(month.leader.row)->0 >= start
}

/// The months from `start` on, each with the balance at its end, or the first
/// error among them. The months before count in the balances.
pub open spec fn history<'a>(m: Seq<Group<'a, Item<'a, TransactionRow>>>, start: int) -> Result<
    Seq<BalanceHistoryEntryView>,
    DbError,
>
    decreases m.len(),
{
    if m.len() == 0 {
        Ok(Seq::empty())
    } else {
        match history(m.drop_last(), start) {
            Ok(v) => if starts_by(m.last(), start) {
                match entry_of(m.last(), tally(Tally::Empty, nets(m))) {
                    Ok(x) => Ok(v.push(x)),
                    Err(e) => Err(e),
                }
            } else {
                Ok(v)
            },
            Err(e) => Err(e),
        }
    }
}

proof fn lemma_history_error<'a>(
    m: Seq<Group<'a, Item<'a, TransactionRow>>>,
    start: int,
    k: int,
    e: DbError,
)
    requires
        0 <= k <= m.len(),
        history(m.take(k), start) == Err::<Seq<BalanceHistoryEntryView>, DbError>(e),
    ensures
        history(m, start) == Err::<Seq<BalanceHistoryEntryView>, DbError>(e),
    decreases m.len() - k,
{
    if k == m.len() {
        assert(m.take(k) =~= m);
    } else {
        assert(m.take(k + 1).drop_last() =~= m.take(k));
        lemma_history_error(m, start, k + 1, e);
    }
}

pub open spec fn balances<'a>(m: Seq<Group<'a, Item<'a, TransactionRow>>>, start: int) -> Result<
    Seq<BalanceHistoryEntryView>,
    DbError,
> {
    if (exists|i: int| 0 <= i < m.len() && (#[trigger] m[i]).all is Overflow) || tally(
        Tally::Empty,
        nets(m),
    ) is Overflow {
        Err(DbError::IntegerOverflow)
    } else {
        history(m, start)
    }
}

fn get_net<'a>(month: &Group<'a, Item<'a, TransactionRow>>) -> (r: Option<i64>)
    ensures
        r == net_of(*month),
{
    match month.all {
        Tally::Sum(s) => Some(s),
        _ => None,
    }
}

/// The balance of an account, or of all accounts together, at the end of each
/// month that has transactions from `start_ym` to `end_ym` (YYYYMM). It counts
/// from the beginning of the account's history. Months without transactions are
/// left out.
pub fn balance_history(
    budget: &Budget,
    account_id: Option<&str>,
    start_ym: i64,
    end_ym: i64,
) -> (r: Result<Vec<BalanceHistoryEntry>, DbError>)
    ensures
        result_view(r) == balances(months(budget, account_id, end_ym), start_ym as int),
{
    let rows = pick_rows(&budget.transactions, &UpTo { account_id, end: end_ym });
    let found = group_rows(&rows);
    let p = sort_rows(&found);
    let ghost m = months(budget, account_id, end_ym);
    let n: usize = found.len();
    let mut acc = Tally::Empty;
    let mut i: usize = 0;
    assert(nets(m.take(0)) =~= Seq::empty());
    while i < n
        invariant
            i <= n == found@.len() == m.len() == p@.len(),
            m == arranged(found@),
            forall|j: int| 0 <= j < n ==> 0 <= #[trigger] p@[j] < n && m[j] == found@[p@[j] as int],
            acc == tally(Tally::Empty, nets(m.take(i as int))),
            forall|j: int| 0 <= j < i ==> !((#[trigger] m[j]).all is Overflow),
            m == months(budget, account_id, end_ym),
        decreases n - i,
    {
        let month = &found[p[i]];
        assert(m[i as int] == *month);
        if matches!(month.all, Tally::Overflow) {
            return Err(DbError::IntegerOverflow);
        }
        assert(nets(m.take(i + 1)).drop_last() =~= nets(m.take(i as int)));
        acc = add_value(acc, get_net(month));
        i = i + 1;
    }
    assert(m.take(n as int) =~= m);
    if matches!(acc, Tally::Overflow) {
        return Err(DbError::IntegerOverflow);
    }
    let mut balance = Tally::Empty;
    let mut out: Vec<BalanceHistoryEntry> = Vec::new();
    i = 0;
    assert(out_views(out@) =~= Seq::empty());
    while i < n
        invariant
            i <= n == found@.len() == m.len() == p@.len(),
            forall|j: int| 0 <= j < n ==> 0 <= #[trigger] p@[j] < n && m[j] == found@[p@[j] as int],
            balance == tally(Tally::Empty, nets(m.take(i as int))),
            balances(m, start_ym as int) == history(m, start_ym as int),
            m == months(budget, account_id, end_ym),
            history(m.take(i as int), start_ym as int) == Ok::<
                Seq<BalanceHistoryEntryView>,
                DbError,
            >(out_views(out@)),
        decreases n - i,
    {
        let month = &found[p[i]];
        assert(m[i as int] == *month);
        assert(nets(m.take(i + 1)).drop_last() =~= nets(m.take(i as int)));
        assert(m.take(i + 1).drop_last() =~= m.take(i as int));
        balance = add_value(balance, get_net(month));
        let late = match get_month(month.leader.row) {
            Some(ym) => ym >= start_ym,
            None => false,
        };
        if late {
            match make_entry(month, balance) {
                Ok(x) => {
                    let ghost was = out@;
                    out.push(x);
                    assert(out_views(out@) =~= out_views(was).push(x@));
                },
                Err(e) => {
                    proof {
                        lemma_history_error(m, start_ym as int, i + 1, e);
                    }
                    return Err(e);
                },
            }
        }
        i = i + 1;
    }
    assert(m.take(n as int) =~= m);
    Ok(out)
}

} // verus!
