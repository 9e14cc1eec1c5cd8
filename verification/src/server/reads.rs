//! The tools that read the budget.

use crate::budget_api::arguments::{clamp_limit, clamped_limit};
use crate::db::accounts::{account_lines, list_accounts, net_worth, worth_values};
use crate::db::budgets::{budget_of_month, get_budget_month};
use crate::db::catalog::{category_tree, get_rules, list_categories, list_payees, NotDeleted};
use crate::db::lines::{matching, ByCategory, Line, Scope, TransactionFilter, Uncategorized};
use crate::db::months::{balance_history, balances, monthly_summary, months, Between};
use crate::db::spending::{category_lines, payee_lines, spending_by_category, spending_by_payee};
use crate::db::transactions::{
    bare, get_transactions, transactions_by_category_regex, uncategorized_transactions,
};
use crate::models::{
    amount_text, bounds_of, date_number, date_str_to_int, format_amount, month_bounds, month_to_ym,
    ym_of, Account, AccountView, BalanceHistoryEntry, BalanceHistoryEntryView, BudgetMonth,
    BudgetMonthView, CategoryGroup, CategoryGroupView, CategorySpending, CategorySpendingView,
    MonthSummary, MonthSummaryView, Payee, PayeeSpending, PayeeSpendingView, PayeeView, Rule,
    RuleView, Transaction, TransactionView,
};
use crate::query::{groups, listing, out_views, picked, summary};
use crate::server::errors::{invalid, invalid_text, ToolError, ToolErrorView};
use crate::server::loading::ActualServer;
use crate::server::questions::{
    asks_balances, asks_budget, asks_category_spending, asks_for_uncategorized, asks_months,
    asks_of_category, asks_payee_spending, asks_transactions, lemma_month, refuses, refuses_dates,
    refuses_months,
};
use crate::sql::{sum_or_zero, tally, DbError, Tally};
use crate::tables::Budget;
use crate::text::{decimal, format_uint, join3, text_view};
use vstd::prelude::*;
use vstd::string::*;

verus! {

// ── Arguments ────────────────────────────────────────────────────────────────

/// A date that is given, as a number.
pub open spec fn date_of(what: Seq<char>, value: Seq<char>) -> Result<int, ToolErrorView> {
    match date_number(value) {
        Some(d) => Ok(d),
        None => Err(ToolErrorView::InvalidParams(invalid_text(what, value, "YYYY-MM-DD"@))),
    }
}

/// A date that may be given.
pub open spec fn optional_date(what: Seq<char>, value: Option<Seq<char>>) -> Result<
    Option<int>,
    ToolErrorView,
> {
    match value {
        Some(v) => match date_of(what, v) {
            Ok(d) => Ok(Some(d)),
            Err(e) => Err(e),
        },
        None => Ok(None),
    }
}

fn read_date(what: &str, value: &str) -> (r: Result<i64, ToolError>)
    ensures
        match r {
            Ok(d) => date_of(what@, value@) == Ok::<int, ToolErrorView>(d as int),
            Err(e) => date_of(what@, value@) == Err::<int, ToolErrorView>(e@),
        },
{
    match date_str_to_int(value) {
        Some(d) => Ok(d),
        None => Err(invalid(what, value, "YYYY-MM-DD")),
    }
}

pub open spec fn int_view(n: Option<i64>) -> Option<int> {
    match n {
        Some(v) => Some(v as int),
        None => None,
    }
}

fn read_optional_date(what: &str, value: Option<&str>) -> (r: Result<Option<i64>, ToolError>)
    ensures
        match r {
            Ok(d) => optional_date(what@, text_view(value)) == Ok::<Option<int>, ToolErrorView>(
                int_view(d),
            ),
            Err(e) => optional_date(what@, text_view(value)) == Err::<Option<int>, ToolErrorView>(
                e@,
            ),
        },
{
    match value {
        Some(v) => match read_date(what, v) {
            Ok(d) => Ok(Some(d)),
            Err(e) => Err(e),
        },
        None => Ok(None),
    }
}

pub open spec fn bad_month(what: Seq<char>, value: Seq<char>) -> ToolErrorView {
    ToolErrorView::InvalidParams(invalid_text(what, value, "YYYY-MM"@))
}

// ── Questions ────────────────────────────────────────────────────────────────

/// A question to the budget, its arguments read.
pub enum Query<'a> {
    Accounts,
    Transactions { filter: TransactionFilter<'a>, limit: i64 },
    Categories,
    Payees,
    BudgetMonth { month: &'a str, start: i64, end: i64 },
    MonthlySummary { start: i64, end: i64 },
    SpendingByCategory { start: i64, end: i64 },
    SpendingByPayee { start: i64, end: i64 },
    Uncategorized { scope: Scope<'a>, limit: i64 },
    ByCategory { regex: &'a str, scope: Scope<'a>, limit: i64 },
    BalanceHistory { account_id: Option<&'a str>, start: i64, end: i64 },
    NetWorth,
    Rules,
}

/// What a question brings.
pub enum Found {
    Accounts(Vec<Account>),
    Transactions(Vec<Transaction>),
    Categories(Vec<CategoryGroup>),
    Payees(Vec<Payee>),
    BudgetMonth(BudgetMonth),
    Months(Vec<MonthSummary>),
    CategorySpending(Vec<CategorySpending>),
    PayeeSpending(Vec<PayeeSpending>),
    Balances(Vec<BalanceHistoryEntry>),
    Rules(Vec<Rule>),
    /// A sentence.
    Text(String),
}

pub enum FoundView {
    Accounts(Seq<AccountView>),
    Transactions(Seq<TransactionView>),
    Categories(Seq<CategoryGroupView>),
    Payees(Seq<PayeeView>),
    BudgetMonth(BudgetMonthView),
    Months(Seq<MonthSummaryView>),
    CategorySpending(Seq<CategorySpendingView>),
    PayeeSpending(Seq<PayeeSpendingView>),
    Balances(Seq<BalanceHistoryEntryView>),
    Rules(Seq<RuleView>),
    Text(Seq<char>),
}

impl View for Found {
    type V = FoundView;

    open spec fn view(&self) -> FoundView {
        match self {
            Found::Accounts(v) => FoundView::Accounts(out_views(v@)),
            Found::Transactions(v) => FoundView::Transactions(out_views(v@)),
            Found::Categories(v) => FoundView::Categories(out_views(v@)),
            Found::Payees(v) => FoundView::Payees(out_views(v@)),
            Found::BudgetMonth(m) => FoundView::BudgetMonth(m@),
            Found::Months(v) => FoundView::Months(out_views(v@)),
            Found::CategorySpending(v) => FoundView::CategorySpending(out_views(v@)),
            Found::PayeeSpending(v) => FoundView::PayeeSpending(out_views(v@)),
            Found::Balances(v) => FoundView::Balances(out_views(v@)),
            Found::Rules(v) => FoundView::Rules(out_views(v@)),
            Found::Text(t) => FoundView::Text(t@),
        }
    }
}

/// What the columns of a question are called.
pub open spec fn column_name(q: Query, column: int) -> Seq<char> {
    match q {
        Query::Accounts => if column == 0 {
            "id"@
        } else if column == 1 {
            "name"@
        } else if column == 3 {
            "offbudget"@
        } else {
            "closed"@
        },
        Query::Transactions { .. } => entry_column(column),
        Query::Uncategorized { .. } => entry_column(column),
        Query::ByCategory { .. } => entry_column(column),
        Query::MonthlySummary { .. } => if column == 0 {
            "ym"@
        } else if column == 1 {
            "income"@
        } else {
            "expenses"@
        },
        Query::SpendingByCategory { .. } => "total"@,
        Query::SpendingByPayee { .. } => "total"@,
        Query::BalanceHistory { .. } => if column == 0 {
            "month"@
        } else if column == 1 {
            "month_net"@
        } else {
            "balance"@
        },
        Query::Rules => if column == 0 {
            "id"@
        } else if column == 3 {
            "conditions"@
        } else {
            "actions"@
        },
        _ => if column == 0 {
            "id"@
        } else {
            "name"@
        },
    }
}

pub open spec fn entry_column(column: int) -> Seq<char> {
    if column == 0 {
        "id"@
    } else if column == 1 {
        "date"@
    } else {
        "amount"@
    }
}

pub open spec fn database_text(q: Query, e: DbError) -> Seq<char> {
    match e {
        DbError::NullColumn(i) => "Database error: Invalid column type Null at index: "@ + decimal(
            i as int,
        ) + ", name: "@ + column_name(q, i as int),
        DbError::IntegerOverflow => "Database error: integer overflow"@,
    }
}

pub open spec fn database_error(q: Query, e: DbError) -> ToolErrorView {
    ToolErrorView::Internal(database_text(q, e))
}

fn get_entry_column(column: usize) -> (r: &'static str)
    ensures
        r@ == entry_column(column as int),
{
    if column == 0 {
        "id"
    } else if column == 1 {
        "date"
    } else {
        "amount"
    }
}

fn get_column_name(q: &Query, column: usize) -> (r: &'static str)
    ensures
        r@ == column_name(*q, column as int),
{
    match q {
        Query::Accounts => if column == 0 {
            "id"
        } else if column == 1 {
            "name"
        } else if column == 3 {
            "offbudget"
        } else {
            "closed"
        },
        Query::Transactions { .. } => get_entry_column(column),
        Query::Uncategorized { .. } => get_entry_column(column),
        Query::ByCategory { .. } => get_entry_column(column),
        Query::MonthlySummary { .. } => if column == 0 {
            "ym"
        } else if column == 1 {
            "income"
        } else {
            "expenses"
        },
        Query::SpendingByCategory { .. } => "total",
        Query::SpendingByPayee { .. } => "total",
        Query::BalanceHistory { .. } => if column == 0 {
            "month"
        } else if column == 1 {
            "month_net"
        } else {
            "balance"
        },
        Query::Rules => if column == 0 {
            "id"
        } else if column == 3 {
            "conditions"
        } else {
            "actions"
        },
        _ => if column == 0 {
            "id"
        } else {
            "name"
        },
    }
}

fn make_database_error(q: &Query, e: DbError) -> (r: ToolError)
    ensures
        r@ == database_error(*q, e),
{
    match e {
        DbError::NullColumn(i) => {
            let mut message = join3(
                "Database error: Invalid column type Null at index: ",
                format_uint(i as u64).as_str(),
                ", name: ",
            );
            message.append(get_column_name(q, i));
            ToolError::Internal(message)
        },
        DbError::IntegerOverflow => ToolError::Internal(
            "Database error: integer overflow".to_string(),
        ),
    }
}

pub open spec fn worth_text(cents: int) -> Seq<char> {
    "Net worth (on-budget accounts): "@ + amount_text(cents)
}

/// The answer of the budget to a question.
pub open spec fn answer_of(b: &Budget, q: Query) -> Result<FoundView, ToolErrorView> {
    match q {
        Query::Accounts => match summary(groups(account_lines(b))) {
            Ok(v) => Ok(FoundView::Accounts(v)),
            Err(e) => Err(database_error(q, e)),
        },
        Query::Transactions { filter, limit } => match listing(
            matching(b, &filter),
            limit as int,
        ) {
            Ok(v) => Ok(FoundView::Transactions(v)),
            Err(e) => Err(database_error(q, e)),
        },
        Query::Categories => match category_tree(b) {
            Ok(v) => Ok(FoundView::Categories(v)),
            Err(e) => Err(database_error(q, e)),
        },
        Query::Payees => match listing(picked(b.payees@, &NotDeleted), -1) {
            Ok(v) => Ok(FoundView::Payees(v)),
            Err(e) => Err(database_error(q, e)),
        },
        Query::BudgetMonth { month, start, end } => match budget_of_month(b, month@, start, end) {
            Ok(m) => Ok(FoundView::BudgetMonth(m)),
            Err(e) => Err(database_error(q, e)),
        },
        Query::MonthlySummary { start, end } => match summary(
            groups(picked(b.transactions@, &(Between { start, end }))),
        ) {
            Ok(v) => Ok(FoundView::Months(v)),
            Err(e) => Err(database_error(q, e)),
        },
        Query::SpendingByCategory { start, end } => match summary(
            groups(category_lines(b, start, end)),
        ) {
            Ok(v) => Ok(FoundView::CategorySpending(v)),
            Err(e) => Err(database_error(q, e)),
        },
        Query::SpendingByPayee { start, end } => match summary(
            groups(payee_lines(b, start, end)),
        ) {
            Ok(v) => Ok(FoundView::PayeeSpending(v)),
            Err(e) => Err(database_error(q, e)),
        },
        Query::Uncategorized { scope, limit } => match listing(
            matching(b, &(Uncategorized { scope })).map_values(|l: Line| bare(l)),
            limit as int,
        ) {
            Ok(v) => Ok(FoundView::Transactions(v)),
            Err(e) => Err(database_error(q, e)),
        },
        Query::ByCategory { regex, scope, limit } => match listing(
            matching(b, &(ByCategory { scope, pattern: regex })),
            limit as int,
        ) {
            Ok(v) => Ok(FoundView::Transactions(v)),
            Err(e) => Err(database_error(q, e)),
        },
        Query::BalanceHistory { account_id, start, end } => match balances(
            months(b, account_id, end),
            start as int,
        ) {
            Ok(v) => Ok(FoundView::Balances(v)),
            Err(e) => Err(database_error(q, e)),
        },
        Query::NetWorth => match sum_or_zero(tally(Tally::Empty, worth_values(b))) {
            Ok(cents) => Ok(FoundView::Text(worth_text(cents))),
            Err(e) => Err(database_error(q, e)),
        },
        Query::Rules => match listing(picked(b.rules@, &NotDeleted), -1) {
            Ok(v) => Ok(FoundView::Rules(v)),
            Err(e) => Err(database_error(q, e)),
        },
    }
}

pub open spec fn found_view(r: Result<Found, ToolError>) -> Result<FoundView, ToolErrorView> {
    match r {
        Ok(found) => Ok(found@),
        Err(e) => Err(e@),
    }
}

impl<'a> Query<'a> {
    /// Asks the budget.
    pub fn run(&self, budget: &Budget) -> (r: Result<Found, ToolError>)
        ensures
            found_view(r) == answer_of(budget, *self),
    {
        match self {
            Query::Accounts => match list_accounts(budget) {
                Ok(v) => Ok(Found::Accounts(v)),
                Err(e) => Err(make_database_error(self, e)),
            },
            Query::Transactions { filter, limit } => match get_transactions(
                budget,
                filter.scope.account_id,
                filter.scope.start_date,
                filter.scope.end_date,
                *limit,
                filter.min_amount,
                filter.max_amount,
                filter.category,
                filter.payee,
                filter.notes,
            ) {
                Ok(v) => Ok(Found::Transactions(v)),
                Err(e) => Err(make_database_error(self, e)),
            },
            Query::Categories => match list_categories(budget) {
                Ok(v) => Ok(Found::Categories(v)),
                Err(e) => Err(make_database_error(self, e)),
            },
            Query::Payees => match list_payees(budget) {
                Ok(v) => Ok(Found::Payees(v)),
                Err(e) => Err(make_database_error(self, e)),
            },
            Query::BudgetMonth { month, start, end } => match get_budget_month(
                budget,
                month,
                *start,
                *end,
            ) {
                Ok(m) => Ok(Found::BudgetMonth(m)),
                Err(e) => Err(make_database_error(self, e)),
            },
            Query::MonthlySummary { start, end } => match monthly_summary(budget, *start, *end) {
                Ok(v) => Ok(Found::Months(v)),
                Err(e) => Err(make_database_error(self, e)),
            },
            Query::SpendingByCategory { start, end } => match spending_by_category(
                budget,
                *start,
                *end,
            ) {
                Ok(v) => Ok(Found::CategorySpending(v)),
                Err(e) => Err(make_database_error(self, e)),
            },
            Query::SpendingByPayee { start, end } => match spending_by_payee(
                budget,
                *start,
                *end,
            ) {
                Ok(v) => Ok(Found::PayeeSpending(v)),
                Err(e) => Err(make_database_error(self, e)),
            },
            Query::Uncategorized { scope, limit } => match uncategorized_transactions(
                budget,
                scope.account_id,
                scope.start_date,
                scope.end_date,
                *limit,
            ) {
                Ok(v) => Ok(Found::Transactions(v)),
                Err(e) => Err(make_database_error(self, e)),
            },
            Query::ByCategory { regex, scope, limit } => match transactions_by_category_regex(
                budget,
                regex,
                scope.account_id,
                scope.start_date,
                scope.end_date,
                *limit,
            ) {
                Ok(v) => Ok(Found::Transactions(v)),
                Err(e) => Err(make_database_error(self, e)),
            },
            Query::BalanceHistory { account_id, start, end } => match balance_history(
                budget,
                *account_id,
                *start,
                *end,
            ) {
                Ok(v) => Ok(Found::Balances(v)),
                Err(e) => Err(make_database_error(self, e)),
            },
            Query::NetWorth => match net_worth(budget) {
                Ok(cents) => Ok(
                    Found::Text(
                        "Net worth (on-budget accounts): ".to_string().concat(
                            format_amount(cents).as_str(),
                        ),
                    ),
                ),
                Err(e) => Err(make_database_error(self, e)),
            },
            Query::Rules => match get_rules(budget) {
                Ok(v) => Ok(Found::Rules(v)),
                Err(e) => Err(make_database_error(self, e)),
            },
        }
    }
}

// ── Tools ────────────────────────────────────────────────────────────────────

pub open spec fn narrowed(n: Option<int>) -> Option<i64> {
    match n {
        Some(v) => Some(v as i64),
        None => None,
    }
}

/// The dates between which transactions are asked for.
pub open spec fn dates_of(start_date: Option<Seq<char>>, end_date: Option<Seq<char>>) -> Result<
    (Option<i64>, Option<i64>),
    ToolErrorView,
> {
    match (optional_date("start_date"@, start_date), optional_date("end_date"@, end_date)) {
        (Err(e), _) => Err(e),
        (Ok(_), Err(e)) => Err(e),
        (Ok(start), Ok(end)) => Ok((narrowed(start), narrowed(end))),
    }
}

fn read_dates(start_date: Option<&str>, end_date: Option<&str>) -> (r: Result<
    (Option<i64>, Option<i64>),
    ToolError,
>)
    ensures
        match r {
            Ok(dates) => dates_of(text_view(start_date), text_view(end_date)) == Ok::<
                (Option<i64>, Option<i64>),
                ToolErrorView,
            >(dates),
            Err(e) => dates_of(text_view(start_date), text_view(end_date)) == Err::<
                (Option<i64>, Option<i64>),
                ToolErrorView,
            >(e@),
        },
{
    let start = match read_optional_date("start_date", start_date) {
        Ok(d) => d,
        Err(e) => return Err(e),
    };
    match read_optional_date("end_date", end_date) {
        Ok(end) => Ok((start, end)),
        Err(e) => Err(e),
    }
}

/// Both dates of a range.
pub open spec fn range_of(start_date: Seq<char>, end_date: Seq<char>) -> Result<
    (i64, i64),
    ToolErrorView,
> {
    match (date_of("start_date"@, start_date), date_of("end_date"@, end_date)) {
        (Err(e), _) => Err(e),
        (Ok(_), Err(e)) => Err(e),
        (Ok(start), Ok(end)) => Ok((start as i64, end as i64)),
    }
}

fn read_range(start_date: &str, end_date: &str) -> (r: Result<(i64, i64), ToolError>)
    ensures
        match r {
            Ok(range) => range_of(start_date@, end_date@) == Ok::<(i64, i64), ToolErrorView>(range),
            Err(e) => range_of(start_date@, end_date@) == Err::<(i64, i64), ToolErrorView>(e@),
        },
{
    let start: i64 = match read_date("start_date", start_date) {
        Ok(d) => d,
        Err(e) => return Err(e),
    };
    match read_date("end_date", end_date) {
        Ok(end) => Ok((start, end)),
        Err(e) => Err(e),
    }
}

/// A question, or why the arguments make none.
pub open spec fn asks<'a>(r: Result<Query<'a>, ToolError>, expected: Result<Query<'a>, ToolErrorView>) -> bool {
    match (r, expected) {
        (Ok(q), Ok(x)) => q == x,
        (Err(e), Err(x)) => e@ == x,
        _ => false,
    }
}

impl ActualServer {
    pub fn get_transactions<'a>(
        account_id: Option<&'a str>,
        start_date: Option<&str>,
        end_date: Option<&str>,
        limit: Option<i64>,
        min_amount_cents: Option<i64>,
        max_amount_cents: Option<i64>,
        category: Option<&'a str>,
        payee: Option<&'a str>,
        notes: Option<&'a str>,
    ) -> (r: Result<Query<'a>, ToolError>)
        ensures
            asks(
                r,
                match dates_of(text_view(start_date), text_view(end_date)) {
                    Ok((start, end)) => Ok(
                        Query::Transactions {
                            filter: TransactionFilter {
                                scope: Scope { account_id, start_date: start, end_date: end },
                                min_amount: min_amount_cents,
                                max_amount: max_amount_cents,
                                category,
                                payee,
                                notes,
                            },
                            limit: clamped_limit(limit, 500) as i64,
                        },
                    ),
                    Err(e) => Err(e),
                },
            ),
            match r {
                Ok(q) => asks_transactions(
                    q,
                    account_id,
                    start_date,
                    end_date,
                    limit,
                    min_amount_cents,
                    max_amount_cents,
                    category,
                    payee,
                    notes,
                ),
                Err(e) => refuses_dates(e@, start_date, end_date),
            },
    {
        match read_dates(start_date, end_date) {
            Ok((start, end)) => Ok(
                Query::Transactions {
                    filter: TransactionFilter {
                        scope: Scope { account_id, start_date: start, end_date: end },
                        min_amount: min_amount_cents,
                        max_amount: max_amount_cents,
                        category,
                        payee,
                        notes,
                    },
                    limit: clamp_limit(limit, 500),
                },
            ),
            Err(e) => Err(e),
        }
    }

    pub fn get_budget_month<'a>(month: &'a str) -> (r: Result<Query<'a>, ToolError>)
        ensures
            asks(
                r,
                match bounds_of(month@) {
                    Some((start, end)) => Ok(
                        Query::BudgetMonth { month, start: start as i64, end: end as i64 },
                    ),
                    None => Err(bad_month("month"@, month@)),
                },
            ),
            match r {
                Ok(q) => asks_budget(q, month),
                Err(e) => refuses(e@, "month"@, month, "YYYY-MM"@),
            },
    {
        proof {
            lemma_month(month);
        }
        match month_bounds(month) {
            Some((start, end)) => Ok(Query::BudgetMonth { month, start, end }),
            None => Err(invalid("month", month, "YYYY-MM")),
        }
    }

    pub fn monthly_summary<'a>(start_month: &str, end_month: &str) -> (r: Result<
        Query<'a>,
        ToolError,
    >)
        ensures
            asks(
                r,
                match (bounds_of(start_month@), bounds_of(end_month@)) {
                    (None, _) => Err(bad_month("start_month"@, start_month@)),
                    (Some(_), None) => Err(bad_month("end_month"@, end_month@)),
                    (Some((start, _)), Some((_, end))) => Ok(
                        Query::MonthlySummary { start: start as i64, end: end as i64 },
                    ),
                },
            ),
            match r {
                Ok(q) => asks_months(q, start_month, end_month),
                Err(e) => refuses_months(e@, start_month, end_month),
            },
    {
        proof {
            lemma_month(start_month);
            lemma_month(end_month);
        }
        let start: i64 = match month_bounds(start_month) {
            Some((start, _)) => start,
            None => return Err(invalid("start_month", start_month, "YYYY-MM")),
        };
        match month_bounds(end_month) {
            Some((_, end)) => Ok(Query::MonthlySummary { start, end }),
            None => Err(invalid("end_month", end_month, "YYYY-MM")),
        }
    }

    pub fn spending_by_category<'a>(start_date: &str, end_date: &str) -> (r: Result<
        Query<'a>,
        ToolError,
    >)
        ensures
            asks(
                r,
                match range_of(start_date@, end_date@) {
                    Ok((start, end)) => Ok(Query::SpendingByCategory { start, end }),
                    Err(e) => Err(e),
                },
            ),
            match r {
                Ok(q) => asks_category_spending(q, start_date, end_date),
                Err(e) => refuses_dates(e@, Some(start_date), Some(end_date)),
            },
    {
        match read_range(start_date, end_date) {
            Ok((start, end)) => Ok(Query::SpendingByCategory { start, end }),
            Err(e) => Err(e),
        }
    }

    pub fn spending_by_payee<'a>(start_date: &str, end_date: &str) -> (r: Result<
        Query<'a>,
        ToolError,
    >)
        ensures
            asks(
                r,
                match range_of(start_date@, end_date@) {
                    Ok((start, end)) => Ok(Query::SpendingByPayee { start, end }),
                    Err(e) => Err(e),
                },
            ),
            match r {
                Ok(q) => asks_payee_spending(q, start_date, end_date),
                Err(e) => refuses_dates(e@, Some(start_date), Some(end_date)),
            },
    {
        match read_range(start_date, end_date) {
            Ok((start, end)) => Ok(Query::SpendingByPayee { start, end }),
            Err(e) => Err(e),
        }
    }

    pub fn balance_history<'a>(account_id: Option<&'a str>, start_month: &str, end_month: &str) -> (r:
        Result<Query<'a>, ToolError>)
        ensures
            asks(
                r,
                match (ym_of(start_month@), ym_of(end_month@)) {
                    (None, _) => Err(bad_month("start_month"@, start_month@)),
                    (Some(_), None) => Err(bad_month("end_month"@, end_month@)),
                    (Some(start), Some(end)) => Ok(
                        Query::BalanceHistory { account_id, start: start as i64, end: end as i64 },
                    ),
                },
            ),
            match r {
                Ok(q) => asks_balances(q, account_id, start_month, end_month),
                Err(e) => refuses_months(e@, start_month, end_month),
            },
    {
        proof {
            lemma_month(start_month);
            lemma_month(end_month);
        }
        let start: i64 = match month_to_ym(start_month) {
            Some(ym) => ym,
            None => return Err(invalid("start_month", start_month, "YYYY-MM")),
        };
        match month_to_ym(end_month) {
            Some(end) => Ok(Query::BalanceHistory { account_id, start, end }),
            None => Err(invalid("end_month", end_month, "YYYY-MM")),
        }
    }

    pub fn uncategorized_transactions<'a>(
        account_id: Option<&'a str>,
        start_date: Option<&str>,
        end_date: Option<&str>,
        limit: Option<i64>,
    ) -> (r: Result<Query<'a>, ToolError>)
        ensures
            asks(
                r,
                match dates_of(text_view(start_date), text_view(end_date)) {
                    Ok((start, end)) => Ok(
                        Query::Uncategorized {
                            scope: Scope { account_id, start_date: start, end_date: end },
                            limit: clamped_limit(limit, 200) as i64,
                        },
                    ),
                    Err(e) => Err(e),
                },
            ),
            match r {
                Ok(q) => asks_for_uncategorized(q, account_id, start_date, end_date, limit),
                Err(e) => refuses_dates(e@, start_date, end_date),
            },
    {
        match read_dates(start_date, end_date) {
            Ok((start, end)) => Ok(
                Query::Uncategorized {
                    scope: Scope { account_id, start_date: start, end_date: end },
                    limit: clamp_limit(limit, 200),
                },
            ),
            Err(e) => Err(e),
        }
    }

    pub fn transactions_by_category<'a>(
        category_regex: &'a str,
        account_id: Option<&'a str>,
        start_date: Option<&str>,
        end_date: Option<&str>,
        limit: Option<i64>,
    ) -> (r: Result<Query<'a>, ToolError>)
        ensures
            asks(
                r,
                match dates_of(text_view(start_date), text_view(end_date)) {
                    Ok((start, end)) => Ok(
                        Query::ByCategory {
                            regex: category_regex,
                            scope: Scope { account_id, start_date: start, end_date: end },
                            limit: clamped_limit(limit, 500) as i64,
                        },
                    ),
                    Err(e) => Err(e),
                },
            ),
            match r {
                Ok(q) => asks_of_category(
                    q,
                    category_regex,
                    account_id,
                    start_date,
                    end_date,
                    limit,
                ),
                Err(e) => refuses_dates(e@, start_date, end_date),
            },
    {
        match read_dates(start_date, end_date) {
            Ok((start, end)) => Ok(
                Query::ByCategory {
                    regex: category_regex,
                    scope: Scope { account_id, start_date: start, end_date: end },
                    limit: clamp_limit(limit, 500),
                },
            ),
            Err(e) => Err(e),
        }
    }

    /// What the tool says once the budget is loaded again.
    pub fn refreshed(path: &str) -> (r: String)
        ensures
            r@ == "Budget loaded from: "@ + path@,
    {
        "Budget loaded from: ".to_string().concat(path)
    }
}

} // verus!
