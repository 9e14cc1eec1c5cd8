//! What the tools that read the budget ask it, by their arguments.

use crate::db::lines::Scope;
use crate::models::{date_number, month_parts};
use crate::server::errors::ToolErrorView;
use crate::server::reads::Query;
use vstd::prelude::*;
use vstd::string::*;

verus! {

// ── Arguments ────────────────────────────────────────────────────────────────

/// The text is a date, and this is its number.
pub open spec fn is_date(text: &str, day: i64) -> bool {
    date_number(text@) is Some && date_number(text@)->0 == day
}

/// A date is given and this is its number, or neither is there.
pub open spec fn is_given_date(text: Option<&str>, day: Option<i64>) -> bool {
    match (text, day) {
        (Some(text), Some(day)) => is_date(text, day),
        (None, None) => true,
        _ => false,
    }
}

/// How many entries are asked for: what was given, no fewer than one and no more
/// than 2000, or `default` where nothing was given.
pub open spec fn is_limit(limit: Option<i64>, default: i64, n: i64) -> bool {
    match limit {
        Some(l) => 1 <= n <= 2000 && (n == l || (n == 1 && l < 1) || (n == 2000 && l > 2000)),
        None => n == default,
    }
}

/// The month, by its year and its number within the year.
pub open spec fn is_month(text: &str, y: int, m: int) -> bool {
    month_parts(text@) == Some((y, m))
}

pub open spec fn is_scope(
    scope: Scope,
    account_id: Option<&str>,
    start_date: Option<&str>,
    end_date: Option<&str>,
) -> bool {
    &&& scope.account_id == account_id
    &&& is_given_date(start_date, scope.start_date)
    &&& is_given_date(end_date, scope.end_date)
}

pub open spec fn no_date(text: Option<&str>) -> bool {
    text is Some && date_number(text->0@) is None
}

/// The argument is refused: the error names it, says what was given, and what form
/// was expected.
pub open spec fn refuses(e: ToolErrorView, name: Seq<char>, text: &str, form: Seq<char>) -> bool {
    e == ToolErrorView::InvalidParams(
        "Invalid "@ + name + " '"@ + text@ + "'; expected "@ + form,
    )
}

/// The first of the two dates that is none is refused.
pub open spec fn refuses_dates(
    e: ToolErrorView,
    start_date: Option<&str>,
    end_date: Option<&str>,
) -> bool {
    if no_date(start_date) {
        refuses(e, "start_date"@, start_date->0, "YYYY-MM-DD"@)
    } else {
        no_date(end_date) && refuses(e, "end_date"@, end_date->0, "YYYY-MM-DD"@)
    }
}

/// One of the two months is refused; the second only where the first is a month.
pub open spec fn refuses_months(e: ToolErrorView, start_month: &str, end_month: &str) -> bool {
    ||| refuses(e, "start_month"@, start_month, "YYYY-MM"@)
    ||| month_parts(start_month@) is Some && refuses(e, "end_month"@, end_month, "YYYY-MM"@)
}

/// A text that is a month has a year and a number within the year.
pub proof fn lemma_month(text: &str)
    ensures
        month_parts(text@) is Some ==> exists|y: int, m: int| #[trigger]
            is_month(text, y, m) && month_parts(text@) == Some((y, m)),
{
    match month_parts(text@) {
        Some((y, m)) => assert(is_month(text, y, m)),
        None => {},
    }
}

// ── Questions ────────────────────────────────────────────────────────────────

pub open spec fn asks_transactions(
    q: Query,
    account_id: Option<&str>,
    start_date: Option<&str>,
    end_date: Option<&str>,
    limit: Option<i64>,
    min_amount_cents: Option<i64>,
    max_amount_cents: Option<i64>,
    category: Option<&str>,
    payee: Option<&str>,
    notes: Option<&str>,
) -> bool {
    &&& q matches Query::Transactions { filter, limit: n }
    &&& is_scope(filter.scope, account_id, start_date, end_date)
    &&& filter.min_amount == min_amount_cents
    &&& filter.max_amount == max_amount_cents
    &&& filter.category == category
    &&& filter.payee == payee
    &&& filter.notes == notes
    &&& is_limit(limit, 500, n)
}

/// The days from the first of the month up to the first of the next.
pub open spec fn asks_budget(q: Query, month: &str) -> bool {
    &&& q matches Query::BudgetMonth { month: asked, start, end }
    &&& asked@ == month@
    &&& exists|y: int, m: int| #[trigger]
        is_month(month, y, m) && start == y * 10000 + m * 100 + 1 && end == if m == 12 {
            (y + 1) * 10000 + 101
        } else {
            y * 10000 + (m + 1) * 100 + 1
        }
}

/// The days from the first of the one month up to the first of the month behind the
/// other.
pub open spec fn asks_months(q: Query, start_month: &str, end_month: &str) -> bool {
    &&& q matches Query::MonthlySummary { start, end }
    &&& exists|y: int, m: int| #[trigger]
        is_month(start_month, y, m) && start == y * 10000 + m * 100 + 1
    &&& exists|y: int, m: int| #[trigger]
        is_month(end_month, y, m) && end == if m == 12 {
            (y + 1) * 10000 + 101
        } else {
            y * 10000 + (m + 1) * 100 + 1
        }
}

pub open spec fn asks_category_spending(q: Query, start_date: &str, end_date: &str) -> bool {
    &&& q matches Query::SpendingByCategory { start, end }
    &&& is_date(start_date, start)
    &&& is_date(end_date, end)
}

pub open spec fn asks_payee_spending(q: Query, start_date: &str, end_date: &str) -> bool {
    &&& q matches Query::SpendingByPayee { start, end }
    &&& is_date(start_date, start)
    &&& is_date(end_date, end)
}

/// The months from the one to the other, both included, of the account.
pub open spec fn asks_balances(
    q: Query,
    account_id: Option<&str>,
    start_month: &str,
    end_month: &str,
) -> bool {
    &&& q matches Query::BalanceHistory { account_id: asked, start, end }
    &&& asked == account_id
    &&& exists|y: int, m: int| #[trigger] is_month(start_month, y, m) && start == y * 100 + m
    &&& exists|y: int, m: int| #[trigger] is_month(end_month, y, m) && end == y * 100 + m
}

pub open spec fn asks_for_uncategorized(
    q: Query,
    account_id: Option<&str>,
    start_date: Option<&str>,
    end_date: Option<&str>,
    limit: Option<i64>,
) -> bool {
    &&& q matches Query::Uncategorized { scope, limit: n }
    &&& is_scope(scope, account_id, start_date, end_date)
    &&& is_limit(limit, 200, n)
}

pub open spec fn asks_of_category(
    q: Query,
    category_regex: &str,
    account_id: Option<&str>,
    start_date: Option<&str>,
    end_date: Option<&str>,
    limit: Option<i64>,
) -> bool {
    &&& q matches Query::ByCategory { regex, scope, limit: n }
    &&& regex@ == category_regex@
    &&& is_scope(scope, account_id, start_date, end_date)
    &&& is_limit(limit, 500, n)
}

} // verus!
