//! Lists of transactions.

use crate::db::lines::{
    category_name, get_category_name, get_payee_name, matching, payee_name, select, ByCategory,
    Line, Scope, TransactionFilter, Uncategorized,
};
use crate::models::{
    amount_text, date_int_to_str, date_text, format_amount, Transaction, TransactionView,
};
use crate::query::{list_rows, listing, result_view, Listed};
use crate::sql::{ascending, flag, is_flag, rank, DbError, SortKey, SortKeyView};
use crate::tables::Budget;
use crate::text::{as_text, copy_optional, str_or, string_view, text_or};
use vstd::prelude::*;
use vstd::string::*;

verus! {

impl<'a> Listed for Line<'a> {
    type Out = Transaction;

    /// The newest first; on one day by id.
    open spec fn order_key(&self) -> SortKeyView {
        SortKeyView {
            first: -ascending(self.entry.date),
            second: 0,
            text: string_view(self.entry.id),
        }
    }

    open spec fn outcome(&self) -> Result<TransactionView, DbError> {
        let t = self.entry;
        match (t.date, t.amount, t.id) {
            (None, _, _) => Err(DbError::NullColumn(1)),
            (Some(_), None, _) => Err(DbError::NullColumn(2)),
            (Some(_), Some(_), None) => Err(DbError::NullColumn(0)),
            (Some(date), Some(amount), Some(id)) => Ok(
                TransactionView {
                    id: id@,
                    date: date_text(date as int),
                    amount_cents: amount as int,
                    amount_display: amount_text(amount as int),
                    payee: text_or(payee_name(self.payee), ""@),
                    category: text_or(category_name(self.category), ""@),
                    notes: text_or(string_view(t.notes), ""@),
                    cleared: flag(t.cleared),
                    reconciled: flag(t.reconciled),
                },
            ),
        }
    }

    fn make_key(&self) -> (k: SortKey) {
        SortKey { first: -rank(&self.entry.date), second: 0, text: copy_optional(&self.entry.id) }
    }

    fn show(&self) -> (r: Result<Transaction, DbError>) {
        let t = self.entry;
        let date: i64 = match t.date {
            Some(d) => d,
            None => return Err(DbError::NullColumn(1)),
        };
        let amount: i64 = match t.amount {
            Some(a) => a,
            None => return Err(DbError::NullColumn(2)),
        };
        match &t.id {
            Some(id) => Ok(
                Transaction {
                    id: id.clone(),
                    date: date_int_to_str(date),
                    amount_cents: amount,
                    amount_display: format_amount(amount),
                    payee: str_or(get_payee_name(self.payee), "").to_string(),
                    category: str_or(get_category_name(self.category), "").to_string(),
                    notes: str_or(as_text(&t.notes), "").to_string(),
                    cleared: is_flag(&t.cleared),
                    reconciled: is_flag(&t.reconciled),
                },
            ),
            None => Err(DbError::NullColumn(0)),
        }
    }
}

/// The transactions that are not deleted and no part of a split and that meet
/// every condition given; the newest first, no more than `limit` (a negative one
/// is no limit).
pub fn get_transactions(
    budget: &Budget,
    account_id: Option<&str>,
    start_date: Option<i64>,
    end_date: Option<i64>,
    limit: i64,
    min_amount: Option<i64>,
    max_amount: Option<i64>,
    category: Option<&str>,
    payee: Option<&str>,
    notes: Option<&str>,
) -> (r: Result<Vec<Transaction>, DbError>)
    ensures
        result_view(r) == listing(
            matching(
                budget,
                &(TransactionFilter {
                    scope: Scope { account_id, start_date, end_date },
                    min_amount,
                    max_amount,
                    category,
                    payee,
                    notes,
                }),
            ),
            limit as int,
        ),
{
    let filter = TransactionFilter {
        scope: Scope { account_id, start_date, end_date },
        min_amount,
        max_amount,
        category,
        payee,
        notes,
    };
    list_rows(&select(budget, &filter), limit)
}

/// A transaction that is shown without a category.
pub open spec fn bare<'a>(line: Line<'a>) -> Line<'a> {
    Line { entry: line.entry, payee: line.payee, category: None }
}

/// The transactions without a category or in the reserved category
/// "Uncategorized"; the newest first, no more than `limit` (a negative one is no
/// limit). All are shown without a category.
pub fn uncategorized_transactions(
    budget: &Budget,
    account_id: Option<&str>,
    start_date: Option<i64>,
    end_date: Option<i64>,
    limit: i64,
) -> (r: Result<Vec<Transaction>, DbError>)
    ensures
        result_view(r) == listing(
            matching(
                budget,
                &(Uncategorized { scope: Scope { account_id, start_date, end_date } }),
            ).map_values(|l: Line| bare(l)),
            limit as int,
        ),
{
    let filter = Uncategorized { scope: Scope { account_id, start_date, end_date } };
    let found = select(budget, &filter);
    let mut rows: Vec<Line> = Vec::new();
    let n: usize = found.len();
    let mut i: usize = 0;
    while i < n
        invariant
            i <= n == found@.len(),
            rows@ =~= found@.take(i as int).map_values(|l: Line| bare(l)),
        decreases n - i,
    {
        rows.push(Line { entry: found[i].entry, payee: found[i].payee, category: None });
        i = i + 1;
    }
    assert(found@.take(n as int) =~= found@);
    list_rows(&rows, limit)
}

/// The transactions whose category has a name that `regex` matches; the newest
/// first, no more than `limit` (a negative one is no limit).
pub fn transactions_by_category_regex(
    budget: &Budget,
    regex: &str,
    account_id: Option<&str>,
    start_date: Option<i64>,
    end_date: Option<i64>,
    limit: i64,
) -> (r: Result<Vec<Transaction>, DbError>)
    ensures
        result_view(r) == listing(
            matching(
                budget,
                &(ByCategory { scope: Scope { account_id, start_date, end_date }, pattern: regex }),
            ),
            limit as int,
        ),
{
    let filter = ByCategory { scope: Scope { account_id, start_date, end_date }, pattern: regex };
    list_rows(&select(budget, &filter), limit)
}

} // verus!
