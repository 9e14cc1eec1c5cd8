//! Accounts and what they hold.

use crate::db::lines::{is_whole, whole};
use crate::models::{amount_text, format_amount, Account, AccountView};
use crate::query::{
    gathered, group_rows, groups, list_groups, result_view, summary, Group, Grouped, Listed, Summed,
};
use crate::sql::{
    add_value, ascending, finish_sum, hits, is_zero, join_inner, join_left, left_join, rank,
    same_number, string_or, sum_or_zero, tally, zero, DbError, SortKey, SortKeyView, Tally,
};
use crate::tables::{AccountRow, Budget, TransactionRow};
use crate::text::{as_text, copy_optional, same_optional, string_view, text_or};
use vstd::prelude::*;
use vstd::string::*;

verus! {

/// An account joined with one of its transactions.
pub struct AccountLine<'a> {
    pub account: &'a AccountRow,
    pub entry: Option<&'a TransactionRow>,
}

pub open spec fn lines_of_account<'a>(b: &'a Budget, a: &'a AccountRow) -> Seq<AccountLine<'a>> {
    if is_zero(a.tombstone) {
        left_join(b.transactions@, string_view(a.id)).map_values(
            |t: Option<&'a TransactionRow>| AccountLine { account: a, entry: t },
        )
    } else {
        Seq::empty()
    }
}

/// Every account that is not deleted, with each of its transactions.
pub open spec fn account_lines<'a>(b: &'a Budget) -> Seq<AccountLine<'a>> {
    gathered(b.accounts@, |a: AccountRow| lines_of_account(b, &a))
}

fn find_account_lines<'a>(b: &'a Budget) -> (r: Vec<AccountLine<'a>>)
    ensures
        r@ == account_lines(b),
{
    let mut out: Vec<AccountLine<'a>> = Vec::new();
    let ghost f = |a: AccountRow| lines_of_account(b, &a);
    let n: usize = b.accounts.len();
    let mut i: usize = 0;
    assert(b.accounts@.take(0) =~= Seq::<AccountRow>::empty());
    while i < n
        invariant
            i <= n == b.accounts@.len(),
            f == (|a: AccountRow| lines_of_account(b, &a)),
            out@ =~= gathered(b.accounts@.take(i as int), f),
        decreases n - i,
    {
        assert(b.accounts@.take(i + 1).drop_last() =~= b.accounts@.take(i as int));
        let a = &b.accounts[i];
        assert(f(b.accounts@[i as int]) == lines_of_account(b, a));
        if zero(&a.tombstone) {
            let entries = join_left(&b.transactions, as_text(&a.id));
            let ghost was = out@;
            let mut j: usize = 0;
            while j < entries.len()
                invariant
                    j <= entries@.len(),
                    is_zero(a.tombstone),
                    entries@ == left_join(b.transactions@, string_view(a.id)),
                    out@ =~= was + lines_of_account(b, a).take(j as int),
                decreases entries@.len() - j,
            {
                out.push(AccountLine { account: a, entry: entries[j] });
                j = j + 1;
            }
        }
        i = i + 1;
    }
    assert(b.accounts@.take(n as int) =~= b.accounts@);
    out
}

impl<'a> Grouped for AccountLine<'a> {
    open spec fn alike(&self, other: &Self) -> bool {
        let (a, b) = (self.account, other.account);
        &&& string_view(a.id) == string_view(b.id)
        &&& string_view(a.name) == string_view(b.name)
        &&& string_view(a.account_type) == string_view(b.account_type)
        &&& a.offbudget == b.offbudget
        &&& a.closed == b.closed
        &&& a.sort_order == b.sort_order
    }

    open spec fn amount(&self) -> Option<i64> {
        match self.entry {
            Some(t) => t.amount,
            None => None,
        }
    }

    fn same_group(&self, other: &Self) -> (r: bool) {
        let (a, b) = (self.account, other.account);
        same_optional(&a.id, &b.id) && same_optional(&a.name, &b.name) && same_optional(
            &a.account_type,
            &b.account_type,
        ) && same_number(&a.offbudget, &b.offbudget) && same_number(&a.closed, &b.closed)
            && same_number(&a.sort_order, &b.sort_order)
    }

    fn get_amount(&self) -> (r: Option<i64>) {
        match self.entry {
            Some(t) => t.amount,
            None => None,
        }
    }
}

impl<'a, 'b> Listed for Group<'a, AccountLine<'b>> {
    type Out = Account;

    open spec fn order_key(&self) -> SortKeyView {
        SortKeyView {
            first: ascending(self.leader.account.sort_order),
            second: 0,
            text: string_view(self.leader.account.name),
        }
    }

    open spec fn outcome(&self) -> Result<AccountView, DbError> {
        let a = self.leader.account;
        match (sum_or_zero(self.all), a.id, a.name, a.offbudget, a.closed) {
            (Err(e), _, _, _, _) => Err(e),
            (Ok(_), None, _, _, _) => Err(DbError::NullColumn(0)),
            (Ok(_), Some(_), None, _, _) => Err(DbError::NullColumn(1)),
            (Ok(_), Some(_), Some(_), None, _) => Err(DbError::NullColumn(3)),
            (Ok(_), Some(_), Some(_), Some(_), None) => Err(DbError::NullColumn(4)),
            (Ok(balance), Some(id), Some(name), Some(offbudget), Some(closed)) => Ok(
                AccountView {
                    id: id@,
                    name: name@,
                    account_type: text_or(string_view(a.account_type), "other"@),
                    offbudget: offbudget != 0,
                    closed: closed != 0,
                    balance_cents: balance,
                    balance_display: amount_text(balance),
                },
            ),
        }
    }

    fn make_key(&self) -> (k: SortKey) {
        let a = self.leader.account;
        SortKey { first: rank(&a.sort_order), second: 0, text: copy_optional(&a.name) }
    }

    fn show(&self) -> (r: Result<Account, DbError>) {
        let a = self.leader.account;
        let balance: i64 = match finish_sum(self.all) {
            Ok(v) => v,
            Err(e) => return Err(e),
        };
        match (&a.id, &a.name, a.offbudget, a.closed) {
            (None, _, _, _) => Err(DbError::NullColumn(0)),
            (Some(_), None, _, _) => Err(DbError::NullColumn(1)),
            (Some(_), Some(_), None, _) => Err(DbError::NullColumn(3)),
            (Some(_), Some(_), Some(_), None) => Err(DbError::NullColumn(4)),
            (Some(id), Some(name), Some(offbudget), Some(closed)) => Ok(
                Account {
                    id: id.clone(),
                    name: name.clone(),
                    account_type: string_or(&a.account_type, "other"),
                    offbudget: offbudget != 0,
                    closed: closed != 0,
                    balance_cents: balance,
                    balance_display: format_amount(balance),
                },
            ),
        }
    }
}

impl<'a, 'b> Summed for Group<'a, AccountLine<'b>> {
    open spec fn spoiled(&self) -> bool {
        self.all is Overflow
    }

    fn is_spoiled(&self) -> (r: bool) {
        matches!(self.all, Tally::Overflow)
    }
}

/// The accounts that are not deleted, each with the sum of its transactions.
pub fn list_accounts(budget: &Budget) -> (r: Result<Vec<Account>, DbError>)
    ensures
        result_view(r) == summary(groups(account_lines(budget))),
{
    let lines = find_account_lines(budget);
    list_groups(&group_rows(&lines))
}

pub open spec fn open_entries<'a>(b: &Budget, t: &'a TransactionRow) -> Seq<Option<i64>> {
    if whole(t) {
        hits(b.accounts@, string_view(t.acct)).map_values(|a: &'a AccountRow| t.amount)
    } else {
        Seq::empty()
    }
}

/// The amounts of the transactions of the accounts that are open and on budget.
pub open spec fn worth_values(b: &Budget) -> Seq<Option<i64>> {
    gathered(b.transactions@, |t: TransactionRow| open_entries(b, &t))
}

/// The sum over the accounts that are open and on budget.
pub fn net_worth(budget: &Budget) -> (r: Result<i64, DbError>)
    ensures
        match r {
            Ok(v) => sum_or_zero(tally(Tally::Empty, worth_values(budget))) == Ok::<int, DbError>(
                v as int,
            ),
            Err(e) => sum_or_zero(tally(Tally::Empty, worth_values(budget))) == Err::<int, DbError>(
                e,
            ),
        },
{
    let mut acc = Tally::Empty;
    let ghost f = |t: TransactionRow| open_entries(budget, &t);
    let n: usize = budget.transactions.len();
    let mut i: usize = 0;
    assert(budget.transactions@.take(0) =~= Seq::<TransactionRow>::empty());
    while i < n
        invariant
            i <= n == budget.transactions@.len(),
            f == (|t: TransactionRow| open_entries(budget, &t)),
            acc == tally(Tally::Empty, gathered(budget.transactions@.take(i as int), f)),
        decreases n - i,
    {
        let ghost before = gathered(budget.transactions@.take(i as int), f);
        assert(budget.transactions@.take(i + 1).drop_last() =~= budget.transactions@.take(i as int));
        let t = &budget.transactions[i];
        assert(f(budget.transactions@[i as int]) == open_entries(budget, t));
        assert(before + Seq::<Option<i64>>::empty() =~= before);
        if is_whole(t) {
            let accounts = join_inner(&budget.accounts, as_text(&t.acct));
            let ghost more = open_entries(budget, t);
            let mut j: usize = 0;
            assert(before + more.take(0) =~= before);
            while j < accounts.len()
                invariant
                    j <= accounts@.len() == more.len(),
                    more == open_entries(budget, t),
                    whole(t),
                    acc == tally(Tally::Empty, before + more.take(j as int)),
                decreases accounts@.len() - j,
            {
                acc = add_value(acc, t.amount);
                assert((before + more.take(j + 1)).drop_last() =~= before + more.take(j as int));
                j = j + 1;
            }
            assert(more.take(more.len() as int) =~= more);
        }
        i = i + 1;
    }
    assert(budget.transactions@.take(n as int) =~= budget.transactions@);
    finish_sum(acc)
}

} // verus!
