//! What the list of accounts and the net worth say.

use crate::answers::balances::sum_where;
use crate::answers::catalog::{is_ranked, text_of};
use crate::answers::lists::{lemma_gathered_is, lemma_summed};
use crate::answers::rows::{is_entire, is_live, number, refers, says, shown_as};
use crate::db::accounts::{account_lines, lines_of_account, open_entries, worth_values, AccountLine};
use crate::db::laws::lemma_summary_succeeds;
use crate::db::lines::whole;
use crate::db::sums::{
    lemma_group_total, lemma_leaders, lemma_total_alike, lemma_total_gathered, lemma_total_hits,
    lemma_total_left_join, lemma_total_parallel, lemma_total_swapped, lemma_total_zero,
    lemma_value_sum, number_of, total,
};
use crate::models::{amount_text, AccountView};
use crate::query::{
    group_of, group_values, groups, leaders, measured, Grouped, Listed, Side, Summed,
};
use crate::server::errors::ToolErrorView;
use crate::server::reads::{answer_of, FoundView, Query};
use crate::sql::{
    hits, left_join, lemma_tally_is_sum, meets_key, sum_or_zero, tally, value_sum, DbError, Tally,
};
use crate::tables::{AccountRow, Budget, TransactionRow};
use crate::text::string_view;
use vstd::prelude::*;
use vstd::string::*;

verus! {

// ── Accounts ─────────────────────────────────────────────────────────────────

/// Rows that say the same of an account.
pub open spec fn is_same_account(a: AccountRow, c: AccountRow) -> bool {
    &&& text_of(a.id) == text_of(c.id)
    &&& text_of(a.name) == text_of(c.name)
    &&& text_of(a.account_type) == text_of(c.account_type)
    &&& a.offbudget == c.offbudget
    &&& a.closed == c.closed
    &&& a.sort_order == c.sort_order
}

/// The sum of the whole transactions that refer to the account.
pub open spec fn sum_of_account(b: &Budget, a: AccountRow) -> int {
    sum_where(b, |t: TransactionRow| is_entire(t) && refers(t.acct, a.id))
}

/// What an account holds: the sum of its whole transactions, for each row that says
/// the same of it.
pub open spec fn is_balance(b: &Budget, a: AccountRow, cents: int) -> bool {
    cents == total(
        b.accounts@,
        |c: AccountRow|
            if is_live(c.tombstone) && is_same_account(a, c) {
                sum_of_account(b, c)
            } else {
                0
            },
    )
}

pub open spec fn shows_account(b: &Budget, a: AccountRow, x: AccountView) -> bool {
    &&& says(a.id, x.id)
    &&& says(a.name, x.name)
    &&& x.account_type == shown_as(a.account_type, "other"@)
    &&& a.offbudget is Some && x.offbudget == (a.offbudget->0 != 0)
    &&& a.closed is Some && x.closed == (a.closed->0 != 0)
    &&& is_balance(b, a, x.balance_cents)
    &&& x.balance_display == amount_text(x.balance_cents)
}

/// The accounts of the table that are not deleted, each once, in their order and
/// then that of their names.
pub open spec fn is_account_list(b: &Budget, v: Seq<AccountView>, at: Seq<AccountRow>) -> bool {
    &&& at.len() == v.len()
    &&& forall|i: int|
        #![trigger at[i]]
        #![trigger v[i]]
        0 <= i < v.len() ==> b.accounts@.contains(at[i]) && is_live(at[i].tombstone)
            && shows_account(b, at[i], v[i])
    &&& forall|i: int, j: int|
        #![trigger at[i], at[j]]
        0 <= i < j < at.len() ==> !is_same_account(at[i], at[j]) && is_ranked(
            at[i].sort_order,
            at[i].name->0@,
            at[j].sort_order,
            at[j].name->0@,
        )
    &&& forall|a: AccountRow| #[trigger]
        b.accounts@.contains(a) && is_live(a.tombstone) ==> exists|i: int|
            0 <= i < at.len() && is_same_account(#[trigger] at[i], a)
}

proof fn lemma_account_line<'a>(b: &'a Budget, l: AccountLine<'a>)
    requires
        account_lines(b).contains(l),
    ensures
        b.accounts@.contains(*l.account),
        is_live(l.account.tombstone),
{
    let f = |a: AccountRow| lines_of_account(b, &a);
    lemma_gathered_is(b.accounts@, f, l);
    let k = choose|k: int| 0 <= k < b.accounts@.len() && f(#[trigger] b.accounts@[k]).contains(l);
    let made = f(b.accounts@[k]);
    let i = choose|i: int| 0 <= i < made.len() && made[i] == l;
    assert(*made[i].account == b.accounts@[k]);
}

proof fn lemma_line_of_account<'a>(b: &'a Budget, a: AccountRow) -> (l: AccountLine<'a>)
    requires
        b.accounts@.contains(a),
        is_live(a.tombstone),
    ensures
        account_lines(b).contains(l),
        *l.account == a,
{
    let f = |a: AccountRow| lines_of_account(b, &a);
    let k = choose|k: int| 0 <= k < b.accounts@.len() && b.accounts@[k] == a;
    let joined = left_join::<'a, TransactionRow>(b.transactions@, string_view(a.id));
    assert(joined.len() > 0);
    let l = f(a)[0];
    assert(f(b.accounts@[k]).contains(l));
    lemma_gathered_is(b.accounts@, f, l);
    l
}

/// What the lines of one account add, by the rows of the table.
proof fn lemma_sum_of_lines<'a>(b: &'a Budget, leader: AccountLine<'a>, c: AccountRow)
    ensures
        total(
            lines_of_account(b, &c),
            |l: AccountLine<'a>|
                if leader.alike(&l) {
                    number_of(measured(l.amount(), Side::All))
                } else {
                    0
                },
        ) == if is_live(c.tombstone) && is_same_account(*leader.account, c) {
            sum_of_account(b, c)
        } else {
            0
        },
{
    let g = |l: AccountLine<'a>|
        if leader.alike(&l) {
            number_of(measured(l.amount(), Side::All))
        } else {
            0
        };
    if is_live(c.tombstone) {
        let joined = left_join(b.transactions@, string_view(c.id));
        let h = |t: Option<&'a TransactionRow>| g(AccountLine { account: &c, entry: t });
        lemma_total_parallel(lines_of_account(b, &c), joined, g, h);
        lemma_total_left_join(b.transactions@, string_view(c.id), h);
        let by_entry = |t: TransactionRow|
            if meets_key(&t, string_view(c.id)) {
                h(Some(&t))
            } else {
                0
            };
        let counts = |t: TransactionRow| is_entire(t) && refers(t.acct, c.id);
        if is_same_account(*leader.account, c) {
            lemma_total_alike(
                b.transactions@,
                by_entry,
                |t: TransactionRow|
                    if counts(t) {
                        number(t.amount)
                    } else {
                        0
                    },
            );
        } else {
            lemma_total_zero(b.transactions@, by_entry);
        }
    } else {
        assert(lines_of_account(b, &c) =~= Seq::empty());
    }
}

proof fn lemma_balance<'a>(b: &'a Budget, leader: AccountLine<'a>, cents: int)
    requires
        value_sum(group_values(account_lines(b), leader, Side::All)) == cents,
    ensures
        is_balance(b, *leader.account, cents),
{
    let f = |a: AccountRow| lines_of_account(b, &a);
    let g = |l: AccountLine<'a>|
        if leader.alike(&l) {
            number_of(measured(l.amount(), Side::All))
        } else {
            0
        };
    lemma_group_total(account_lines(b), leader, Side::All);
    lemma_total_gathered(b.accounts@, f, g);
    let by_account = |c: AccountRow|
        if is_live(c.tombstone) && is_same_account(*leader.account, c) {
            sum_of_account(b, c)
        } else {
            0
        };
    assert forall|i: int| 0 <= i < b.accounts@.len() implies total(f(#[trigger] b.accounts@[i]), g)
        == by_account(b.accounts@[i]) by {
        lemma_sum_of_lines(b, leader, b.accounts@[i]);
    }
    lemma_total_alike(b.accounts@, |a: AccountRow| total(f(a), g), by_account);
}

/// The accounts that are listed are those of the table that are not deleted, each
/// with the sum of the whole transactions that refer to it.
#[verifier::rlimit(40)]
pub proof fn law_accounts_are_those_of_the_table(b: &Budget, v: Seq<AccountView>) -> (at: Seq<
    AccountRow,
>)
    requires
        answer_of(b, Query::Accounts) == Ok::<FoundView, ToolErrorView>(FoundView::Accounts(v)),
    ensures
        is_account_list(b, v, at),
{
    let lines = account_lines(b);
    let lead = lemma_summed(lines, v);
    let at = Seq::new(lead.len(), |i: int| *lead[i].account);
    assert forall|i: int|
        #![trigger at[i]]
        #![trigger v[i]]
        0 <= i < v.len() implies b.accounts@.contains(at[i]) && is_live(at[i].tombstone)
        && shows_account(b, at[i], v[i]) by {
        assert(group_of(lines, &lead[i]).outcome() == Ok::<AccountView, DbError>(v[i]));
        lemma_account_line(b, lead[i]);
        lemma_tally_is_sum(group_values(lines, lead[i], Side::All), v[i].balance_cents);
        lemma_balance(b, lead[i], v[i].balance_cents);
    }
    assert forall|i: int, j: int|
        #![trigger at[i], at[j]]
        0 <= i < j < at.len() implies !is_same_account(at[i], at[j]) && is_ranked(
        at[i].sort_order,
        at[i].name->0@,
        at[j].sort_order,
        at[j].name->0@,
    ) by {
        assert(!lead[i].alike(&lead[j]));
        assert(shows_account(b, at[i], v[i]) && shows_account(b, at[j], v[j]));
    }
    assert forall|a: AccountRow| #[trigger]
        b.accounts@.contains(a) && is_live(a.tombstone) implies exists|i: int|
        0 <= i < at.len() && is_same_account(#[trigger] at[i], a) by {
        let l = lemma_line_of_account(b, a);
        let k = choose|k: int| 0 <= k < lines.len() && lines[k] == l;
        assert(lines[k] == l);
        let i = choose|i: int| 0 <= i < lead.len() && (#[trigger] lead[i]).alike(&lines[k]);
        assert(is_same_account(at[i], a));
    }
    at
}

// ── Net worth ────────────────────────────────────────────────────────────────

/// An account that is neither deleted nor closed, and on budget.
pub open spec fn is_open(a: AccountRow) -> bool {
    is_live(a.tombstone) && a.closed == Some(0i64) && a.offbudget == Some(0i64)
}

/// What is owned in all: the sum of the whole transactions of the open accounts.
pub open spec fn is_worth(b: &Budget, cents: int) -> bool {
    cents == total(
        b.transactions@,
        |t: TransactionRow|
            total(
                b.accounts@,
                |a: AccountRow|
                    if is_entire(t) && is_open(a) && refers(t.acct, a.id) {
                        number(t.amount)
                    } else {
                        0
                    },
            ),
    )
}

proof fn lemma_worth_of<'a>(b: &'a Budget, t: TransactionRow)
    ensures
        total(open_entries(b, &t), |v: Option<i64>| number_of(v)) == total(
            b.accounts@,
            |a: AccountRow|
                if is_entire(t) && is_open(a) && refers(t.acct, a.id) {
                    number(t.amount)
                } else {
                    0
                },
        ),
{
    let by_account = |a: AccountRow|
        if is_entire(t) && is_open(a) && refers(t.acct, a.id) {
            number(t.amount)
        } else {
            0
        };
    let g = |v: Option<i64>| number_of(v);
    if whole(&t) {
        let found = hits(b.accounts@, string_view(t.acct));
        let h = |a: &'a AccountRow| number_of(t.amount);
        lemma_total_parallel(open_entries(b, &t), found, g, h);
        lemma_total_hits(b.accounts@, string_view(t.acct), h);
        lemma_total_alike(
            b.accounts@,
            |a: AccountRow|
                if meets_key(&a, string_view(t.acct)) {
                    h(&a)
                } else {
                    0
                },
            by_account,
        );
    } else {
        assert(open_entries(b, &t) =~= Seq::empty());
        lemma_total_zero(b.accounts@, by_account);
    }
}

proof fn lemma_worth(b: &Budget, cents: int)
    requires
        sum_or_zero(tally(Tally::Empty, worth_values(b))) == Ok::<int, DbError>(cents),
    ensures
        is_worth(b, cents),
{
    let n = |v: Option<i64>| number_of(v);
    let e = |t: TransactionRow| open_entries(b, &t);
    let by_entry = |t: TransactionRow|
        total(
            b.accounts@,
            |a: AccountRow|
                if is_entire(t) && is_open(a) && refers(t.acct, a.id) {
                    number(t.amount)
                } else {
                    0
                },
        );
    lemma_tally_is_sum(worth_values(b), cents);
    lemma_value_sum(worth_values(b));
    lemma_total_gathered(b.transactions@, e, n);
    assert forall|i: int| 0 <= i < b.transactions@.len() implies total(
        e(#[trigger] b.transactions@[i]),
        n,
    ) == by_entry(b.transactions@[i]) by {
        lemma_worth_of(b, b.transactions@[i]);
    }
    lemma_total_alike(b.transactions@, |t: TransactionRow| total(e(t), n), by_entry);
}

/// The net worth that is told is the text of what is owned in all.
pub proof fn law_net_worth_is_of_open_accounts(b: &Budget, text: Seq<char>) -> (cents: int)
    requires
        answer_of(b, Query::NetWorth) == Ok::<FoundView, ToolErrorView>(FoundView::Text(text)),
    ensures
        is_worth(b, cents),
        text == "Net worth (on-budget accounts): "@ + amount_text(cents),
{
    let cents = sum_or_zero(tally(Tally::Empty, worth_values(b)))->Ok_0;
    lemma_worth(b, cents);
    cents
}

// ── Success ──────────────────────────────────────────────────────────────────

pub open spec fn size(v: Option<i64>) -> int {
    if number(v) < 0 {
        -number(v)
    } else {
        number(v)
    }
}

/// No two accounts that are not deleted have one id.
pub open spec fn accounts_are_unique(b: &Budget) -> bool {
    forall|i: int, j: int|
        #![trigger b.accounts@[i], b.accounts@[j]]
        0 <= i < j < b.accounts@.len() && is_live(b.accounts@[i].tombstone) && is_live(
            b.accounts@[j].tombstone,
        ) ==> !refers(b.accounts@[i].id, b.accounts@[j].id)
}

/// All amounts together fit 64 bits, whatever their signs.
pub open spec fn amounts_fit(b: &Budget) -> bool {
    total(b.transactions@, |t: TransactionRow| size(t.amount)) <= i64::MAX
}

/// What a transaction adds to an account.
spec fn share_of(a: AccountRow, t: TransactionRow) -> int {
    if is_live(a.tombstone) && is_entire(t) && refers(t.acct, a.id) {
        size(t.amount)
    } else {
        0
    }
}

pub proof fn lemma_tally_fits(values: Seq<Option<i64>>)
    requires
        total(values, |v: Option<i64>| size(v)) <= i64::MAX,
    ensures
        !(tally(Tally::Empty, values) is Overflow),
        tally(Tally::Empty, values) matches Tally::Sum(s) ==> -total(
            values,
            |v: Option<i64>| size(v),
        ) <= s <= total(values, |v: Option<i64>| size(v)),
        total(values, |v: Option<i64>| size(v)) >= 0,
    decreases values.len(),
{
    if values.len() > 0 {
        lemma_sizes(values.drop_last());
        lemma_tally_fits(values.drop_last());
    }
}

proof fn lemma_sizes(values: Seq<Option<i64>>)
    ensures
        total(values, |v: Option<i64>| size(v)) >= 0,
    decreases values.len(),
{
    if values.len() > 0 {
        lemma_sizes(values.drop_last());
    }
}

pub proof fn lemma_at_most<A>(rows: Seq<A>, f: spec_fn(A) -> int, g: spec_fn(A) -> int)
    requires
        forall|i: int| 0 <= i < rows.len() ==> f(#[trigger] rows[i]) <= g(rows[i]),
    ensures
        total(rows, f) <= total(rows, g),
    decreases rows.len(),
{
    if rows.len() > 0 {
        let before = rows.drop_last();
        assert forall|i: int| 0 <= i < before.len() implies f(#[trigger] before[i]) <= g(
            before[i],
        ) by {
            assert(before[i] == rows[i]);
        }
        lemma_at_most(before, f, g);
        assert(f(rows[rows.len() - 1]) <= g(rows[rows.len() - 1]));
    }
}

/// A transaction belongs to no more than one account.
proof fn lemma_one_account(accounts: Seq<AccountRow>, t: TransactionRow)
    requires
        forall|i: int, j: int|
            #![trigger accounts[i], accounts[j]]
            0 <= i < j < accounts.len() && is_live(accounts[i].tombstone) && is_live(
                accounts[j].tombstone,
            ) ==> !refers(accounts[i].id, accounts[j].id),
    ensures
        total(accounts, |a: AccountRow| share_of(a, t)) <= size(t.amount),
        (forall|i: int|
            0 <= i < accounts.len() ==> !(is_live((#[trigger] accounts[i]).tombstone) && refers(
                t.acct,
                accounts[i].id,
            ))) ==> total(accounts, |a: AccountRow| share_of(a, t)) == 0,
    decreases accounts.len(),
{
    if accounts.len() > 0 {
        let before = accounts.drop_last();
        let last = accounts.len() - 1;
        assert forall|i: int, j: int|
            #![trigger before[i], before[j]]
            0 <= i < j < before.len() && is_live(before[i].tombstone) && is_live(
                before[j].tombstone,
            ) implies !refers(before[i].id, before[j].id) by {
            assert(before[i] == accounts[i] && before[j] == accounts[j]);
        }
        lemma_one_account(before, t);
        if share_of(accounts[last], t) != 0 {
            assert forall|i: int| 0 <= i < before.len() implies !(is_live(
                (#[trigger] before[i]).tombstone,
            ) && refers(t.acct, before[i].id)) by {
                assert(before[i] == accounts[i]);
                assert(accounts[last].id is Some);
            }
        }
        if forall|i: int|
            0 <= i < accounts.len() ==> !(is_live((#[trigger] accounts[i]).tombstone) && refers(
                t.acct,
                accounts[i].id,
            )) {
            assert forall|i: int| 0 <= i < before.len() implies !(is_live(
                (#[trigger] before[i]).tombstone,
            ) && refers(t.acct, before[i].id)) by {
                assert(before[i] == accounts[i]);
            }
            assert(!(is_live(accounts[last].tombstone) && refers(t.acct, accounts[last].id)));
        }
    }
}

/// All accounts together share out no more than the amounts.
proof fn lemma_shares(b: &Budget)
    requires
        accounts_are_unique(b),
    ensures
        total(
            b.accounts@,
            |a: AccountRow| total(b.transactions@, |t: TransactionRow| share_of(a, t)),
        ) <= total(b.transactions@, |t: TransactionRow| size(t.amount)),
{
    let c = |a: AccountRow, t: TransactionRow| share_of(a, t);
    lemma_total_swapped(b.accounts@, b.transactions@, c);
    let by_account = |a: AccountRow| total(b.transactions@, |t: TransactionRow| c(a, t));
    let by_entry = |t: TransactionRow| total(b.accounts@, |a: AccountRow| c(a, t));
    assert forall|i: int| 0 <= i < b.transactions@.len() implies by_entry(
        #[trigger] b.transactions@[i],
    ) <= size(b.transactions@[i].amount) by {
        let t = b.transactions@[i];
        lemma_one_account(b.accounts@, t);
        lemma_total_alike(
            b.accounts@,
            |a: AccountRow| share_of(a, t),
            |a: AccountRow| c(a, t),
        );
    }
    lemma_at_most(b.transactions@, by_entry, |t: TransactionRow| size(t.amount));
    let plain = |a: AccountRow| total(b.transactions@, |t: TransactionRow| share_of(a, t));
    assert forall|i: int| 0 <= i < b.accounts@.len() implies plain(#[trigger] b.accounts@[i])
        == by_account(b.accounts@[i]) by {
        let a = b.accounts@[i];
        lemma_total_alike(
            b.transactions@,
            |t: TransactionRow| share_of(a, t),
            |t: TransactionRow| c(a, t),
        );
    }
    lemma_total_alike(b.accounts@, plain, by_account);
}

pub proof fn lemma_group_size<A: Grouped>(rows: Seq<A>, leader: A, side: Side)
    ensures
        total(group_values(rows, leader, side), |v: Option<i64>| size(v)) <= total(
            rows,
            |r: A| size(measured(r.amount(), side)),
        ),
    decreases rows.len(),
{
    if rows.len() > 0 {
        let before = rows.drop_last();
        lemma_group_size(before, leader, side);
        let found = group_values(before, leader, side);
        let last = rows.last();
        assert(found.push(measured(last.amount(), side)).drop_last() =~= found);
    }
}

proof fn lemma_line_sizes<'a>(b: &'a Budget, a: AccountRow)
    ensures
        total(lines_of_account(b, &a), |l: AccountLine<'a>| size(l.amount())) == total(
            b.transactions@,
            |t: TransactionRow| share_of(a, t),
        ),
{
    let g = |l: AccountLine<'a>| size(l.amount());
    let by_entry = |t: TransactionRow| share_of(a, t);
    if is_live(a.tombstone) {
        let joined = left_join(b.transactions@, string_view(a.id));
        let h = |t: Option<&'a TransactionRow>| g(AccountLine { account: &a, entry: t });
        lemma_total_parallel(lines_of_account(b, &a), joined, g, h);
        lemma_total_left_join(b.transactions@, string_view(a.id), h);
        lemma_total_alike(
            b.transactions@,
            |t: TransactionRow|
                if meets_key(&t, string_view(a.id)) {
                    h(Some(&t))
                } else {
                    0
                },
            by_entry,
        );
    } else {
        assert(lines_of_account(b, &a) =~= Seq::empty());
        lemma_total_zero(b.transactions@, by_entry);
    }
}

/// The accounts are listed unless one that is not deleted lacks a column, or the
/// amounts are too large to be summed up.
#[verifier::rlimit(40)]
pub proof fn law_accounts_fail_only_on_nulls_and_overflow(b: &Budget)
    requires
        accounts_are_unique(b),
        amounts_fit(b),
        forall|a: AccountRow| #[trigger]
            b.accounts@.contains(a) && is_live(a.tombstone) ==> a.id is Some && a.name is Some
                && a.offbudget is Some && a.closed is Some,
    ensures
        answer_of(b, Query::Accounts) is Ok,
{
    let lines = account_lines(b);
    let all = groups(lines);
    let f = |a: AccountRow| lines_of_account(b, &a);
    let g = |l: AccountLine| size(l.amount());
    lemma_total_gathered(b.accounts@, f, g);
    let by_account = |a: AccountRow| total(b.transactions@, |t: TransactionRow| share_of(a, t));
    assert forall|i: int| 0 <= i < b.accounts@.len() implies total(f(#[trigger] b.accounts@[i]), g)
        == by_account(b.accounts@[i]) by {
        lemma_line_sizes(b, b.accounts@[i]);
    }
    lemma_total_alike(b.accounts@, |a: AccountRow| total(f(a), g), by_account);
    lemma_shares(b);
    lemma_leaders(lines);
    assert forall|i: int| 0 <= i < all.len() implies (#[trigger] all[i]).outcome() is Ok
        && !all[i].spoiled() by {
        let leader = leaders(lines)[i];
        assert(all[i] == group_of(lines, &leader));
        lemma_account_line(b, leader);
        lemma_group_size(lines, leader, Side::All);
        lemma_total_alike(lines, |l: AccountLine| size(measured(l.amount(), Side::All)), g);
        lemma_tally_fits(group_values(lines, leader, Side::All));
    }
    lemma_summary_succeeds(all);
}

proof fn lemma_worth_size<'a>(b: &'a Budget, t: TransactionRow)
    requires
        accounts_are_unique(b),
    ensures
        total(open_entries(b, &t), |v: Option<i64>| size(v)) <= size(t.amount),
{
    let g = |v: Option<i64>| size(v);
    if whole(&t) {
        let found = hits(b.accounts@, string_view(t.acct));
        let h = |a: &'a AccountRow| size(t.amount);
        lemma_total_parallel(open_entries(b, &t), found, g, h);
        lemma_total_hits(b.accounts@, string_view(t.acct), h);
        lemma_at_most(
            b.accounts@,
            |a: AccountRow|
                if meets_key(&a, string_view(t.acct)) {
                    h(&a)
                } else {
                    0
                },
            |a: AccountRow| share_of(a, t),
        );
        lemma_one_account(b.accounts@, t);
    } else {
        assert(open_entries(b, &t) =~= Seq::empty());
    }
}

/// The net worth is told unless the amounts are too large to be summed up.
pub proof fn law_net_worth_fails_only_on_overflow(b: &Budget)
    requires
        accounts_are_unique(b),
        amounts_fit(b),
    ensures
        answer_of(b, Query::NetWorth) is Ok,
{
    let n = |v: Option<i64>| size(v);
    let e = |t: TransactionRow| open_entries(b, &t);
    lemma_total_gathered(b.transactions@, e, n);
    let by_entry = |t: TransactionRow| total(e(t), n);
    assert forall|i: int| 0 <= i < b.transactions@.len() implies by_entry(
        #[trigger] b.transactions@[i],
    ) <= size(b.transactions@[i].amount) by {
        lemma_worth_size(b, b.transactions@[i]);
    }
    lemma_at_most(b.transactions@, by_entry, |t: TransactionRow| size(t.amount));
    lemma_tally_fits(worth_values(b));
}

} // verus!
