//! The records that the budget tools hand out, and the text forms of money and
//! dates.

use crate::json::{Json, JsonView};
use crate::text::{
    decimal, digit_char, digits, format_int, format_padded, is_digit, lemma_before_at,
    lemma_before_irreflexive, lemma_before_transitive, lemma_first_char, lemma_padded_round_trip,
    padded, parse_int, parsed_int, split_at_char, split_once, string_view, text_before,
};
use vstd::prelude::*;
use vstd::string::*;

verus! {

// ── Replies of the Actual Budget server ──────────────────────────────────────

/// The envelope around every reply of the Actual Budget server.
#[derive(Debug)]
pub struct ApiResponse<T> {
    pub status: String,
    pub data: Option<T>,
}

#[derive(Debug)]
pub struct LoginData {
    pub token: String,
}

/// One budget file that the server keeps.
#[derive(Debug)]
pub struct UserFile {
    pub file_id: String,
    pub name: String,
    pub deleted: bool,
    pub encrypt_key_id: Option<String>,
}

// ── Records handed out by the tools ──────────────────────────────────────────

#[derive(Debug)]
pub struct Account {
    pub id: String,
    pub name: String,
    pub account_type: String,
    pub offbudget: bool,
    pub closed: bool,
    pub balance_cents: i64,
    pub balance_display: String,
}

#[derive(Debug)]
pub struct Transaction {
    pub id: String,
    /// "YYYY-MM-DD"
    pub date: String,
    pub amount_cents: i64,
    pub amount_display: String,
    pub payee: String,
    pub category: String,
    pub notes: String,
    pub cleared: bool,
    pub reconciled: bool,
}

#[derive(Debug)]
pub struct CategoryGroup {
    pub id: String,
    pub name: String,
    pub is_income: bool,
    pub categories: Vec<Category>,
}

#[derive(Debug)]
pub struct Category {
    pub id: String,
    pub name: String,
    pub is_income: bool,
    pub hidden: bool,
}

#[derive(Debug)]
pub struct Payee {
    pub id: String,
    pub name: String,
    pub transfer_account_id: Option<String>,
}

#[derive(Debug)]
pub struct BudgetCategory {
    pub category_id: String,
    pub category_name: String,
    pub group_name: String,
    pub budgeted_cents: i64,
    pub budgeted_display: String,
    pub spent_cents: i64,
    pub spent_display: String,
    pub balance_cents: i64,
    pub balance_display: String,
}

#[derive(Debug)]
pub struct BudgetMonth {
    pub month: String,
    pub categories: Vec<BudgetCategory>,
    pub total_budgeted_cents: i64,
    pub total_budgeted_display: String,
    pub total_spent_cents: i64,
    pub total_spent_display: String,
    pub total_balance_cents: i64,
    pub total_balance_display: String,
}

#[derive(Debug)]
pub struct MonthSummary {
    pub month: String,
    pub income_cents: i64,
    pub income_display: String,
    pub expenses_cents: i64,
    pub expenses_display: String,
    pub net_cents: i64,
    pub net_display: String,
}

#[derive(Debug)]
pub struct CategorySpending {
    pub category_name: String,
    pub group_name: String,
    pub total_cents: i64,
    pub total_display: String,
    pub transaction_count: i64,
}

#[derive(Debug)]
pub struct PayeeSpending {
    pub payee_name: String,
    pub total_cents: i64,
    pub total_display: String,
    pub transaction_count: i64,
}

#[derive(Debug)]
pub struct BalanceHistoryEntry {
    pub month: String,
    pub net_change_cents: i64,
    pub net_change_display: String,
    pub balance_cents: i64,
    pub balance_display: String,
}

/// A rule that sets fields of the transactions it matches.
#[derive(Debug)]
pub struct Rule {
    pub id: String,
    pub stage: Option<String>,
    pub conditions_op: String,
    pub conditions: Json,
    pub actions: Json,
}

// ── What the records say ─────────────────────────────────────────────────────

pub struct AccountView {
    pub id: Seq<char>,
    pub name: Seq<char>,
    pub account_type: Seq<char>,
    pub offbudget: bool,
    pub closed: bool,
    pub balance_cents: int,
    pub balance_display: Seq<char>,
}

impl View for Account {
    type V = AccountView;

    open spec fn view(&self) -> AccountView {
        AccountView {
            id: self.id@,
            name: self.name@,
            account_type: self.account_type@,
            offbudget: self.offbudget,
            closed: self.closed,
            balance_cents: self.balance_cents as int,
            balance_display: self.balance_display@,
        }
    }
}

pub struct TransactionView {
    pub id: Seq<char>,
    pub date: Seq<char>,
    pub amount_cents: int,
    pub amount_display: Seq<char>,
    pub payee: Seq<char>,
    pub category: Seq<char>,
    pub notes: Seq<char>,
    pub cleared: bool,
    pub reconciled: bool,
}

impl View for Transaction {
    type V = TransactionView;

    open spec fn view(&self) -> TransactionView {
        TransactionView {
            id: self.id@,
            date: self.date@,
            amount_cents: self.amount_cents as int,
            amount_display: self.amount_display@,
            payee: self.payee@,
            category: self.category@,
            notes: self.notes@,
            cleared: self.cleared,
            reconciled: self.reconciled,
        }
    }
}

pub struct CategoryView {
    pub id: Seq<char>,
    pub name: Seq<char>,
    pub is_income: bool,
    pub hidden: bool,
}

impl View for Category {
    type V = CategoryView;

    open spec fn view(&self) -> CategoryView {
        CategoryView {
            id: self.id@,
            name: self.name@,
            is_income: self.is_income,
            hidden: self.hidden,
        }
    }
}

pub struct CategoryGroupView {
    pub id: Seq<char>,
    pub name: Seq<char>,
    pub is_income: bool,
    pub categories: Seq<CategoryView>,
}

impl View for CategoryGroup {
    type V = CategoryGroupView;

    open spec fn view(&self) -> CategoryGroupView {
        CategoryGroupView {
            id: self.id@,
            name: self.name@,
            is_income: self.is_income,
            categories: self.categories@.map_values(|x: Category| x@),
        }
    }
}

pub struct PayeeView {
    pub id: Seq<char>,
    pub name: Seq<char>,
    pub transfer_account_id: Option<Seq<char>>,
}

impl View for Payee {
    type V = PayeeView;

    open spec fn view(&self) -> PayeeView {
        PayeeView {
            id: self.id@,
            name: self.name@,
            transfer_account_id: string_view(self.transfer_account_id),
        }
    }
}

pub struct BudgetCategoryView {
    pub category_id: Seq<char>,
    pub category_name: Seq<char>,
    pub group_name: Seq<char>,
    pub budgeted_cents: int,
    pub budgeted_display: Seq<char>,
    pub spent_cents: int,
    pub spent_display: Seq<char>,
    pub balance_cents: int,
    pub balance_display: Seq<char>,
}

impl View for BudgetCategory {
    type V = BudgetCategoryView;

    open spec fn view(&self) -> BudgetCategoryView {
        BudgetCategoryView {
            category_id: self.category_id@,
            category_name: self.category_name@,
            group_name: self.group_name@,
            budgeted_cents: self.budgeted_cents as int,
            budgeted_display: self.budgeted_display@,
            spent_cents: self.spent_cents as int,
            spent_display: self.spent_display@,
            balance_cents: self.balance_cents as int,
            balance_display: self.balance_display@,
        }
    }
}

pub struct BudgetMonthView {
    pub month: Seq<char>,
    pub categories: Seq<BudgetCategoryView>,
    pub total_budgeted_cents: int,
    pub total_budgeted_display: Seq<char>,
    pub total_spent_cents: int,
    pub total_spent_display: Seq<char>,
    pub total_balance_cents: int,
    pub total_balance_display: Seq<char>,
}

impl View for BudgetMonth {
    type V = BudgetMonthView;

    open spec fn view(&self) -> BudgetMonthView {
        BudgetMonthView {
            month: self.month@,
            categories: self.categories@.map_values(|x: BudgetCategory| x@),
            total_budgeted_cents: self.total_budgeted_cents as int,
            total_budgeted_display: self.total_budgeted_display@,
            total_spent_cents: self.total_spent_cents as int,
            total_spent_display: self.total_spent_display@,
            total_balance_cents: self.total_balance_cents as int,
            total_balance_display: self.total_balance_display@,
        }
    }
}

pub struct MonthSummaryView {
    pub month: Seq<char>,
    pub income_cents: int,
    pub income_display: Seq<char>,
    pub expenses_cents: int,
    pub expenses_display: Seq<char>,
    pub net_cents: int,
    pub net_display: Seq<char>,
}

impl View for MonthSummary {
    type V = MonthSummaryView;

    open spec fn view(&self) -> MonthSummaryView {
        MonthSummaryView {
            month: self.month@,
            income_cents: self.income_cents as int,
            income_display: self.income_display@,
            expenses_cents: self.expenses_cents as int,
            expenses_display: self.expenses_display@,
            net_cents: self.net_cents as int,
            net_display: self.net_display@,
        }
    }
}

pub struct CategorySpendingView {
    pub category_name: Seq<char>,
    pub group_name: Seq<char>,
    pub total_cents: int,
    pub total_display: Seq<char>,
    pub transaction_count: int,
}

impl View for CategorySpending {
    type V = CategorySpendingView;

    open spec fn view(&self) -> CategorySpendingView {
        CategorySpendingView {
            category_name: self.category_name@,
            group_name: self.group_name@,
            total_cents: self.total_cents as int,
            total_display: self.total_display@,
            transaction_count: self.transaction_count as int,
        }
    }
}

pub struct PayeeSpendingView {
    pub payee_name: Seq<char>,
    pub total_cents: int,
    pub total_display: Seq<char>,
    pub transaction_count: int,
}

impl View for PayeeSpending {
    type V = PayeeSpendingView;

    open spec fn view(&self) -> PayeeSpendingView {
        PayeeSpendingView {
            payee_name: self.payee_name@,
            total_cents: self.total_cents as int,
            total_display: self.total_display@,
            transaction_count: self.transaction_count as int,
        }
    }
}

pub struct BalanceHistoryEntryView {
    pub month: Seq<char>,
    pub net_change_cents: int,
    pub net_change_display: Seq<char>,
    pub balance_cents: int,
    pub balance_display: Seq<char>,
}

impl View for BalanceHistoryEntry {
    type V = BalanceHistoryEntryView;

    open spec fn view(&self) -> BalanceHistoryEntryView {
        BalanceHistoryEntryView {
            month: self.month@,
            net_change_cents: self.net_change_cents as int,
            net_change_display: self.net_change_display@,
            balance_cents: self.balance_cents as int,
            balance_display: self.balance_display@,
        }
    }
}

pub struct RuleView {
    pub id: Seq<char>,
    pub stage: Option<Seq<char>>,
    pub conditions_op: Seq<char>,
    pub conditions: JsonView,
    pub actions: JsonView,
}

impl View for Rule {
    type V = RuleView;

    open spec fn view(&self) -> RuleView {
        RuleView {
            id: self.id@,
            stage: string_view(self.stage),
            conditions_op: self.conditions_op@,
            conditions: self.conditions@,
            actions: self.actions@,
        }
    }
}

// ── Amounts ──────────────────────────────────────────────────────────────────

pub open spec fn magnitude(n: int) -> int {
    if n < 0 {
        -n
    } else {
        n
    }
}

/// Dollars and cents, the sign in front of the dollar sign.
pub open spec fn amount_text(cents: int) -> Seq<char> {
    (if cents < 0 {
        "-$"@
    } else {
        "$"@
    }) + decimal(magnitude(cents) / 100) + "."@ + padded(magnitude(cents) % 100, 2)
}

/// Money is kept as integer cents (100 is one dollar).
pub fn format_amount(cents: i64) -> (r: String)
    ensures
        r@ == amount_text(cents as int),
{
    let abs: i128 = if cents < 0 {
        -(cents as i128)
    } else {
        cents as i128
    };
    let dollars: i64 = (abs / 100) as i64;
    let rem: i64 = (abs % 100) as i64;
    let mut s: String = if cents < 0 {
        "-$".to_string()
    } else {
        "$".to_string()
    };
    s.append(format_int(dollars).as_str());
    s.append(".");
    s.append(format_padded(rem, 2).as_str());
    s
}

// ── Dates ────────────────────────────────────────────────────────────────────

/// Division that rounds towards zero.
pub open spec fn quotient(n: int, d: int) -> int {
    if n < 0 {
        -((-n) / d)
    } else {
        n / d
    }
}

/// The remainder that goes with `quotient`; it has the sign of `n`.
pub open spec fn remainder(n: int, d: int) -> int {
    n - quotient(n, d) * d
}

pub fn div_to_zero(n: i64, d: i64) -> (r: i64)
    requires
        d > 0,
    ensures
        r == quotient(n as int, d as int),
{
    if n < 0 {
        let m: i128 = -(n as i128);
        assert(0 <= m as int / d as int <= m) by (nonlinear_arith)
            requires
                m > 0,
                d > 0,
        ;
        (-(m / (d as i128))) as i64
    } else {
        n / d
    }
}

/// "YYYY-MM" of a month kept as the number YYYYMM.
pub open spec fn month_text(ym: int) -> Seq<char> {
    padded(quotient(ym, 100), 4) + "-"@ + padded(remainder(ym, 100), 2)
}

/// "YYYY-MM-DD" of a date kept as the number YYYYMMDD.
pub open spec fn date_text(d: int) -> Seq<char> {
    padded(quotient(d, 10000), 4) + "-"@ + padded(quotient(remainder(d, 10000), 100), 2) + "-"@
        + padded(remainder(d, 100), 2)
}

pub fn format_month(ym: i64) -> (r: String)
    ensures
        r@ == month_text(ym as int),
{
    let y = div_to_zero(ym, 100);
    let m: i64 = (ym as i128 - (y as i128) * 100) as i64;
    let mut s = format_padded(y, 4);
    s.append("-");
    s.append(format_padded(m, 2).as_str());
    s
}

/// Dates are kept as YYYYMMDD integers.
pub fn date_int_to_str(d: i64) -> (r: String)
    ensures
        r@ == date_text(d as int),
{
    let year = div_to_zero(d, 10000);
    let rest: i64 = (d as i128 - (year as i128) * 10000) as i64;
    let month = div_to_zero(rest, 100);
    let hundreds = div_to_zero(d, 100);
    let day: i64 = (d as i128 - (hundreds as i128) * 100) as i64;
    let mut s = format_padded(year, 4);
    s.append("-");
    s.append(format_padded(month, 2).as_str());
    s.append("-");
    s.append(format_padded(day, 2).as_str());
    s
}

pub open spec fn in_i64(n: int) -> bool {
    i64::MIN <= n <= i64::MAX
}

/// The three numbers of a "YYYY-MM-DD" text.
pub open spec fn date_parts(s: Seq<char>) -> Option<(int, int, int)> {
    match split_once(s, '-') {
        Some((y, rest)) => match split_once(rest, '-') {
            Some((m, d)) => match (parsed_int(y), parsed_int(m), parsed_int(d)) {
                (Some(y), Some(m), Some(d)) => Some((y, m, d)),
                _ => None,
            },
            None => None,
        },
        None => None,
    }
}

/// The number YYYYMMDD of a "YYYY-MM-DD" text.
pub open spec fn date_number(s: Seq<char>) -> Option<int> {
    match date_parts(s) {
        Some((y, m, d)) => if in_i64(y * 10000 + m * 100 + d) {
            Some(y * 10000 + m * 100 + d)
        } else {
            None
        },
        None => None,
    }
}

/// Accepts "YYYY-MM-DD". A date whose number does not fit 64 bits is no date.
pub fn date_str_to_int(s: &str) -> (r: Option<i64>)
    ensures
        match r {
            Some(d) => date_number(s@) == Some(d as int),
            None => date_number(s@) is None,
        },
{
    let (y, rest) = match split_at_char(s, '-') {
        Some(p) => p,
        None => return None,
    };
    let (m, d) = match split_at_char(rest, '-') {
        Some(p) => p,
        None => return None,
    };
    match (parse_int(y), parse_int(m), parse_int(d)) {
        (Some(y), Some(m), Some(d)) => narrow(y as i128 * 10000 + m as i128 * 100 + d as i128),
        _ => None,
    }
}

fn narrow(n: i128) -> (r: Option<i64>)
    ensures
        match r {
            Some(v) => v == n && in_i64(n as int),
            None => !in_i64(n as int),
        },
{
    if i64::MIN as i128 <= n && n <= i64::MAX as i128 {
        Some(n as i64)
    } else {
        None
    }
}

/// The two numbers of a "YYYY-MM" text.
pub open spec fn month_parts(s: Seq<char>) -> Option<(int, int)> {
    match split_once(s, '-') {
        Some((y, m)) => match (parsed_int(y), parsed_int(m)) {
            (Some(y), Some(m)) => Some((y, m)),
            _ => None,
        },
        None => None,
    }
}

fn read_month(s: &str) -> (r: Option<(i64, i64)>)
    ensures
        match r {
            Some((y, m)) => month_parts(s@) == Some((y as int, m as int)),
            None => month_parts(s@) is None,
        },
{
    let (y, m) = match split_at_char(s, '-') {
        Some(p) => p,
        None => return None,
    };
    match (parse_int(y), parse_int(m)) {
        (Some(y), Some(m)) => Some((y, m)),
        _ => None,
    }
}

pub open spec fn month_start(y: int, m: int) -> int {
    y * 10000 + m * 100 + 1
}

pub open spec fn month_end(y: int, m: int) -> int {
    if m == 12 {
        month_start(y + 1, 1)
    } else {
        month_start(y, m + 1)
    }
}

/// The first day of a month and of the one behind it.
pub open spec fn bounds_of(s: Seq<char>) -> Option<(int, int)> {
    match month_parts(s) {
        Some((y, m)) => if in_i64(month_start(y, m)) && in_i64(month_end(y, m)) {
            Some((month_start(y, m), month_end(y, m)))
        } else {
            None
        },
        None => None,
    }
}

/// The first day of a "YYYY-MM" month and of the month behind it, as YYYYMMDD
/// numbers. A month whose days do not fit 64 bits is no month.
pub fn month_bounds(month: &str) -> (r: Option<(i64, i64)>)
    ensures
        match r {
            Some((start, end)) => bounds_of(month@) == Some((start as int, end as int)),
            None => bounds_of(month@) is None,
        },
{
    let (y, m) = match read_month(month) {
        Some(p) => p,
        None => return None,
    };
    let start: i128 = y as i128 * 10000 + m as i128 * 100 + 1;
    let end: i128 = if m == 12 {
        (y as i128 + 1) * 10000 + 100 + 1
    } else {
        y as i128 * 10000 + (m as i128 + 1) * 100 + 1
    };
    match (narrow(start), narrow(end)) {
        (Some(a), Some(b)) => Some((a, b)),
        _ => None,
    }
}

/// The number YYYYMM of a "YYYY-MM" text.
pub open spec fn ym_of(s: Seq<char>) -> Option<int> {
    match month_parts(s) {
        Some((y, m)) => if in_i64(y * 100 + m) {
            Some(y * 100 + m)
        } else {
            None
        },
        None => None,
    }
}

/// The number YYYYMM of a "YYYY-MM" month.
pub fn month_to_ym(month: &str) -> (r: Option<i64>)
    ensures
        match r {
            Some(ym) => ym_of(month@) == Some(ym as int),
            None => ym_of(month@) is None,
        },
{
    match read_month(month) {
        Some((y, m)) => narrow(y as i128 * 100 + m as i128),
        None => None,
    }
}

// ── Laws ─────────────────────────────────────────────────────────────────────

proof fn lemma_two_digits(n: int)
    requires
        0 <= n < 100,
    ensures
        padded(n, 2).len() == 2,
{
    reveal_with_fuel(digits, 2);
}

/// What stands before and after the only mark of a text is found again.
proof fn lemma_split_joined(a: Seq<char>, b: Seq<char>, mark: char)
    requires
        !a.contains(mark),
    ensures
        split_once(a + seq![mark] + b, mark) == Some((a, b)),
{
    let s = a + seq![mark] + b;
    assert forall|j: int| 0 <= j < a.len() implies s[j] != mark by {
        assert(s[j] == a[j]);
    }
    assert(s[a.len() as int] == mark);
    lemma_first_char(s, mark, a.len() as int);
    assert(s.take(a.len() as int) =~= a);
    assert(s.skip(a.len() as int + 1) =~= b);
}

proof fn lemma_padded_has_no_dash(n: int, width: int)
    requires
        0 <= n <= i64::MAX,
    ensures
        !padded(n, width).contains('-'),
{
    lemma_padded_round_trip(n, width);
    let s = padded(n, width);
    if s.contains('-') {
        let i = choose|i: int| 0 <= i < s.len() && s[i] == '-';
        assert(is_digit(s[i]));
    }
}

/// A date that is written out and read again is the same date.
pub proof fn law_date_round_trip(d: int)
    requires
        0 <= d <= i64::MAX,
    ensures
        date_number(date_text(d)) == Some(d),
{
    reveal_strlit("-");
    let y = quotient(d, 10000);
    let m = quotient(remainder(d, 10000), 100);
    let day = remainder(d, 100);
    assert(d == y * 10000 + m * 100 + day);
    lemma_padded_round_trip(y, 4);
    lemma_padded_round_trip(m, 2);
    lemma_padded_round_trip(day, 2);
    lemma_padded_has_no_dash(y, 4);
    lemma_padded_has_no_dash(m, 2);
    assert("-"@ =~= seq!['-']);
    let rest = padded(m, 2) + seq!['-'] + padded(day, 2);
    assert(date_text(d) =~= padded(y, 4) + seq!['-'] + rest);
    lemma_split_joined(padded(y, 4), rest, '-');
    lemma_split_joined(padded(m, 2), padded(day, 2), '-');
}

proof fn lemma_two_chars(n: int)
    requires
        0 <= n < 100,
    ensures
        padded(n, 2) == seq![digit_char(n / 10), digit_char(n % 10)],
{
    reveal_with_fuel(digits, 2);
    assert(padded(n, 2) =~= seq![digit_char(n / 10), digit_char(n % 10)]);
}

proof fn lemma_four_chars(n: int)
    requires
        0 <= n < 10000,
    ensures
        padded(n, 4) == padded(n / 100, 2) + padded(n % 100, 2),
{
    reveal_with_fuel(digits, 4);
    lemma_two_chars(n / 100);
    lemma_two_chars(n % 100);
    let d = digits(n as nat);
    if n < 10 {
        assert(d =~= seq![digit_char(n)]);
    } else if n < 100 {
        assert(d =~= seq![digit_char(n / 10), digit_char(n % 10)]);
    } else if n < 1000 {
        assert(d =~= seq![digit_char(n / 100), digit_char(n / 10 % 10), digit_char(n % 10)]);
    } else {
        assert(n / 10 / 10 / 10 == n / 1000);
        assert(d =~= seq![
            digit_char(n / 1000),
            digit_char(n / 10 / 10 % 10),
            digit_char(n / 10 % 10),
            digit_char(n % 10),
        ]);
    }
    assert(padded(n, 4) =~= padded(n / 100, 2) + padded(n % 100, 2));
}

/// The characters of a date of eight digits.
proof fn lemma_date_chars(d: int)
    requires
        0 <= d <= 99999999,
    ensures
        date_text(d) == padded(d / 1000000, 2) + padded(d / 10000 % 100, 2) + seq!['-'] + padded(
            d / 100 % 100,
            2,
        ) + seq!['-'] + padded(d % 100, 2),
{
    reveal_strlit("-");
    assert("-"@ =~= seq!['-']);
    lemma_four_chars(d / 10000);
    assert(quotient(d, 10000) == d / 10000);
    assert(quotient(remainder(d, 10000), 100) == d / 100 % 100);
    assert(remainder(d, 100) == d % 100);
    assert(d / 10000 / 100 == d / 1000000);
}

/// Two numbers of two digits differ first in the place that is given, and there the
/// smaller has the smaller digit.
proof fn lemma_two_chars_order(a: int, b: int) -> (k: int)
    requires
        0 <= a < b < 100,
    ensures
        0 <= k < 2,
        k == 1 ==> padded(a, 2)[0] == padded(b, 2)[0],
        padded(a, 2)[k] < padded(b, 2)[k],
{
    lemma_two_chars(a);
    lemma_two_chars(b);
    if a / 10 == b / 10 {
        1
    } else {
        0
    }
}

/// A date of eight digits is written with ten characters, a dash behind the year
/// and one behind the month, and digits for the rest.
pub proof fn law_date_text_form(d: int)
    requires
        0 <= d <= 99999999,
    ensures
        date_text(d).len() == 10,
        forall|i: int|
            0 <= i < 10 ==> if i == 4 || i == 7 {
                #[trigger] date_text(d)[i] == '-'
            } else {
                is_digit(date_text(d)[i])
            },
{
    lemma_date_chars(d);
    lemma_two_chars(d / 1000000);
    lemma_two_chars(d / 10000 % 100);
    lemma_two_chars(d / 100 % 100);
    lemma_two_chars(d % 100);
}

/// A date of eight digits stands in four pairs of them.
proof fn lemma_date_pairs(d: int)
    requires
        0 <= d <= 99999999,
    ensures
        date_text(d).subrange(0, 2) == padded(d / 1000000, 2),
        date_text(d).subrange(2, 4) == padded(d / 10000 % 100, 2),
        date_text(d).subrange(5, 7) == padded(d / 100 % 100, 2),
        date_text(d).subrange(8, 10) == padded(d % 100, 2),
{
    lemma_date_chars(d);
    law_date_text_form(d);
    lemma_two_digits(d / 1000000);
    lemma_two_digits(d / 10000 % 100);
    lemma_two_digits(d / 100 % 100);
    lemma_two_digits(d % 100);
    assert(date_text(d).subrange(0, 2) =~= padded(d / 1000000, 2));
    assert(date_text(d).subrange(2, 4) =~= padded(d / 10000 % 100, 2));
    assert(date_text(d).subrange(5, 7) =~= padded(d / 100 % 100, 2));
    assert(date_text(d).subrange(8, 10) =~= padded(d % 100, 2));
}

/// Two texts that are the same up to a pair of digits are ordered by that pair.
proof fn lemma_pair_order(a: Seq<char>, b: Seq<char>, at: int, x: int, y: int)
    requires
        0 <= at,
        at + 2 <= a.len(),
        at + 2 <= b.len(),
        forall|j: int| 0 <= j < at ==> a[j] == b[j],
        a.subrange(at, at + 2) == padded(x, 2),
        b.subrange(at, at + 2) == padded(y, 2),
        0 <= x < y < 100,
    ensures
        text_before(a, b),
{
    let k = lemma_two_chars_order(x, y);
    assert(a.subrange(at, at + 2)[0] == a[at] && a.subrange(at, at + 2)[1] == a[at + 1]);
    assert(b.subrange(at, at + 2)[0] == b[at] && b.subrange(at, at + 2)[1] == b[at + 1]);
    lemma_before_at(a, b, at + k);
}

proof fn lemma_same_pair(a: Seq<char>, b: Seq<char>, at: int)
    requires
        0 <= at,
        at + 2 <= a.len(),
        at + 2 <= b.len(),
        a.subrange(at, at + 2) == b.subrange(at, at + 2),
    ensures
        a[at] == b[at],
        a[at + 1] == b[at + 1],
{
    assert(a.subrange(at, at + 2)[0] == a[at] && a.subrange(at, at + 2)[1] == a[at + 1]);
    assert(b.subrange(at, at + 2)[0] == b[at] && b.subrange(at, at + 2)[1] == b[at + 1]);
}

/// Texts of four pairs of digits are ordered by their pairs.
proof fn lemma_pairs_order(
    ta: Seq<char>,
    tb: Seq<char>,
    x: (int, int, int, int),
    y: (int, int, int, int),
)
    requires
        ta.len() == 10,
        tb.len() == 10,
        ta[4] == tb[4],
        ta[7] == tb[7],
        ta.subrange(0, 2) == padded(x.0, 2),
        ta.subrange(2, 4) == padded(x.1, 2),
        ta.subrange(5, 7) == padded(x.2, 2),
        ta.subrange(8, 10) == padded(x.3, 2),
        tb.subrange(0, 2) == padded(y.0, 2),
        tb.subrange(2, 4) == padded(y.1, 2),
        tb.subrange(5, 7) == padded(y.2, 2),
        tb.subrange(8, 10) == padded(y.3, 2),
        0 <= x.0 < 100 && 0 <= x.1 < 100 && 0 <= x.2 < 100 && 0 <= x.3 < 100,
        0 <= y.0 < 100 && 0 <= y.1 < 100 && 0 <= y.2 < 100 && 0 <= y.3 < 100,
        x.0 * 1000000 + x.1 * 10000 + x.2 * 100 + x.3 < y.0 * 1000000 + y.1 * 10000 + y.2 * 100
            + y.3,
    ensures
        text_before(ta, tb),
{
    if x.0 != y.0 {
        lemma_pair_order(ta, tb, 0, x.0, y.0);
    } else {
        lemma_same_pair(ta, tb, 0);
        if x.1 != y.1 {
            lemma_pair_order(ta, tb, 2, x.1, y.1);
        } else {
            lemma_same_pair(ta, tb, 2);
            if x.2 != y.2 {
                lemma_pair_order(ta, tb, 5, x.2, y.2);
            } else {
                lemma_same_pair(ta, tb, 5);
                lemma_pair_order(ta, tb, 8, x.3, y.3);
            }
        }
    }
}

proof fn lemma_date_parts(d: int)
    requires
        0 <= d <= 99999999,
    ensures
        d == (d / 1000000) * 1000000 + (d / 10000 % 100) * 10000 + (d / 100 % 100) * 100 + d % 100,
        0 <= d / 1000000 < 100,
{
    assert(d / 100 / 100 == d / 10000);
    assert(d / 10000 / 100 == d / 1000000);
}

proof fn lemma_date_order(a: int, b: int)
    requires
        0 <= a < b <= 99999999,
    ensures
        text_before(date_text(a), date_text(b)),
{
    lemma_date_pairs(a);
    lemma_date_pairs(b);
    law_date_text_form(a);
    law_date_text_form(b);
    lemma_date_parts(a);
    lemma_date_parts(b);
    lemma_pairs_order(
        date_text(a),
        date_text(b),
        (a / 1000000, a / 10000 % 100, a / 100 % 100, a % 100),
        (b / 1000000, b / 10000 % 100, b / 100 % 100, b % 100),
    );
}

/// Dates of eight digits are ordered as the texts that they are written as.
pub proof fn law_date_text_order(a: int, b: int)
    requires
        0 <= a <= 99999999,
        0 <= b <= 99999999,
    ensures
        a < b <==> text_before(date_text(a), date_text(b)),
{
    if a < b {
        lemma_date_order(a, b);
    } else {
        lemma_before_irreflexive(date_text(a));
        if b < a {
            lemma_date_order(b, a);
            if text_before(date_text(a), date_text(b)) {
                lemma_before_transitive(date_text(a), date_text(b), date_text(a));
            }
        }
    }
}

/// A month that is written out and read again is the same month.
pub proof fn law_month_round_trip(ym: int)
    requires
        0 <= ym <= i64::MAX,
    ensures
        ym_of(month_text(ym)) == Some(ym),
{
    reveal_strlit("-");
    let y = quotient(ym, 100);
    let m = remainder(ym, 100);
    lemma_padded_round_trip(y, 4);
    lemma_padded_round_trip(m, 2);
    lemma_padded_has_no_dash(y, 4);
    assert("-"@ =~= seq!['-']);
    lemma_split_joined(padded(y, 4), padded(m, 2), '-');
}

/// The bounds of a month enclose its own days and no day of another month: the
/// first bound belongs to it, the second does not.
pub proof fn law_bounds_enclose_month(
    month: Seq<char>,
    parts: (int, int),
    bounds: (int, int),
    y: int,
    m: int,
    day: int,
)
    requires
        month_parts(month) == Some(parts),
        bounds_of(month) == Some(bounds),
        1 <= parts.1 <= 12,
        1 <= m <= 12,
        1 <= day <= 31,
    ensures
        (bounds.0 <= y * 10000 + m * 100 + day < bounds.1) <==> (y, m) == parts,
{
}

/// A month ends where the next one starts.
pub proof fn law_months_adjoin(
    month: Seq<char>,
    next: Seq<char>,
    parts: (int, int),
    bounds: (int, int),
    next_bounds: (int, int),
)
    requires
        month_parts(month) == Some(parts),
        month_parts(next) == Some(
            if parts.1 == 12 {
                (parts.0 + 1, 1int)
            } else {
                (parts.0, parts.1 + 1)
            },
        ),
        bounds_of(month) == Some(bounds),
        bounds_of(next) == Some(next_bounds),
    ensures
        bounds.1 == next_bounds.0,
{
}

/// Two amounts that are shown alike are the same amount.
pub proof fn law_amount_text_distinct(a: int, b: int)
    requires
        in_i64(a),
        in_i64(b),
        amount_text(a) == amount_text(b),
    ensures
        a == b,
{
    reveal_strlit("-$");
    reveal_strlit("$");
    reveal_strlit(".");
    let s = amount_text(a);
    assert(s[0] == if a < 0 { '-' } else { '$' });
    assert(s[0] == if b < 0 { '-' } else { '$' });
    let lead: int = if a < 0 { 2 } else { 1 };
    let (qa, ra) = (magnitude(a) / 100, magnitude(a) % 100);
    let (qb, rb) = (magnitude(b) / 100, magnitude(b) % 100);
    lemma_two_digits(ra);
    lemma_two_digits(rb);
    let n = s.len() as int;
    assert(s.subrange(n - 2, n) =~= padded(ra, 2));
    assert(s.subrange(n - 2, n) =~= padded(rb, 2));
    assert(s.subrange(lead, n - 3) =~= decimal(qa));
    assert(s.subrange(lead, n - 3) =~= decimal(qb));
    lemma_padded_round_trip(ra, 2);
    lemma_padded_round_trip(rb, 2);
    lemma_padded_round_trip(qa, 0);
    lemma_padded_round_trip(qb, 0);
}

} // verus!
