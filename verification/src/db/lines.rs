//! Transactions with what they refer to, and choices among them.

use crate::pattern::{pattern_matches, regex_matches};
use crate::query::gathered;
use crate::sql::{coalesce, equal, equal_text, is_zero, join_left, left_join, not_set, unset, zero};
use crate::tables::{Budget, CategoryRow, PayeeMappingRow, PayeeRow, TransactionRow};
use crate::text::{
    as_text, contains_ignoring_case, has_text, lowered, same_ignoring_case, same_letters, str_or,
    string_view, text_or, text_view,
};
use vstd::prelude::*;
use vstd::string::*;

verus! {

// ── Transactions with their payees and categories ────────────────────────────

/// A transaction joined with its payee and category.
pub struct Line<'a> {
    pub entry: &'a TransactionRow,
    pub payee: Option<&'a PayeeRow>,
    pub category: Option<&'a CategoryRow>,
}

/// The payee that a transaction leads to.
pub struct PayeeLink<'a> {
    pub payee: Option<&'a PayeeRow>,
}

/// The id of the payee of a transaction: a merged payee leads to the survivor.
pub open spec fn payee_key(t: &TransactionRow, mapping: Option<&PayeeMappingRow>) -> Option<
    Seq<char>,
> {
    coalesce(
        match mapping {
            Some(m) => string_view(m.target_id),
            None => None,
        },
        string_view(t.description),
    )
}

fn get_payee_key<'a>(t: &'a TransactionRow, mapping: Option<&'a PayeeMappingRow>) -> (r: Option<
    &'a str,
>)
    ensures
        text_view(r) == payee_key(t, mapping),
{
    match mapping {
        Some(m) => match &m.target_id {
            Some(id) => Some(id.as_str()),
            None => as_text(&t.description),
        },
        None => as_text(&t.description),
    }
}

pub open spec fn links_through<'a>(
    b: &'a Budget,
    t: &'a TransactionRow,
    mapping: Option<&'a PayeeMappingRow>,
) -> Seq<PayeeLink<'a>> {
    left_join(b.payees@, payee_key(t, mapping)).map_values(
        |p: Option<&'a PayeeRow>| PayeeLink { payee: p },
    )
}

pub open spec fn payee_links<'a>(b: &'a Budget, t: &'a TransactionRow) -> Seq<PayeeLink<'a>> {
    gathered(
        left_join(b.payee_mapping@, string_view(t.description)),
        |m: Option<&'a PayeeMappingRow>| links_through(b, t, m),
    )
}

pub fn find_payee_links<'a>(b: &'a Budget, t: &'a TransactionRow) -> (r: Vec<PayeeLink<'a>>)
    ensures
        r@ == payee_links(b, t),
{
    let mappings = join_left(&b.payee_mapping, as_text(&t.description));
    let mut out: Vec<PayeeLink<'a>> = Vec::new();
    let ghost f = |m: Option<&'a PayeeMappingRow>| links_through(b, t, m);
    let n: usize = mappings.len();
    let mut i: usize = 0;
    assert(mappings@.take(0) =~= Seq::<Option<&'a PayeeMappingRow>>::empty());
    while i < n
        invariant
            i <= n == mappings@.len(),
            f == (|m: Option<&'a PayeeMappingRow>| links_through(b, t, m)),
            out@ =~= gathered(mappings@.take(i as int), f),
        decreases n - i,
    {
        assert(mappings@.take(i + 1).drop_last() =~= mappings@.take(i as int));
        let mapping = mappings[i];
        let payees = join_left(&b.payees, get_payee_key(t, mapping));
        let ghost was = out@;
        let mut j: usize = 0;
        while j < payees.len()
            invariant
                j <= payees@.len(),
                payees@ == left_join(b.payees@, payee_key(t, mapping)),
                out@ =~= was + links_through(b, t, mapping).take(j as int),
            decreases payees@.len() - j,
        {
            out.push(PayeeLink { payee: payees[j] });
            j = j + 1;
        }
        i = i + 1;
    }
    assert(mappings@.take(n as int) =~= mappings@);
    out
}

pub open spec fn lines_through<'a>(b: &'a Budget, t: &'a TransactionRow, link: PayeeLink<'a>) -> Seq<
    Line<'a>,
> {
    left_join(b.categories@, string_view(t.category)).map_values(
        |c: Option<&'a CategoryRow>| Line { entry: t, payee: link.payee, category: c },
    )
}

/// A transaction with each of its payees and categories.
pub open spec fn lines<'a>(b: &'a Budget, t: &'a TransactionRow) -> Seq<Line<'a>> {
    gathered(payee_links(b, t), |l: PayeeLink<'a>| lines_through(b, t, l))
}

pub fn find_lines<'a>(b: &'a Budget, t: &'a TransactionRow) -> (r: Vec<Line<'a>>)
    ensures
        r@ == lines(b, t),
{
    let links = find_payee_links(b, t);
    let categories = join_left(&b.categories, as_text(&t.category));
    let mut out: Vec<Line<'a>> = Vec::new();
    let ghost f = |l: PayeeLink<'a>| lines_through(b, t, l);
    let n: usize = links.len();
    let mut i: usize = 0;
    assert(links@.take(0) =~= Seq::<PayeeLink<'a>>::empty());
    while i < n
        invariant
            i <= n == links@.len(),
            categories@ == left_join(b.categories@, string_view(t.category)),
            f == (|l: PayeeLink<'a>| lines_through(b, t, l)),
            out@ =~= gathered(links@.take(i as int), f),
        decreases n - i,
    {
        assert(links@.take(i + 1).drop_last() =~= links@.take(i as int));
        let ghost was = out@;
        let mut j: usize = 0;
        while j < categories.len()
            invariant
                j <= categories@.len(),
                i < links@.len(),
                categories@ == left_join(b.categories@, string_view(t.category)),
                out@ =~= was + lines_through(b, t, links@[i as int]).take(j as int),
            decreases categories@.len() - j,
        {
            out.push(Line { entry: t, payee: links[i].payee, category: categories[j] });
            j = j + 1;
        }
        i = i + 1;
    }
    assert(links@.take(n as int) =~= links@);
    out
}

// ── Selecting transactions ───────────────────────────────────────────────────

/// A choice of transactions, by the transaction itself and by what it joins.
pub trait Filter {
    spec fn takes_entry(&self, t: &TransactionRow) -> bool;

    spec fn takes_line(&self, line: &Line) -> bool;

    fn accept_entry(&self, t: &TransactionRow) -> (r: bool)
        ensures
            r == self.takes_entry(t),
    ;

    fn accept_line(&self, line: &Line) -> (r: bool)
        ensures
            r == self.takes_line(line),
    ;
}

pub open spec fn kept<'a, F: Filter>(f: &F, line: Line<'a>) -> Seq<Line<'a>> {
    if f.takes_line(&line) {
        seq![line]
    } else {
        Seq::empty()
    }
}

pub open spec fn chosen<'a, F: Filter>(b: &'a Budget, f: &F, t: &'a TransactionRow) -> Seq<
    Line<'a>,
> {
    if f.takes_entry(t) {
        gathered(lines(b, t), |l: Line<'a>| kept(f, l))
    } else {
        Seq::empty()
    }
}

/// The transactions that a filter takes.
pub open spec fn matching<'a, F: Filter>(b: &'a Budget, f: &F) -> Seq<Line<'a>> {
    gathered(b.transactions@, |t: TransactionRow| chosen(b, f, &t))
}

pub fn select<'a, F: Filter>(b: &'a Budget, f: &F) -> (r: Vec<Line<'a>>)
    ensures
        r@ == matching(b, f),
{
    let mut out: Vec<Line<'a>> = Vec::new();
    let ghost g = |t: TransactionRow| chosen(b, f, &t);
    let ghost h = |l: Line<'a>| kept(f, l);
    let n: usize = b.transactions.len();
    let mut i: usize = 0;
    assert(b.transactions@.take(0) =~= Seq::<TransactionRow>::empty());
    while i < n
        invariant
            i <= n == b.transactions@.len(),
            g == (|t: TransactionRow| chosen(b, f, &t)),
            h == (|l: Line<'a>| kept(f, l)),
            out@ =~= gathered(b.transactions@.take(i as int), g),
        decreases n - i,
    {
        assert(b.transactions@.take(i + 1).drop_last() =~= b.transactions@.take(i as int));
        let t = &b.transactions[i];
        assert(g(b.transactions@[i as int]) == chosen(b, f, t));
        if f.accept_entry(t) {
            let found = find_lines(b, t);
            let ghost was = out@;
            let ghost all = found@;
            assert(all.take(0) =~= Seq::<Line<'a>>::empty());
            for line in it: found
                invariant
                    it.seq() == all,
                    h == (|l: Line<'a>| kept(f, l)),
                    out@ =~= was + gathered(all.take(it.index()), h),
            {
                let ghost j = it.index();
                assert(all.take(j + 1).drop_last() =~= all.take(j));
                assert(all.take(j + 1).last() == line);
                if f.accept_line(&line) {
                    out.push(line);
                }
            }
            assert(all.take(all.len() as int) =~= all);
        }
        i = i + 1;
    }
    assert(b.transactions@.take(n as int) =~= b.transactions@);
    out
}

pub open spec fn at_least(column: Option<i64>, bound: Option<i64>) -> bool {
    match (column, bound) {
        (_, None) => true,
        (Some(v), Some(low)) => v >= low,
        _ => false,
    }
}

pub open spec fn at_most(column: Option<i64>, bound: Option<i64>) -> bool {
    match (column, bound) {
        (_, None) => true,
        (Some(v), Some(high)) => v <= high,
        _ => false,
    }
}

pub fn reaches(column: &Option<i64>, bound: Option<i64>) -> (r: bool)
    ensures
        r == at_least(*column, bound),
{
    match (column, bound) {
        (_, None) => true,
        (Some(v), Some(low)) => *v >= low,
        _ => false,
    }
}

pub fn stays_under(column: &Option<i64>, bound: Option<i64>) -> (r: bool)
    ensures
        r == at_most(*column, bound),
{
    match (column, bound) {
        (_, None) => true,
        (Some(v), Some(high)) => *v <= high,
        _ => false,
    }
}

/// Where and when a transaction took place.
pub struct Scope<'f> {
    /// One account, or all of them.
    pub account_id: Option<&'f str>,
    pub start_date: Option<i64>,
    pub end_date: Option<i64>,
}

/// A transaction that is not deleted and no part of a split.
pub open spec fn whole(t: &TransactionRow) -> bool {
    is_zero(t.tombstone) && unset(t.is_child)
}

pub fn is_whole(t: &TransactionRow) -> (r: bool)
    ensures
        r == whole(t),
{
    zero(&t.tombstone) && not_set(&t.is_child)
}

impl<'f> Scope<'f> {
    pub open spec fn covers(&self, t: &TransactionRow) -> bool {
        &&& whole(t)
        &&& self.account_id is Some ==> equal(string_view(t.acct), text_view(self.account_id))
        &&& at_least(t.date, self.start_date)
        &&& at_most(t.date, self.end_date)
    }

    pub fn is_covering(&self, t: &TransactionRow) -> (r: bool)
        ensures
            r == self.covers(t),
    {
        is_whole(t) && (self.account_id.is_none() || equal_text(as_text(&t.acct), self.account_id))
            && reaches(&t.date, self.start_date) && stays_under(&t.date, self.end_date)
    }
}

pub open spec fn payee_name(payee: Option<&PayeeRow>) -> Option<Seq<char>> {
    match payee {
        Some(p) => string_view(p.name),
        None => None,
    }
}

pub open spec fn category_name(category: Option<&CategoryRow>) -> Option<Seq<char>> {
    match category {
        Some(c) => string_view(c.name),
        None => None,
    }
}

pub fn get_payee_name<'a>(payee: Option<&'a PayeeRow>) -> (r: Option<&'a str>)
    ensures
        text_view(r) == payee_name(payee),
{
    match payee {
        Some(p) => as_text(&p.name),
        None => None,
    }
}

pub fn get_category_name<'a>(category: Option<&'a CategoryRow>) -> (r: Option<&'a str>)
    ensures
        text_view(r) == category_name(category),
{
    match category {
        Some(c) => as_text(&c.name),
        None => None,
    }
}

/// Two nullable texts that are equal up to the case of ASCII letters.
pub open spec fn equal_letters(a: Option<Seq<char>>, b: Seq<char>) -> bool {
    match a {
        Some(t) => same_letters(t, b),
        None => false,
    }
}

pub fn has_letters(a: Option<&str>, b: &str) -> (r: bool)
    ensures
        r == equal_letters(text_view(a), b@),
{
    match a {
        Some(t) => same_ignoring_case(t, b),
        None => false,
    }
}

/// The choices that a listing of transactions offers.
pub struct TransactionFilter<'f> {
    pub scope: Scope<'f>,
    pub min_amount: Option<i64>,
    pub max_amount: Option<i64>,
    /// The id or the name of a category, up to the case of ASCII letters.
    pub category: Option<&'f str>,
    /// A part of a payee name, up to the case of ASCII letters.
    pub payee: Option<&'f str>,
    /// A part of the notes, up to the case of ASCII letters.
    pub notes: Option<&'f str>,
}

/// A null text holds what the empty text holds.
pub open spec fn holds_letters(hay: Option<Seq<char>>, needle: Option<Seq<char>>) -> bool {
    needle is None || has_text(lowered(text_or(hay, ""@)), lowered(needle->0))
}

pub fn is_holding(hay: Option<&str>, needle: Option<&str>) -> (r: bool)
    ensures
        r == holds_letters(text_view(hay), text_view(needle)),
{
    match needle {
        Some(n) => contains_ignoring_case(str_or(hay, ""), n),
        None => true,
    }
}

impl<'f> Filter for TransactionFilter<'f> {
    open spec fn takes_entry(&self, t: &TransactionRow) -> bool {
        &&& self.scope.covers(t)
        &&& at_least(t.amount, self.min_amount)
        &&& at_most(t.amount, self.max_amount)
        &&& holds_letters(string_view(t.notes), text_view(self.notes))
    }

    open spec fn takes_line(&self, line: &Line) -> bool {
        &&& match self.category {
            Some(wanted) => match line.category {
                Some(c) => equal_letters(string_view(c.id), wanted@) || equal_letters(
                    string_view(c.name),
                    wanted@,
                ),
                None => false,
            },
            None => true,
        }
        &&& holds_letters(payee_name(line.payee), text_view(self.payee))
    }

    fn accept_entry(&self, t: &TransactionRow) -> (r: bool) {
        self.scope.is_covering(t) && reaches(&t.amount, self.min_amount) && stays_under(
            &t.amount,
            self.max_amount,
        ) && is_holding(as_text(&t.notes), self.notes)
    }

    fn accept_line(&self, line: &Line) -> (r: bool) {
        let category_fits = match self.category {
            Some(wanted) => match line.category {
                Some(c) => has_letters(as_text(&c.id), wanted) || has_letters(
                    as_text(&c.name),
                    wanted,
                ),
                None => false,
            },
            None => true,
        };
        category_fits && is_holding(get_payee_name(line.payee), self.payee)
    }
}

/// Transactions without a category, or in the reserved category
/// "Uncategorized". The whole of a split has no category of its own, and is not
/// among them.
pub struct Uncategorized<'f> {
    pub scope: Scope<'f>,
}

impl<'f> Filter for Uncategorized<'f> {
    open spec fn takes_entry(&self, t: &TransactionRow) -> bool {
        self.scope.covers(t) && unset(t.is_parent)
    }

    open spec fn takes_line(&self, line: &Line) -> bool {
        line.entry.category is None || category_name(line.category) == Some("Uncategorized"@)
    }

    fn accept_entry(&self, t: &TransactionRow) -> (r: bool) {
        self.scope.is_covering(t) && not_set(&t.is_parent)
    }

    fn accept_line(&self, line: &Line) -> (r: bool) {
        line.entry.category.is_none() || equal_text(
            get_category_name(line.category),
            Some("Uncategorized"),
        )
    }
}

/// Transactions whose category has a name that a pattern matches.
pub struct ByCategory<'f> {
    pub scope: Scope<'f>,
    pub pattern: &'f str,
}

impl<'f> Filter for ByCategory<'f> {
    open spec fn takes_entry(&self, t: &TransactionRow) -> bool {
        self.scope.covers(t)
    }

    open spec fn takes_line(&self, line: &Line) -> bool {
        match category_name(line.category) {
            Some(name) => pattern_matches(name, self.pattern@),
            None => false,
        }
    }

    fn accept_entry(&self, t: &TransactionRow) -> (r: bool) {
        self.scope.is_covering(t)
    }

    fn accept_line(&self, line: &Line) -> (r: bool) {
        match get_category_name(line.category) {
            Some(name) => regex_matches(name, self.pattern),
            None => false,
        }
    }
}

} // verus!
