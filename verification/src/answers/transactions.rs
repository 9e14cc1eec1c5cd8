//! What a list of transactions says.

use crate::answers::lists::{is_shown, lemma_gathered_is, lemma_listed, lemma_listing_error};
use crate::answers::rows::{
    has_category, is_entire, is_line, is_mapped, is_off, is_on, is_payee, leads_to_payee,
    lemma_category_join, lemma_mapping_join, lemma_payee_join, no_less, no_more, payee_id, shown_as,
};
use crate::db::laws::law_matching_is_exact;
use crate::db::lines::{
    lines, lines_through, links_through, matching, payee_links, ByCategory, Filter, Line, PayeeLink,
    Scope, TransactionFilter, Uncategorized,
};
use crate::db::transactions::bare;
use crate::models::{amount_text, date_text, TransactionView};
use crate::pattern::pattern_matches;
use crate::query::{listing, Listed};
use crate::server::errors::ToolErrorView;
use crate::server::reads::{answer_of, FoundView, Query};
use crate::sql::{left_join, DbError};
use crate::tables::{Budget, CategoryRow, PayeeMappingRow, PayeeRow, TransactionRow};
use crate::text::{has_text, lowered, same_letters, string_view, text_before};
use vstd::prelude::*;
use vstd::string::*;

verus! {

// ── What is shown ────────────────────────────────────────────────────────────

/// The name of a payee, or none.
pub open spec fn payee_shown(p: Option<&PayeeRow>) -> Seq<char> {
    match p {
        Some(p) => shown_as(p.name, ""@),
        None => ""@,
    }
}

pub open spec fn category_shown(c: Option<&CategoryRow>) -> Seq<char> {
    match c {
        Some(c) => shown_as(c.name, ""@),
        None => ""@,
    }
}

/// The record shows the columns of the transaction, with the names of its payee
/// and category.
pub open spec fn shows(line: Line, x: TransactionView) -> bool {
    let t = line.entry;
    &&& t.id is Some && x.id == t.id->0@
    &&& t.date is Some && x.date == date_text(t.date->0 as int)
    &&& t.amount is Some && x.amount_cents == t.amount->0
    &&& x.amount_display == amount_text(x.amount_cents)
    &&& x.payee == payee_shown(line.payee)
    &&& x.category == category_shown(line.category)
    &&& x.notes == shown_as(t.notes, ""@)
    &&& x.cleared == !is_off(t.cleared)
    &&& x.reconciled == !is_off(t.reconciled)
}

/// The one transaction is newer than the other, or as new and not behind it by its
/// id.
pub open spec fn goes_first(a: TransactionRow, b: TransactionRow) -> bool {
    ||| a.date->0 > b.date->0
    ||| a.date->0 == b.date->0 && !text_before(b.id->0@, a.id->0@)
}

/// The columns that a list of transactions needs.
pub open spec fn is_complete(t: TransactionRow) -> bool {
    t.id is Some && t.date is Some && t.amount is Some
}

/// The records show transactions of the table that are taken, the newest first, no
/// more than the limit; and one that is taken is missing only where the limit is
/// reached, and then none that is listed is older.
pub open spec fn is_list(
    b: &Budget,
    takes: spec_fn(Line) -> bool,
    as_shown: spec_fn(Line) -> Line,
    limit: int,
    v: Seq<TransactionView>,
    at: Seq<Line>,
) -> bool {
    &&& at.len() == v.len()
    &&& limit >= 0 ==> v.len() <= limit
    &&& forall|i: int|
        #![trigger v[i]]
        #![trigger at[i]]
        0 <= i < v.len() ==> is_line(b, at[i]) && takes(at[i]) && shows(as_shown(at[i]), v[i])
    &&& forall|i: int, j: int|
        #![trigger at[i], at[j]]
        0 <= i < j < at.len() ==> goes_first(*at[i].entry, *at[j].entry)
    &&& forall|line: Line|
        is_line(b, line) && takes(line) ==> #[trigger] at.contains(line) || (limit == v.len()
            && forall|i: int|
            #![trigger at[i]]
            0 <= i < at.len() && line.entry.date is Some && line.entry.id is Some ==> goes_first(
                *at[i].entry,
                *line.entry,
            ))
}

// ── Conditions ───────────────────────────────────────────────────────────────

/// The text is a part of the column, up to the case of ASCII letters.
pub open spec fn holds(hay: Seq<char>, needle: Option<&str>) -> bool {
    needle is Some ==> has_text(lowered(hay), lowered(needle->0@))
}

/// The category has this id or name, up to the case of ASCII letters.
pub open spec fn is_called(c: Option<&CategoryRow>, wanted: Option<&str>) -> bool {
    wanted is Some ==> c is Some && ((c->0.id is Some && same_letters(
        c->0.id->0@,
        wanted->0@,
    )) || (c->0.name is Some && same_letters(c->0.name->0@, wanted->0@)))
}

/// A whole transaction of the account, within the dates.
pub open spec fn is_within(
    t: TransactionRow,
    account_id: Option<&str>,
    start_date: Option<i64>,
    end_date: Option<i64>,
) -> bool {
    &&& is_entire(t)
    &&& is_on(t, account_id)
    &&& no_less(t.date, start_date)
    &&& no_more(t.date, end_date)
}

/// What a question for transactions asks for.
pub open spec fn is_wanted(
    line: Line,
    account_id: Option<&str>,
    start_date: Option<i64>,
    end_date: Option<i64>,
    min_amount: Option<i64>,
    max_amount: Option<i64>,
    category: Option<&str>,
    payee: Option<&str>,
    notes: Option<&str>,
) -> bool {
    &&& is_within(*line.entry, account_id, start_date, end_date)
    &&& no_less(line.entry.amount, min_amount)
    &&& no_more(line.entry.amount, max_amount)
    &&& is_called(line.category, category)
    &&& holds(payee_shown(line.payee), payee)
    &&& holds(shown_as(line.entry.notes, ""@), notes)
}

/// A transaction without a category, or in the category that is called
/// "Uncategorized", that is not the whole of a split.
pub open spec fn is_uncategorized(
    line: Line,
    account_id: Option<&str>,
    start_date: Option<i64>,
    end_date: Option<i64>,
) -> bool {
    &&& is_within(*line.entry, account_id, start_date, end_date)
    &&& is_off(line.entry.is_parent)
    &&& line.entry.category is None || category_shown(line.category) == "Uncategorized"@
}

/// A transaction whose category has a name that the pattern matches.
pub open spec fn is_in_category(
    line: Line,
    pattern: Seq<char>,
    account_id: Option<&str>,
    start_date: Option<i64>,
    end_date: Option<i64>,
) -> bool {
    &&& is_within(*line.entry, account_id, start_date, end_date)
    &&& line.category is Some && line.category->0.name is Some && pattern_matches(
        line.category->0.name->0@,
        pattern,
    )
}

// ── Joins ────────────────────────────────────────────────────────────────────

pub proof fn lemma_payee_links<'a>(b: &'a Budget, t: &'a TransactionRow, p: Option<&'a PayeeRow>)
    ensures
        payee_links(b, t).contains(PayeeLink { payee: p }) <==> leads_to_payee(b, *t, p),
{
    let x = PayeeLink { payee: p };
    let mappings = left_join::<'a, PayeeMappingRow>(b.payee_mapping@, string_view(t.description));
    let f = |m: Option<&'a PayeeMappingRow>| links_through(b, t, m);
    lemma_gathered_is(mappings, f, x);
    if payee_links(b, t).contains(x) {
        let i = choose|i: int| 0 <= i < mappings.len() && f(#[trigger] mappings[i]).contains(x);
        let m = mappings[i];
        assert(mappings.contains(m));
        lemma_mapping_join(b, *t, m);
        let row: Option<PayeeMappingRow> = match m {
            Some(m) => Some(*m),
            None => None,
        };
        lemma_links_through(b, t, m, p);
        assert(is_mapped(b, *t, row) && is_payee(b, payee_id(*t, row), p));
    }
    if leads_to_payee(b, *t, p) {
        let row = choose|row: Option<PayeeMappingRow>| #[trigger]
            is_mapped(b, *t, row) && is_payee(b, payee_id(*t, row), p);
        let m: Option<&'a PayeeMappingRow> = match row {
            Some(m) => Some(&m),
            None => None,
        };
        lemma_mapping_join(b, *t, m);
        let i = choose|i: int| 0 <= i < mappings.len() && mappings[i] == m;
        lemma_links_through(b, t, m, p);
        assert(f(mappings[i]).contains(x));
    }
}

proof fn lemma_links_through<'a>(
    b: &'a Budget,
    t: &'a TransactionRow,
    m: Option<&'a PayeeMappingRow>,
    p: Option<&'a PayeeRow>,
)
    ensures
        links_through(b, t, m).contains(PayeeLink { payee: p }) <==> is_payee(
            b,
            payee_id(
                *t,
                match m {
                    Some(m) => Some(*m),
                    None => None,
                },
            ),
            p,
        ),
{
    let row: Option<PayeeMappingRow> = match m {
        Some(m) => Some(*m),
        None => None,
    };
    let id = payee_id(*t, row);
    let joined = left_join::<'a, PayeeRow>(b.payees@, string_view(id));
    let links = links_through(b, t, m);
    let x = PayeeLink { payee: p };
    lemma_payee_join(b, id, p);
    assert(links =~= joined.map_values(|p: Option<&'a PayeeRow>| PayeeLink { payee: p }));
    if links.contains(x) {
        let i = choose|i: int| 0 <= i < links.len() && links[i] == x;
        assert(joined[i] == p);
    }
    if joined.contains(p) {
        let i = choose|i: int| 0 <= i < joined.len() && joined[i] == p;
        assert(links[i] == x);
    }
}

pub proof fn lemma_lines<'a>(b: &'a Budget, t: &'a TransactionRow, line: Line<'a>)
    ensures
        lines(b, t).contains(line) <==> line.entry == t && leads_to_payee(b, *t, line.payee)
            && has_category(b, *t, line.category),
{
    let links = payee_links(b, t);
    let f = |l: PayeeLink<'a>| lines_through(b, t, l);
    let joined = left_join::<'a, CategoryRow>(b.categories@, string_view(t.category));
    lemma_gathered_is(links, f, line);
    lemma_category_join(b, *t, line.category);
    lemma_payee_links(b, t, line.payee);
    if lines(b, t).contains(line) {
        let i = choose|i: int| 0 <= i < links.len() && f(#[trigger] links[i]).contains(line);
        let made = f(links[i]);
        let k = choose|k: int| 0 <= k < made.len() && made[k] == line;
        assert(joined[k] == line.category);
        assert(joined.contains(line.category));
        assert(links[i] == PayeeLink { payee: line.payee });
        assert(links.contains(links[i]));
    }
    if line.entry == t && leads_to_payee(b, *t, line.payee) && has_category(b, *t, line.category) {
        let x = PayeeLink { payee: line.payee };
        let i = choose|i: int| 0 <= i < links.len() && links[i] == x;
        let k = choose|k: int| 0 <= k < joined.len() && joined[k] == line.category;
        assert(f(links[i])[k] == line);
        assert(f(links[i]).contains(line));
    }
}

/// What a filter finds, by the rows of the tables.
proof fn lemma_matching<F: Filter>(b: &Budget, filter: &F, line: Line)
    ensures
        matching(b, filter).contains(line) <==> is_line(b, line) && filter.takes_entry(line.entry)
            && filter.takes_line(&line),
{
    law_matching_is_exact(b, filter, line);
    if matching(b, filter).contains(line) {
        let i = choose|i: int|
            #![trigger b.transactions@[i]]
            0 <= i < b.transactions@.len() && filter.takes_entry(&b.transactions@[i]) && lines(
                b,
                &b.transactions@[i],
            ).contains(line);
        lemma_lines(b, &b.transactions@[i], line);
        assert(b.transactions@.contains(b.transactions@[i]));
    }
    if is_line(b, line) && filter.takes_entry(line.entry) && filter.takes_line(&line) {
        let i = choose|i: int| 0 <= i < b.transactions@.len() && b.transactions@[i] == *line.entry;
        lemma_lines(b, &b.transactions@[i], line);
    }
}

/// A listing of lines is a list of the transactions that they show.
#[verifier::rlimit(40)]
proof fn lemma_is_list<'a>(
    b: &'a Budget,
    found: Seq<Line<'a>>,
    takes: spec_fn(Line) -> bool,
    as_shown: spec_fn(Line) -> Line,
    limit: int,
    v: Seq<TransactionView>,
) -> (at: Seq<Line<'a>>)
    requires
        listing(found.map_values(|l: Line<'a>| as_shown(l)), limit) == Ok::<
            Seq<TransactionView>,
            DbError,
        >(v),
        forall|line: Line| #[trigger] found.contains(line) <==> is_line(b, line) && takes(line),
        forall|line: Line| (#[trigger] as_shown(line)).entry == line.entry,
    ensures
        is_list(b, takes, as_shown, limit, v, at),
{
    let rows = found.map_values(|l: Line<'a>| as_shown(l));
    let places = lemma_listed(rows, limit, v);
    let at = Seq::new(places.len(), |i: int| found[places[i]]);
    assert forall|i: int|
        #![trigger v[i]]
        #![trigger at[i]]
        0 <= i < v.len() implies is_line(b, at[i]) && takes(at[i]) && shows(
        as_shown(at[i]),
        v[i],
    ) by {
        assert(is_shown(rows, places[i], v[i]));
        assert(rows[places[i]] == as_shown(found[places[i]]));
        assert(found.contains(at[i]));
    }
    assert forall|i: int, j: int|
        #![trigger at[i], at[j]]
        0 <= i < j < at.len() implies goes_first(*at[i].entry, *at[j].entry) by {
        assert(is_shown(rows, places[i], v[i]) && is_shown(rows, places[j], v[j]));
        assert(places[i] != places[j]);
        assert(as_shown(at[i]).entry == at[i].entry && as_shown(at[j]).entry == at[j].entry);
    }
    assert forall|line: Line<'a>|
        is_line(b, line) && takes(line) implies #[trigger] at.contains(line) || (limit == v.len()
        && forall|i: int|
        #![trigger at[i]]
        0 <= i < at.len() && line.entry.date is Some && line.entry.id is Some ==> goes_first(
            *at[i].entry,
            *line.entry,
        )) by {
        assert(found.contains(line));
        let k = choose|k: int| 0 <= k < found.len() && found[k] == line;
        if places.contains(k) {
            let i = choose|i: int| 0 <= i < places.len() && places[i] == k;
            assert(at[i] == line);
        } else {
            assert forall|i: int|
                #![trigger at[i]]
                0 <= i < at.len() && line.entry.date is Some && line.entry.id is Some implies goes_first(
                *at[i].entry,
                *line.entry,
            ) by {
                assert(is_shown(rows, places[i], v[i]));
                assert(as_shown(at[i]).entry == at[i].entry && as_shown(line).entry == line.entry);
                assert(rows[k] == as_shown(line));
            }
        }
    }
    at
}

// ── Laws ─────────────────────────────────────────────────────────────────────

/// The answer to a question for transactions shows those of the table that meet
/// every condition given, each with its own columns, the newest first, and leaves
/// one out only where the limit is reached.
#[verifier::rlimit(40)]
pub proof fn law_transactions_are_those_asked_for<'a>(
    b: &'a Budget,
    account_id: Option<&str>,
    start_date: Option<i64>,
    end_date: Option<i64>,
    min_amount: Option<i64>,
    max_amount: Option<i64>,
    category: Option<&str>,
    payee: Option<&str>,
    notes: Option<&str>,
    limit: i64,
    v: Seq<TransactionView>,
) -> (at: Seq<Line<'a>>)
    requires
        answer_of(
            b,
            Query::Transactions {
                filter: TransactionFilter {
                    scope: Scope { account_id, start_date, end_date },
                    min_amount,
                    max_amount,
                    category,
                    payee,
                    notes,
                },
                limit,
            },
        ) == Ok::<FoundView, ToolErrorView>(FoundView::Transactions(v)),
    ensures
        is_list(
            b,
            |line: Line|
                is_wanted(
                    line,
                    account_id,
                    start_date,
                    end_date,
                    min_amount,
                    max_amount,
                    category,
                    payee,
                    notes,
                ),
            |line: Line| line,
            limit as int,
            v,
            at,
        ),
{
    let filter = TransactionFilter {
        scope: Scope { account_id, start_date, end_date },
        min_amount,
        max_amount,
        category,
        payee,
        notes,
    };
    let takes = |line: Line|
        is_wanted(
            line,
            account_id,
            start_date,
            end_date,
            min_amount,
            max_amount,
            category,
            payee,
            notes,
        );
    let found = matching(b, &filter);
    assert forall|line: Line| #[trigger] found.contains(line) <==> is_line(b, line) && takes(
        line,
    ) by {
        lemma_matching(b, &filter, line);
    }
    let same = |line: Line| line;
    assert(found.map_values(|l: Line| same(l)) =~= found);
    lemma_is_list(b, found, takes, same, limit as int, v)
}

/// The answer to a question by the name of the category shows the transactions of
/// the table whose category has a name that the pattern matches, of the account and
/// within the dates that are asked for.
#[verifier::rlimit(40)]
pub proof fn law_category_transactions_are_those_asked_for<'a>(
    b: &'a Budget,
    regex: &str,
    account_id: Option<&str>,
    start_date: Option<i64>,
    end_date: Option<i64>,
    limit: i64,
    v: Seq<TransactionView>,
) -> (at: Seq<Line<'a>>)
    requires
        answer_of(
            b,
            Query::ByCategory { regex, scope: Scope { account_id, start_date, end_date }, limit },
        ) == Ok::<FoundView, ToolErrorView>(FoundView::Transactions(v)),
    ensures
        is_list(
            b,
            |line: Line| is_in_category(line, regex@, account_id, start_date, end_date),
            |line: Line| line,
            limit as int,
            v,
            at,
        ),
{
    let filter = ByCategory { scope: Scope { account_id, start_date, end_date }, pattern: regex };
    let takes = |line: Line| is_in_category(line, regex@, account_id, start_date, end_date);
    let found = matching(b, &filter);
    assert forall|line: Line| #[trigger] found.contains(line) <==> is_line(b, line) && takes(
        line,
    ) by {
        lemma_matching(b, &filter, line);
    }
    let same = |line: Line| line;
    assert(found.map_values(|l: Line| same(l)) =~= found);
    lemma_is_list(b, found, takes, same, limit as int, v)
}

/// The transaction, shown without a category.
pub open spec fn without_category<'a>(line: Line<'a>) -> Line<'a> {
    Line { entry: line.entry, payee: line.payee, category: None }
}

/// The answer to the question for what has no category shows the transactions of
/// the table that have none, or the reserved one, of the account and within the
/// dates that are asked for. All are shown without a category.
#[verifier::rlimit(40)]
pub proof fn law_uncategorized_are_those_asked_for<'a>(
    b: &'a Budget,
    account_id: Option<&str>,
    start_date: Option<i64>,
    end_date: Option<i64>,
    limit: i64,
    v: Seq<TransactionView>,
) -> (at: Seq<Line<'a>>)
    requires
        answer_of(
            b,
            Query::Uncategorized { scope: Scope { account_id, start_date, end_date }, limit },
        ) == Ok::<FoundView, ToolErrorView>(FoundView::Transactions(v)),
    ensures
        is_list(
            b,
            |line: Line| is_uncategorized(line, account_id, start_date, end_date),
            |line: Line| without_category(line),
            limit as int,
            v,
            at,
        ),
{
    reveal_strlit("Uncategorized");
    reveal_strlit("");
    let filter = Uncategorized { scope: Scope { account_id, start_date, end_date } };
    let takes = |line: Line| is_uncategorized(line, account_id, start_date, end_date);
    let found = matching(b, &filter);
    assert("Uncategorized"@.len() == 13 && ""@.len() == 0);
    assert forall|line: Line| #[trigger] found.contains(line) <==> is_line(b, line) && takes(
        line,
    ) by {
        lemma_matching(b, &filter, line);
    }
    let plain = |line: Line| without_category(line);
    assert(found.map_values(|l: Line| plain(l)) =~= found.map_values(|l: Line| bare(l)));
    lemma_is_list(b, found, takes, plain, limit as int, v)
}

/// A question for transactions fails only where one that is taken has no id, no
/// date or no amount.
pub proof fn law_transactions_fail_only_on_nulls(
    b: &Budget,
    account_id: Option<&str>,
    start_date: Option<i64>,
    end_date: Option<i64>,
    min_amount: Option<i64>,
    max_amount: Option<i64>,
    category: Option<&str>,
    payee: Option<&str>,
    notes: Option<&str>,
    limit: i64,
)
    requires
        forall|line: Line|
            #[trigger] is_line(b, line) && is_wanted(
                line,
                account_id,
                start_date,
                end_date,
                min_amount,
                max_amount,
                category,
                payee,
                notes,
            ) ==> is_complete(*line.entry),
    ensures
        answer_of(
            b,
            Query::Transactions {
                filter: TransactionFilter {
                    scope: Scope { account_id, start_date, end_date },
                    min_amount,
                    max_amount,
                    category,
                    payee,
                    notes,
                },
                limit,
            },
        ) is Ok,
{
    let filter = TransactionFilter {
        scope: Scope { account_id, start_date, end_date },
        min_amount,
        max_amount,
        category,
        payee,
        notes,
    };
    let found = matching(b, &filter);
    match listing(found, limit as int) {
        Ok(_) => {},
        Err(e) => {
            lemma_listing_error(found, limit as int, e);
            let k = choose|k: int|
                0 <= k < found.len() && (#[trigger] found[k]).outcome() == Err::<
                    TransactionView,
                    DbError,
                >(e);
            assert(found.contains(found[k]));
            lemma_matching(b, &filter, found[k]);
            assert(is_line(b, found[k]));
        },
    }
}

/// The questions by category and for what has none fail only where a transaction
/// that is taken has no id, no date or no amount.
pub proof fn law_category_transactions_fail_only_on_nulls(
    b: &Budget,
    regex: &str,
    account_id: Option<&str>,
    start_date: Option<i64>,
    end_date: Option<i64>,
    limit: i64,
)
    requires
        forall|line: Line|
            #[trigger] is_line(b, line) && is_within(
                *line.entry,
                account_id,
                start_date,
                end_date,
            ) ==> is_complete(*line.entry),
    ensures
        answer_of(
            b,
            Query::ByCategory { regex, scope: Scope { account_id, start_date, end_date }, limit },
        ) is Ok,
        answer_of(
            b,
            Query::Uncategorized { scope: Scope { account_id, start_date, end_date }, limit },
        ) is Ok,
{
    let filter = ByCategory { scope: Scope { account_id, start_date, end_date }, pattern: regex };
    let found = matching(b, &filter);
    match listing(found, limit as int) {
        Ok(_) => {},
        Err(e) => {
            lemma_listing_error(found, limit as int, e);
            let k = choose|k: int|
                0 <= k < found.len() && (#[trigger] found[k]).outcome() == Err::<
                    TransactionView,
                    DbError,
                >(e);
            assert(found.contains(found[k]));
            lemma_matching(b, &filter, found[k]);
            assert(is_line(b, found[k]));
        },
    }
    let filter = Uncategorized { scope: Scope { account_id, start_date, end_date } };
    let found = matching(b, &filter);
    let rows = found.map_values(|l: Line| bare(l));
    match listing(rows, limit as int) {
        Ok(_) => {},
        Err(e) => {
            lemma_listing_error(rows, limit as int, e);
            let k = choose|k: int|
                0 <= k < rows.len() && (#[trigger] rows[k]).outcome() == Err::<
                    TransactionView,
                    DbError,
                >(e);
            assert(found.contains(found[k]));
            lemma_matching(b, &filter, found[k]);
            assert(is_line(b, found[k]));
            assert(rows[k].entry == found[k].entry);
        },
    }
}

/// Uncategorized transactions are listed unless one of them lacks a column.
pub proof fn law_uncategorized_fail_only_on_nulls(
    b: &Budget,
    account_id: Option<&str>,
    start_date: Option<i64>,
    end_date: Option<i64>,
    limit: i64,
)
    requires
        forall|line: Line|
            #[trigger] is_line(b, line) && is_uncategorized(
                line,
                account_id,
                start_date,
                end_date,
            ) ==> is_complete(*line.entry),
    ensures
        answer_of(
            b,
            Query::Uncategorized { scope: Scope { account_id, start_date, end_date }, limit },
        ) is Ok,
{
    let filter = Uncategorized { scope: Scope { account_id, start_date, end_date } };
    let found = matching(b, &filter);
    let rows = found.map_values(|l: Line| bare(l));
    match listing(rows, limit as int) {
        Ok(_) => {},
        Err(e) => {
            lemma_listing_error(rows, limit as int, e);
            let k = choose|k: int|
                0 <= k < rows.len() && (#[trigger] rows[k]).outcome() == Err::<
                    TransactionView,
                    DbError,
                >(e);
            assert(rows[k] == bare(found[k]));
            assert(found.contains(found[k]));
            lemma_matching(b, &filter, found[k]);
            assert(is_line(b, found[k]));
        },
    }
}

} // verus!
