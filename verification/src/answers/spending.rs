//! What the sums of spending say.

use crate::answers::balances::sum_where;
use crate::answers::lists::{lemma_gathered_is, lemma_summed};
use crate::answers::rows::{
    has_category, has_group, is_entire, is_live, is_single, leads_to_payee, lemma_category_join,
    lemma_group_join, lemma_hits, number, refers, shown_as,
};
use crate::answers::transactions::lemma_payee_links;
use crate::db::lines::{links_through, payee_key, payee_links, PayeeLink};
use crate::db::spending::{
    category_id, category_lines, category_lines_through, group_key, lines_of_purchase,
    lines_of_spending, payee_lines, shown_payee, CategoryLine, PayeeLine,
};
use crate::db::sums::{lemma_group_total, lemma_total_alike, lemma_total_gathered, number_of, total};
use crate::models::{amount_text, CategorySpendingView, PayeeSpendingView};
use crate::query::{gathered, group_of, group_values, measured, Grouped, Listed, Side};
use crate::server::errors::ToolErrorView;
use crate::server::reads::{answer_of, FoundView, Query};
use crate::sql::{hits, left_join, lemma_tally_is_sum, meets_key, value_sum, DbError, Keyed};
use crate::tables::{
    Budget, CategoryGroupRow, CategoryRow, PayeeMappingRow, PayeeRow, TransactionRow,
};
use crate::text::string_view;
use vstd::prelude::*;
use vstd::string::*;

verus! {

// ── Keys ─────────────────────────────────────────────────────────────────────

/// No two categories that are not deleted have one id.
pub open spec fn categories_are_unique(b: &Budget) -> bool {
    forall|i: int, j: int|
        #![trigger b.categories@[i], b.categories@[j]]
        0 <= i < j < b.categories@.len() && is_live(b.categories@[i].tombstone) && is_live(
            b.categories@[j].tombstone,
        ) ==> !refers(b.categories@[i].id, b.categories@[j].id)
}

/// No two category groups that are not deleted have one id.
pub open spec fn groups_are_unique(b: &Budget) -> bool {
    forall|i: int, j: int|
        #![trigger b.category_groups@[i], b.category_groups@[j]]
        0 <= i < j < b.category_groups@.len() && is_live(b.category_groups@[i].tombstone)
            && is_live(b.category_groups@[j].tombstone) ==> !refers(
            b.category_groups@[i].id,
            b.category_groups@[j].id,
        )
}

/// No two payees that are not deleted have one id.
pub open spec fn payees_are_unique(b: &Budget) -> bool {
    forall|i: int, j: int|
        #![trigger b.payees@[i], b.payees@[j]]
        0 <= i < j < b.payees@.len() && is_live(b.payees@[i].tombstone) && is_live(
            b.payees@[j].tombstone,
        ) ==> !refers(b.payees@[i].id, b.payees@[j].id)
}

/// No payee is merged into two.
pub open spec fn mappings_are_unique(b: &Budget) -> bool {
    forall|i: int, j: int|
        #![trigger b.payee_mapping@[i], b.payee_mapping@[j]]
        0 <= i < j < b.payee_mapping@.len() ==> !refers(
            b.payee_mapping@[i].id,
            b.payee_mapping@[j].id,
        )
}

pub proof fn lemma_one_hit<R: Keyed>(rows: Seq<R>, key: Option<Seq<char>>)
    requires
        forall|i: int, j: int|
            #![trigger rows[i], rows[j]]
            0 <= i < j < rows.len() ==> !(meets_key(&rows[i], key) && meets_key(&rows[j], key)),
    ensures
        hits(rows, key).len() <= 1,
        left_join(rows, key).len() == 1,
    decreases rows.len(),
{
    if rows.len() > 0 {
        let before = rows.drop_last();
        assert forall|i: int, j: int|
            #![trigger before[i], before[j]]
            0 <= i < j < before.len() implies !(meets_key(&before[i], key) && meets_key(
            &before[j],
            key,
        )) by {
            assert(before[i] == rows[i] && before[j] == rows[j]);
        }
        lemma_one_hit(before, key);
        let found = hits(before, key);
        if meets_key(&rows.last(), key) && found.len() > 0 {
            let r = *found[0];
            lemma_hits(before, key, r);
            assert(found.contains(&r));
            let i = choose|i: int| 0 <= i < before.len() && before[i] == r;
            assert(rows[i] == r && rows[rows.len() - 1] == rows.last());
        }
    }
}

// ── By category ──────────────────────────────────────────────────────────────

/// An amount that was spent on a day from `start` to `end`, both included.
pub open spec fn is_spent(t: TransactionRow, start: i64, end: i64) -> bool {
    &&& t.amount is Some && t.amount->0 < 0
    &&& t.date is Some && start <= t.date->0 <= end
}

/// What was spent in the category; where there is none, what has no category that
/// is not deleted.
pub open spec fn is_spent_on(
    b: &Budget,
    t: TransactionRow,
    c: Option<CategoryRow>,
    start: i64,
    end: i64,
) -> bool {
    &&& is_single(t)
    &&& is_spent(t, start, end)
    &&& match c {
        Some(c) => refers(t.category, c.id),
        None => has_category(b, t, None),
    }
}

pub open spec fn count_where(b: &Budget, counts: spec_fn(TransactionRow) -> bool) -> int {
    total(
        b.transactions@,
        |t: TransactionRow|
            if counts(t) {
                1
            } else {
                0
            },
    )
}

/// The name of the group of a category.
pub open spec fn is_group_name(b: &Budget, c: CategoryRow, name: Seq<char>) -> bool {
    exists|g: Option<&CategoryGroupRow>| #[trigger]
        has_group(b, c.cat_group, g) && name == match g {
            Some(g) => shown_as(g.name, ""@),
            None => ""@,
        }
}

pub open spec fn shows_spending(
    b: &Budget,
    start: i64,
    end: i64,
    c: Option<CategoryRow>,
    x: CategorySpendingView,
) -> bool {
    &&& match c {
        Some(c) => {
            &&& b.categories@.contains(c)
            &&& is_live(c.tombstone)
            &&& x.category_name == shown_as(c.name, "Uncategorized"@)
            &&& is_group_name(b, c, x.group_name)
        },
        None => x.category_name == "Uncategorized"@ && x.group_name == ""@,
    }
    &&& x.total_cents == sum_where(b, |t: TransactionRow| is_spent_on(b, t, c, start, end))
    &&& x.transaction_count == count_where(
        b,
        |t: TransactionRow| is_spent_on(b, t, c, start, end),
    )
    &&& x.total_display == amount_text(x.total_cents)
}

/// The categories in which something was spent, each once, the most spent first;
/// every amount that was spent is in one of them.
pub open spec fn is_category_spending(
    b: &Budget,
    start: i64,
    end: i64,
    v: Seq<CategorySpendingView>,
    at: Seq<Option<CategoryRow>>,
) -> bool {
    &&& at.len() == v.len()
    &&& forall|i: int|
        #![trigger at[i]]
        #![trigger v[i]]
        0 <= i < v.len() ==> shows_spending(b, start, end, at[i], v[i])
    &&& forall|i: int, j: int|
        #![trigger at[i], at[j]]
        #![trigger v[i], v[j]]
        0 <= i < j < v.len() ==> at[i] != at[j] && v[i].total_cents <= v[j].total_cents
    &&& forall|k: int|
        #![trigger b.transactions@[k]]
        0 <= k < b.transactions@.len() && is_single(b.transactions@[k]) && is_spent(
            b.transactions@[k],
            start,
            end,
        ) ==> exists|i: int|
            0 <= i < at.len() && is_spent_on(b, b.transactions@[k], #[trigger] at[i], start, end)
}

spec fn owned(c: Option<&CategoryRow>) -> Option<CategoryRow> {
    match c {
        Some(c) => Some(*c),
        None => None,
    }
}

/// The one line of an amount that was spent.
pub proof fn lemma_one_spending<'a>(b: &'a Budget, t: TransactionRow, start: i64, end: i64) -> (l:
    CategoryLine<'a>)
    requires
        categories_are_unique(b),
        groups_are_unique(b),
        is_single(t),
        is_spent(t, start, end),
    ensures
        lines_of_spending(b, &t, start, end) == seq![l],
        *l.entry == t,
        has_category(b, t, l.category),
        match l.category {
            Some(c) => has_group(b, c.cat_group, l.group),
            None => l.group is None,
        },
{
    let key = string_view(t.category);
    lemma_one_hit(b.categories@, key);
    let found = left_join::<'a, CategoryRow>(b.categories@, key);
    let c = found[0];
    assert(found.contains(c));
    lemma_category_join(b, t, c);
    lemma_one_hit(b.category_groups@, group_key(c));
    let groups = left_join::<'a, CategoryGroupRow>(b.category_groups@, group_key(c));
    let g = groups[0];
    assert(groups.contains(g));
    match c {
        Some(c) => lemma_group_join(b, c.cat_group, g),
        None => {
            if hits::<'a, CategoryGroupRow>(b.category_groups@, group_key(c)).len() > 0 {
                let r = *hits::<'a, CategoryGroupRow>(b.category_groups@, group_key(c))[0];
                lemma_hits(b.category_groups@, group_key(c), r);
                assert(hits(b.category_groups@, group_key(c)).contains(&r));
            }
        },
    }
    let l = CategoryLine { entry: &t, category: c, group: g };
    let f = |c: Option<&'a CategoryRow>| category_lines_through(b, &t, c);
    assert(f(c) =~= seq![l]);
    assert(found.drop_last() =~= Seq::empty());
    assert(gathered(found.drop_last(), f) =~= Seq::empty());
    assert(gathered(found, f) =~= f(c));
    l
}

proof fn lemma_spending_sum<'a>(
    b: &'a Budget,
    start: i64,
    end: i64,
    leader: CategoryLine<'a>,
    side: Side,
    cents: int,
    w: spec_fn(TransactionRow) -> int,
)
    requires
        categories_are_unique(b),
        groups_are_unique(b),
        match leader.category {
            Some(c) => b.categories@.contains(*c) && is_live(c.tombstone) && c.id is Some,
            None => true,
        },
        value_sum(group_values(category_lines(b, start, end), leader, side)) == cents,
        forall|t: TransactionRow| #[trigger] w(t) == number_of(measured(t.amount, side)),
    ensures
        cents == total(
            b.transactions@,
            |t: TransactionRow|
                if is_spent_on(b, t, owned(leader.category), start, end) {
                    w(t)
                } else {
                    0
                },
        ),
{
    let f = |t: TransactionRow| lines_of_spending(b, &t, start, end);
    let g = |l: CategoryLine<'a>|
        if leader.alike(&l) {
            number_of(measured(l.amount(), side))
        } else {
            0
        };
    lemma_group_total(category_lines(b, start, end), leader, side);
    lemma_total_gathered(b.transactions@, f, g);
    let by_row = |t: TransactionRow|
        if is_spent_on(b, t, owned(leader.category), start, end) {
            w(t)
        } else {
            0
        };
    assert forall|i: int| 0 <= i < b.transactions@.len() implies total(
        f(#[trigger] b.transactions@[i]),
        g,
    ) == by_row(b.transactions@[i]) by {
        let t = b.transactions@[i];
        if is_single(t) && is_spent(t, start, end) {
            let l = lemma_one_spending(b, t, start, end);
            let one = seq![l];
            assert(one.drop_last() =~= Seq::empty());
            assert(total(one.drop_last(), g) == 0);
            assert(total(f(t), g) == g(l));
            lemma_same_category(b, t, leader.category, l.category);
            assert(leader.alike(&l) <==> is_spent_on(b, t, owned(leader.category), start, end));
        } else {
            assert(f(t) =~= Seq::empty());
        }
    }
    lemma_total_alike(b.transactions@, |t: TransactionRow| total(f(t), g), by_row);
}

/// A transaction is of the category `c` where its own has the same id.
proof fn lemma_same_category(
    b: &Budget,
    t: TransactionRow,
    c: Option<&CategoryRow>,
    own: Option<&CategoryRow>,
)
    requires
        has_category(b, t, own),
        match c {
            Some(c) => b.categories@.contains(*c) && is_live(c.tombstone) && c.id is Some,
            None => true,
        },
    ensures
        (category_id(c) == category_id(own)) <==> match c {
            Some(c) => refers(t.category, c.id),
            None => has_category(b, t, None),
        },
{
    match (c, own) {
        (Some(c), None) => {
            assert(b.categories@.contains(*c) && is_live(c.tombstone));
            assert(!refers(c.id, t.category));
        },
        (None, Some(own)) => {
            assert(b.categories@.contains(*own) && is_live(own.tombstone));
            assert(refers(own.id, t.category));
        },
        _ => {},
    }
}

/// The answer to the question for spending by category sums up what was spent in
/// the range, each amount under its own category.
#[verifier::rlimit(60)]
pub proof fn law_spending_is_by_category(
    b: &Budget,
    start: i64,
    end: i64,
    v: Seq<CategorySpendingView>,
) -> (at: Seq<Option<CategoryRow>>)
    requires
        categories_are_unique(b),
        groups_are_unique(b),
        answer_of(b, Query::SpendingByCategory { start, end }) == Ok::<FoundView, ToolErrorView>(
            FoundView::CategorySpending(v),
        ),
    ensures
        is_category_spending(b, start, end, v, at),
{
    let rows = category_lines(b, start, end);
    let lead = lemma_summed(rows, v);
    let at = Seq::new(lead.len(), |i: int| owned(lead[i].category));
    assert forall|i: int|
        #![trigger at[i]]
        #![trigger v[i]]
        0 <= i < v.len() implies shows_spending(b, start, end, at[i], v[i]) by {
        lemma_spending_entry(b, start, end, lead[i], v[i]);
    }
    assert forall|i: int, j: int|
        #![trigger at[i], at[j]]
        #![trigger v[i], v[j]]
        0 <= i < j < v.len() implies at[i] != at[j] && v[i].total_cents <= v[j].total_cents by {
        assert(!lead[i].alike(&lead[j]));
        assert(group_of(rows, &lead[i]).outcome() == Ok::<CategorySpendingView, DbError>(v[i]));
        assert(group_of(rows, &lead[j]).outcome() == Ok::<CategorySpendingView, DbError>(v[j]));
    }
    assert forall|k: int|
        #![trigger b.transactions@[k]]
        0 <= k < b.transactions@.len() && is_single(b.transactions@[k]) && is_spent(
            b.transactions@[k],
            start,
            end,
        ) implies exists|i: int|
        0 <= i < at.len() && is_spent_on(
            b,
            b.transactions@[k],
            #[trigger] at[i],
            start,
            end,
        ) by {
        let t = b.transactions@[k];
        let l = lemma_one_spending(b, t, start, end);
        let f = |t: TransactionRow| lines_of_spending(b, &t, start, end);
        assert(f(b.transactions@[k])[0] == l);
        lemma_gathered_is(b.transactions@, f, l);
        let r = choose|r: int| 0 <= r < rows.len() && rows[r] == l;
        assert(rows[r] == l);
        let i = choose|i: int| 0 <= i < lead.len() && (#[trigger] lead[i]).alike(&rows[r]);
        lemma_spending_line(b, start, end, lead[i]);
        lemma_same_category(b, t, lead[i].category, l.category);
        assert(is_spent_on(b, t, at[i], start, end));
    }
    at
}

proof fn lemma_spending_line<'a>(b: &'a Budget, start: i64, end: i64, l: CategoryLine<'a>)
    requires
        categories_are_unique(b),
        groups_are_unique(b),
        category_lines(b, start, end).contains(l),
    ensures
        match l.category {
            Some(c) => b.categories@.contains(*c) && is_live(c.tombstone) && c.id is Some
                && has_group(b, c.cat_group, l.group),
            None => l.group is None,
        },
{
    let f = |t: TransactionRow| lines_of_spending(b, &t, start, end);
    lemma_gathered_is(b.transactions@, f, l);
    let k = choose|k: int|
        0 <= k < b.transactions@.len() && f(#[trigger] b.transactions@[k]).contains(l);
    let t = b.transactions@[k];
    if is_single(t) && is_spent(t, start, end) {
        let own = lemma_one_spending(b, t, start, end);
        assert(f(t) == seq![own]);
    } else {
        assert(f(t) =~= Seq::empty());
    }
}

proof fn lemma_spending_entry<'a>(
    b: &'a Budget,
    start: i64,
    end: i64,
    leader: CategoryLine<'a>,
    x: CategorySpendingView,
)
    requires
        categories_are_unique(b),
        groups_are_unique(b),
        category_lines(b, start, end).contains(leader),
        group_of(category_lines(b, start, end), &leader).outcome() == Ok::<
            CategorySpendingView,
            DbError,
        >(x),
    ensures
        shows_spending(b, start, end, owned(leader.category), x),
{
    let rows = category_lines(b, start, end);
    let c = owned(leader.category);
    let counts = |t: TransactionRow| is_spent_on(b, t, c, start, end);
    lemma_spending_line(b, start, end, leader);
    lemma_tally_is_sum(group_values(rows, leader, Side::All), x.total_cents);
    lemma_tally_is_sum(group_values(rows, leader, Side::Count), x.transaction_count);
    let amounts = |t: TransactionRow| number(t.amount);
    lemma_spending_sum(b, start, end, leader, Side::All, x.total_cents, amounts);
    lemma_total_alike(
        b.transactions@,
        |t: TransactionRow|
            if is_spent_on(b, t, c, start, end) {
                amounts(t)
            } else {
                0
            },
        |t: TransactionRow|
            if counts(t) {
                number(t.amount)
            } else {
                0
            },
    );
    let ones = |t: TransactionRow| 1int;
    lemma_spending_sum(b, start, end, leader, Side::Count, x.transaction_count, ones);
    lemma_total_alike(
        b.transactions@,
        |t: TransactionRow|
            if is_spent_on(b, t, c, start, end) {
                ones(t)
            } else {
                0
            },
        |t: TransactionRow|
            if counts(t) {
                1
            } else {
                0
            },
    );
    match leader.category {
        Some(row) => {
            assert(has_group(b, row.cat_group, leader.group));
            assert(is_group_name(b, *row, x.group_name));
        },
        None => {},
    }
}

// ── By payee ─────────────────────────────────────────────────────────────────

/// The payee of a transaction goes by this name, once merged payees are resolved.
pub open spec fn is_bought_from(b: &Budget, t: TransactionRow, name: Seq<char>) -> bool {
    exists|p: Option<&PayeeRow>| #[trigger]
        leads_to_payee(b, t, p) && name == match p {
            Some(p) => shown_as(p.name, "No Payee"@),
            None => "No Payee"@,
        }
}

/// A whole purchase of the range.
pub open spec fn is_purchase(t: TransactionRow, start: i64, end: i64) -> bool {
    is_entire(t) && is_spent(t, start, end)
}

pub open spec fn shows_purchases(
    b: &Budget,
    start: i64,
    end: i64,
    x: PayeeSpendingView,
) -> bool {
    &&& x.total_cents == sum_where(
        b,
        |t: TransactionRow| is_purchase(t, start, end) && is_bought_from(b, t, x.payee_name),
    )
    &&& x.transaction_count == count_where(
        b,
        |t: TransactionRow| is_purchase(t, start, end) && is_bought_from(b, t, x.payee_name),
    )
    &&& x.total_display == amount_text(x.total_cents)
}

/// The names under which something was bought, each once, the most spent first;
/// every purchase is under one of them, and each has a purchase.
pub open spec fn is_payee_spending(
    b: &Budget,
    start: i64,
    end: i64,
    v: Seq<PayeeSpendingView>,
) -> bool {
    &&& forall|i: int| #![trigger v[i]] 0 <= i < v.len() ==> shows_purchases(b, start, end, v[i])
    &&& forall|i: int, j: int|
        #![trigger v[i], v[j]]
        0 <= i < j < v.len() ==> v[i].payee_name != v[j].payee_name && v[i].total_cents
            <= v[j].total_cents
    &&& forall|k: int|
        #![trigger b.transactions@[k]]
        0 <= k < b.transactions@.len() && is_purchase(b.transactions@[k], start, end)
            ==> exists|i: int|
            0 <= i < v.len() && is_bought_from(b, b.transactions@[k], (#[trigger] v[i]).payee_name)
    &&& forall|i: int|
        #![trigger v[i]]
        0 <= i < v.len() ==> exists|k: int|
            0 <= k < b.transactions@.len() && is_purchase(
                #[trigger] b.transactions@[k],
                start,
                end,
            ) && is_bought_from(b, b.transactions@[k], v[i].payee_name)
}

/// The one payee of a transaction.
pub proof fn lemma_one_payee<'a>(b: &'a Budget, t: &'a TransactionRow) -> (p: Option<&'a PayeeRow>)
    requires
        payees_are_unique(b),
        mappings_are_unique(b),
    ensures
        payee_links(b, t) == seq![PayeeLink { payee: p }],
        forall|q: Option<&'a PayeeRow>| #[trigger] leads_to_payee(b, *t, q) <==> q == p,
{
    let key = string_view(t.description);
    lemma_one_hit(b.payee_mapping@, key);
    let mappings = left_join::<'a, PayeeMappingRow>(b.payee_mapping@, key);
    let m = mappings[0];
    lemma_one_hit(b.payees@, payee_key(t, m));
    let found = left_join::<'a, PayeeRow>(b.payees@, payee_key(t, m));
    let p = found[0];
    let f = |m: Option<&'a PayeeMappingRow>| links_through(b, t, m);
    assert(f(m) =~= seq![PayeeLink { payee: p }]);
    assert(mappings.drop_last() =~= Seq::empty());
    assert(gathered(mappings.drop_last(), f) =~= Seq::empty());
    assert(gathered(mappings, f) =~= f(m));
    let links = payee_links(b, t);
    assert forall|q: Option<&'a PayeeRow>| #[trigger] leads_to_payee(b, *t, q) <==> q == p by {
        lemma_payee_links(b, t, q);
        assert(links[0] == PayeeLink { payee: p });
    }
    p
}

pub proof fn lemma_purchase_line<'a>(b: &'a Budget, t: TransactionRow, start: i64, end: i64) -> (l:
    PayeeLine<'a>)
    requires
        payees_are_unique(b),
        mappings_are_unique(b),
        is_purchase(t, start, end),
    ensures
        lines_of_purchase(b, &t, start, end) == seq![l],
        *l.entry == t,
        forall|name: Seq<char>| #[trigger]
            is_bought_from(b, t, name) <==> name == shown_payee(&l),
{
    let p = lemma_one_payee(b, &t);
    let l = PayeeLine { entry: &t, link: PayeeLink { payee: p } };
    assert(lines_of_purchase(b, &t, start, end) =~= seq![l]);
    assert(leads_to_payee(b, t, p));
    assert forall|name: Seq<char>| #[trigger]
        is_bought_from(b, t, name) <==> name == shown_payee(&l) by {
        if is_bought_from(b, t, name) {
            let q = choose|q: Option<&PayeeRow>| #[trigger]
                leads_to_payee(b, t, q) && name == match q {
                    Some(p) => shown_as(p.name, "No Payee"@),
                    None => "No Payee"@,
                };
            assert(q == p);
        }
    }
    l
}

proof fn lemma_purchase_sum<'a>(
    b: &'a Budget,
    start: i64,
    end: i64,
    leader: PayeeLine<'a>,
    side: Side,
    cents: int,
    w: spec_fn(TransactionRow) -> int,
)
    requires
        payees_are_unique(b),
        mappings_are_unique(b),
        value_sum(group_values(payee_lines(b, start, end), leader, side)) == cents,
        forall|t: TransactionRow| #[trigger] w(t) == number_of(measured(t.amount, side)),
    ensures
        cents == total(
            b.transactions@,
            |t: TransactionRow|
                if is_purchase(t, start, end) && is_bought_from(b, t, shown_payee(&leader)) {
                    w(t)
                } else {
                    0
                },
        ),
{
    let f = |t: TransactionRow| lines_of_purchase(b, &t, start, end);
    let g = |l: PayeeLine<'a>|
        if leader.alike(&l) {
            number_of(measured(l.amount(), side))
        } else {
            0
        };
    lemma_group_total(payee_lines(b, start, end), leader, side);
    lemma_total_gathered(b.transactions@, f, g);
    let by_row = |t: TransactionRow|
        if is_purchase(t, start, end) && is_bought_from(b, t, shown_payee(&leader)) {
            w(t)
        } else {
            0
        };
    assert forall|i: int| 0 <= i < b.transactions@.len() implies total(
        f(#[trigger] b.transactions@[i]),
        g,
    ) == by_row(b.transactions@[i]) by {
        let t = b.transactions@[i];
        if is_purchase(t, start, end) {
            let l = lemma_purchase_line(b, t, start, end);
            let one = seq![l];
            assert(one.drop_last() =~= Seq::empty());
            assert(total(one.drop_last(), g) == 0);
            assert(total(f(t), g) == g(l));
            assert(is_bought_from(b, t, shown_payee(&leader)) <==> leader.alike(&l));
        } else {
            assert(f(t) =~= Seq::empty());
        }
    }
    lemma_total_alike(b.transactions@, |t: TransactionRow| total(f(t), g), by_row);
}

proof fn lemma_purchase_entry<'a>(
    b: &'a Budget,
    start: i64,
    end: i64,
    leader: PayeeLine<'a>,
    x: PayeeSpendingView,
)
    requires
        payees_are_unique(b),
        mappings_are_unique(b),
        group_of(payee_lines(b, start, end), &leader).outcome() == Ok::<PayeeSpendingView, DbError>(
            x,
        ),
    ensures
        shows_purchases(b, start, end, x),
        x.payee_name == shown_payee(&leader),
{
    let rows = payee_lines(b, start, end);
    let name = x.payee_name;
    let counts = |t: TransactionRow| is_purchase(t, start, end) && is_bought_from(b, t, name);
    lemma_tally_is_sum(group_values(rows, leader, Side::All), x.total_cents);
    lemma_tally_is_sum(group_values(rows, leader, Side::Count), x.transaction_count);
    let amounts = |t: TransactionRow| number(t.amount);
    lemma_purchase_sum(b, start, end, leader, Side::All, x.total_cents, amounts);
    lemma_total_alike(
        b.transactions@,
        |t: TransactionRow|
            if is_purchase(t, start, end) && is_bought_from(b, t, shown_payee(&leader)) {
                amounts(t)
            } else {
                0
            },
        |t: TransactionRow|
            if counts(t) {
                number(t.amount)
            } else {
                0
            },
    );
    let ones = |t: TransactionRow| 1int;
    lemma_purchase_sum(b, start, end, leader, Side::Count, x.transaction_count, ones);
    lemma_total_alike(
        b.transactions@,
        |t: TransactionRow|
            if is_purchase(t, start, end) && is_bought_from(b, t, shown_payee(&leader)) {
                ones(t)
            } else {
                0
            },
        |t: TransactionRow|
            if counts(t) {
                1
            } else {
                0
            },
    );
}

/// The answer to the question for spending by payee sums up the whole purchases of
/// the range, each under the name of its own payee.
#[verifier::rlimit(60)]
pub proof fn law_spending_is_by_payee(
    b: &Budget,
    start: i64,
    end: i64,
    v: Seq<PayeeSpendingView>,
)
    requires
        payees_are_unique(b),
        mappings_are_unique(b),
        answer_of(b, Query::SpendingByPayee { start, end }) == Ok::<FoundView, ToolErrorView>(
            FoundView::PayeeSpending(v),
        ),
    ensures
        is_payee_spending(b, start, end, v),
{
    let rows = payee_lines(b, start, end);
    let lead = lemma_summed(rows, v);
    assert forall|i: int| #![trigger v[i]] 0 <= i < v.len() implies shows_purchases(
        b,
        start,
        end,
        v[i],
    ) && v[i].payee_name == shown_payee(&lead[i]) by {
        lemma_purchase_entry(b, start, end, lead[i], v[i]);
    }
    assert forall|i: int, j: int|
        #![trigger v[i], v[j]]
        0 <= i < j < v.len() implies v[i].payee_name != v[j].payee_name && v[i].total_cents
        <= v[j].total_cents by {
        assert(!lead[i].alike(&lead[j]));
        assert(group_of(rows, &lead[i]).outcome() == Ok::<PayeeSpendingView, DbError>(v[i]));
        assert(group_of(rows, &lead[j]).outcome() == Ok::<PayeeSpendingView, DbError>(v[j]));
    }
    assert forall|k: int|
        #![trigger b.transactions@[k]]
        0 <= k < b.transactions@.len() && is_purchase(b.transactions@[k], start, end) implies exists|
        i: int,
    |
        0 <= i < v.len() && is_bought_from(b, b.transactions@[k], (#[trigger] v[i]).payee_name) by {
        let t = b.transactions@[k];
        let l = lemma_purchase_listed(b, start, end, k);
        let r = choose|r: int| 0 <= r < rows.len() && rows[r] == l;
        assert(rows[r] == l);
        let i = choose|i: int| 0 <= i < lead.len() && (#[trigger] lead[i]).alike(&rows[r]);
        assert(v[i].payee_name == shown_payee(&l));
        assert(is_bought_from(b, t, v[i].payee_name));
    }
    assert forall|i: int| #![trigger v[i]] 0 <= i < v.len() implies exists|k: int|
        0 <= k < b.transactions@.len() && is_purchase(#[trigger] b.transactions@[k], start, end)
            && is_bought_from(b, b.transactions@[k], v[i].payee_name) by {
        let k = lemma_listed_purchase(b, start, end, lead[i]);
        assert(is_purchase(b.transactions@[k], start, end));
    }
}

/// The line of a purchase is one of the lines of the range.
proof fn lemma_purchase_listed<'a>(b: &'a Budget, start: i64, end: i64, k: int) -> (l: PayeeLine<
    'a,
>)
    requires
        payees_are_unique(b),
        mappings_are_unique(b),
        0 <= k < b.transactions@.len(),
        is_purchase(b.transactions@[k], start, end),
    ensures
        payee_lines(b, start, end).contains(l),
        is_bought_from(b, b.transactions@[k], shown_payee(&l)),
{
    let f = |t: TransactionRow| lines_of_purchase(b, &t, start, end);
    let l = lemma_purchase_line(b, b.transactions@[k], start, end);
    assert(f(b.transactions@[k])[0] == l);
    lemma_gathered_is(b.transactions@, f, l);
    l
}

/// Each line of the range is that of a purchase.
proof fn lemma_listed_purchase<'a>(b: &'a Budget, start: i64, end: i64, l: PayeeLine<'a>) -> (k:
    int)
    requires
        payees_are_unique(b),
        mappings_are_unique(b),
        payee_lines(b, start, end).contains(l),
    ensures
        0 <= k < b.transactions@.len(),
        is_purchase(b.transactions@[k], start, end),
        is_bought_from(b, b.transactions@[k], shown_payee(&l)),
{
    let f = |t: TransactionRow| lines_of_purchase(b, &t, start, end);
    lemma_gathered_is(b.transactions@, f, l);
    let k = choose|k: int|
        0 <= k < b.transactions@.len() && f(#[trigger] b.transactions@[k]).contains(l);
    let t = b.transactions@[k];
    if is_purchase(t, start, end) {
        let own = lemma_purchase_line(b, t, start, end);
        assert(f(t) == seq![own]);
    } else {
        assert(f(t) =~= Seq::empty());
    }
    k
}

} // verus!
