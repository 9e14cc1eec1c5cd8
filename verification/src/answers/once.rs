//! What is listed is listed once.

use crate::answers::lists::{is_shown, lemma_listed};
use crate::answers::rows::{is_live, refers, says};
use crate::answers::spending::{
    categories_are_unique, groups_are_unique, lemma_one_hit, lemma_one_payee, mappings_are_unique,
    payees_are_unique,
};
use crate::db::budgets::{
    allotments, budget_lines, budget_lines_through, lines_of_budget, month_number,
};
use crate::db::lines::{
    chosen, kept, lines, lines_through, matching, payee_links, ByCategory, Filter, Line, PayeeLink,
    Scope, TransactionFilter, Uncategorized,
};
use crate::db::transactions::bare;
use crate::models::{BudgetMonthView, TransactionView};
use crate::query::{gathered, listing};
use crate::server::errors::ToolErrorView;
use crate::server::reads::{answer_of, FoundView, Query};
use crate::sql::{left_join, DbError};
use crate::tables::{Budget, CategoryGroupRow, CategoryRow, TransactionRow};
use crate::text::string_view;
use vstd::prelude::*;
use vstd::string::*;

verus! {

// ── Places ───────────────────────────────────────────────────────────────────

/// Where no row brings more than one, each that is gathered has a place of its own.
proof fn lemma_own_places<A, B>(rows: Seq<A>, f: spec_fn(A) -> Seq<B>) -> (at: Seq<int>)
    requires
        forall|i: int| 0 <= i < rows.len() ==> f(#[trigger] rows[i]).len() <= 1,
    ensures
        at.len() == gathered(rows, f).len(),
        forall|i: int|
            #![trigger at[i]]
            0 <= i < at.len() ==> 0 <= at[i] < rows.len() && f(rows[at[i]]).len() == 1
                && gathered(rows, f)[i] == f(rows[at[i]])[0],
        forall|i: int, j: int|
            #![trigger at[i], at[j]]
            0 <= i < j < at.len() ==> at[i] < at[j],
    decreases rows.len(),
{
    if rows.len() == 0 {
        Seq::empty()
    } else {
        let before = rows.drop_last();
        let last = rows.len() - 1;
        assert forall|i: int| 0 <= i < before.len() implies f(#[trigger] before[i]).len() <= 1 by {
            assert(before[i] == rows[i]);
        }
        let done = lemma_own_places(before, f);
        let (all, more) = (gathered(rows, f), f(rows[last]));
        assert(all == gathered(before, f) + more);
        assert forall|i: int|
            #![trigger done[i]]
            0 <= i < done.len() implies 0 <= done[i] < last && f(rows[done[i]]).len() == 1
            && all[i] == f(rows[done[i]])[0] by {
            assert(before[done[i]] == rows[done[i]]);
        }
        if more.len() == 0 {
            done
        } else {
            let at = done.push(last);
            assert forall|i: int|
                #![trigger at[i]]
                0 <= i < at.len() implies 0 <= at[i] < rows.len() && f(rows[at[i]]).len() == 1
                && all[i] == f(rows[at[i]])[0] by {
                if i < done.len() {
                    assert(at[i] == done[i]);
                } else {
                    assert(all[i] == more[0]);
                }
            }
            assert forall|i: int, j: int|
                #![trigger at[i], at[j]]
                0 <= i < j < at.len() implies at[i] < at[j] by {
                assert(at[i] == done[i]);
                if j < done.len() {
                    assert(at[j] == done[j]);
                }
            }
            at
        }
    }
}

// ── Transactions ─────────────────────────────────────────────────────────────

/// The records are of transactions at these places of the table, each at its own.
pub open spec fn are_of_places(b: &Budget, v: Seq<TransactionView>, at: Seq<int>) -> bool {
    &&& at.len() == v.len()
    &&& forall|i: int|
        #![trigger at[i]]
        #![trigger v[i]]
        0 <= i < v.len() ==> 0 <= at[i] < b.transactions@.len() && says(
            b.transactions@[at[i]].id,
            v[i].id,
        )
    &&& forall|i: int, j: int|
        #![trigger at[i], at[j]]
        0 <= i < j < at.len() ==> at[i] != at[j]
}

/// A transaction brings no more than one line.
proof fn lemma_one_line<'a, F: Filter>(b: &'a Budget, filter: &F, t: TransactionRow)
    requires
        categories_are_unique(b),
        payees_are_unique(b),
        mappings_are_unique(b),
    ensures
        chosen(b, filter, &t).len() <= 1,
        chosen(b, filter, &t).len() == 1 ==> *chosen(b, filter, &t)[0].entry == t,
{
    let p = lemma_one_payee(b, &t);
    let links = payee_links(b, &t);
    let f = |l: PayeeLink<'a>| lines_through(b, &t, l);
    lemma_one_hit(b.categories@, string_view(t.category));
    assert(links.drop_last() =~= Seq::empty());
    assert(gathered(links.drop_last(), f) =~= Seq::empty());
    assert(gathered(links, f) =~= f(links[0]));
    let all = lines(b, &t);
    assert(all.len() == 1 && *all[0].entry == t);
    let g = |l: Line<'a>| kept(filter, l);
    assert(all.drop_last() =~= Seq::empty());
    assert(gathered(all.drop_last(), g) =~= Seq::empty());
    assert(gathered(all, g) =~= g(all[0]));
}

proof fn lemma_listed_once<'a, F: Filter>(
    b: &'a Budget,
    filter: &F,
    as_shown: spec_fn(Line<'a>) -> Line<'a>,
    limit: int,
    v: Seq<TransactionView>,
) -> (at: Seq<int>)
    requires
        categories_are_unique(b),
        payees_are_unique(b),
        mappings_are_unique(b),
        forall|l: Line<'a>| (#[trigger] as_shown(l)).entry == l.entry,
        listing(matching(b, filter).map_values(|l: Line<'a>| as_shown(l)), limit) == Ok::<
            Seq<TransactionView>,
            DbError,
        >(v),
    ensures
        are_of_places(b, v, at),
{
    let f = |t: TransactionRow| chosen(b, filter, &t);
    let found = matching(b, filter);
    let rows = found.map_values(|l: Line<'a>| as_shown(l));
    assert forall|i: int| 0 <= i < b.transactions@.len() implies f(
        #[trigger] b.transactions@[i],
    ).len() <= 1 by {
        lemma_one_line(b, filter, b.transactions@[i]);
    }
    let from = lemma_own_places(b.transactions@, f);
    let places = lemma_listed(rows, limit, v);
    let at = Seq::new(places.len(), |i: int| from[places[i]]);
    assert forall|i: int|
        #![trigger at[i]]
        #![trigger v[i]]
        0 <= i < v.len() implies 0 <= at[i] < b.transactions@.len() && says(
        b.transactions@[at[i]].id,
        v[i].id,
    ) && 0 <= places[i] < found.len() && at[i] == from[places[i]] by {
        assert(is_shown(rows, places[i], v[i]));
        let k = from[places[i]];
        lemma_one_line(b, filter, b.transactions@[k]);
        assert(found[places[i]] == f(b.transactions@[k])[0]);
        assert(rows[places[i]] == as_shown(found[places[i]]));
    }
    assert forall|i: int, j: int|
        #![trigger at[i], at[j]]
        0 <= i < j < at.len() implies at[i] != at[j] by {
        let (x, y) = (places[i], places[j]);
        assert(x != y);
        assert(at[i] == from[x] && at[j] == from[y]);
        if x < y {
            assert(from[x] < from[y]);
        } else {
            assert(from[y] < from[x]);
        }
    }
    at
}

/// No transaction is listed twice.
pub proof fn law_transactions_are_listed_once(
    b: &Budget,
    filter: TransactionFilter,
    limit: i64,
    v: Seq<TransactionView>,
) -> (at: Seq<int>)
    requires
        categories_are_unique(b),
        payees_are_unique(b),
        mappings_are_unique(b),
        answer_of(b, Query::Transactions { filter, limit }) == Ok::<FoundView, ToolErrorView>(
            FoundView::Transactions(v),
        ),
    ensures
        are_of_places(b, v, at),
{
    let same = |l: Line| l;
    let found = matching(b, &filter);
    assert(found.map_values(|l: Line| same(l)) =~= found);
    lemma_listed_once(b, &filter, same, limit as int, v)
}

/// No transaction of a matching category is listed twice.
pub proof fn law_category_transactions_are_listed_once(
    b: &Budget,
    regex: &str,
    scope: Scope,
    limit: i64,
    v: Seq<TransactionView>,
) -> (at: Seq<int>)
    requires
        categories_are_unique(b),
        payees_are_unique(b),
        mappings_are_unique(b),
        answer_of(b, Query::ByCategory { regex, scope, limit }) == Ok::<FoundView, ToolErrorView>(
            FoundView::Transactions(v),
        ),
    ensures
        are_of_places(b, v, at),
{
    let filter = ByCategory { scope, pattern: regex };
    let same = |l: Line| l;
    let found = matching(b, &filter);
    assert(found.map_values(|l: Line| same(l)) =~= found);
    lemma_listed_once(b, &filter, same, limit as int, v)
}

/// No uncategorized transaction is listed twice.
pub proof fn law_uncategorized_are_listed_once(
    b: &Budget,
    scope: Scope,
    limit: i64,
    v: Seq<TransactionView>,
) -> (at: Seq<int>)
    requires
        categories_are_unique(b),
        payees_are_unique(b),
        mappings_are_unique(b),
        answer_of(b, Query::Uncategorized { scope, limit }) == Ok::<FoundView, ToolErrorView>(
            FoundView::Transactions(v),
        ),
    ensures
        are_of_places(b, v, at),
{
    let filter = Uncategorized { scope };
    let without = |l: Line| bare(l);
    let found = matching(b, &filter);
    assert(found.map_values(|l: Line| without(l)) =~= found.map_values(|l: Line| bare(l)));
    lemma_listed_once(b, &filter, without, limit as int, v)
}

// ── Budgets ──────────────────────────────────────────────────────────────────

/// No two rows allot an amount to one category in the month.
pub open spec fn allotments_are_unique(b: &Budget, month: int) -> bool {
    forall|i: int, j: int|
        #![trigger allotments(b, month)[i], allotments(b, month)[j]]
        0 <= i < j < allotments(b, month).len() ==> !refers(
            allotments(b, month)[i].row.category,
            allotments(b, month)[j].row.category,
        )
}

pub proof fn lemma_one_budget_line<'a>(
    b: &'a Budget,
    c: CategoryRow,
    month: int,
    start: i64,
    end: i64,
)
    requires
        groups_are_unique(b),
        allotments_are_unique(b, month),
    ensures
        lines_of_budget(b, &c, month, start, end).len() <= 1,
        lines_of_budget(b, &c, month, start, end).len() == 1 ==> is_live(c.tombstone)
            && *lines_of_budget(b, &c, month, start, end)[0].category == c,
{
    if is_live(c.tombstone) {
        let found = left_join::<'a, CategoryGroupRow>(b.category_groups@, string_view(c.cat_group));
        lemma_one_hit(b.category_groups@, string_view(c.cat_group));
        lemma_one_hit(allotments(b, month), string_view(c.id));
        let f = |g: Option<&'a CategoryGroupRow>| budget_lines_through(b, &c, g, month, start, end);
        assert(found.drop_last() =~= Seq::empty());
        assert(gathered(found.drop_last(), f) =~= Seq::empty());
        assert(gathered(found, f) =~= f(found[0]));
    }
}

/// No category stands in a budget twice.
pub proof fn law_budget_lists_each_category_once(
    b: &Budget,
    month: &str,
    start: i64,
    end: i64,
    m: BudgetMonthView,
)
    requires
        categories_are_unique(b),
        groups_are_unique(b),
        allotments_are_unique(b, month_number(month@)),
        answer_of(b, Query::BudgetMonth { month, start, end }) == Ok::<FoundView, ToolErrorView>(
            FoundView::BudgetMonth(m),
        ),
    ensures
        forall|i: int, j: int|
            #![trigger m.categories[i], m.categories[j]]
            0 <= i < j < m.categories.len() ==> m.categories[i].category_id
                != m.categories[j].category_id,
{
    let n = month_number(month@);
    let rows = budget_lines(b, n, start, end);
    let v = m.categories;
    let f = |c: CategoryRow| lines_of_budget(b, &c, n, start, end);
    assert forall|i: int| 0 <= i < b.categories@.len() implies f(
        #[trigger] b.categories@[i],
    ).len() <= 1 by {
        lemma_one_budget_line(b, b.categories@[i], n, start, end);
    }
    let from = lemma_own_places(b.categories@, f);
    let places = lemma_listed(rows, -1, v);
    assert forall|i: int, j: int|
        #![trigger v[i], v[j]]
        0 <= i < j < v.len() implies v[i].category_id != v[j].category_id by {
        let (x, y) = (places[i], places[j]);
        assert(x != y);
        assert(is_shown(rows, x, v[i]) && is_shown(rows, y, v[j]));
        let (k, l) = (from[x], from[y]);
        assert(rows[x] == f(b.categories@[k])[0] && rows[y] == f(b.categories@[l])[0]);
        lemma_one_budget_line(b, b.categories@[k], n, start, end);
        lemma_one_budget_line(b, b.categories@[l], n, start, end);
        if x < y {
            assert(k < l);
            assert(!refers(b.categories@[k].id, b.categories@[l].id));
        } else {
            assert(l < k);
            assert(!refers(b.categories@[l].id, b.categories@[k].id));
        }
    }
}

} // verus!
