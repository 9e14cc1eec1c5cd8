//! What the lists of categories, payees and rules hold.

use crate::answers::budgets::place;
use crate::answers::lists::{is_shown, lemma_listed, lemma_listing_error};
use crate::answers::rows::{is_live, is_off, says, shown_as};
use crate::db::catalog::{categories_in, filled, NotDeleted};
use crate::json::{document, JsonView};
use crate::models::{CategoryGroupView, CategoryView, PayeeView, RuleView};
use crate::query::{gathered, listing, picked, picked_row, Item, Listed};
use crate::server::errors::ToolErrorView;
use crate::server::reads::{answer_of, FoundView, Query};
use crate::sql::{is_zero, key_before, DbError};
use crate::tables::{Budget, CategoryGroupRow, CategoryRow, PayeeRow, RuleRow};
use crate::text::{string_view, text_before};
use vstd::prelude::*;
use vstd::string::*;

verus! {

// ── Rows of a table ──────────────────────────────────────────────────────────

/// The places of those rows that are wanted: each once, and all of them.
pub open spec fn are_places<R>(rows: Seq<R>, wanted: spec_fn(R) -> bool, at: Seq<int>) -> bool {
    &&& forall|i: int|
        #![trigger at[i]]
        0 <= i < at.len() ==> 0 <= at[i] < rows.len() && wanted(rows[at[i]])
    &&& forall|i: int, j: int|
        #![trigger at[i], at[j]]
        0 <= i < j < at.len() ==> at[i] != at[j]
    &&& forall|k: int|
        #![trigger at.contains(k)]
        0 <= k < rows.len() && wanted(rows[k]) ==> at.contains(k)
}

proof fn lemma_places<'a, R>(
    rows: Seq<R>,
    f: spec_fn(R) -> Seq<Item<'a, R>>,
    wanted: spec_fn(R) -> bool,
) -> (at: Seq<int>)
    requires
        forall|r: R|
            #![trigger f(r)]
            f(r) == if wanted(r) {
                seq![Item { row: &r }]
            } else {
                Seq::empty()
            },
    ensures
        at.len() == gathered(rows, f).len(),
        are_places(rows, wanted, at),
        forall|i: int|
            #![trigger at[i]]
            0 <= i < at.len() ==> *gathered(rows, f)[i].row == rows[at[i]],
    decreases rows.len(),
{
    let all = gathered(rows, f);
    if rows.len() == 0 {
        Seq::empty()
    } else {
        let before = rows.drop_last();
        let last = rows.len() - 1;
        let done = lemma_places(before, f, wanted);
        let more = f(rows[last]);
        assert(all == gathered(before, f) + more);
        if wanted(rows[last]) {
            let at = done.push(last);
            assert forall|i: int|
                #![trigger at[i]]
                0 <= i < at.len() implies 0 <= at[i] < rows.len() && wanted(rows[at[i]])
                && *all[i].row == rows[at[i]] by {
                if i < done.len() {
                    assert(at[i] == done[i]);
                    assert(before[done[i]] == rows[done[i]]);
                } else {
                    assert(all[i] == more[0]);
                }
            }
            assert forall|k: int|
                #![trigger at.contains(k)]
                0 <= k < rows.len() && wanted(rows[k]) implies at.contains(k) by {
                if k == last {
                    assert(at[done.len() as int] == k);
                } else {
                    assert(before[k] == rows[k]);
                    assert(done.contains(k));
                    let i = choose|i: int| 0 <= i < done.len() && done[i] == k;
                    assert(at[i] == k);
                }
            }
            at
        } else {
            assert(all =~= gathered(before, f));
            assert forall|i: int|
                #![trigger done[i]]
                0 <= i < done.len() implies 0 <= done[i] < rows.len() && wanted(rows[done[i]])
                && *all[i].row == rows[done[i]] by {
                assert(before[done[i]] == rows[done[i]]);
            }
            assert forall|k: int|
                #![trigger done.contains(k)]
                0 <= k < rows.len() && wanted(rows[k]) implies done.contains(k) by {
                assert(before[k] == rows[k]);
            }
            done
        }
    }
}

/// A list of rows of a table, by their places in it.
proof fn lemma_table_listed<'a, R>(
    rows: Seq<R>,
    f: spec_fn(R) -> Seq<Item<'a, R>>,
    wanted: spec_fn(R) -> bool,
    v: Seq<<<Item<'a, R> as Listed>::Out as View>::V>,
) -> (at: Seq<int>) where Item<'a, R>: Listed
    requires
        forall|r: R|
            #![trigger f(r)]
            f(r) == if wanted(r) {
                seq![Item { row: &r }]
            } else {
                Seq::empty()
            },
        listing(gathered(rows, f), -1) == Ok::<
            Seq<<<Item<'a, R> as Listed>::Out as View>::V>,
            DbError,
        >(v),
    ensures
        at.len() == v.len(),
        are_places(rows, wanted, at),
        forall|i: int|
            #![trigger at[i]]
            #![trigger v[i]]
            0 <= i < v.len() ==> (Item::<'a, R> { row: &rows[at[i]] }).outcome() == Ok::<
                <<Item<'a, R> as Listed>::Out as View>::V,
                DbError,
            >(v[i]),
        forall|i: int, j: int|
            #![trigger at[i], at[j]]
            0 <= i < j < at.len() ==> !key_before(
                (Item::<'a, R> { row: &rows[at[j]] }).order_key(),
                (Item::<'a, R> { row: &rows[at[i]] }).order_key(),
            ),
{
    let all = gathered(rows, f);
    let from = lemma_places(rows, f, wanted);
    let places = lemma_listed(all, -1, v);
    let at = Seq::new(places.len(), |i: int| from[places[i]]);
    assert forall|i: int|
        #![trigger at[i]]
        0 <= i < at.len() implies 0 <= places[i] < all.len() && at[i] == from[places[i]]
        && all[places[i]] == (Item::<'a, R> { row: &rows[at[i]] }) && 0 <= at[i] < rows.len()
        && wanted(rows[at[i]]) && all[places[i]].outcome() == Ok::<
        <<Item<'a, R> as Listed>::Out as View>::V,
        DbError,
    >(v[i]) by {
        assert(is_shown(all, places[i], v[i]));
        assert(*all[places[i]].row == rows[from[places[i]]]);
    }
    assert forall|i: int, j: int|
        #![trigger at[i], at[j]]
        0 <= i < j < at.len() implies at[i] != at[j] && !key_before(
        (Item::<'a, R> { row: &rows[at[j]] }).order_key(),
        (Item::<'a, R> { row: &rows[at[i]] }).order_key(),
    ) by {
        let (x, y) = (places[i], places[j]);
        assert(x != y);
        if x < y {
            assert(from[x] != from[y]);
        } else {
            assert(from[y] != from[x]);
        }
    }
    assert forall|k: int|
        #![trigger at.contains(k)]
        0 <= k < rows.len() && wanted(rows[k]) implies at.contains(k) by {
        assert(from.contains(k));
        let x = choose|x: int| 0 <= x < from.len() && from[x] == k;
        assert(places.contains(x));
        let i = choose|i: int| 0 <= i < places.len() && places[i] == x;
        assert(at[i] == k);
    }
    assert forall|i: int|
        #![trigger at[i]]
        #![trigger v[i]]
        0 <= i < v.len() implies (Item::<'a, R> { row: &rows[at[i]] }).outcome() == Ok::<
        <<Item<'a, R> as Listed>::Out as View>::V,
        DbError,
    >(v[i]) by {
        assert(at[i] == from[places[i]]);
    }
    at
}

// ── What is shown ────────────────────────────────────────────────────────────

/// The text of a column, where it is not null.
pub open spec fn text_of(column: Option<String>) -> Option<Seq<char>> {
    match column {
        Some(t) => Some(t@),
        None => None,
    }
}

pub open spec fn shows_payee(row: PayeeRow, x: PayeeView) -> bool {
    &&& says(row.id, x.id)
    &&& says(row.name, x.name)
    &&& x.transfer_account_id == text_of(row.transfer_acct)
}

pub open spec fn shows_category(row: CategoryRow, x: CategoryView) -> bool {
    &&& says(row.id, x.id)
    &&& says(row.name, x.name)
    &&& x.is_income == !is_off(row.is_income)
    &&& x.hidden == !is_off(row.hidden)
}

pub open spec fn shows_group(row: CategoryGroupRow, x: CategoryGroupView) -> bool {
    &&& says(row.id, x.id)
    &&& says(row.name, x.name)
    &&& x.is_income == !is_off(row.is_income)
}

/// The document is the one that the column holds; null where it holds none.
pub open spec fn holds_document(column: Option<String>, x: JsonView) -> bool {
    &&& column is Some
    &&& match document(column->0@) {
        Ok(d) => x == d,
        Err(_) => x == JsonView::Null,
    }
}

pub open spec fn shows_rule(row: RuleRow, x: RuleView) -> bool {
    &&& says(row.id, x.id)
    &&& x.stage == text_of(row.stage)
    &&& x.conditions_op == shown_as(row.conditions_op, "and"@)
    &&& holds_document(row.conditions, x.conditions)
    &&& holds_document(row.actions, x.actions)
}

/// By the order of the rows, then by name.
pub open spec fn is_ranked(
    order_a: Option<i64>,
    name_a: Seq<char>,
    order_b: Option<i64>,
    name_b: Seq<char>,
) -> bool {
    ||| place(order_a) < place(order_b)
    ||| place(order_a) == place(order_b) && !text_before(name_b, name_a)
}

// ── Laws ─────────────────────────────────────────────────────────────────────

/// The payees that are listed are those rows of the table that are not deleted,
/// each once, in the order of their names.
pub proof fn law_payees_are_those_of_the_table(b: &Budget, v: Seq<PayeeView>) -> (at: Seq<int>)
    requires
        answer_of(b, Query::Payees) == Ok::<FoundView, ToolErrorView>(FoundView::Payees(v)),
    ensures
        at.len() == v.len(),
        are_places(b.payees@, |row: PayeeRow| is_live(row.tombstone), at),
        forall|i: int|
            #![trigger at[i]]
            #![trigger v[i]]
            0 <= i < v.len() ==> shows_payee(b.payees@[at[i]], v[i]),
        forall|i: int, j: int|
            #![trigger v[i], v[j]]
            0 <= i < j < v.len() ==> !text_before(v[j].name, v[i].name),
{
    let f = |row: PayeeRow| picked_row(&NotDeleted, &row);
    let at = lemma_table_listed(b.payees@, f, |row: PayeeRow| is_live(row.tombstone), v);
    assert forall|i: int, j: int|
        #![trigger v[i], v[j]]
        0 <= i < j < v.len() implies !text_before(v[j].name, v[i].name) by {
        assert(at[i] != at[j]);
        assert(shows_payee(b.payees@[at[i]], v[i]) && shows_payee(b.payees@[at[j]], v[j]));
    }
    at
}

/// The rules that are listed are those rows of the table that are not deleted, each
/// once, in the order of their ids.
pub proof fn law_rules_are_those_of_the_table(b: &Budget, v: Seq<RuleView>) -> (at: Seq<int>)
    requires
        answer_of(b, Query::Rules) == Ok::<FoundView, ToolErrorView>(FoundView::Rules(v)),
    ensures
        at.len() == v.len(),
        are_places(b.rules@, |row: RuleRow| is_live(row.tombstone), at),
        forall|i: int|
            #![trigger at[i]]
            #![trigger v[i]]
            0 <= i < v.len() ==> shows_rule(b.rules@[at[i]], v[i]),
        forall|i: int, j: int|
            #![trigger v[i], v[j]]
            0 <= i < j < v.len() ==> !text_before(v[j].id, v[i].id),
{
    let f = |row: RuleRow| picked_row(&NotDeleted, &row);
    let at = lemma_table_listed(b.rules@, f, |row: RuleRow| is_live(row.tombstone), v);
    assert forall|i: int, j: int|
        #![trigger v[i], v[j]]
        0 <= i < j < v.len() implies !text_before(v[j].id, v[i].id) by {
        assert(at[i] != at[j]);
        assert(shows_rule(b.rules@[at[i]], v[i]) && shows_rule(b.rules@[at[j]], v[j]));
    }
    at
}

proof fn lemma_filled(b: &Budget, heads: Seq<CategoryGroupView>, v: Seq<CategoryGroupView>)
    requires
        filled(b, heads) == Ok::<Seq<CategoryGroupView>, DbError>(v),
    ensures
        v.len() == heads.len(),
        forall|i: int|
            #![trigger v[i]]
            #![trigger heads[i]]
            0 <= i < v.len() ==> v[i].id == heads[i].id && v[i].name == heads[i].name
                && v[i].is_income == heads[i].is_income && categories_in(b, heads[i].id) == Ok::<
                Seq<CategoryView>,
                DbError,
            >(v[i].categories),
    decreases heads.len(),
{
    if heads.len() > 0 {
        let before = heads.drop_last();
        assert(v.drop_last() =~= filled(b, before)->Ok_0);
        lemma_filled(b, before, v.drop_last());
        assert forall|i: int|
            #![trigger v[i]]
            #![trigger heads[i]]
            0 <= i < v.len() implies v[i].id == heads[i].id && v[i].name == heads[i].name
            && v[i].is_income == heads[i].is_income && categories_in(b, heads[i].id) == Ok::<
            Seq<CategoryView>,
            DbError,
        >(v[i].categories) by {
            if i < before.len() {
                assert(before[i] == heads[i]);
                assert(v.drop_last()[i] == v[i]);
            }
        }
    }
}

/// The groups that are listed are those rows of the table that are not deleted,
/// each once, in their order and then that of their names.
pub proof fn law_groups_are_those_of_the_table(b: &Budget, v: Seq<CategoryGroupView>) -> (at: Seq<
    int,
>)
    requires
        answer_of(b, Query::Categories) == Ok::<FoundView, ToolErrorView>(FoundView::Categories(v)),
    ensures
        at.len() == v.len(),
        are_places(b.category_groups@, |row: CategoryGroupRow| is_live(row.tombstone), at),
        forall|i: int|
            #![trigger at[i]]
            #![trigger v[i]]
            0 <= i < v.len() ==> shows_group(b.category_groups@[at[i]], v[i]),
        forall|i: int, j: int|
            #![trigger at[i], at[j]]
            0 <= i < j < v.len() ==> is_ranked(
                b.category_groups@[at[i]].sort_order,
                v[i].name,
                b.category_groups@[at[j]].sort_order,
                v[j].name,
            ),
{
    let f = |row: CategoryGroupRow| picked_row(&NotDeleted, &row);
    let heads = listing(picked(b.category_groups@, &NotDeleted), -1)->Ok_0;
    lemma_filled(b, heads, v);
    let at = lemma_table_listed(
        b.category_groups@,
        f,
        |row: CategoryGroupRow| is_live(row.tombstone),
        heads,
    );
    assert forall|i: int|
        #![trigger at[i]]
        #![trigger v[i]]
        0 <= i < v.len() implies shows_group(b.category_groups@[at[i]], v[i]) by {
        assert(v[i].id == heads[i].id);
    }
    assert forall|i: int, j: int|
        #![trigger at[i], at[j]]
        0 <= i < j < v.len() implies is_ranked(
        b.category_groups@[at[i]].sort_order,
        v[i].name,
        b.category_groups@[at[j]].sort_order,
        v[j].name,
    ) by {
        assert(v[i].id == heads[i].id && v[j].id == heads[j].id);
    }
    at
}

/// Each group lists those categories that are not deleted and refer to it, each
/// once, in their order and then that of their names.
pub proof fn law_groups_hold_their_categories(
    b: &Budget,
    v: Seq<CategoryGroupView>,
    g: int,
) -> (at: Seq<int>)
    requires
        answer_of(b, Query::Categories) == Ok::<FoundView, ToolErrorView>(FoundView::Categories(v)),
        0 <= g < v.len(),
    ensures
        at.len() == v[g].categories.len(),
        are_places(
            b.categories@,
            |row: CategoryRow| is_live(row.tombstone) && says(row.cat_group, v[g].id),
            at,
        ),
        forall|i: int|
            #![trigger at[i]]
            #![trigger v[g].categories[i]]
            0 <= i < at.len() ==> shows_category(b.categories@[at[i]], v[g].categories[i]),
        forall|i: int, j: int|
            #![trigger at[i], at[j]]
            0 <= i < j < at.len() ==> is_ranked(
                b.categories@[at[i]].sort_order,
                v[g].categories[i].name,
                b.categories@[at[j]].sort_order,
                v[g].categories[j].name,
            ),
{
    let heads = listing(picked(b.category_groups@, &NotDeleted), -1)->Ok_0;
    lemma_filled(b, heads, v);
    let id = v[g].id;
    assert(heads[g].id == id);
    let f = |c: CategoryRow|
        if is_zero(c.tombstone) && string_view(c.cat_group) == Some(id) {
            seq![Item { row: &c }]
        } else {
            Seq::empty()
        };
    lemma_table_listed(
        b.categories@,
        f,
        |row: CategoryRow| is_live(row.tombstone) && says(row.cat_group, v[g].id),
        v[g].categories,
    )
}

// ── Success ──────────────────────────────────────────────────────────────────

proof fn lemma_rows_succeed<'a, R>(
    rows: Seq<R>,
    f: spec_fn(R) -> Seq<Item<'a, R>>,
    wanted: spec_fn(R) -> bool,
) where Item<'a, R>: Listed
    requires
        forall|r: R|
            #![trigger f(r)]
            f(r) == if wanted(r) {
                seq![Item { row: &r }]
            } else {
                Seq::empty()
            },
        forall|k: int|
            0 <= k < rows.len() && wanted(#[trigger] rows[k]) ==> (Item::<'a, R> {
                row: &rows[k],
            }).outcome() is Ok,
    ensures
        listing(gathered(rows, f), -1) is Ok,
{
    let all = gathered(rows, f);
    match listing(all, -1) {
        Ok(_) => {},
        Err(e) => {
            lemma_listing_error(all, -1, e);
            let i = choose|i: int|
                0 <= i < all.len() && (#[trigger] all[i]).outcome() == Err::<
                    <<Item<'a, R> as Listed>::Out as View>::V,
                    DbError,
                >(e);
            let at = lemma_places(rows, f, wanted);
            assert(*all[i].row == rows[at[i]]);
            assert(all[i] == (Item::<'a, R> { row: &rows[at[i]] }));
            assert(wanted(rows[at[i]]));
        },
    }
}

/// The payees are listed unless one that is not deleted lacks an id or a name.
pub proof fn law_payees_fail_only_on_nulls(b: &Budget)
    requires
        forall|k: int|
            0 <= k < b.payees@.len() && is_live((#[trigger] b.payees@[k]).tombstone)
                ==> b.payees@[k].id is Some && b.payees@[k].name is Some,
    ensures
        answer_of(b, Query::Payees) is Ok,
{
    let f = |row: PayeeRow| picked_row(&NotDeleted, &row);
    lemma_rows_succeed(b.payees@, f, |row: PayeeRow| is_live(row.tombstone));
}

/// The rules are listed unless one that is not deleted lacks an id, conditions or
/// actions.
pub proof fn law_rules_fail_only_on_nulls(b: &Budget)
    requires
        forall|k: int|
            0 <= k < b.rules@.len() && is_live((#[trigger] b.rules@[k]).tombstone)
                ==> b.rules@[k].id is Some && b.rules@[k].conditions is Some
                && b.rules@[k].actions is Some,
    ensures
        answer_of(b, Query::Rules) is Ok,
{
    let f = |row: RuleRow| picked_row(&NotDeleted, &row);
    lemma_rows_succeed(b.rules@, f, |row: RuleRow| is_live(row.tombstone));
}

proof fn lemma_filled_succeeds(b: &Budget, heads: Seq<CategoryGroupView>)
    requires
        forall|i: int| 0 <= i < heads.len() ==> categories_in(b, (#[trigger] heads[i]).id) is Ok,
    ensures
        filled(b, heads) is Ok,
    decreases heads.len(),
{
    if heads.len() > 0 {
        let before = heads.drop_last();
        assert forall|i: int| 0 <= i < before.len() implies categories_in(
            b,
            (#[trigger] before[i]).id,
        ) is Ok by {
            assert(before[i] == heads[i]);
        }
        lemma_filled_succeeds(b, before);
        assert(categories_in(b, heads[heads.len() - 1].id) is Ok);
    }
}

/// The categories are listed unless a group or a category that is not deleted lacks
/// an id or a name.
pub proof fn law_categories_fail_only_on_nulls(b: &Budget)
    requires
        forall|k: int|
            0 <= k < b.category_groups@.len() && is_live(
                (#[trigger] b.category_groups@[k]).tombstone,
            ) ==> b.category_groups@[k].id is Some && b.category_groups@[k].name is Some,
        forall|k: int|
            0 <= k < b.categories@.len() && is_live((#[trigger] b.categories@[k]).tombstone)
                ==> b.categories@[k].id is Some && b.categories@[k].name is Some,
    ensures
        answer_of(b, Query::Categories) is Ok,
{
    let f = |row: CategoryGroupRow| picked_row(&NotDeleted, &row);
    lemma_rows_succeed(
        b.category_groups@,
        f,
        |row: CategoryGroupRow| is_live(row.tombstone),
    );
    let heads = listing(picked(b.category_groups@, &NotDeleted), -1)->Ok_0;
    assert forall|i: int| 0 <= i < heads.len() implies categories_in(
        b,
        (#[trigger] heads[i]).id,
    ) is Ok by {
        let id = heads[i].id;
        let g = |c: CategoryRow|
            if is_zero(c.tombstone) && string_view(c.cat_group) == Some(id) {
                seq![Item { row: &c }]
            } else {
                Seq::empty()
            };
        lemma_rows_succeed(
            b.categories@,
            g,
            |row: CategoryRow| is_live(row.tombstone) && says(row.cat_group, id),
        );
    }
    lemma_filled_succeeds(b, heads);
}

} // verus!
