//! Categories, payees and rules.

use crate::json::{document, parse_json, Json, JsonView};
use crate::models::{
    Category, CategoryGroup, CategoryGroupView, CategoryView, Payee, PayeeView, Rule, RuleView,
};
use crate::query::{
    gathered, lemma_gathered_alike, list_rows, listing, out_views, pick_rows, picked, picked_row,
    result_view, Item, Listed, Pick,
};
use crate::sql::{
    ascending, equal_text, flag, is_flag, is_zero, rank, string_or, zero, DbError, SortKey,
    SortKeyView,
};
use crate::tables::{Budget, CategoryGroupRow, CategoryRow, PayeeRow, RuleRow};
use crate::text::{as_text, copy_optional, string_view, text_or};
use vstd::prelude::*;
use vstd::string::*;

verus! {

/// The rows that are not deleted.
pub struct NotDeleted;

impl Pick<CategoryGroupRow> for NotDeleted {
    open spec fn picks(&self, row: &CategoryGroupRow) -> bool {
        is_zero(row.tombstone)
    }

    fn is_pick(&self, row: &CategoryGroupRow) -> (r: bool) {
        zero(&row.tombstone)
    }
}

impl Pick<PayeeRow> for NotDeleted {
    open spec fn picks(&self, row: &PayeeRow) -> bool {
        is_zero(row.tombstone)
    }

    fn is_pick(&self, row: &PayeeRow) -> (r: bool) {
        zero(&row.tombstone)
    }
}

impl Pick<RuleRow> for NotDeleted {
    open spec fn picks(&self, row: &RuleRow) -> bool {
        is_zero(row.tombstone)
    }

    fn is_pick(&self, row: &RuleRow) -> (r: bool) {
        zero(&row.tombstone)
    }
}

/// The categories of a group that are not deleted.
pub struct InGroup<'f> {
    pub id: &'f str,
}

impl<'f> Pick<CategoryRow> for InGroup<'f> {
    open spec fn picks(&self, row: &CategoryRow) -> bool {
        is_zero(row.tombstone) && string_view(row.cat_group) == Some(self.id@)
    }

    fn is_pick(&self, row: &CategoryRow) -> (r: bool) {
        zero(&row.tombstone) && equal_text(as_text(&row.cat_group), Some(self.id))
    }
}

impl<'a> Listed for Item<'a, CategoryGroupRow> {
    type Out = CategoryGroup;

    open spec fn order_key(&self) -> SortKeyView {
        SortKeyView {
            first: ascending(self.row.sort_order),
            second: 0,
            text: string_view(self.row.name),
        }
    }

    /// A group whose categories are still to come.
    open spec fn outcome(&self) -> Result<CategoryGroupView, DbError> {
        match (self.row.id, self.row.name) {
            (None, _) => Err(DbError::NullColumn(0)),
            (Some(_), None) => Err(DbError::NullColumn(1)),
            (Some(id), Some(name)) => Ok(
                CategoryGroupView {
                    id: id@,
                    name: name@,
                    is_income: flag(self.row.is_income),
                    categories: Seq::empty(),
                },
            ),
        }
    }

    fn make_key(&self) -> (k: SortKey) {
        SortKey {
            first: rank(&self.row.sort_order),
            second: 0,
            text: copy_optional(&self.row.name),
        }
    }

    fn show(&self) -> (r: Result<CategoryGroup, DbError>) {
        let row = self.row;
        match (&row.id, &row.name) {
            (None, _) => Err(DbError::NullColumn(0)),
            (Some(_), None) => Err(DbError::NullColumn(1)),
            (Some(id), Some(name)) => {
                let categories: Vec<Category> = Vec::new();
                assert(categories@.map_values(|x: Category| x@) =~= Seq::empty());
                let group = CategoryGroup {
                    id: id.clone(),
                    name: name.clone(),
                    is_income: is_flag(&row.is_income),
                    categories,
                };
                assert(group@.categories =~= Seq::empty());
                Ok(group)
            },
        }
    }
}

impl<'a> Listed for Item<'a, CategoryRow> {
    type Out = Category;

    open spec fn order_key(&self) -> SortKeyView {
        SortKeyView {
            first: ascending(self.row.sort_order),
            second: 0,
            text: string_view(self.row.name),
        }
    }

    open spec fn outcome(&self) -> Result<CategoryView, DbError> {
        match (self.row.id, self.row.name) {
            (None, _) => Err(DbError::NullColumn(0)),
            (Some(_), None) => Err(DbError::NullColumn(1)),
            (Some(id), Some(name)) => Ok(
                CategoryView {
                    id: id@,
                    name: name@,
                    is_income: flag(self.row.is_income),
                    hidden: flag(self.row.hidden),
                },
            ),
        }
    }

    fn make_key(&self) -> (k: SortKey) {
        SortKey {
            first: rank(&self.row.sort_order),
            second: 0,
            text: copy_optional(&self.row.name),
        }
    }

    fn show(&self) -> (r: Result<Category, DbError>) {
        let row = self.row;
        match (&row.id, &row.name) {
            (None, _) => Err(DbError::NullColumn(0)),
            (Some(_), None) => Err(DbError::NullColumn(1)),
            (Some(id), Some(name)) => {
                let category = Category {
                    id: id.clone(),
                    name: name.clone(),
                    is_income: is_flag(&row.is_income),
                    hidden: is_flag(&row.hidden),
                };
                assert(category@.hidden == flag(row.hidden));
                Ok(category)
            },
        }
    }
}

/// The categories of the group with this id.
pub open spec fn categories_in(b: &Budget, id: Seq<char>) -> Result<Seq<CategoryView>, DbError> {
    listing(
        gathered(
            b.categories@,
            |c: CategoryRow|
                if is_zero(c.tombstone) && string_view(c.cat_group) == Some(id) {
                    seq![Item { row: &c }]
                } else {
                    Seq::empty()
                },
        ),
        -1,
    )
}

fn list_categories_in(b: &Budget, id: &str) -> (r: Result<Vec<Category>, DbError>)
    ensures
        result_view(r) == categories_in(b, id@),
{
    let p = InGroup { id };
    proof {
        lemma_gathered_alike(
            b.categories@,
            |c: CategoryRow| picked_row(&p, &c),
            |c: CategoryRow|
                if is_zero(c.tombstone) && string_view(c.cat_group) == Some(id@) {
                    seq![Item { row: &c }]
                } else {
                    Seq::empty()
                },
        );
    }
    list_rows(&pick_rows(&b.categories, &p), -1)
}

/// Groups that got their categories, or the first error on the way.
pub open spec fn filled(b: &Budget, heads: Seq<CategoryGroupView>) -> Result<
    Seq<CategoryGroupView>,
    DbError,
>
    decreases heads.len(),
{
    if heads.len() == 0 {
        Ok(Seq::empty())
    } else {
        match filled(b, heads.drop_last()) {
            Ok(done) => match categories_in(b, heads.last().id) {
                Ok(categories) => Ok(
                    done.push(
                        CategoryGroupView {
                            id: heads.last().id,
                            name: heads.last().name,
                            is_income: heads.last().is_income,
                            categories,
                        },
                    ),
                ),
                Err(e) => Err(e),
            },
            Err(e) => Err(e),
        }
    }
}

proof fn lemma_filled_error(b: &Budget, heads: Seq<CategoryGroupView>, k: int, e: DbError)
    requires
        0 <= k <= heads.len(),
        filled(b, heads.take(k)) == Err::<Seq<CategoryGroupView>, DbError>(e),
    ensures
        filled(b, heads) == Err::<Seq<CategoryGroupView>, DbError>(e),
    decreases heads.len() - k,
{
    if k == heads.len() {
        assert(heads.take(k) =~= heads);
    } else {
        assert(heads.take(k + 1).drop_last() =~= heads.take(k));
        lemma_filled_error(b, heads, k + 1, e);
    }
}

/// The category groups that are not deleted, each with its categories.
pub open spec fn category_tree(b: &Budget) -> Result<Seq<CategoryGroupView>, DbError> {
    match listing(picked(b.category_groups@, &NotDeleted), -1) {
        Ok(heads) => filled(b, heads),
        Err(e) => Err(e),
    }
}

pub fn list_categories(budget: &Budget) -> (r: Result<Vec<CategoryGroup>, DbError>)
    ensures
        result_view(r) == category_tree(budget),
{
    let heads = match list_rows(&pick_rows(&budget.category_groups, &NotDeleted), -1) {
        Ok(heads) => heads,
        Err(e) => return Err(e),
    };
    let ghost views = out_views(heads@);
    let mut out: Vec<CategoryGroup> = Vec::new();
    let n: usize = heads.len();
    let mut i: usize = 0;
    assert(views.take(0) =~= Seq::<CategoryGroupView>::empty());
    assert(out_views(out@) =~= Seq::empty());
    while i < n
        invariant
            i <= n == heads@.len(),
            views == out_views(heads@),
            category_tree(budget) == filled(budget, views),
            filled(budget, views.take(i as int)) == Ok::<Seq<CategoryGroupView>, DbError>(
                out_views(out@),
            ),
        decreases n - i,
    {
        let head = &heads[i];
        assert(views.take(i + 1).drop_last() =~= views.take(i as int));
        assert(views.take(i + 1).last() == head@);
        match list_categories_in(budget, head.id.as_str()) {
            Ok(categories) => {
                let ghost was = out@;
                let group = CategoryGroup {
                    id: head.id.clone(),
                    name: head.name.clone(),
                    is_income: head.is_income,
                    categories,
                };
                out.push(group);
                assert(out_views(categories@) =~= categories@.map_values(|x: Category| x@));
                assert(out_views(out@) =~= out_views(was).push(group@));
            },
            Err(e) => {
                proof {
                    lemma_filled_error(budget, views, i + 1, e);
                }
                return Err(e);
            },
        }
        i = i + 1;
    }
    assert(views.take(n as int) =~= views);
    Ok(out)
}

impl<'a> Listed for Item<'a, PayeeRow> {
    type Out = Payee;

    open spec fn order_key(&self) -> SortKeyView {
        SortKeyView { first: 0, second: 0, text: string_view(self.row.name) }
    }

    open spec fn outcome(&self) -> Result<PayeeView, DbError> {
        match (self.row.id, self.row.name) {
            (None, _) => Err(DbError::NullColumn(0)),
            (Some(_), None) => Err(DbError::NullColumn(1)),
            (Some(id), Some(name)) => Ok(
                PayeeView {
                    id: id@,
                    name: name@,
                    transfer_account_id: string_view(self.row.transfer_acct),
                },
            ),
        }
    }

    fn make_key(&self) -> (k: SortKey) {
        SortKey { first: 0, second: 0, text: copy_optional(&self.row.name) }
    }

    fn show(&self) -> (r: Result<Payee, DbError>) {
        match (&self.row.id, &self.row.name) {
            (None, _) => Err(DbError::NullColumn(0)),
            (Some(_), None) => Err(DbError::NullColumn(1)),
            (Some(id), Some(name)) => Ok(
                Payee {
                    id: id.clone(),
                    name: name.clone(),
                    transfer_account_id: copy_optional(&self.row.transfer_acct),
                },
            ),
        }
    }
}

/// The payees that are not deleted, by name.
pub fn list_payees(budget: &Budget) -> (r: Result<Vec<Payee>, DbError>)
    ensures
        result_view(r) == listing(picked(budget.payees@, &NotDeleted), -1),
{
    list_rows(&pick_rows(&budget.payees, &NotDeleted), -1)
}

/// The document that a text holds; null where it holds none.
pub open spec fn document_or_null(parsed: Result<JsonView, Seq<char>>) -> JsonView {
    match parsed {
        Ok(v) => v,
        Err(_) => JsonView::Null,
    }
}

pub fn json_or_null(parsed: Result<Json, String>) -> (r: Json)
    ensures
        match parsed {
            Ok(v) => r@ == v@,
            Err(_) => r@ == JsonView::Null,
        },
{
    match parsed {
        Ok(v) => v,
        Err(_) => Json::Null,
    }
}

impl<'a> Listed for Item<'a, RuleRow> {
    type Out = Rule;

    open spec fn order_key(&self) -> SortKeyView {
        SortKeyView { first: 0, second: 0, text: string_view(self.row.id) }
    }

    open spec fn outcome(&self) -> Result<RuleView, DbError> {
        match (self.row.conditions, self.row.actions, self.row.id) {
            (None, _, _) => Err(DbError::NullColumn(3)),
            (Some(_), None, _) => Err(DbError::NullColumn(4)),
            (Some(_), Some(_), None) => Err(DbError::NullColumn(0)),
            (Some(conditions), Some(actions), Some(id)) => Ok(
                RuleView {
                    id: id@,
                    stage: string_view(self.row.stage),
                    conditions_op: text_or(string_view(self.row.conditions_op), "and"@),
                    conditions: document_or_null(document(conditions@)),
                    actions: document_or_null(document(actions@)),
                },
            ),
        }
    }

    fn make_key(&self) -> (k: SortKey) {
        SortKey { first: 0, second: 0, text: copy_optional(&self.row.id) }
    }

    fn show(&self) -> (r: Result<Rule, DbError>) {
        match (&self.row.conditions, &self.row.actions, &self.row.id) {
            (None, _, _) => Err(DbError::NullColumn(3)),
            (Some(_), None, _) => Err(DbError::NullColumn(4)),
            (Some(_), Some(_), None) => Err(DbError::NullColumn(0)),
            (Some(conditions), Some(actions), Some(id)) => Ok(
                Rule {
                    id: id.clone(),
                    stage: copy_optional(&self.row.stage),
                    conditions_op: string_or(&self.row.conditions_op, "and"),
                    conditions: json_or_null(parse_json(conditions)),
                    actions: json_or_null(parse_json(actions)),
                },
            ),
        }
    }
}

/// The rules that are not deleted, by id, their conditions and actions read out
/// of the JSON texts that are kept.
pub fn get_rules(budget: &Budget) -> (r: Result<Vec<Rule>, DbError>)
    ensures
        result_view(r) == listing(picked(budget.rules@, &NotDeleted), -1),
{
    list_rows(&pick_rows(&budget.rules, &NotDeleted), -1)
}

} // verus!
