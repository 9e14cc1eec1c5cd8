//! Rows of the tables, and which of them belong together.

use crate::db::lines::Line;
use crate::sql::{hits, left_join, meets_key, Keyed};
use crate::tables::{
    Budget, CategoryGroupRow, CategoryRow, PayeeMappingRow, PayeeRow, TransactionRow,
};
use crate::text::string_view;
use vstd::prelude::*;
use vstd::string::*;

verus! {

// ── Columns ──────────────────────────────────────────────────────────────────

/// The column holds this text.
pub open spec fn says(column: Option<String>, text: Seq<char>) -> bool {
    column is Some && column->0@ == text
}

/// Both columns hold the same text; a null refers to nothing.
pub open spec fn refers(a: Option<String>, b: Option<String>) -> bool {
    a is Some && b is Some && a->0@ == b->0@
}

/// The text of a column, or another where it is null.
pub open spec fn shown_as(column: Option<String>, other: Seq<char>) -> Seq<char> {
    match column {
        Some(t) => t@,
        None => other,
    }
}

/// A row that is not deleted.
pub open spec fn is_live(tombstone: Option<i64>) -> bool {
    tombstone == Some(0i64)
}

/// A flag that is not set.
pub open spec fn is_off(column: Option<i64>) -> bool {
    column is None || column->0 == 0
}

/// The column is known to be no less than the bound, where there is one.
pub open spec fn no_less(column: Option<i64>, bound: Option<i64>) -> bool {
    bound is Some ==> column is Some && bound->0 <= column->0
}

/// The column is known to be no more than the bound, where there is one.
pub open spec fn no_more(column: Option<i64>, bound: Option<i64>) -> bool {
    bound is Some ==> column is Some && column->0 <= bound->0
}

pub open spec fn number(column: Option<i64>) -> int {
    match column {
        Some(v) => v as int,
        None => 0,
    }
}

// ── Transactions ─────────────────────────────────────────────────────────────

/// A transaction that is not deleted and no part of a split: the whole of a
/// purchase.
pub open spec fn is_entire(t: TransactionRow) -> bool {
    is_live(t.tombstone) && is_off(t.is_child)
}

/// A transaction that is not deleted and not the whole of a split: what has a
/// category of its own.
pub open spec fn is_single(t: TransactionRow) -> bool {
    is_live(t.tombstone) && is_off(t.is_parent)
}

/// A transaction of the account that is asked for, or of any where none is.
pub open spec fn is_on(t: TransactionRow, account_id: Option<&str>) -> bool {
    account_id is Some ==> says(t.acct, account_id->0@)
}

/// The category of a transaction: a row that is not deleted and has its id, or
/// none where there is no such row.
pub open spec fn has_category(b: &Budget, t: TransactionRow, c: Option<&CategoryRow>) -> bool {
    match c {
        Some(c) => b.categories@.contains(*c) && is_live(c.tombstone) && refers(c.id, t.category),
        None => forall|c: CategoryRow| #[trigger]
            b.categories@.contains(c) && is_live(c.tombstone) ==> !refers(c.id, t.category),
    }
}

/// The group of a category, in the same way.
pub open spec fn has_group(
    b: &Budget,
    cat_group: Option<String>,
    g: Option<&CategoryGroupRow>,
) -> bool {
    match g {
        Some(g) => b.category_groups@.contains(*g) && is_live(g.tombstone) && refers(
            g.id,
            cat_group,
        ),
        None => forall|g: CategoryGroupRow| #[trigger]
            b.category_groups@.contains(g) && is_live(g.tombstone) ==> !refers(g.id, cat_group),
    }
}

/// The row that says which payee the one of a transaction was merged into.
pub open spec fn is_mapped(b: &Budget, t: TransactionRow, m: Option<PayeeMappingRow>) -> bool {
    match m {
        Some(m) => b.payee_mapping@.contains(m) && refers(m.id, t.description),
        None => forall|m: PayeeMappingRow| #[trigger]
            b.payee_mapping@.contains(m) ==> !refers(m.id, t.description),
    }
}

/// The id of the payee of a transaction that is mapped by `m`.
pub open spec fn payee_id(t: TransactionRow, m: Option<PayeeMappingRow>) -> Option<String> {
    if m is Some && m->0.target_id is Some {
        m->0.target_id
    } else {
        t.description
    }
}

pub open spec fn is_payee(b: &Budget, id: Option<String>, p: Option<&PayeeRow>) -> bool {
    match p {
        Some(p) => b.payees@.contains(*p) && is_live(p.tombstone) && refers(p.id, id),
        None => forall|p: PayeeRow| #[trigger]
            b.payees@.contains(p) && is_live(p.tombstone) ==> !refers(p.id, id),
    }
}

/// The payee of a transaction, once merged payees are resolved.
pub open spec fn leads_to_payee(b: &Budget, t: TransactionRow, p: Option<&PayeeRow>) -> bool {
    exists|m: Option<PayeeMappingRow>| #[trigger]
        is_mapped(b, t, m) && is_payee(b, payee_id(t, m), p)
}

/// A transaction of the table, with its payee and its category.
pub open spec fn is_line(b: &Budget, line: Line) -> bool {
    &&& b.transactions@.contains(*line.entry)
    &&& leads_to_payee(b, *line.entry, line.payee)
    &&& has_category(b, *line.entry, line.category)
}

// ── Joins ────────────────────────────────────────────────────────────────────

pub proof fn lemma_hits<R: Keyed>(rows: Seq<R>, key: Option<Seq<char>>, r: R)
    ensures
        hits(rows, key).contains(&r) <==> rows.contains(r) && meets_key(&r, key),
    decreases rows.len(),
{
    if rows.len() > 0 {
        let before = rows.drop_last();
        let last = rows.last();
        let (found, more) = (hits(before, key), hits(rows, key));
        lemma_hits(before, key, r);
        if more.contains(&r) {
            let i = choose|i: int| 0 <= i < more.len() && more[i] == &r;
            if i < found.len() {
                assert(found[i] == &r);
                let k = choose|k: int| 0 <= k < before.len() && before[k] == r;
                assert(rows[k] == r);
            } else {
                assert(rows[rows.len() - 1] == r);
            }
        }
        if rows.contains(r) && meets_key(&r, key) {
            let k = choose|k: int| 0 <= k < rows.len() && rows[k] == r;
            if k < before.len() {
                assert(before[k] == r);
                let i = choose|i: int| 0 <= i < found.len() && found[i] == &r;
                assert(more[i] == &r);
            } else {
                assert(more[more.len() - 1] == &r);
            }
        }
    }
}

/// The partners of a row are those that meet its key; where none does, there is
/// none.
pub proof fn lemma_left_join<'a, R: Keyed>(rows: Seq<R>, key: Option<Seq<char>>, x: Option<&'a R>)
    ensures
        left_join(rows, key).contains(x) <==> match x {
            Some(r) => rows.contains(*r) && meets_key(r, key),
            None => forall|r: R| #[trigger] rows.contains(r) ==> !meets_key(&r, key),
        },
{
    let found = hits::<'a, R>(rows, key);
    let joined = left_join::<'a, R>(rows, key);
    match x {
        Some(r) => {
            lemma_hits(rows, key, *r);
            if joined.contains(x) {
                let i = choose|i: int| 0 <= i < joined.len() && joined[i] == x;
                assert(found[i] == r);
            }
            if found.contains(r) {
                let i = choose|i: int| 0 <= i < found.len() && found[i] == r;
                assert(joined[i] == x);
            }
        },
        None => {
            if joined.contains(x) {
                assert(found.len() == 0);
                assert forall|r: R| #[trigger] rows.contains(r) implies !meets_key(&r, key) by {
                    lemma_hits(rows, key, r);
                }
            }
            if forall|r: R| #[trigger] rows.contains(r) ==> !meets_key(&r, key) {
                if found.len() > 0 {
                    let r = *found[0];
                    lemma_hits(rows, key, r);
                    assert(found.contains(&r));
                }
                assert(joined[0] == x);
            }
        },
    }
}

pub proof fn lemma_category_join<'a>(b: &'a Budget, t: TransactionRow, c: Option<&'a CategoryRow>)
    ensures
        left_join(b.categories@, string_view(t.category)).contains(c) <==> has_category(b, t, c),
{
    lemma_left_join(b.categories@, string_view(t.category), c);
    match c {
        Some(_) => {},
        None => {
            if has_category(b, t, c) {
                assert forall|r: CategoryRow| #[trigger] b.categories@.contains(r) implies !meets_key(
                    &r,
                    string_view(t.category),
                ) by {}
            } else {
                let r = choose|r: CategoryRow| #[trigger]
                    b.categories@.contains(r) && is_live(r.tombstone) && refers(r.id, t.category);
                assert(meets_key(&r, string_view(t.category)));
            }
        },
    }
}

pub proof fn lemma_group_join<'a>(
    b: &'a Budget,
    cat_group: Option<String>,
    g: Option<&'a CategoryGroupRow>,
)
    ensures
        left_join(b.category_groups@, string_view(cat_group)).contains(g) <==> has_group(
            b,
            cat_group,
            g,
        ),
{
    lemma_left_join(b.category_groups@, string_view(cat_group), g);
    match g {
        Some(_) => {},
        None => {
            if !has_group(b, cat_group, g) {
                let r = choose|r: CategoryGroupRow| #[trigger]
                    b.category_groups@.contains(r) && is_live(r.tombstone) && refers(
                        r.id,
                        cat_group,
                    );
                assert(meets_key(&r, string_view(cat_group)));
            }
        },
    }
}

pub proof fn lemma_mapping_join<'a>(
    b: &'a Budget,
    t: TransactionRow,
    m: Option<&'a PayeeMappingRow>,
)
    ensures
        left_join(b.payee_mapping@, string_view(t.description)).contains(m) <==> is_mapped(
            b,
            t,
            match m {
                Some(m) => Some(*m),
                None => None,
            },
        ),
{
    lemma_left_join(b.payee_mapping@, string_view(t.description), m);
    match m {
        Some(_) => {},
        None => {
            if !is_mapped(b, t, None) {
                let r = choose|r: PayeeMappingRow| #[trigger]
                    b.payee_mapping@.contains(r) && refers(r.id, t.description);
                assert(meets_key(&r, string_view(t.description)));
            }
        },
    }
}

pub proof fn lemma_payee_join<'a>(b: &'a Budget, id: Option<String>, p: Option<&'a PayeeRow>)
    ensures
        left_join(b.payees@, string_view(id)).contains(p) <==> is_payee(b, id, p),
{
    lemma_left_join(b.payees@, string_view(id), p);
    match p {
        Some(_) => {},
        None => {
            if !is_payee(b, id, p) {
                let r = choose|r: PayeeRow| #[trigger]
                    b.payees@.contains(r) && is_live(r.tombstone) && refers(r.id, id);
                assert(meets_key(&r, string_view(id)));
            }
        },
    }
}

} // verus!
