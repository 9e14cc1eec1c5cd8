//! The tables of a budget file, as they are read.

use crate::sql::{equal_text, is_zero, not_set, unset, zero, Keyed};
use crate::text::{as_text, string_view};
use vstd::prelude::*;
use vstd::string::*;

verus! {

// ── Tables ───────────────────────────────────────────────────────────────────

// A sort order is kept as the rank of its value in the table.

pub struct AccountRow {
    pub id: Option<String>,
    pub name: Option<String>,
    pub account_type: Option<String>,
    pub offbudget: Option<i64>,
    pub closed: Option<i64>,
    pub tombstone: Option<i64>,
    pub sort_order: Option<i64>,
}

pub struct CategoryGroupRow {
    pub id: Option<String>,
    pub name: Option<String>,
    pub is_income: Option<i64>,
    pub tombstone: Option<i64>,
    pub sort_order: Option<i64>,
}

pub struct CategoryRow {
    pub id: Option<String>,
    pub name: Option<String>,
    pub cat_group: Option<String>,
    pub is_income: Option<i64>,
    pub hidden: Option<i64>,
    pub tombstone: Option<i64>,
    pub sort_order: Option<i64>,
}

pub struct PayeeRow {
    pub id: Option<String>,
    pub name: Option<String>,
    pub transfer_acct: Option<String>,
    pub tombstone: Option<i64>,
}

/// Where a payee was merged into another, its id leads to the survivor.
pub struct PayeeMappingRow {
    pub id: Option<String>,
    pub target_id: Option<String>,
}

/// A transaction. The whole of a split is its parent row; its parts are child
/// rows, which carry the categories.
pub struct TransactionRow {
    pub id: Option<String>,
    pub acct: Option<String>,
    pub date: Option<i64>,
    pub amount: Option<i64>,
    pub description: Option<String>,
    pub notes: Option<String>,
    pub category: Option<String>,
    pub cleared: Option<i64>,
    pub reconciled: Option<i64>,
    pub tombstone: Option<i64>,
    pub is_child: Option<i64>,
    pub is_parent: Option<i64>,
}

/// What a month (YYYYMM) allots to a category.
pub struct BudgetRow {
    pub month: Option<i64>,
    pub category: Option<String>,
    pub amount: Option<i64>,
}

pub struct RuleRow {
    pub id: Option<String>,
    pub stage: Option<String>,
    pub conditions_op: Option<String>,
    pub conditions: Option<String>,
    pub actions: Option<String>,
    pub tombstone: Option<i64>,
}

/// The tables of a budget file. Envelope budgets are kept in `zero_budgets`,
/// tracking budgets in `reflect_budgets`.
pub struct Budget {
    pub accounts: Vec<AccountRow>,
    pub category_groups: Vec<CategoryGroupRow>,
    pub categories: Vec<CategoryRow>,
    pub payees: Vec<PayeeRow>,
    pub payee_mapping: Vec<PayeeMappingRow>,
    pub transactions: Vec<TransactionRow>,
    pub zero_budgets: Vec<BudgetRow>,
    pub reflect_budgets: Vec<BudgetRow>,
    pub rules: Vec<RuleRow>,
}

impl Keyed for CategoryGroupRow {
    open spec fn key(&self) -> Option<Seq<char>> {
        string_view(self.id)
    }

    open spec fn present(&self) -> bool {
        is_zero(self.tombstone)
    }

    fn meets(&self, key: Option<&str>) -> (r: bool) {
        zero(&self.tombstone) && equal_text(key, as_text(&self.id))
    }
}

impl Keyed for CategoryRow {
    open spec fn key(&self) -> Option<Seq<char>> {
        string_view(self.id)
    }

    open spec fn present(&self) -> bool {
        is_zero(self.tombstone)
    }

    fn meets(&self, key: Option<&str>) -> (r: bool) {
        zero(&self.tombstone) && equal_text(key, as_text(&self.id))
    }
}

impl Keyed for PayeeRow {
    open spec fn key(&self) -> Option<Seq<char>> {
        string_view(self.id)
    }

    open spec fn present(&self) -> bool {
        is_zero(self.tombstone)
    }

    fn meets(&self, key: Option<&str>) -> (r: bool) {
        zero(&self.tombstone) && equal_text(key, as_text(&self.id))
    }
}

impl Keyed for PayeeMappingRow {
    open spec fn key(&self) -> Option<Seq<char>> {
        string_view(self.id)
    }

    open spec fn present(&self) -> bool {
        true
    }

    fn meets(&self, key: Option<&str>) -> (r: bool) {
        equal_text(key, as_text(&self.id))
    }
}

/// A transaction that is not deleted and no part of a split is known by its
/// account.
impl Keyed for TransactionRow {
    open spec fn key(&self) -> Option<Seq<char>> {
        string_view(self.acct)
    }

    open spec fn present(&self) -> bool {
        is_zero(self.tombstone) && unset(self.is_child)
    }

    fn meets(&self, key: Option<&str>) -> (r: bool) {
        zero(&self.tombstone) && not_set(&self.is_child) && equal_text(key, as_text(&self.acct))
    }
}

/// Accounts that are open and on budget.
impl Keyed for AccountRow {
    open spec fn key(&self) -> Option<Seq<char>> {
        string_view(self.id)
    }

    open spec fn present(&self) -> bool {
        is_zero(self.tombstone) && is_zero(self.closed) && is_zero(self.offbudget)
    }

    fn meets(&self, key: Option<&str>) -> (r: bool) {
        zero(&self.tombstone) && zero(&self.closed) && zero(&self.offbudget) && equal_text(
            key,
            as_text(&self.id),
        )
    }
}

} // verus!
