//! Queries over the tables of a budget file.
//!
//! The whole of a split transaction is a parent row and its parts are child
//! rows. What counts money by account or by payee reads the parents and skips
//! the children; what counts it by category reads the children and skips the
//! parents.

pub mod accounts;
pub mod budgets;
pub mod catalog;
pub mod history;
pub mod laws;
pub mod lines;
pub mod months;
pub mod spending;
pub mod sums;
pub mod transactions;

pub use crate::db::accounts::{list_accounts, net_worth};
pub use crate::db::budgets::get_budget_month;
pub use crate::db::catalog::{get_rules, list_categories, list_payees};
pub use crate::db::months::{balance_history, monthly_summary};
pub use crate::db::spending::{spending_by_category, spending_by_payee};
pub use crate::db::transactions::{
    get_transactions, transactions_by_category_regex, uncategorized_transactions,
};
