//! What the answers of the tools say of the tables.
//!
//! The laws speak of the columns of the rows and of what is shown, for every budget
//! and every question.

pub mod accounts;
pub mod balances;
pub mod budgets;
pub mod catalog;
pub mod lists;
pub mod once;
pub mod rows;
pub mod spending;
pub mod success;
pub mod transactions;
