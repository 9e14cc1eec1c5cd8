//! The Liberado Budget REST API.
//!
//! Writes and live reads go through it, so that they reach the running server.
//! Each call is a chain of steps; see `steps`.

pub mod arguments;
pub mod bulk;
pub mod calls;
pub mod documents;
pub mod laws;
pub mod names;
pub mod replies;
pub mod requests;
pub mod steps;

pub use crate::budget_api::arguments::{
    encode_query, parse_import_format, parse_inbox_filename, parse_loan_strategy,
};
pub use crate::budget_api::bulk::{BulkPending, BulkStep};
pub use crate::budget_api::calls::BudgetApi;
pub use crate::budget_api::documents::{
    find_equivalent_payee_rule, parse_allocation_items, payee_rule_body, payees_for_ids,
    resolve_account_id, resolve_category_id, resolve_payee_id,
};
pub use crate::budget_api::steps::{Answer, Method, Payload, Pending, Request, Step};
