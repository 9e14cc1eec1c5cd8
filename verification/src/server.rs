//! The tools that the server offers, and where it gets the budget from.

pub mod errors;
pub mod laws;
pub mod loading;
pub mod questions;
pub mod reads;
pub mod replies;
pub mod transport;
pub mod writes;

pub use crate::server::errors::{budget_api_error, ToolError};
pub use crate::server::loading::{
    ActualServer, BudgetSource, Header, LoadStep, LoginReply, Settings, Stored,
};
pub use crate::server::reads::{Found, Query};
pub use crate::server::transport::{bind_address, origin_policy};
pub use crate::server::writes::{finish, missing_id, Finished, Shape, ToolCall};
