//! Budget data of Actual Budget, as tools for MCP clients.
//!
//! The tables of a budget file are read into `tables`, and `db` answers questions
//! over them. `actual` speaks to an Actual Budget server, `budget_api` to the
//! Liberado Budget REST API, and `server` ties them to the tools. None of it does
//! any input or output: each says what is to be done next, and goes on with what
//! came of it. `answers` holds what the answers of the tools say of the tables.

pub mod actual;
pub mod answers;
pub mod budget_api;
pub mod db;
pub mod json;
pub mod models;
pub mod pattern;
pub mod query;
pub mod server;
pub mod sql;
pub mod tables;
pub mod text;
