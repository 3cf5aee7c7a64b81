//! Bookkeeping core of a personal-finance backend: exact decimal money,
//! calendar dates, analytics over fetched transactions and budgets, request
//! validation, cache keys and response envelopes.
pub mod access;
pub mod account;
pub mod analytics;
pub mod budget;
pub mod budget_rules;
pub mod cache;
pub mod config;
pub mod date;
pub mod error;
pub mod expense_analytics;
pub mod filters;
pub mod grouping;
pub mod income_analytics;
pub mod money;
pub mod profile;
pub mod response;
pub mod sorting;
pub mod text;
pub mod transaction;
