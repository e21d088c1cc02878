//! Budgets, their audit trail, and the mutation workflow that keeps the two
//! in step. Money is held as a signed count of cents.

pub mod utils;
pub mod error;
pub mod budget;
pub mod record;
pub mod command;
pub mod account;
pub mod store;
pub mod history;
pub mod services;
