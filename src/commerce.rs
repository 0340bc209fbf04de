//! Listing catalog, cost evaluator and order ledger.
pub mod admins;
pub mod config;
pub mod contract;
pub mod error;
pub mod execute;
pub mod listing;
pub mod msg;
pub mod order;
pub mod query;
pub mod response;
pub mod state;
pub mod theorems;
pub mod util;
