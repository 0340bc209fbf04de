//! Trust score engine and pending-review registry.
pub mod contract;
pub mod error;
pub mod execute;
pub mod helpers;
pub mod msg;
pub mod query;
pub mod state;
pub mod theorems;
