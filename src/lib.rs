//! Verified core of a two-party marketplace: a listing catalog and order
//! ledger that escrows payment in a settlement token, and a trust registry
//! that turns staking history and peer reviews into a bounded score.
pub mod commerce;
pub mod strings;
pub mod trust;
