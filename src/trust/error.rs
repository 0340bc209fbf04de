use vstd::prelude::*;

verus! {

/// What kind of record a `NotFound` error refers to.
#[derive(Debug, PartialEq, Eq, Clone, Copy, Structural)]
pub enum RecordKind {
    /// The peer has no account at the staking service, or stakes nothing.
    StakingAccount,
    /// The peer has no trust record yet.
    TrustAccount,
}

/// Errors of the trust registry.
#[derive(Debug, Clone, PartialEq, Eq)]
pub enum ContractError {
    NotFound { kind: RecordKind },
    /// The caller lacks the role the operation needs.
    Unauthorized,
    /// The caller is not a ledger instance of the expected code id.
    InvalidContract { expected_code_id: u64 },
    /// The peer already has a pending review that has not expired.
    AwaitingReview { reviewer: String },
}

} // verus!
