use vstd::prelude::*;

verus! {

/// The read-only questions the trust registry answers.
#[derive(Debug, Clone, PartialEq, Eq)]
pub enum QueryMsg {
    /// The registry's configuration.
    Config,
    /// The trust record of an address.
    TrustInfo { address: String },
    /// What an address stakes at the staking service.
    StakeAmount { address: String },
    /// All scored addresses.
    Accounts,
    /// The live pending review of a peer.
    PendingReview { peer: String },
    /// All live pending reviews that a given party is to write.
    PendingReviewsByReviewer { reviewer: String },
}

} // verus!
