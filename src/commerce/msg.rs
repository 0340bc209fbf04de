use vstd::prelude::*;

verus! {

/// An outbound instruction to the settlement token: move `amount` of the
/// token at `token` from the ledger to `recipient`.
#[derive(Debug, Clone, PartialEq, Eq)]
pub struct TransferMsg {
    pub token: String,
    pub recipient: String,
    pub amount: u128,
}

/// An outbound instruction to the trust registry at `trust_contract`:
/// open a pending review of `peer`, to be written by the named party, for
/// the given order.
#[derive(Debug, Clone, PartialEq, Eq)]
pub struct ReviewRequestMsg {
    pub trust_contract: String,
    pub peer: String,
    pub reviewer: String,
    pub order_id: u64,
}

/// The read-only questions the catalog and ledger answer.
#[derive(Debug, Clone, PartialEq, Eq)]
pub enum QueryMsg {
    /// The site's configuration.
    Config,
    /// The list of administrators.
    AdminList,
    /// Whether `sender` may run privileged operations.
    CanExecute { sender: String },
    /// The surplus that may be withdrawn.
    WithdrawableBalance,
    /// The balance locked up in live orders.
    LockedBalance,
    /// The site's marketing data.
    Marketing,
    /// All orders.
    Orders,
    Order { id: u64 },
    OrderCost { id: u64 },
    /// All listings.
    Listings,
    Listing { id: u64 },
}

} // verus!
