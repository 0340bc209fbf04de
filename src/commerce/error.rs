use vstd::prelude::*;

verus! {

/// Why a payment was not accepted.
#[derive(Debug, Clone, PartialEq, Eq)]
pub enum PaymentError {
    /// The amount paid is not what the order costs.
    NoFunds,
    /// The payment (or a listed cost) is not in the settlement token, whose
    /// address is carried here.
    MissingDenom(String),
}

/// What kind of record a `NotFound` error refers to.
#[derive(Debug, PartialEq, Eq, Clone, Copy, Structural)]
pub enum RecordKind {
    Listing,
    Order,
}

/// Errors of the catalog and the order ledger.
#[derive(Debug, Clone, PartialEq, Eq)]
pub enum ContractError {
    /// A referenced record does not exist.
    NotFound { kind: RecordKind },
    /// The caller lacks the role or relationship the operation needs.
    Unauthorized,
    /// An order refers to a listing or a listing option that does not exist.
    InvalidOrder,
    /// A listing must carry at least one image.
    NotEnoughImages,
    /// A live order still refers to the listing.
    ActiveOrder,
    PaymentError(PaymentError),
    /// A domain rule was broken (an order status may not move backwards).
    CustomError { val: String },
    /// An amount left the range of 128-bit unsigned arithmetic; the call aborts.
    Overflow,
}

} // verus!
