use vstd::prelude::*;

use crate::commerce::listing::ListingOptionItem;

verus! {

/// A buyer's escrowed purchase of one or more listing items.
#[derive(Debug, Clone, PartialEq, Eq)]
pub struct Order {
    pub id: u64,
    pub buyer: String,
    pub items: Vec<OrderItem>,
    pub status: OrderStatus,
    pub tracking: Option<TrackingInfo>,
}

/// A quantity of one listing with the options the buyer selected.
#[derive(Debug, Clone, PartialEq, Eq)]
pub struct OrderItem {
    pub listing_id: u64,
    pub options: Vec<OrderOption>,
    pub amount: u64,
}

#[derive(Debug, Clone, PartialEq, Eq)]
pub struct OrderOption {
    pub option_id: u64,
    pub selected_option: ListingOptionItem,
}

/// Shipping state of an order; it only ever moves forward.
#[derive(Debug, PartialEq, Eq, Clone, Copy, Structural)]
pub enum OrderStatus {
    Received,
    Fulfilling,
    Shipped,
}

impl OrderStatus {
    /// The ordinal of the status: `Received < Fulfilling < Shipped`.
    pub open spec fn rank(&self) -> nat {
        match self {
            OrderStatus::Received => 0,
            OrderStatus::Fulfilling => 1,
            OrderStatus::Shipped => 2,
        }
    }

    pub fn index(&self) -> (r: u64)
        ensures
            r == self.rank(),
    {
        match self {
            OrderStatus::Received => 0,
            OrderStatus::Fulfilling => 1,
            OrderStatus::Shipped => 2,
        }
    }
}

#[derive(Debug, Clone, PartialEq, Eq)]
pub struct TrackingInfo {
    pub provider: String,
    pub url: String,
}

} // verus!
