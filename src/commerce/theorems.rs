use vstd::prelude::*;

use crate::commerce::error::{ContractError, PaymentError, RecordKind};
use crate::commerce::execute::{
    cancel_order_result, create_order_result, listing_change_check, order_removed,
};
use crate::commerce::msg::TransferMsg;
use crate::commerce::order::{OrderItem, OrderStatus};
use crate::commerce::state::{
    escrow_step, find_listing, find_order, CommerceState,
};
use crate::commerce::util::{eval_cost_spec, listing_in_use, must_pay_spec, Balance};

verus! {

/// Escrow solvency: if the held settlement balance covered the locked
/// balance before a ledger operation, the balance held after it (what was
/// held, plus what the operation received, less what it sent) covers the
/// locked balance after it. Every mutating operation ensures `escrow_step`
/// for what it received and sent; a withdrawal sends only the surplus.
pub proof fn lemma_escrow_solvency(
    pre: CommerceState,
    post: CommerceState,
    held: int,
    received: int,
    sent: int,
)
    requires
        pre.locked() <= held,
        escrow_step(pre, post, received, sent),
    ensures
        post.locked() <= held + received - sent,
{
}

/// An order is created exactly when the payment in the settlement token
/// equals what the items cost; any other amount fails with a payment error.
pub proof fn lemma_payment_must_equal_cost(
    pre: CommerceState,
    items: Seq<OrderItem>,
    balance: Balance,
    paid: u128,
    cost: u128,
)
    requires
        must_pay_spec(pre.config.denom, balance) == Ok::<u128, PaymentError>(paid),
        eval_cost_spec(pre.listings@, items) == Ok::<u128, ContractError>(cost),
    ensures
        paid == cost ==> create_order_result(pre, items, balance) is Ok,
        paid != cost ==> create_order_result(pre, items, balance) == Err::<u64, ContractError>(
            ContractError::PaymentError(PaymentError::NoFunds),
        ),
{
}

/// A cancellation succeeds only for the buyer of an order that is still
/// `Received`, and once it has succeeded, cancelling the same id again fails.
pub proof fn lemma_cancel_at_most_once(
    pre: CommerceState,
    post: CommerceState,
    sender: Seq<char>,
    again: Seq<char>,
    id: u64,
)
    requires
        pre.wf(),
        cancel_order_result(pre, sender, id) is Ok,
        order_removed(pre, post, id),
    ensures
        find_order(pre.orders@, id) matches Some(o) && o.buyer@ == sender && o.status
            == OrderStatus::Received,
        cancel_order_result(post, again, id) == Err::<TransferMsg, ContractError>(
            ContractError::NotFound { kind: RecordKind::Order },
        ),
{
    let i = choose|i: int|
        0 <= i < pre.orders@.len() && pre.orders@[i].id == id && post.orders@ == pre.orders@.remove(i)
            && post == (CommerceState { orders: post.orders, ..pre });
    assert forall|k: int| 0 <= k < post.orders@.len() implies post.orders@[k].id != id by {
        let k1 = if k < i { k } else { k + 1 };
        assert(post.orders@[k] == pre.orders@[k1]);
        assert(k1 != i);
    }
}

/// An admin's update or deletion of an existing listing fails with
/// `ActiveOrder` exactly when a live order refers to the listing.
pub proof fn lemma_active_order_blocks_listing_change(pre: CommerceState, sender: Seq<char>, id: u64)
    requires
        pre.admin_list.has_admin(sender),
        find_listing(pre.listings@, id) is Some,
    ensures
        listing_in_use(pre.orders@, id) ==> listing_change_check(pre, sender, id) == Err::<
            (),
            ContractError,
        >(ContractError::ActiveOrder),
        !listing_in_use(pre.orders@, id) ==> listing_change_check(pre, sender, id) is Ok,
{
}

} // verus!
