use vstd::prelude::*;

use crate::commerce::admins::AdminList;
use crate::commerce::config::{Config, Marketing};
use crate::commerce::error::{ContractError, PaymentError, RecordKind};
use crate::commerce::listing::{Attributes, Listing, ListingOption, TokenAmount};
use crate::commerce::msg::{ReviewRequestMsg, TransferMsg};
use crate::commerce::order::{Order, OrderItem, OrderStatus, TrackingInfo};
use crate::commerce::query::query_withdrawable_balance;
use crate::commerce::state::{
    find_listing_index, find_order, find_order_index, lemma_orders_agree, lemma_orders_cost_remove, lemma_orders_cost_update,
    lemma_push_listing, lemma_remove_listing, lemma_remove_order, lemma_update_listing,
    lemma_update_order, escrow_step, CommerceState,
};
use crate::commerce::util::{
    can_execute, eval_cost, eval_cost_spec, items_cost, lemma_items_cost_nonneg, must_pay, must_pay_spec,
    send_cw20_tokens, validate_empty_orders, validate_empty_orders_spec, validate_listing,
    validate_listing_spec, Balance,
};

verus! {

/// The order `id` was taken out of the order table, and nothing else changed.
pub open spec fn order_removed(pre: CommerceState, post: CommerceState, id: u64) -> bool {
    exists|i: int|
        0 <= i < pre.orders@.len() && pre.orders@[i].id == id && post.orders@ == pre.orders@.remove(i)
            && post == (CommerceState { orders: post.orders, ..pre })
}

/// Hands out the next listing id; ids start at 1 and are never reused.
pub fn next_listing_id(state: &mut CommerceState) -> (r: u64)
    requires
        old(state).listing_id_counter < u64::MAX,
    ensures
        r == old(state).listing_id_counter + 1,
        *final(state) == (CommerceState { listing_id_counter: r, ..*old(state) }),
{
    state.listing_id_counter = state.listing_id_counter + 1;
    state.listing_id_counter
}

/// Hands out the next order id; ids start at 1 and are never reused.
pub fn next_order_id(state: &mut CommerceState) -> (r: u64)
    requires
        old(state).order_id_counter < u64::MAX,
    ensures
        r == old(state).order_id_counter + 1,
        *final(state) == (CommerceState { order_id_counter: r, ..*old(state) }),
{
    state.order_id_counter = state.order_id_counter + 1;
    state.order_id_counter
}

/// Replaces the admin set; only an admin may do so.
pub fn execute_update_admins(state: &mut CommerceState, sender: &String, admins: Vec<String>) -> (r:
    Result<(), ContractError>)
    requires
        old(state).wf(),
    ensures
        final(state).wf(),
        escrow_step(*old(state), *final(state), 0, 0),
        final(state).locked() == old(state).locked(),
        old(state).admin_list.has_admin(sender@) ==> r is Ok && *final(state) == (CommerceState {
            admin_list: AdminList { admins },
            ..*old(state)
        }),
        !old(state).admin_list.has_admin(sender@) ==> r == Err::<(), ContractError>(
            ContractError::Unauthorized,
        ) && *final(state) == *old(state),
{
    if !can_execute(state, sender) {
        return Err(ContractError::Unauthorized);
    }
    state.admin_list = AdminList { admins };
    Ok(())
}

/// Replaces the configuration; only an admin may do so.
pub fn execute_update_config(
    state: &mut CommerceState,
    sender: &String,
    denom: String,
    withdrawal_address: String,
    trust_contract: String,
) -> (r: Result<(), ContractError>)
    requires
        old(state).wf(),
    ensures
        final(state).wf(),
        escrow_step(*old(state), *final(state), 0, 0),
        final(state).locked() == old(state).locked(),
        old(state).admin_list.has_admin(sender@) ==> r is Ok && *final(state) == (CommerceState {
            config: Config { denom, withdrawal_address, trust_contract },
            ..*old(state)
        }),
        !old(state).admin_list.has_admin(sender@) ==> r == Err::<(), ContractError>(
            ContractError::Unauthorized,
        ) && *final(state) == *old(state),
{
    if !can_execute(state, sender) {
        return Err(ContractError::Unauthorized);
    }
    state.config = Config { denom, withdrawal_address, trust_contract };
    Ok(())
}

/// Replaces the marketing data; only an admin may do so.
pub fn execute_update_marketing(state: &mut CommerceState, sender: &String, marketing: Marketing) -> (r:
    Result<(), ContractError>)
    requires
        old(state).wf(),
    ensures
        final(state).wf(),
        escrow_step(*old(state), *final(state), 0, 0),
        final(state).locked() == old(state).locked(),
        old(state).admin_list.has_admin(sender@) ==> r is Ok && *final(state) == (CommerceState {
            marketing: Some(marketing),
            ..*old(state)
        }),
        !old(state).admin_list.has_admin(sender@) ==> r == Err::<(), ContractError>(
            ContractError::Unauthorized,
        ) && *final(state) == *old(state),
{
    if !can_execute(state, sender) {
        return Err(ContractError::Unauthorized);
    }
    state.marketing = Some(marketing);
    Ok(())
}

/// Sends `amount`, or all of the surplus, to the withdrawal address. Only the
/// surplus of the `held` balance over the locked balance may leave.
pub fn execute_withdraw(state: &CommerceState, held: u128, amount: Option<u128>) -> (r: Result<
    TransferMsg,
    ContractError,
>)
    requires
        state.wf(),
    ensures
        r matches Ok(m) ==> state.locked() <= held - m.amount,
        state.locked() > held ==> r == Err::<TransferMsg, ContractError>(ContractError::Overflow),
        state.locked() <= held ==> match amount {
            Some(a) => if a > held - state.locked() {
                r == Err::<TransferMsg, ContractError>(
                    ContractError::PaymentError(PaymentError::NoFunds),
                )
            } else {
                r == Ok::<TransferMsg, ContractError>(
                    TransferMsg {
                        token: state.config.denom,
                        recipient: state.config.withdrawal_address,
                        amount: a,
                    },
                )
            },
            None => r == Ok::<TransferMsg, ContractError>(
                TransferMsg {
                    token: state.config.denom,
                    recipient: state.config.withdrawal_address,
                    amount: (held - state.locked()) as u128,
                },
            ),
        },
{
    let withdrawable = query_withdrawable_balance(state, held)?;
    let balance = match amount {
        Some(a) => {
            if a > withdrawable.amount {
                return Err(ContractError::PaymentError(PaymentError::NoFunds));
            }
            TokenAmount { address: state.config.denom.clone(), amount: a }
        },
        None => withdrawable,
    };
    Ok(send_cw20_tokens(&state.config.withdrawal_address, &balance))
}

/// The listing that creating or updating with these values stores.
pub open spec fn stored_listing(
    id: u64,
    denom: String,
    active: bool,
    price: u128,
    attributes: Attributes,
    options: Vec<ListingOption>,
) -> Listing {
    Listing { id, active, price: TokenAmount { address: denom, amount: price }, attributes, options }
}

/// Creates a listing priced in the settlement token under a fresh id; only
/// an admin may do so.
pub fn execute_create_listing(
    state: &mut CommerceState,
    sender: &String,
    active: bool,
    price: u128,
    attributes: Attributes,
    options: Vec<ListingOption>,
) -> (r: Result<u64, ContractError>)
    requires
        old(state).wf(),
        old(state).listing_id_counter < u64::MAX,
    ensures
        final(state).wf(),
        escrow_step(*old(state), *final(state), 0, 0),
        final(state).locked() == old(state).locked(),
        r == (if !old(state).admin_list.has_admin(sender@) {
            Err(ContractError::Unauthorized)
        } else {
            match validate_listing_spec(old(state).config.denom, attributes, options@) {
                Err(e) => Err(e),
                Ok(_) => Ok((old(state).listing_id_counter + 1) as u64),
            }
        }),
        r is Err ==> *final(state) == *old(state),
        r matches Ok(id) ==> final(state).listings@ == old(state).listings@.push(
            stored_listing(id, old(state).config.denom, active, price, attributes, options),
        ) && *final(state) == (CommerceState {
            listings: final(state).listings,
            listing_id_counter: id,
            ..*old(state)
        }),
{
    if !can_execute(state, sender) {
        return Err(ContractError::Unauthorized);
    }
    validate_listing(state, &attributes, &options)?;
    let ghost pre = *state;
    let id = next_listing_id(state);
    let listing = Listing {
        id,
        active,
        price: TokenAmount { address: state.config.denom.clone(), amount: price },
        attributes,
        options,
    };
    proof {
        lemma_push_listing(pre.listings@, pre.listing_id_counter, listing, pre.orders@);
        lemma_orders_agree(pre.listings@, pre.listings@.push(listing), pre.orders@);
    }
    state.listings.push(listing);
    Ok(id)
}

/// What updating or deleting listing `id` is owed: the caller must be an
/// admin, the listing must exist and no live order may refer to it.
pub open spec fn listing_change_check(pre: CommerceState, sender: Seq<char>, id: u64) -> Result<
    (),
    ContractError,
> {
    if !pre.admin_list.has_admin(sender) {
        Err(ContractError::Unauthorized)
    } else {
        validate_empty_orders_spec(pre, id)
    }
}

/// Replaces the data of listing `id`, keeping its id; only an admin may do
/// so, and only while no live order refers to the listing.
pub fn execute_update_listing(
    state: &mut CommerceState,
    sender: &String,
    id: u64,
    active: bool,
    price: u128,
    attributes: Attributes,
    options: Vec<ListingOption>,
) -> (r: Result<(), ContractError>)
    requires
        old(state).wf(),
    ensures
        final(state).wf(),
        escrow_step(*old(state), *final(state), 0, 0),
        final(state).locked() == old(state).locked(),
        r == match listing_change_check(*old(state), sender@, id) {
            Err(e) => Err(e),
            Ok(_) => validate_listing_spec(old(state).config.denom, attributes, options@),
        },
        r is Err ==> *final(state) == *old(state),
        r is Ok ==> exists|i: int|
            0 <= i < old(state).listings@.len() && old(state).listings@[i].id == id
                && final(state).listings@ == old(state).listings@.update(
                i,
                stored_listing(id, old(state).config.denom, active, price, attributes, options),
            ) && *final(state) == (CommerceState { listings: final(state).listings, ..*old(state) }),
{
    if !can_execute(state, sender) {
        return Err(ContractError::Unauthorized);
    }
    validate_empty_orders(state, id)?;
    validate_listing(state, &attributes, &options)?;
    let i = match find_listing_index(&state.listings, id) {
        Some(i) => i,
        None => {
            return Err(ContractError::NotFound { kind: RecordKind::Listing });
        },
    };
    let ghost pre = *state;
    let listing = Listing {
        id,
        active,
        price: TokenAmount { address: state.config.denom.clone(), amount: price },
        attributes,
        options,
    };
    proof {
        lemma_update_listing(pre.listings@, pre.listing_id_counter, i as int, listing, pre.orders@);
        lemma_orders_agree(pre.listings@, pre.listings@.update(i as int, listing), pre.orders@);
    }
    state.listings.set(i, listing);
    Ok(())
}

/// Removes listing `id`; only an admin may do so, and only while no live
/// order refers to the listing.
pub fn execute_delete_listing(state: &mut CommerceState, sender: &String, id: u64) -> (r: Result<
    (),
    ContractError,
>)
    requires
        old(state).wf(),
    ensures
        final(state).wf(),
        escrow_step(*old(state), *final(state), 0, 0),
        final(state).locked() == old(state).locked(),
        r == listing_change_check(*old(state), sender@, id),
        r is Err ==> *final(state) == *old(state),
        r is Ok ==> exists|i: int|
            0 <= i < old(state).listings@.len() && old(state).listings@[i].id == id
                && final(state).listings@ == old(state).listings@.remove(i) && *final(state) == (
            CommerceState { listings: final(state).listings, ..*old(state) }),
{
    if !can_execute(state, sender) {
        return Err(ContractError::Unauthorized);
    }
    validate_empty_orders(state, id)?;
    let i = match find_listing_index(&state.listings, id) {
        Some(i) => i,
        None => {
            return Err(ContractError::NotFound { kind: RecordKind::Listing });
        },
    };
    let ghost pre = *state;
    proof {
        lemma_remove_listing(pre.listings@, pre.listing_id_counter, i as int, pre.orders@);
        lemma_orders_agree(pre.listings@, pre.listings@.remove(i as int), pre.orders@);
    }
    state.listings.remove(i);
    Ok(())
}

/// What creating an order is owed: payment in the settlement token of
/// exactly what the items cost.
pub open spec fn create_order_result(pre: CommerceState, items: Seq<OrderItem>, balance: Balance) -> Result<
    u64,
    ContractError,
> {
    match must_pay_spec(pre.config.denom, balance) {
        Err(e) => Err(ContractError::PaymentError(e)),
        Ok(paid) => match eval_cost_spec(pre.listings@, items) {
            Err(e) => Err(e),
            Ok(cost) => if paid != cost {
                Err(ContractError::PaymentError(PaymentError::NoFunds))
            } else {
                Ok((pre.order_id_counter + 1) as u64)
            },
        },
    }
}

/// Creates an order for `buyer`, who paid `balance`; the payment must be in
/// the settlement token and equal to what the items cost.
pub fn execute_create_order(
    state: &mut CommerceState,
    buyer: String,
    items: Vec<OrderItem>,
    balance: Balance,
) -> (r: Result<u64, ContractError>)
    requires
        old(state).wf(),
        old(state).order_id_counter < u64::MAX,
    ensures
        final(state).wf(),
        r is Ok ==> escrow_step(*old(state), *final(state), items_cost(old(state).listings@, items@), 0),
        r is Err ==> escrow_step(*old(state), *final(state), 0, 0),
        r == create_order_result(*old(state), items@, balance),
        r is Err ==> *final(state) == *old(state),
        r matches Ok(id) ==> final(state).orders@ == old(state).orders@.push(
            Order { id, buyer, items, status: OrderStatus::Received, tracking: None },
        ) && *final(state) == (CommerceState {
            orders: final(state).orders,
            order_id_counter: id,
            ..*old(state)
        }) && final(state).locked() == old(state).locked() + items_cost(
            old(state).listings@,
            items@,
        ),
{
    let paid = match must_pay(&state.config.denom, balance) {
        Ok(p) => p,
        Err(e) => {
            return Err(ContractError::PaymentError(e));
        },
    };
    let cost = eval_cost(state, &items)?;
    if paid != cost {
        return Err(ContractError::PaymentError(PaymentError::NoFunds));
    }
    let ghost pre = *state;
    let id = next_order_id(state);
    let order = Order { id, buyer, items, status: OrderStatus::Received, tracking: None };
    proof {
        let os2 = pre.orders@.push(order);
        assert(os2.drop_last() =~= pre.orders@);
        assert forall|a: int| 0 <= a < os2.len() implies (#[trigger] eval_cost_spec(
            pre.listings@,
            os2[a].items@,
        )) is Ok by {
            if a < pre.orders@.len() {
                assert(os2[a] == pre.orders@[a]);
            }
        }
    }
    state.orders.push(order);
    Ok(id)
}

/// What cancelling order `id` is owed: the caller is its buyer and it has
/// not yet moved past `Received`. The refund is what the order costs.
pub open spec fn cancel_order_result(pre: CommerceState, sender: Seq<char>, id: u64) -> Result<
    TransferMsg,
    ContractError,
> {
    match find_order(pre.orders@, id) {
        None => Err(ContractError::NotFound { kind: RecordKind::Order }),
        Some(o) => if o.buyer@ != sender || o.status != OrderStatus::Received {
            Err(ContractError::Unauthorized)
        } else {
            Ok(
                TransferMsg {
                    token: pre.config.denom,
                    recipient: o.buyer,
                    amount: items_cost(pre.listings@, o.items@) as u128,
                },
            )
        },
    }
}

/// Takes the order at position `i` out of the table and returns the refund
/// of its cost to its buyer.
fn remove_and_refund(state: &mut CommerceState, i: usize) -> (r: TransferMsg)
    requires
        old(state).wf(),
        i < old(state).orders@.len(),
    ensures
        final(state).wf(),
        order_removed(*old(state), *final(state), old(state).orders@[i as int].id),
        r == (TransferMsg {
            token: old(state).config.denom,
            recipient: old(state).orders@[i as int].buyer,
            amount: items_cost(old(state).listings@, old(state).orders@[i as int].items@) as u128,
        }),
        final(state).locked() == old(state).locked() - r.amount,
{
    let ghost pre = *state;
    proof {
        assert(eval_cost_spec(pre.listings@, pre.orders@[i as int].items@) is Ok);
        lemma_items_cost_nonneg(pre.listings@, pre.orders@[i as int].items@);
    }
    let cost = match eval_cost(state, &state.orders[i].items) {
        Ok(c) => c,
        Err(_) => 0,
    };
    proof {
        lemma_remove_order(pre.listings@, pre.orders@, pre.order_id_counter, i as int);
        lemma_orders_cost_remove(pre.listings@, pre.orders@, i as int);
    }
    let order = state.orders.remove(i);
    send_cw20_tokens(&order.buyer, &TokenAmount { address: state.config.denom.clone(), amount: cost })
}

/// Cancels order `id` and refunds its buyer; only the buyer may do so, and
/// only while the order is `Received`.
pub fn execute_cancel_order(state: &mut CommerceState, sender: &String, id: u64) -> (r: Result<
    TransferMsg,
    ContractError,
>)
    requires
        old(state).wf(),
    ensures
        final(state).wf(),
        r matches Ok(m) ==> escrow_step(*old(state), *final(state), 0, m.amount as int),
        r is Err ==> escrow_step(*old(state), *final(state), 0, 0),
        r == cancel_order_result(*old(state), sender@, id),
        r is Err ==> *final(state) == *old(state),
        r matches Ok(m) ==> order_removed(*old(state), *final(state), id) && final(state).locked()
            == old(state).locked() - m.amount,
{
    let i = match find_order_index(&state.orders, id) {
        Some(i) => i,
        None => {
            return Err(ContractError::NotFound { kind: RecordKind::Order });
        },
    };
    if state.orders[i].buyer != *sender {
        return Err(ContractError::Unauthorized);
    }
    if state.orders[i].status != OrderStatus::Received {
        return Err(ContractError::Unauthorized);
    }
    Ok(remove_and_refund(state, i))
}

/// Cancels order `id` whatever its status and refunds its buyer in full;
/// only an admin may do so.
pub fn execute_refund_order(state: &mut CommerceState, sender: &String, id: u64) -> (r: Result<
    TransferMsg,
    ContractError,
>)
    requires
        old(state).wf(),
    ensures
        final(state).wf(),
        r matches Ok(m) ==> escrow_step(*old(state), *final(state), 0, m.amount as int),
        r is Err ==> escrow_step(*old(state), *final(state), 0, 0),
        !old(state).admin_list.has_admin(sender@) ==> r == Err::<TransferMsg, ContractError>(
            ContractError::Unauthorized,
        ),
        old(state).admin_list.has_admin(sender@) ==> r == match find_order(old(state).orders@, id) {
            None => Err(ContractError::NotFound { kind: RecordKind::Order }),
            Some(o) => Ok(
                TransferMsg {
                    token: old(state).config.denom,
                    recipient: o.buyer,
                    amount: items_cost(old(state).listings@, o.items@) as u128,
                },
            ),
        },
        r is Err ==> *final(state) == *old(state),
        r matches Ok(m) ==> order_removed(*old(state), *final(state), id) && final(state).locked()
            == old(state).locked() - m.amount,
{
    if !can_execute(state, sender) {
        return Err(ContractError::Unauthorized);
    }
    let i = match find_order_index(&state.orders, id) {
        Some(i) => i,
        None => {
            return Err(ContractError::NotFound { kind: RecordKind::Order });
        },
    };
    Ok(remove_and_refund(state, i))
}

/// Moves order `id` to `status` and replaces its tracking data; only an
/// admin may do so, and the status may not move backwards.
pub fn execute_update_order(
    state: &mut CommerceState,
    sender: &String,
    id: u64,
    status: OrderStatus,
    tracking: Option<TrackingInfo>,
) -> (r: Result<(), ContractError>)
    requires
        old(state).wf(),
    ensures
        final(state).wf(),
        escrow_step(*old(state), *final(state), 0, 0),
        final(state).locked() == old(state).locked(),
        !old(state).admin_list.has_admin(sender@) ==> r == Err::<(), ContractError>(
            ContractError::Unauthorized,
        ),
        old(state).admin_list.has_admin(sender@) ==> match find_order(old(state).orders@, id) {
            None => r == Err::<(), ContractError>(ContractError::NotFound { kind: RecordKind::Order }),
            Some(o) => if status.rank() < o.status.rank() {
                r matches Err(ContractError::CustomError { .. })
            } else {
                r is Ok
            },
        },
        r is Err ==> *final(state) == *old(state),
        r is Ok ==> exists|i: int|
            0 <= i < old(state).orders@.len() && old(state).orders@[i].id == id
                && old(state).orders@[i].status.rank() <= status.rank()
                && final(state).orders@ == old(state).orders@.update(
                i,
                Order {
                    id,
                    buyer: old(state).orders@[i].buyer,
                    items: old(state).orders@[i].items,
                    status,
                    tracking,
                },
            ) && *final(state) == (CommerceState { orders: final(state).orders, ..*old(state) }),
{
    if !can_execute(state, sender) {
        return Err(ContractError::Unauthorized);
    }
    let i = match find_order_index(&state.orders, id) {
        Some(i) => i,
        None => {
            return Err(ContractError::NotFound { kind: RecordKind::Order });
        },
    };
    if status.index() < state.orders[i].status.index() {
        return Err(ContractError::CustomError { val: "New status cannot be a previous status".to_string() });
    }
    let ghost pre = *state;
    let current = state.orders.remove(i);
    let order = Order { id: current.id, buyer: current.buyer, items: current.items, status, tracking };
    proof {
        assert(pre.orders@.remove(i as int).insert(i as int, order) =~= pre.orders@.update(i as int, order));
        lemma_update_order(pre.listings@, pre.orders@, pre.order_id_counter, i as int, order);
        lemma_orders_cost_update(pre.listings@, pre.orders@, i as int, order);
    }
    state.orders.insert(i, order);
    Ok(())
}

/// The review requests sent when an order of `buyer` completes: the buyer
/// reviews every admin, and the first admin reviews the buyer.
pub open spec fn completion_requests(
    trust_contract: String,
    admins: Seq<String>,
    buyer: String,
    order_id: u64,
) -> Seq<ReviewRequestMsg> {
    Seq::new(
        admins.len(),
        |k: int| ReviewRequestMsg { trust_contract, peer: admins[k], reviewer: buyer, order_id },
    ).push(ReviewRequestMsg { trust_contract, peer: buyer, reviewer: admins[0], order_id })
}

/// Completes a shipped order: it leaves the ledger, and review requests go
/// to the trust registry; only an admin may do so.
#[verifier::loop_isolation(false)]
pub fn execute_complete_order(state: &mut CommerceState, sender: &String, id: u64) -> (r: Result<
    Vec<ReviewRequestMsg>,
    ContractError,
>)
    requires
        old(state).wf(),
    ensures
        final(state).wf(),
        escrow_step(*old(state), *final(state), 0, 0),
        !old(state).admin_list.has_admin(sender@) ==> r is Err && r->Err_0
            == ContractError::Unauthorized,
        old(state).admin_list.has_admin(sender@) ==> match find_order(old(state).orders@, id) {
            None => r is Err && r->Err_0 == ContractError::NotFound { kind: RecordKind::Order },
            Some(o) => if o.status != OrderStatus::Shipped {
                r is Err && r->Err_0 == ContractError::Unauthorized
            } else {
                r is Ok && r->Ok_0@ == completion_requests(
                    old(state).config.trust_contract,
                    old(state).admin_list.admins@,
                    o.buyer,
                    id,
                ) && final(state).locked() == old(state).locked() - items_cost(
                    old(state).listings@,
                    o.items@,
                )
            },
        },
        r is Err ==> *final(state) == *old(state),
        r is Ok ==> order_removed(*old(state), *final(state), id),
{
    if !can_execute(state, sender) {
        return Err(ContractError::Unauthorized);
    }
    let i = match find_order_index(&state.orders, id) {
        Some(i) => i,
        None => {
            return Err(ContractError::NotFound { kind: RecordKind::Order });
        },
    };
    if state.orders[i].status != OrderStatus::Shipped {
        return Err(ContractError::Unauthorized);
    }
    let ghost pre = *state;
    proof {
        lemma_remove_order(pre.listings@, pre.orders@, pre.order_id_counter, i as int);
        lemma_orders_cost_remove(pre.listings@, pre.orders@, i as int);
        lemma_items_cost_nonneg(pre.listings@, pre.orders@[i as int].items@);
    }
    let order = state.orders.remove(i);
    let admins = &state.admin_list.admins;
    let trust = &state.config.trust_contract;
    let ghost expected = completion_requests(*trust, admins@, order.buyer, id);
    let mut msgs: Vec<ReviewRequestMsg> = Vec::new();
    let mut k: usize = 0;
    while k < admins.len()
        invariant
            k <= admins@.len(),
            msgs@.len() == k,
            forall|a: int| 0 <= a < k ==> msgs@[a] == expected[a],
        decreases admins.len() - k,
    {
        msgs.push(
            ReviewRequestMsg {
                trust_contract: trust.clone(),
                peer: admins[k].clone(),
                reviewer: order.buyer.clone(),
                order_id: id,
            },
        );
        k += 1;
    }
    msgs.push(
        ReviewRequestMsg {
            trust_contract: trust.clone(),
            peer: order.buyer.clone(),
            reviewer: admins[0].clone(),
            order_id: id,
        },
    );
    proof {
        assert(msgs@ =~= expected);
    }
    Ok(msgs)
}

} // verus!
