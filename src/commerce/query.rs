use vstd::prelude::*;

use crate::commerce::config::{Config, Marketing};
use crate::commerce::error::{ContractError, RecordKind};
use crate::commerce::listing::{Listing, TokenAmount};
use crate::commerce::order::Order;
use crate::commerce::response::AdminListResponse;
use crate::commerce::state::{
    find_listing, find_listing_index, find_order, find_order_index, lemma_orders_cost_prefix,
    CommerceState,
};
use crate::commerce::util::{can_execute, eval_cost, eval_cost_spec};

verus! {

pub fn query_config(state: &CommerceState) -> (r: &Config)
    ensures
        *r == state.config,
{
    &state.config
}

pub fn query_marketing(state: &CommerceState) -> (r: Option<&Marketing>)
    ensures
        r.is_some() == state.marketing.is_some(),
        r.is_some() ==> *r.unwrap() == state.marketing.unwrap(),
{
    match &state.marketing {
        Some(m) => Some(m),
        None => None,
    }
}

/// The administrators, in the order they were configured.
pub fn query_admin_list(state: &CommerceState) -> (r: AdminListResponse)
    ensures
        r.admins@ == state.admin_list.admins@,
{
    let admins = state.admin_list.admins.clone();
    proof {
        assert forall|i: int| 0 <= i < admins@.len() implies admins@[i] == state.admin_list.admins@[i] by {
            assert(vstd::pervasive::cloned(state.admin_list.admins@[i], admins@[i]));
        }
        assert(admins@ =~= state.admin_list.admins@);
    }
    AdminListResponse { admins }
}

pub fn query_can_execute(state: &CommerceState, sender: &String) -> (r: bool)
    ensures
        r == state.admin_list.has_admin(sender@),
{
    can_execute(state, sender)
}

/// The balance locked up in live orders: the sum of their costs.
pub fn query_locked_balance(state: &CommerceState) -> (r: Result<TokenAmount, ContractError>)
    requires
        state.wf(),
    ensures
        match r {
            Ok(b) => b.address == state.config.denom && b.amount == state.locked(),
            Err(e) => e == ContractError::Overflow && state.locked() > u128::MAX,
        },
{
    let ghost ls = state.listings@;
    let ghost os = state.orders@;
    let mut total: u128 = 0;
    let mut i: usize = 0;
    while i < state.orders.len()
        invariant
            state.wf(),
            ls == state.listings@,
            os == state.orders@,
            i <= os.len(),
            total == crate::commerce::state::orders_cost(ls, os.take(i as int)),
        decreases state.orders.len() - i,
    {
        proof {
            assert(os.take(i + 1).drop_last() =~= os.take(i as int));
            lemma_orders_cost_prefix(ls, os, i + 1);
            assert(eval_cost_spec(ls, os[i as int].items@) is Ok);
            assert(os.take(i + 1).last() == os[i as int]);
            let items = os[i as int].items@;
            crate::commerce::util::lemma_items_cost_prefix(ls, items, items.len() as int);
            assert(items.take(items.len() as int) =~= items);
        }
        let cost = match eval_cost(state, &state.orders[i].items) {
            Ok(c) => {
                assert(eval_cost_spec(ls, os[i as int].items@) == Ok::<u128, ContractError>(c));
                c
            },
            Err(e) => {
                return Err(e);
            },
        };
        assert(cost == crate::commerce::util::items_cost(ls, os[i as int].items@));
        total = match total.checked_add(cost) {
            Some(t) => t,
            None => {
                return Err(ContractError::Overflow);
            },
        };
        i += 1;
    }
    proof {
        assert(os.take(os.len() as int) =~= os);
    }
    Ok(TokenAmount { address: state.config.denom.clone(), amount: total })
}

/// The surplus over the locked balance out of the `held` balance of the
/// settlement token.
pub fn query_withdrawable_balance(state: &CommerceState, held: u128) -> (r: Result<
    TokenAmount,
    ContractError,
>)
    requires
        state.wf(),
    ensures
        match r {
            Ok(b) => b.address == state.config.denom && b.amount == held - state.locked(),
            Err(e) => e == ContractError::Overflow && state.locked() > held,
        },
{
    let locked = query_locked_balance(state)?;
    if locked.amount > held {
        return Err(ContractError::Overflow);
    }
    Ok(TokenAmount { address: locked.address, amount: held - locked.amount })
}

/// All listings, in ascending id order.
pub fn query_listings(state: &CommerceState) -> (r: &Vec<Listing>)
    ensures
        r@ == state.listings@,
{
    &state.listings
}

pub fn query_listing(state: &CommerceState, id: u64) -> (r: Option<&Listing>)
    requires
        state.wf(),
    ensures
        r.is_some() == find_listing(state.listings@, id).is_some(),
        r.is_some() ==> *r.unwrap() == find_listing(state.listings@, id).unwrap(),
{
    match find_listing_index(&state.listings, id) {
        Some(i) => Some(&state.listings[i]),
        None => None,
    }
}

/// All orders, in ascending id order.
pub fn query_orders(state: &CommerceState) -> (r: &Vec<Order>)
    ensures
        r@ == state.orders@,
{
    &state.orders
}

pub fn query_order(state: &CommerceState, id: u64) -> (r: Option<&Order>)
    requires
        state.wf(),
    ensures
        r.is_some() == find_order(state.orders@, id).is_some(),
        r.is_some() ==> *r.unwrap() == find_order(state.orders@, id).unwrap(),
{
    match find_order_index(&state.orders, id) {
        Some(i) => Some(&state.orders[i]),
        None => None,
    }
}

/// What the order with the given id costs now.
pub fn query_order_cost(state: &CommerceState, id: u64) -> (r: Result<u128, ContractError>)
    requires
        state.wf(),
    ensures
        match find_order(state.orders@, id) {
            Some(o) => r == eval_cost_spec(state.listings@, o.items@) && r is Ok,
            None => r == Err::<u128, ContractError>(ContractError::NotFound { kind: RecordKind::Order }),
        },
{
    match find_order_index(&state.orders, id) {
        Some(i) => eval_cost(state, &state.orders[i].items),
        None => Err(ContractError::NotFound { kind: RecordKind::Order }),
    }
}

} // verus!
