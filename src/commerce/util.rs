use vstd::prelude::*;

use crate::commerce::error::{ContractError, PaymentError, RecordKind};
use crate::commerce::listing::{Attributes, Listing, ListingOption, TokenAmount};
use crate::commerce::msg::TransferMsg;
use crate::commerce::order::{Order, OrderItem, OrderOption};
use crate::commerce::state::{find_listing, find_listing_index, CommerceState};

verus! {

/// Surcharge of one selected option: its cost, or nothing.
pub open spec fn option_surcharge(o: OrderOption) -> int {
    match o.selected_option.cost {
        Some(c) => c.amount as int,
        None => 0,
    }
}

/// Sum of the surcharges of the selected options.
pub open spec fn options_cost(opts: Seq<OrderOption>) -> int
    decreases opts.len(),
{
    if opts.len() == 0 {
        0
    } else {
        options_cost(opts.drop_last()) + option_surcharge(opts.last())
    }
}

/// The listing offers an option group with this id.
pub open spec fn has_option(l: Listing, option_id: u64) -> bool {
    exists|j: int| 0 <= j < l.options@.len() && #[trigger] l.options@[j].id == option_id
}

/// The item names an existing listing, and each selected option exists on it.
pub open spec fn item_valid(ls: Seq<Listing>, item: OrderItem) -> bool {
    &&& find_listing(ls, item.listing_id) is Some
    &&& forall|k: int|
        0 <= k < item.options@.len() ==> has_option(
            find_listing(ls, item.listing_id).unwrap(),
            #[trigger] item.options@[k].option_id,
        )
}

/// Every item of the order is valid.
pub open spec fn items_valid(ls: Seq<Listing>, items: Seq<OrderItem>) -> bool {
    forall|i: int| 0 <= i < items.len() ==> item_valid(ls, #[trigger] items[i])
}

/// Cost of one item: listing price plus option surcharges, times quantity.
pub open spec fn item_cost(ls: Seq<Listing>, item: OrderItem) -> int {
    (find_listing(ls, item.listing_id).unwrap().price.amount + options_cost(item.options@))
        * item.amount
}

/// Cost of all items, in unbounded arithmetic.
pub open spec fn items_cost(ls: Seq<Listing>, items: Seq<OrderItem>) -> int
    decreases items.len(),
{
    if items.len() == 0 {
        0
    } else {
        items_cost(ls, items.drop_last()) + item_cost(ls, items.last())
    }
}

/// What evaluating the cost of `items` against the listings gives.
pub open spec fn eval_cost_spec(ls: Seq<Listing>, items: Seq<OrderItem>) -> Result<
    u128,
    ContractError,
> {
    if !items_valid(ls, items) {
        Err(ContractError::InvalidOrder)
    } else if items_cost(ls, items) > u128::MAX {
        Err(ContractError::Overflow)
    } else {
        Ok(items_cost(ls, items) as u128)
    }
}

proof fn lemma_options_cost_prefix(opts: Seq<OrderOption>, j: int)
    requires
        0 <= j <= opts.len(),
    ensures
        0 <= options_cost(opts.take(j)) <= options_cost(opts),
    decreases opts.len(),
{
    if opts.len() > 0 {
        if j == opts.len() {
            assert(opts.take(j) =~= opts);
        } else {
            lemma_options_cost_prefix(opts.drop_last(), j);
            assert(opts.drop_last().take(j) =~= opts.take(j));
        }
        lemma_options_cost_prefix(opts.drop_last(), opts.len() - 1);
        assert(opts.drop_last().take(opts.len() - 1) =~= opts.drop_last());
    }
}

proof fn lemma_item_cost_nonneg(ls: Seq<Listing>, item: OrderItem)
    ensures
        item_cost(ls, item) >= 0,
{
    let opts = item.options@;
    lemma_options_cost_prefix(opts, opts.len() as int);
    assert(opts.take(opts.len() as int) =~= opts);
    let a = find_listing(ls, item.listing_id).unwrap().price.amount + options_cost(opts);
    let q = item.amount as int;
    assert(a * q >= 0) by (nonlinear_arith)
        requires
            a >= 0,
            q >= 0,
    ;
}

pub proof fn lemma_items_cost_prefix(ls: Seq<Listing>, items: Seq<OrderItem>, i: int)
    requires
        0 <= i <= items.len(),
    ensures
        0 <= items_cost(ls, items.take(i)) <= items_cost(ls, items),
    decreases items.len(),
{
    if items.len() > 0 {
        lemma_item_cost_nonneg(ls, items.last());
        lemma_items_cost_prefix(ls, items.drop_last(), items.len() - 1);
        assert(items.drop_last().take(items.len() - 1) =~= items.drop_last());
        if i == items.len() {
            assert(items.take(i) =~= items);
        } else {
            lemma_items_cost_prefix(ls, items.drop_last(), i);
            assert(items.drop_last().take(i) =~= items.take(i));
        }
    }
}

/// No order costs less than nothing.
pub proof fn lemma_items_cost_nonneg(ls: Seq<Listing>, items: Seq<OrderItem>)
    ensures
        items_cost(ls, items) >= 0,
{
    lemma_items_cost_prefix(ls, items, items.len() as int);
    assert(items.take(items.len() as int) =~= items);
}

/// Whether the listing offers an option group with the given id.
pub fn listing_has_option(listing: &Listing, option_id: u64) -> (r: bool)
    ensures
        r == has_option(*listing, option_id),
{
    let mut j: usize = 0;
    while j < listing.options.len()
        invariant
            j <= listing.options@.len(),
            forall|k: int| 0 <= k < j ==> listing.options@[k].id != option_id,
        decreases listing.options.len() - j,
    {
        if listing.options[j].id == option_id {
            return true;
        }
        j += 1;
    }
    false
}

/// Evaluates the total cost of an order's items against the catalog: each
/// item costs its listing's price plus the surcharges of its selected
/// options, times its quantity. Fails with `InvalidOrder` when an item names
/// a missing listing or option, and with `Overflow` when the exact total
/// does not fit in 128 bits.
#[verifier::loop_isolation(false)]
pub fn eval_cost(state: &CommerceState, items: &Vec<OrderItem>) -> (r: Result<u128, ContractError>)
    requires
        state.wf(),
    ensures
        r == eval_cost_spec(state.listings@, items@),
{
    let ghost ls = state.listings@;
    // First every item must name an existing listing and existing options.
    let mut i: usize = 0;
    while i < items.len()
        invariant
            i <= items@.len(),
            state.wf(),
            ls == state.listings@,
            forall|k: int| 0 <= k < i ==> item_valid(ls, #[trigger] items@[k]),
        decreases items.len() - i,
    {
        let item = &items[i];
        match find_listing_index(&state.listings, item.listing_id) {
            None => {
                return Err(ContractError::InvalidOrder);
            },
            Some(li) => {
                let listing = &state.listings[li];
                let mut j: usize = 0;
                while j < item.options.len()
                    invariant
                        j <= item.options@.len(),
                        find_listing(ls, item.listing_id) == Some(*listing),
                        forall|k: int|
                            0 <= k < j ==> has_option(
                                *listing,
                                #[trigger] item.options@[k].option_id,
                            ),
                    decreases item.options.len() - j,
                {
                    if !listing_has_option(listing, item.options[j].option_id) {
                        proof {
                            assert(!item_valid(ls, items@[i as int]));
                        }
                        return Err(ContractError::InvalidOrder);
                    }
                    j += 1;
                }
            },
        }
        i += 1;
    }
    assert(items_valid(ls, items@));
    // Then the costs are summed with checked arithmetic.
    let mut total: u128 = 0;
    let mut i: usize = 0;
    while i < items.len()
        invariant
            i <= items@.len(),
            state.wf(),
            ls == state.listings@,
            items_valid(ls, items@),
            total == items_cost(ls, items@.take(i as int)),
        decreases items.len() - i,
    {
        let item = &items[i];
        proof {
            assert(item_valid(ls, items@[i as int]));
            assert(items@.take(i + 1).drop_last() =~= items@.take(i as int));
            lemma_items_cost_prefix(ls, items@, i + 1);
            lemma_items_cost_prefix(ls, items@, i as int);
            lemma_item_cost_nonneg(ls, items@[i as int]);
        }
        let li = match find_listing_index(&state.listings, item.listing_id) {
            Some(li) => li,
            None => {
                return Err(ContractError::InvalidOrder);
            },
        };
        let listing = &state.listings[li];
        if item.amount != 0 {
            let mut sub: u128 = listing.price.amount;
            let mut j: usize = 0;
            while j < item.options.len()
                invariant
                    j <= item.options@.len(),
                    sub == listing.price.amount + options_cost(item.options@.take(j as int)),
                decreases item.options.len() - j,
            {
                proof {
                    assert(item.options@.take(j + 1).drop_last() =~= item.options@.take(j as int));
                }
                match &item.options[j].selected_option.cost {
                    Some(c) => {
                        match sub.checked_add(c.amount) {
                            Some(s) => {
                                sub = s;
                            },
                            None => {
                                proof {
                                    lemma_options_cost_prefix(item.options@, j + 1);
                                    let a = listing.price.amount + options_cost(item.options@);
                                    let q = item.amount as int;
                                    assert(a * q >= a) by (nonlinear_arith)
                                        requires
                                            a >= 0,
                                            q >= 1,
                                    ;
                                }
                                return Err(ContractError::Overflow);
                            },
                        }
                    },
                    None => {},
                }
                j += 1;
            }
            proof {
                assert(item.options@.take(item.options@.len() as int) =~= item.options@);
            }
            let line = match sub.checked_mul(item.amount as u128) {
                Some(v) => v,
                None => {
                    return Err(ContractError::Overflow);
                },
            };
            total = match total.checked_add(line) {
                Some(v) => v,
                None => {
                    return Err(ContractError::Overflow);
                },
            };
        } else {
            let ghost a = listing.price.amount + options_cost(item.options@);
            assert(a * 0 == 0) by (nonlinear_arith);
            assert(item_cost(ls, items@[i as int]) == 0);
        }
        i += 1;
    }
    proof {
        assert(items@.take(items@.len() as int) =~= items@);
    }
    Ok(total)
}

} // verus!

verus! {

/// How a payment reached the ledger: as native coins with the call, or as
/// CW20 tokens announced by the token contract.
#[derive(Debug, Clone, PartialEq, Eq)]
pub enum Balance {
    Native,
    Cw20(TokenAmount),
}

/// Every listed option cost is in the settlement token.
pub open spec fn costs_in_denom(options: Seq<ListingOption>, denom: Seq<char>) -> bool {
    forall|i: int, k: int|
        0 <= i < options.len() && 0 <= k < options[i].options@.len() && (#[trigger] options[i].options@[k]).cost is Some
            ==> options[i].options@[k].cost.unwrap().address@ == denom
}

/// What validating listing data gives.
pub open spec fn validate_listing_spec(denom: String, attributes: Attributes, options: Seq<ListingOption>) -> Result<(), ContractError> {
    if attributes.images@.len() == 0 {
        Err(ContractError::NotEnoughImages)
    } else if !costs_in_denom(options, denom@) {
        Err(ContractError::PaymentError(PaymentError::MissingDenom(denom)))
    } else {
        Ok(())
    }
}

/// Some item of the order is of the given listing.
pub open spec fn order_refers_to(o: Order, listing_id: u64) -> bool {
    exists|k: int| 0 <= k < o.items@.len() && #[trigger] o.items@[k].listing_id == listing_id
}

/// Some live order refers to the given listing.
pub open spec fn listing_in_use(os: Seq<Order>, listing_id: u64) -> bool {
    exists|i: int| 0 <= i < os.len() && order_refers_to(#[trigger] os[i], listing_id)
}

/// What checking that a listing exists and is free of live orders gives.
pub open spec fn validate_empty_orders_spec(state: CommerceState, listing_id: u64) -> Result<(), ContractError> {
    if find_listing(state.listings@, listing_id) is None {
        Err(ContractError::NotFound { kind: RecordKind::Listing })
    } else if listing_in_use(state.orders@, listing_id) {
        Err(ContractError::ActiveOrder)
    } else {
        Ok(())
    }
}

/// Whether `sender` may run a privileged operation.
pub fn can_execute(state: &CommerceState, sender: &String) -> (r: bool)
    ensures
        r == state.admin_list.has_admin(sender@),
{
    state.admin_list.is_admin(sender)
}

/// The amount paid, if it was paid in the settlement token `denom`.
pub open spec fn must_pay_spec(denom: String, balance: Balance) -> Result<u128, PaymentError> {
    match balance {
        Balance::Cw20(t) => if t.address@ == denom@ {
            Ok(t.amount)
        } else {
            Err(PaymentError::MissingDenom(denom))
        },
        Balance::Native => Err(PaymentError::MissingDenom(denom)),
    }
}

/// The amount paid, if it was paid in the settlement token `denom`.
pub fn must_pay(denom: &String, balance: Balance) -> (r: Result<u128, PaymentError>)
    ensures
        r == must_pay_spec(*denom, balance),
{
    match balance {
        Balance::Cw20(token) => {
            if token.address == *denom {
                Ok(token.amount)
            } else {
                Err(PaymentError::MissingDenom(denom.clone()))
            }
        },
        Balance::Native => Err(PaymentError::MissingDenom(denom.clone())),
    }
}

/// Checks listing data: at least one image, and every option cost in the
/// settlement token.
#[verifier::loop_isolation(false)]
pub fn validate_listing(state: &CommerceState, attributes: &Attributes, options: &Vec<ListingOption>) -> (r: Result<(), ContractError>)
    ensures
        r == validate_listing_spec(state.config.denom, *attributes, options@),
{
    if attributes.images.len() == 0 {
        return Err(ContractError::NotEnoughImages);
    }
    let denom = &state.config.denom;
    let mut i: usize = 0;
    while i < options.len()
        invariant
            i <= options@.len(),
            forall|a: int, k: int|
                0 <= a < i && 0 <= k < options@[a].options@.len() && (#[trigger] options@[a].options@[k]).cost is Some
                    ==> options@[a].options@[k].cost.unwrap().address@ == denom@,
        decreases options.len() - i,
    {
        let option = &options[i];
        let mut k: usize = 0;
        while k < option.options.len()
            invariant
                i < options@.len(),
                *option == options@[i as int],
                k <= option.options@.len(),
                forall|a: int, b: int|
                    0 <= a < i && 0 <= b < options@[a].options@.len() && (#[trigger] options@[a].options@[b]).cost is Some
                        ==> options@[a].options@[b].cost.unwrap().address@ == denom@,
                forall|b: int|
                    0 <= b < k && (#[trigger] option.options@[b]).cost is Some
                        ==> option.options@[b].cost.unwrap().address@ == denom@,
            decreases option.options.len() - k,
        {
            match &option.options[k].cost {
                Some(cost) => {
                    if cost.address != *denom {
                        proof {
                            assert(!costs_in_denom(options@, denom@)) by {
                                assert(options@[i as int].options@[k as int].cost is Some);
                            }
                        }
                        return Err(ContractError::PaymentError(PaymentError::MissingDenom(denom.clone())));
                    }
                },
                None => {},
            }
            k += 1;
        }
        i += 1;
    }
    Ok(())
}

/// Checks that the listing exists and that no live order refers to it.
#[verifier::loop_isolation(false)]
pub fn validate_empty_orders(state: &CommerceState, listing_id: u64) -> (r: Result<(), ContractError>)
    requires
        state.wf(),
    ensures
        r == validate_empty_orders_spec(*state, listing_id),
{
    if find_listing_index(&state.listings, listing_id).is_none() {
        return Err(ContractError::NotFound { kind: RecordKind::Listing });
    }
    let mut i: usize = 0;
    while i < state.orders.len()
        invariant
            i <= state.orders@.len(),
            forall|a: int| 0 <= a < i ==> !order_refers_to(#[trigger] state.orders@[a], listing_id),
        decreases state.orders.len() - i,
    {
        let order = &state.orders[i];
        let mut k: usize = 0;
        while k < order.items.len()
            invariant
                i < state.orders@.len(),
                *order == state.orders@[i as int],
                k <= order.items@.len(),
                forall|a: int| 0 <= a < i ==> !order_refers_to(#[trigger] state.orders@[a], listing_id),
                forall|b: int| 0 <= b < k ==> (#[trigger] order.items@[b]).listing_id != listing_id,
            decreases order.items.len() - k,
        {
            if order.items[k].listing_id == listing_id {
                proof {
                    assert(order_refers_to(state.orders@[i as int], listing_id));
                }
                return Err(ContractError::ActiveOrder);
            }
            k += 1;
        }
        i += 1;
    }
    Ok(())
}

/// The instruction that sends `balance` to `to`.
pub fn send_cw20_tokens(to: &String, balance: &TokenAmount) -> (r: TransferMsg)
    ensures
        r == (TransferMsg { token: balance.address, recipient: *to, amount: balance.amount }),
{
    TransferMsg { token: balance.address.clone(), recipient: to.clone(), amount: balance.amount }
}

} // verus!
