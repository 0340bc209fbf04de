use vstd::prelude::*;

use crate::commerce::admins::AdminList;
use crate::commerce::config::{Config, Marketing};
use crate::commerce::listing::Listing;
use crate::commerce::order::Order;
use crate::commerce::order::OrderItem;
use crate::commerce::util::{listing_in_use, order_refers_to, eval_cost_spec, lemma_items_cost_prefix, item_cost, item_valid, items_cost, items_valid};

verus! {

/// Everything the catalog and the ledger own: the two record tables, kept
/// in ascending id order, and the counters that hand out their ids.
#[derive(Debug)]
pub struct CommerceState {
    pub config: Config,
    pub admin_list: AdminList,
    pub marketing: Option<Marketing>,
    pub listings: Vec<Listing>,
    pub orders: Vec<Order>,
    pub listing_id_counter: u64,
    pub order_id_counter: u64,
}

/// The listing with the given id, if the table holds one.
pub open spec fn find_listing(ls: Seq<Listing>, id: u64) -> Option<Listing> {
    if exists|i: int| 0 <= i < ls.len() && ls[i].id == id {
        Some(ls[choose|i: int| 0 <= i < ls.len() && ls[i].id == id])
    } else {
        None
    }
}

/// The order with the given id, if the table holds one.
pub open spec fn find_order(os: Seq<Order>, id: u64) -> Option<Order> {
    if exists|i: int| 0 <= i < os.len() && os[i].id == id {
        Some(os[choose|i: int| 0 <= i < os.len() && os[i].id == id])
    } else {
        None
    }
}

/// Listing ids are strictly ascending, and none is above the counter.
pub open spec fn listings_ordered(ls: Seq<Listing>, counter: u64) -> bool {
    &&& forall|i: int, j: int| 0 <= i < j < ls.len() ==> ls[i].id < ls[j].id
    &&& forall|i: int| 0 <= i < ls.len() ==> 1 <= #[trigger] ls[i].id <= counter
}

/// Order ids are strictly ascending, and none is above the counter.
pub open spec fn orders_ordered(os: Seq<Order>, counter: u64) -> bool {
    &&& forall|i: int, j: int| 0 <= i < j < os.len() ==> os[i].id < os[j].id
    &&& forall|i: int| 0 <= i < os.len() ==> 1 <= #[trigger] os[i].id <= counter
}

/// Sum of the costs of the given orders, priced against the listings.
pub open spec fn orders_cost(ls: Seq<Listing>, os: Seq<Order>) -> int
    decreases os.len(),
{
    if os.len() == 0 {
        0
    } else {
        orders_cost(ls, os.drop_last()) + items_cost(ls, os.last().items@)
    }
}

/// The locked balance grew by no more than the step took in, less what it
/// paid out, in the settlement token.
pub open spec fn escrow_step(pre: CommerceState, post: CommerceState, received: int, sent: int) -> bool {
    post.locked() + sent <= pre.locked() + received
}

impl CommerceState {
    /// The tables are ordered by id, and every live order can still be
    /// priced: its listings and options exist and its cost fits in 128 bits.
    pub open spec fn wf(&self) -> bool {
        &&& listings_ordered(self.listings@, self.listing_id_counter)
        &&& orders_ordered(self.orders@, self.order_id_counter)
        &&& orders_priced(self.listings@, self.orders@)
    }

    /// The balance locked in escrow: what all live orders cost.
    pub open spec fn locked(&self) -> int {
        orders_cost(self.listings@, self.orders@)
    }
}

/// Position of the listing with the given id.
pub fn find_listing_index(ls: &Vec<Listing>, id: u64) -> (r: Option<usize>)
    requires
        forall|i: int, j: int| 0 <= i < j < ls@.len() ==> ls@[i].id < ls@[j].id,
    ensures
        match r {
            Some(i) => i < ls@.len() && ls@[i as int].id == id && find_listing(ls@, id) == Some(
                ls@[i as int],
            ),
            None => find_listing(ls@, id) is None,
        },
{
    let mut i: usize = 0;
    while i < ls.len()
        invariant
            i <= ls@.len(),
            forall|a: int, b: int| 0 <= a < b < ls@.len() ==> ls@[a].id < ls@[b].id,
            forall|k: int| 0 <= k < i ==> ls@[k].id != id,
        decreases ls.len() - i,
    {
        if ls[i].id == id {
            proof {
                assert(0 <= i < ls@.len() && ls@[i as int].id == id);
                assert(exists|k: int| 0 <= k < ls@.len() && ls@[k].id == id);
                let c = choose|k: int| 0 <= k < ls@.len() && ls@[k].id == id;
                assert(c == i) by {
                    if c < i {
                    } else if c > i {
                        assert(ls@[i as int].id < ls@[c].id);
                    }
                }
            }
            return Some(i);
        }
        i += 1;
    }
    None
}

/// Position of the order with the given id.
pub fn find_order_index(os: &Vec<Order>, id: u64) -> (r: Option<usize>)
    requires
        forall|i: int, j: int| 0 <= i < j < os@.len() ==> os@[i].id < os@[j].id,
    ensures
        match r {
            Some(i) => i < os@.len() && os@[i as int].id == id && find_order(os@, id) == Some(
                os@[i as int],
            ),
            None => find_order(os@, id) is None,
        },
{
    let mut i: usize = 0;
    while i < os.len()
        invariant
            i <= os@.len(),
            forall|a: int, b: int| 0 <= a < b < os@.len() ==> os@[a].id < os@[b].id,
            forall|k: int| 0 <= k < i ==> os@[k].id != id,
        decreases os.len() - i,
    {
        if os[i].id == id {
            proof {
                assert(0 <= i < os@.len() && os@[i as int].id == id);
                assert(exists|k: int| 0 <= k < os@.len() && os@[k].id == id);
                let c = choose|k: int| 0 <= k < os@.len() && os@[k].id == id;
                assert(c == i) by {
                    if c < i {
                    } else if c > i {
                        assert(os@[i as int].id < os@[c].id);
                    }
                }
            }
            return Some(i);
        }
        i += 1;
    }
    None
}

/// No two listings share an id.
pub open spec fn listing_ids_unique(ls: Seq<Listing>) -> bool {
    forall|a: int, b: int| 0 <= a < ls.len() && 0 <= b < ls.len() && a != b ==> ls[a].id != ls[b].id
}

pub proof fn lemma_find_listing_at(ls: Seq<Listing>, k: int)
    requires
        listing_ids_unique(ls),
        0 <= k < ls.len(),
    ensures
        find_listing(ls, ls[k].id) == Some(ls[k]),
{
    let id = ls[k].id;
    assert(exists|i: int| 0 <= i < ls.len() && ls[i].id == id);
    let c = choose|i: int| 0 <= i < ls.len() && ls[i].id == id;
    assert(c == k);
}

/// Item costs depend on the listings only through the listings they name.
proof fn lemma_items_agree(ls1: Seq<Listing>, ls2: Seq<Listing>, items: Seq<OrderItem>)
    requires
        forall|k: int|
            0 <= k < items.len() ==> find_listing(ls1, (#[trigger] items[k]).listing_id) == find_listing(
                ls2,
                items[k].listing_id,
            ),
    ensures
        items_valid(ls1, items) == items_valid(ls2, items),
        items_cost(ls1, items) == items_cost(ls2, items),
        eval_cost_spec(ls1, items) == eval_cost_spec(ls2, items),
    decreases items.len(),
{
    assert forall|k: int| 0 <= k < items.len() implies item_valid(ls1, #[trigger] items[k]) == item_valid(
        ls2,
        items[k],
    ) by {}
    if items.len() > 0 {
        let init = items.drop_last();
        assert forall|k: int| 0 <= k < init.len() implies find_listing(ls1, (#[trigger] init[k]).listing_id)
            == find_listing(ls2, init[k].listing_id) by {
            assert(init[k] == items[k]);
        }
        lemma_items_agree(ls1, ls2, init);
        assert(items.last() == items[items.len() - 1]);
        assert(item_cost(ls1, items.last()) == item_cost(ls2, items.last()));
    }
}

/// Every listing an order names is found the same way in both tables.
pub open spec fn orders_priced_alike(ls1: Seq<Listing>, ls2: Seq<Listing>, os: Seq<Order>) -> bool {
    forall|i: int, k: int|
        0 <= i < os.len() && 0 <= k < os[i].items@.len() ==> find_listing(
            ls1,
            (#[trigger] os[i].items@[k]).listing_id,
        ) == find_listing(ls2, os[i].items@[k].listing_id)
}

/// Orders whose listings are found alike cost the same under both tables.
pub proof fn lemma_orders_agree(ls1: Seq<Listing>, ls2: Seq<Listing>, os: Seq<Order>)
    requires
        orders_priced_alike(ls1, ls2, os),
    ensures
        forall|i: int|
            0 <= i < os.len() ==> eval_cost_spec(ls1, (#[trigger] os[i]).items@) == eval_cost_spec(
                ls2,
                os[i].items@,
            ),
        orders_cost(ls1, os) == orders_cost(ls2, os),
    decreases os.len(),
{
    assert forall|i: int| 0 <= i < os.len() implies eval_cost_spec(ls1, (#[trigger] os[i]).items@)
        == eval_cost_spec(ls2, os[i].items@) by {
        let items = os[i].items@;
        assert forall|k: int| 0 <= k < items.len() implies find_listing(ls1, (#[trigger] items[k]).listing_id)
            == find_listing(ls2, items[k].listing_id) by {
            assert(os[i].items@[k] == items[k]);
        }
        lemma_items_agree(ls1, ls2, items);
    }
    if os.len() > 0 {
        let init = os.drop_last();
        assert forall|i: int, k: int| 0 <= i < init.len() && 0 <= k < init[i].items@.len() implies find_listing(
            ls1,
            (#[trigger] init[i].items@[k]).listing_id,
        ) == find_listing(ls2, init[i].items@[k].listing_id) by {
            assert(init[i] == os[i]);
        }
        lemma_orders_agree(ls1, ls2, init);
        let items = os.last().items@;
        assert forall|k: int| 0 <= k < items.len() implies find_listing(ls1, (#[trigger] items[k]).listing_id)
            == find_listing(ls2, items[k].listing_id) by {
            assert(os[os.len() - 1].items@[k] == items[k]);
        }
        lemma_items_agree(ls1, ls2, items);
    }
}

/// Removing one order takes its cost off the sum.
pub proof fn lemma_orders_cost_remove(ls: Seq<Listing>, os: Seq<Order>, i: int)
    requires
        0 <= i < os.len(),
    ensures
        orders_cost(ls, os.remove(i)) == orders_cost(ls, os) - items_cost(ls, os[i].items@),
    decreases os.len(),
{
    if i == os.len() - 1 {
        assert(os.remove(i) =~= os.drop_last());
    } else {
        lemma_orders_cost_remove(ls, os.drop_last(), i);
        assert(os.remove(i).drop_last() =~= os.drop_last().remove(i));
        assert(os.remove(i).last() == os.last());
    }
}

/// Replacing an order by one with the same items keeps the sum.
pub proof fn lemma_orders_cost_update(ls: Seq<Listing>, os: Seq<Order>, i: int, o: Order)
    requires
        0 <= i < os.len(),
        o.items == os[i].items,
    ensures
        orders_cost(ls, os.update(i, o)) == orders_cost(ls, os),
    decreases os.len(),
{
    if i == os.len() - 1 {
        assert(os.update(i, o).drop_last() =~= os.drop_last());
    } else {
        lemma_orders_cost_update(ls, os.drop_last(), i, o);
        assert(os.update(i, o).drop_last() =~= os.drop_last().update(i, o));
    }
}

/// A prefix of the orders costs no more than all of them.
pub proof fn lemma_orders_cost_prefix(ls: Seq<Listing>, os: Seq<Order>, i: int)
    requires
        0 <= i <= os.len(),
    ensures
        0 <= orders_cost(ls, os.take(i)) <= orders_cost(ls, os),
    decreases os.len(),
{
    if os.len() > 0 {
        lemma_items_cost_prefix(ls, os.last().items@, os.last().items@.len() as int);
        lemma_orders_cost_prefix(ls, os.drop_last(), os.len() - 1);
        assert(os.drop_last().take(os.len() - 1) =~= os.drop_last());
        if i == os.len() {
            assert(os.take(i) =~= os);
        } else {
            lemma_orders_cost_prefix(ls, os.drop_last(), i);
            assert(os.drop_last().take(i) =~= os.take(i));
        }
    }
}

/// Every live order can be priced against the listings.
pub open spec fn orders_priced(ls: Seq<Listing>, os: Seq<Order>) -> bool {
    forall|i: int| 0 <= i < os.len() ==> (#[trigger] eval_cost_spec(ls, os[i].items@)) is Ok
}

/// Every listing that a priced order names is in the table.
proof fn lemma_priced_orders_name_listings(ls: Seq<Listing>, os: Seq<Order>, i: int, k: int)
    requires
        orders_priced(ls, os),
        0 <= i < os.len(),
        0 <= k < os[i].items@.len(),
    ensures
        exists|j: int| 0 <= j < ls.len() && ls[j].id == os[i].items@[k].listing_id,
{
    assert(eval_cost_spec(ls, os[i].items@) is Ok);
    assert(item_valid(ls, os[i].items@[k]));
}

/// Appending a listing with a fresh id leaves the table ordered and every
/// live order priced as before.
pub proof fn lemma_push_listing(ls: Seq<Listing>, counter: u64, x: Listing, os: Seq<Order>)
    requires
        listings_ordered(ls, counter),
        x.id == counter + 1,
        orders_priced(ls, os),
    ensures
        listings_ordered(ls.push(x), x.id),
        orders_priced_alike(ls, ls.push(x), os),
{
    let ls2 = ls.push(x);
    assert forall|i: int, k: int| 0 <= i < os.len() && 0 <= k < os[i].items@.len() implies find_listing(
        ls,
        (#[trigger] os[i].items@[k]).listing_id,
    ) == find_listing(ls2, os[i].items@[k].listing_id) by {
        lemma_priced_orders_name_listings(ls, os, i, k);
        let j = choose|j: int| 0 <= j < ls.len() && ls[j].id == os[i].items@[k].listing_id;
        lemma_find_listing_at(ls, j);
        assert(ls2[j] == ls[j]);
        lemma_find_listing_at(ls2, j);
    }
}

/// Replacing a listing that no live order names, keeping its id, leaves the
/// table ordered and every live order priced as before.
pub proof fn lemma_update_listing(ls: Seq<Listing>, counter: u64, i: int, y: Listing, os: Seq<Order>)
    requires
        listings_ordered(ls, counter),
        0 <= i < ls.len(),
        y.id == ls[i].id,
        orders_priced(ls, os),
        !listing_in_use(os, ls[i].id),
    ensures
        listings_ordered(ls.update(i, y), counter),
        orders_priced_alike(ls, ls.update(i, y), os),
{
    let ls2 = ls.update(i, y);
    assert forall|a: int, k: int| 0 <= a < os.len() && 0 <= k < os[a].items@.len() implies find_listing(
        ls,
        (#[trigger] os[a].items@[k]).listing_id,
    ) == find_listing(ls2, os[a].items@[k].listing_id) by {
        lemma_priced_orders_name_listings(ls, os, a, k);
        let j = choose|j: int| 0 <= j < ls.len() && ls[j].id == os[a].items@[k].listing_id;
        if j == i {
            assert(order_refers_to(os[a], ls[i].id));
        }
        lemma_find_listing_at(ls, j);
        assert(ls2[j] == ls[j]);
        lemma_find_listing_at(ls2, j);
    }
}

/// Removing a listing that no live order names leaves the table ordered and
/// every live order priced as before.
pub proof fn lemma_remove_listing(ls: Seq<Listing>, counter: u64, i: int, os: Seq<Order>)
    requires
        listings_ordered(ls, counter),
        0 <= i < ls.len(),
        orders_priced(ls, os),
        !listing_in_use(os, ls[i].id),
    ensures
        listings_ordered(ls.remove(i), counter),
        orders_priced_alike(ls, ls.remove(i), os),
{
    let ls2 = ls.remove(i);
    assert forall|a: int, b: int| 0 <= a < b < ls2.len() implies ls2[a].id < ls2[b].id by {
        if a >= i {
        } else if b >= i {
            assert(ls2[b] == ls[b + 1]);
        }
    }
    assert forall|a: int, k: int| 0 <= a < os.len() && 0 <= k < os[a].items@.len() implies find_listing(
        ls,
        (#[trigger] os[a].items@[k]).listing_id,
    ) == find_listing(ls2, os[a].items@[k].listing_id) by {
        lemma_priced_orders_name_listings(ls, os, a, k);
        let j = choose|j: int| 0 <= j < ls.len() && ls[j].id == os[a].items@[k].listing_id;
        if j == i {
            assert(order_refers_to(os[a], ls[i].id));
        }
        lemma_find_listing_at(ls, j);
        if j < i {
            assert(ls2[j] == ls[j]);
            lemma_find_listing_at(ls2, j);
        } else {
            assert(ls2[j - 1] == ls[j]);
            lemma_find_listing_at(ls2, j - 1);
        }
    }
}

/// Removing an order leaves the order table ordered and priced.
pub proof fn lemma_remove_order(ls: Seq<Listing>, os: Seq<Order>, counter: u64, i: int)
    requires
        orders_ordered(os, counter),
        orders_priced(ls, os),
        0 <= i < os.len(),
    ensures
        orders_ordered(os.remove(i), counter),
        orders_priced(ls, os.remove(i)),
        find_order(os.remove(i), os[i].id) is None,
{
    let os2 = os.remove(i);
    assert forall|a: int, b: int| 0 <= a < b < os2.len() implies os2[a].id < os2[b].id by {
        if a >= i {
        } else if b >= i {
            assert(os2[b] == os[b + 1]);
        }
    }
    assert forall|a: int| 0 <= a < os2.len() implies (#[trigger] eval_cost_spec(ls, os2[a].items@)) is Ok by {
        if a < i {
            assert(os2[a] == os[a]);
        } else {
            assert(os2[a] == os[a + 1]);
        }
    }
    assert forall|a: int| 0 <= a < os2.len() implies os2[a].id != os[i].id by {
        if a < i {
            assert(os2[a] == os[a]);
        } else {
            assert(os2[a] == os[a + 1]);
        }
    }
}

/// Replacing an order by one with the same id and items leaves the order
/// table ordered and priced.
pub proof fn lemma_update_order(ls: Seq<Listing>, os: Seq<Order>, counter: u64, i: int, o: Order)
    requires
        orders_ordered(os, counter),
        orders_priced(ls, os),
        0 <= i < os.len(),
        o.id == os[i].id,
        o.items == os[i].items,
    ensures
        orders_ordered(os.update(i, o), counter),
        orders_priced(ls, os.update(i, o)),
{
    let os2 = os.update(i, o);
    assert forall|a: int| 0 <= a < os2.len() implies (#[trigger] eval_cost_spec(ls, os2[a].items@)) is Ok by {
        if a != i {
            assert(os2[a] == os[a]);
        }
    }
}

} // verus!
