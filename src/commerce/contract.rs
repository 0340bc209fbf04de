use vstd::prelude::*;

use crate::commerce::admins::AdminList;
use crate::commerce::config::Config;
use crate::commerce::state::CommerceState;

verus! {

/// A fresh catalog and ledger: no listings, no orders, both counters at 0.
pub fn instantiate(admins: Vec<String>, denom: String, withdrawal_address: String, trust_contract: String) -> (r:
    CommerceState)
    ensures
        r.wf(),
        r.admin_list == (AdminList { admins }),
        r.config == (Config { denom, withdrawal_address, trust_contract }),
        r.marketing is None,
        r.listings@.len() == 0,
        r.orders@.len() == 0,
        r.listing_id_counter == 0,
        r.order_id_counter == 0,
        r.locked() == 0,
{
    CommerceState {
        config: Config { denom, withdrawal_address, trust_contract },
        admin_list: AdminList { admins },
        marketing: None,
        listings: Vec::new(),
        orders: Vec::new(),
        listing_id_counter: 0,
        order_id_counter: 0,
    }
}

} // verus!
