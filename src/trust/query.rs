use vstd::prelude::*;

use crate::strings::{sort_strings, sorted_strings, string_views};
use crate::trust::execute::is_live;
use crate::trust::state::{
    find_account, find_account_index, find_pending, find_pending_index, Config, PendingReview,
    TrustAccount, TrustInfo, TrustState,
};

verus! {

pub fn query_config(state: &TrustState) -> (r: &Config)
    ensures
        *r == state.config,
{
    &state.config
}

pub fn query_trust_info(state: &TrustState, address: &String) -> (r: Option<TrustInfo>)
    requires
        state.wf(),
    ensures
        r == find_account(state.accounts@, address@),
{
    match find_account_index(&state.accounts, address) {
        Some(i) => Some(state.accounts[i].info),
        None => None,
    }
}

/// The addresses that have a trust record, in ascending order.
pub fn query_accounts(state: &TrustState) -> (r: Vec<String>)
    ensures
        string_views(r@) == sorted_strings(
            string_views(state.accounts@.map_values(|a: TrustAccount| a.address)),
        ),
{
    let ghost addresses = state.accounts@.map_values(|a: TrustAccount| a.address);
    let mut out: Vec<String> = Vec::new();
    let mut i: usize = 0;
    while i < state.accounts.len()
        invariant
            i <= state.accounts@.len(),
            addresses == state.accounts@.map_values(|a: TrustAccount| a.address),
            out@ == addresses.take(i as int),
        decreases state.accounts.len() - i,
    {
        out.push(state.accounts[i].address.clone());
        proof {
            assert(out@ =~= addresses.take(i + 1));
        }
        i += 1;
    }
    proof {
        assert(addresses.take(addresses.len() as int) =~= addresses);
    }
    sort_strings(out)
}

/// The live pending review of `peer` at time `now`; an expired one counts
/// as absent.
pub fn query_pending_review(state: &TrustState, now: u64, peer: &String) -> (r: Option<PendingReview>)
    requires
        state.wf(),
    ensures
        r == (match find_pending(state.pending_reviews@, peer@) {
            Some(p) => if is_live(p, now) {
                Some(p)
            } else {
                None
            },
            None => None,
        }),
{
    match find_pending_index(&state.pending_reviews, peer) {
        Some(i) => {
            if now < state.pending_reviews[i].expires_at {
                Some(state.pending_reviews[i].clone())
            } else {
                None
            }
        },
        None => None,
    }
}

/// The live pending reviews at time `now` that the given party is to write, in
/// the order they were registered.
pub fn query_pending_reviews_by_reviewer(state: &TrustState, now: u64, reviewer: &String) -> (r: Vec<
    PendingReview,
>)
    ensures
        r@ == state.pending_reviews@.filter(|p: PendingReview| p.reviewer@ == reviewer@ && is_live(p, now)),
{
    let ghost pred = |p: PendingReview| p.reviewer@ == reviewer@ && is_live(p, now);
    let ghost all = state.pending_reviews@;
    let mut out: Vec<PendingReview> = Vec::new();
    let mut i: usize = 0;
    while i < state.pending_reviews.len()
        invariant
            i <= all.len(),
            all == state.pending_reviews@,
            pred == (|p: PendingReview| p.reviewer@ == reviewer@ && is_live(p, now)),
            out@ == all.take(i as int).filter(pred),
        decreases state.pending_reviews.len() - i,
    {
        proof {
            assert(all.take(i + 1).drop_last() =~= all.take(i as int));
            assert(all.take(i + 1).last() == all[i as int]);
            reveal(Seq::filter);
        }
        let p = &state.pending_reviews[i];
        if p.reviewer == *reviewer && now < p.expires_at {
            out.push(p.clone());
        }
        i += 1;
    }
    proof {
        assert(all.take(all.len() as int) =~= all);
    }
    out
}

} // verus!
