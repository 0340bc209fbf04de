use vstd::prelude::*;

use crate::trust::error::ContractError;
use crate::trust::execute::{is_live, register_result};
use crate::trust::helpers::{trust_score, trust_score_atomics, MAX_SCORE, NANOS_PER_SECOND};
use crate::trust::state::{find_pending, Config, PendingReview, TrustData, TrustState};

verus! {

/// The score lies in `[0, 1500]` for every staked amount, staking streak
/// and rating, under any configuration with valid weights.
pub proof fn lemma_score_bounded(data: TrustData, config: Config)
    requires
        config.trust_score_params.valid(),
    ensures
        0 <= trust_score(data, config) <= MAX_SCORE,
        0 <= trust_score_atomics(data, config) <= 1_500_000_000_000_000_000_000,
{
}

/// A peer with a live pending review cannot get another one; once that
/// review has expired, registering again succeeds and replaces it.
pub proof fn lemma_one_live_review_per_peer(
    pending: PendingReview,
    pre: TrustState,
    sender: String,
    now: u64,
    peer: String,
    reviewer: String,
    order_id: u64,
)
    requires
        find_pending(pre.pending_reviews@, peer@) == Some(pending),
    ensures
        is_live(pending, now) ==> register_result(
            pre,
            sender,
            pre.config.commerce_code_id,
            now,
            peer,
            reviewer,
            order_id,
        ) == Err::<PendingReview, ContractError>(ContractError::AwaitingReview { reviewer }),
        now >= pending.expires_at ==> register_result(
            pre,
            sender,
            pre.config.commerce_code_id,
            now,
            peer,
            reviewer,
            order_id,
        ) == Ok::<PendingReview, ContractError>(
            PendingReview {
                peer,
                reviewer,
                commerce_contract: sender,
                order_id,
                expires_at: (now + pre.config.review_interval * NANOS_PER_SECOND) as u64,
            },
        ),
{
}

} // verus!
