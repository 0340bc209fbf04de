use vstd::prelude::*;

use crate::trust::error::{ContractError, RecordKind};
use crate::trust::helpers::{calculate_trust_score, plus_seconds, trust_score_atomics, NANOS_PER_SECOND};
use crate::trust::state::{
    find_account, find_account_index, find_pending, find_pending_index, lemma_push_pending,
    lemma_remove_pending, lemma_store_account, Config, PendingReview, ReviewResult, TrustAccount,
    TrustData, TrustInfo, TrustScoreParams, TrustState,
};

verus! {

/// Replaces the configuration; only the registry's admin may do so.
pub fn execute_update_config(
    state: &mut TrustState,
    sender: &String,
    admin: String,
    maintainer: String,
    staking_contract: String,
    commerce_code_id: u64,
    review_interval: u64,
    max_staked_tokens: u128,
    max_staked_days: u64,
    max_rating: u64,
    trust_score_params: TrustScoreParams,
) -> (r: Result<(), ContractError>)
    requires
        old(state).wf(),
        trust_score_params.valid(),
    ensures
        final(state).wf(),
        sender@ == old(state).config.admin@ ==> r is Ok && *final(state) == (TrustState {
            config: Config {
                admin,
                maintainer,
                staking_contract,
                commerce_code_id,
                review_interval,
                max_staked_tokens,
                max_staked_days,
                max_rating,
                trust_score_params,
            },
            ..*old(state)
        }),
        sender@ != old(state).config.admin@ ==> r == Err::<(), ContractError>(ContractError::Unauthorized)
            && *final(state) == *old(state),
{
    if *sender != state.config.admin {
        return Err(ContractError::Unauthorized);
    }
    state.config = Config {
        admin,
        maintainer,
        staking_contract,
        commerce_code_id,
        review_interval,
        max_staked_tokens,
        max_staked_days,
        max_rating,
        trust_score_params,
    };
    Ok(())
}

/// The staking data after observing `staked` tokens: the streak grows while
/// the amount does not fall below the previous observation, else restarts.
pub open spec fn restaked(data: TrustData, staked: u128) -> TrustData {
    TrustData {
        stake_days: if staked < data.prev_stake_amount {
            0
        } else {
            (data.stake_days + 1) as u64
        },
        stake_amount: staked,
        prev_stake_amount: data.stake_amount,
        rating: data.rating,
    }
}

/// Records a new observation of what `address` stakes, as reported by the
/// staking service (`None` when it has no account there), and recomputes the
/// score; only the maintainer may do so.
pub fn execute_update_staking_info(
    state: &mut TrustState,
    sender: &String,
    address: &String,
    staked: Option<u128>,
) -> (r: Result<TrustInfo, ContractError>)
    requires
        old(state).wf(),
        find_account(old(state).accounts@, address@) matches Some(info) ==> info.data.stake_days
            < u64::MAX,
    ensures
        final(state).wf(),
        r == (if sender@ != old(state).config.maintainer@ {
            Err(ContractError::Unauthorized)
        } else if staked is None || staked == Some(0u128) {
            Err(ContractError::NotFound { kind: RecordKind::StakingAccount })
        } else {
            match find_account(old(state).accounts@, address@) {
                None => Err(ContractError::NotFound { kind: RecordKind::TrustAccount }),
                Some(info) => {
                    let data = restaked(info.data, staked.unwrap());
                    Ok(TrustInfo { score: trust_score_atomics(data, old(state).config) as u128, data })
                },
            }
        }),
        r is Err ==> *final(state) == *old(state),
        r matches Ok(info) ==> find_account(final(state).accounts@, address@) == Some(info) && (forall|
            a: Seq<char>,
        |
            a != address@ ==> #[trigger] find_account(final(state).accounts@, a) == find_account(
                old(state).accounts@,
                a,
            )) && final(state).config == old(state).config && final(state).pending_reviews
            == old(state).pending_reviews,
{
    if *sender != state.config.maintainer {
        return Err(ContractError::Unauthorized);
    }
    let amount = match staked {
        Some(a) => a,
        None => {
            return Err(ContractError::NotFound { kind: RecordKind::StakingAccount });
        },
    };
    if amount == 0 {
        return Err(ContractError::NotFound { kind: RecordKind::StakingAccount });
    }
    let i = match find_account_index(&state.accounts, address) {
        Some(i) => i,
        None => {
            return Err(ContractError::NotFound { kind: RecordKind::TrustAccount });
        },
    };
    let current = state.accounts[i].info.data;
    let stake_days = if amount < current.prev_stake_amount {
        0
    } else {
        current.stake_days + 1
    };
    let data = TrustData {
        stake_days,
        stake_amount: amount,
        prev_stake_amount: current.stake_amount,
        rating: current.rating,
    };
    let score = calculate_trust_score(data, &state.config);
    let info = TrustInfo { score, data };
    let account = TrustAccount { address: address.clone(), info };
    proof {
        lemma_store_account(state.accounts@, state.accounts@.update(i as int, account), account);
    }
    state.accounts.set(i, account);
    Ok(info)
}

/// A pending review is live until its expiry time has come.
pub open spec fn is_live(p: PendingReview, now: u64) -> bool {
    now < p.expires_at
}

/// What registering a pending review gives: the caller must have the ledger
/// code id, and the peer may not have a live pending review.
pub open spec fn register_result(
    pre: TrustState,
    sender: String,
    sender_code_id: u64,
    now: u64,
    peer: String,
    reviewer: String,
    order_id: u64,
) -> Result<PendingReview, ContractError> {
    if sender_code_id != pre.config.commerce_code_id {
        Err(ContractError::InvalidContract { expected_code_id: pre.config.commerce_code_id })
    } else if find_pending(pre.pending_reviews@, peer@) matches Some(p) && is_live(p, now) {
        Err(ContractError::AwaitingReview { reviewer })
    } else {
        Ok(
            PendingReview {
                peer,
                reviewer,
                commerce_contract: sender,
                order_id,
                expires_at: (now + pre.config.review_interval * NANOS_PER_SECOND) as u64,
            },
        )
    }
}

/// Opens a pending review of `peer` by the named party, expiring one review
/// interval after `now`. The caller must be a ledger instance, which the
/// environment reports by its code id; a peer may have only one live
/// pending review, and an expired one is replaced.
pub fn execute_register_pending_review(
    state: &mut TrustState,
    sender: &String,
    sender_code_id: u64,
    now: u64,
    peer: String,
    reviewer: String,
    order_id: u64,
) -> (r: Result<PendingReview, ContractError>)
    requires
        old(state).wf(),
        now + old(state).config.review_interval * NANOS_PER_SECOND <= u64::MAX,
    ensures
        final(state).wf(),
        r == register_result(*old(state), *sender, sender_code_id, now, peer, reviewer, order_id),
        r is Err ==> *final(state) == *old(state),
        r matches Ok(p) ==> find_pending(final(state).pending_reviews@, peer@) == Some(p) && (forall|
            q: Seq<char>,
        |
            q != peer@ ==> #[trigger] find_pending(final(state).pending_reviews@, q) == find_pending(
                old(state).pending_reviews@,
                q,
            )) && final(state).config == old(state).config && final(state).accounts
            == old(state).accounts,
{
    if sender_code_id != state.config.commerce_code_id {
        return Err(ContractError::InvalidContract { expected_code_id: state.config.commerce_code_id });
    }
    match find_pending_index(&state.pending_reviews, &peer) {
        Some(i) => {
            if now < state.pending_reviews[i].expires_at {
                return Err(ContractError::AwaitingReview { reviewer });
            }
            proof {
                lemma_remove_pending(state.pending_reviews@, i as int);
            }
            state.pending_reviews.remove(i);
        },
        None => {},
    }
    let ghost mid = state.pending_reviews@;
    let expires_at = plus_seconds(now, state.config.review_interval);
    let pending = PendingReview {
        peer,
        reviewer,
        commerce_contract: sender.clone(),
        order_id,
        expires_at,
    };
    proof {
        lemma_push_pending(mid, pending);
    }
    state.pending_reviews.push(pending.clone());
    Ok(pending)
}

/// The rating after a review.
pub open spec fn reviewed(data: TrustData, review: ReviewResult) -> TrustData {
    TrustData { rating: (data.rating + review.delta()) as i64, ..data }
}

/// The trust data of a peer that has no record yet.
pub open spec fn fresh_data() -> TrustData {
    TrustData { stake_days: 0, stake_amount: 0, prev_stake_amount: 0, rating: 0 }
}

/// Settles a review of `address`: its rating moves by the review's delta
/// (from zero for a peer without a record), its score is recomputed, and its
/// pending review, live or expired, is removed.
pub fn execute_review(state: &mut TrustState, address: &String, review: ReviewResult) -> (r: TrustInfo)
    requires
        old(state).wf(),
        find_account(old(state).accounts@, address@) matches Some(info) ==> i64::MIN <= info.data.rating
            + review.delta() <= i64::MAX,
    ensures
        final(state).wf(),
        r.data == reviewed(
            match find_account(old(state).accounts@, address@) {
                Some(info) => info.data,
                None => fresh_data(),
            },
            review,
        ),
        r.score == trust_score_atomics(r.data, old(state).config),
        find_account(final(state).accounts@, address@) == Some(r),
        forall|a: Seq<char>|
            a != address@ ==> #[trigger] find_account(final(state).accounts@, a) == find_account(
                old(state).accounts@,
                a,
            ),
        find_pending(final(state).pending_reviews@, address@) is None,
        forall|q: Seq<char>|
            q != address@ ==> #[trigger] find_pending(final(state).pending_reviews@, q) == find_pending(
                old(state).pending_reviews@,
                q,
            ),
        final(state).config == old(state).config,
{
    let delta: i64 = match review {
        ReviewResult::ThumbsUp => 1,
        ReviewResult::ThumbsDown => -1,
    };
    let index = find_account_index(&state.accounts, address);
    let current = match index {
        Some(i) => state.accounts[i].info.data,
        None => TrustData { stake_days: 0, stake_amount: 0, prev_stake_amount: 0, rating: 0 },
    };
    let data = TrustData { rating: current.rating + delta, ..current };
    let score = calculate_trust_score(data, &state.config);
    let info = TrustInfo { score, data };
    let account = TrustAccount { address: address.clone(), info };
    match index {
        Some(i) => {
            proof {
                lemma_store_account(state.accounts@, state.accounts@.update(i as int, account), account);
            }
            state.accounts.set(i, account);
        },
        None => {
            proof {
                lemma_store_account(state.accounts@, state.accounts@.push(account), account);
            }
            state.accounts.push(account);
        },
    }
    match find_pending_index(&state.pending_reviews, address) {
        Some(j) => {
            proof {
                lemma_remove_pending(state.pending_reviews@, j as int);
            }
            state.pending_reviews.remove(j);
        },
        None => {},
    }
    info
}

} // verus!
