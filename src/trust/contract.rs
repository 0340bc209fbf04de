use vstd::prelude::*;

use crate::trust::state::{Config, TrustScoreParams, TrustState};

verus! {

/// A fresh registry administered by `admin`, with no records.
pub fn instantiate(
    admin: String,
    maintainer: String,
    staking_contract: String,
    commerce_code_id: u64,
    review_interval: u64,
    max_staked_tokens: u128,
    max_staked_days: u64,
    trust_score_params: TrustScoreParams,
    max_rating: u64,
) -> (r: TrustState)
    requires
        trust_score_params.valid(),
    ensures
        r.wf(),
        r.config == (Config {
            admin,
            maintainer,
            staking_contract,
            commerce_code_id,
            review_interval,
            max_staked_tokens,
            max_staked_days,
            max_rating,
            trust_score_params,
        }),
        r.accounts@.len() == 0,
        r.pending_reviews@.len() == 0,
{
    TrustState {
        config: Config {
            admin,
            maintainer,
            staking_contract,
            commerce_code_id,
            review_interval,
            max_staked_tokens,
            max_staked_days,
            max_rating,
            trust_score_params,
        },
        accounts: Vec::new(),
        pending_reviews: Vec::new(),
    }
}

} // verus!
