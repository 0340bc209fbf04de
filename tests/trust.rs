use marketplace::commerce::contract::instantiate as instantiate_commerce;
use marketplace::commerce::execute::{
    execute_complete_order, execute_create_listing, execute_create_order, execute_update_order,
};
use marketplace::commerce::listing::{Attributes, ListingOption, ListingOptionItem, TokenAmount};
use marketplace::commerce::order::{OrderItem, OrderOption, OrderStatus, TrackingInfo};
use marketplace::commerce::util::Balance;
use marketplace::trust::contract::instantiate;
use marketplace::trust::error::{ContractError, RecordKind};
use marketplace::trust::execute::{
    execute_register_pending_review, execute_review, execute_update_config,
    execute_update_staking_info,
};
use marketplace::trust::helpers::calculate_trust_score;
use marketplace::trust::query::{
    query_accounts, query_pending_review, query_pending_reviews_by_reviewer, query_trust_info,
};
use marketplace::trust::state::{ReviewResult, TrustData, TrustScoreParams, TrustState};

const CW20: &str = "contract0";
const CW20_STAKE: &str = "contract1";
const TRUST: &str = "contract2";
const COMMERCE: &str = "contract3";
const ADMIN: &str = "admin";
const BUYER: &str = "buyer";
const COMMERCE_CODE_ID: u64 = 3;
const DAY: u64 = 86400;
const SECOND: u64 = 1_000_000_000;

fn params() -> TrustScoreParams {
    TrustScoreParams {
        base_score: 500,
        denom_multiplier: 1,
        rating_multiplier: 25,
        stake_amount_denominator: 10,
        min_stake_days: 1,
        rating_floor_denominator: 10,
    }
}

fn setup_trust() -> TrustState {
    instantiate(
        ADMIN.to_string(),
        ADMIN.to_string(),
        CW20_STAKE.to_string(),
        COMMERCE_CODE_ID,
        DAY,
        5000,
        240,
        params(),
        50,
    )
}

fn data(stake_days: u64, stake_amount: u128, rating: i64) -> TrustData {
    TrustData { stake_days, stake_amount, prev_stake_amount: 0, rating }
}

#[test]
fn try_complete_order() {
    let mut commerce = instantiate_commerce(
        vec![ADMIN.to_string()],
        CW20.to_string(),
        ADMIN.to_string(),
        TRUST.to_string(),
    );
    let mut trust = setup_trust();
    let options = vec![ListingOption::new(
        1,
        "SIZE",
        None,
        vec![
            ListingOptionItem::new("M", None, CW20.to_string()),
            ListingOptionItem::new("L", None, CW20.to_string()),
            ListingOptionItem::new("XL", Some(200u128), CW20.to_string()),
        ],
    )];
    let attributes = Attributes {
        name: String::from("WHITE TAPED SLEEVE T-SHIRT"),
        images: vec![String::from(
            "https://i.ibb.co/Dp3bbDT/image-b98a8387-b183-4339-bb73-609c119be18a-1600x.jpg",
        )],
        description: None,
    };
    let res = execute_create_listing(&mut commerce, &ADMIN.to_string(), true, 1000, attributes, options);
    assert!(res.is_ok());

    // Cost should be 2000
    let items = vec![OrderItem {
        listing_id: 1,
        options: vec![OrderOption {
            option_id: 1,
            selected_option: ListingOptionItem::new("M", None, CW20.to_string()),
        }],
        amount: 2,
    }];
    let mut buyer_balance: u128 = 5000;
    let paid = Balance::Cw20(TokenAmount { address: CW20.to_string(), amount: 2000 });
    let res = execute_create_order(&mut commerce, BUYER.to_string(), items, paid);
    assert!(res.is_ok());
    buyer_balance -= 2000;
    assert_eq!(buyer_balance, 3000);

    let tracking = Some(TrackingInfo {
        provider: String::from("CANADA POST"),
        url: String::from("https://canadapost.ca/tracking/test"),
    });
    let res = execute_update_order(&mut commerce, &ADMIN.to_string(), 1, OrderStatus::Shipped, tracking);
    assert!(res.is_ok());

    let err = execute_complete_order(&mut commerce, &BUYER.to_string(), 1);
    assert!(err.is_err());
    let res = execute_complete_order(&mut commerce, &ADMIN.to_string(), 1);
    assert!(res.is_ok());

    // The trust registry receives the review requests from the ledger.
    let now: u64 = 1_000 * SECOND;
    for msg in res.unwrap() {
        assert_eq!(msg.trust_contract, TRUST);
        let registered = execute_register_pending_review(
            &mut trust,
            &COMMERCE.to_string(),
            COMMERCE_CODE_ID,
            now,
            msg.peer,
            msg.reviewer,
            msg.order_id,
        );
        assert!(registered.is_ok());
    }
    let pending = query_pending_reviews_by_reviewer(&trust, now, &BUYER.to_string());
    println!("{:?}", pending);
    assert_eq!(pending.len(), 1);
    assert_eq!(pending[0].peer, ADMIN);

    // Buyer leaves a review to the seller
    let info = execute_review(&mut trust, &ADMIN.to_string(), ReviewResult::ThumbsUp);
    assert_eq!(info.data.rating, 1);
    let stored = query_trust_info(&trust, &ADMIN.to_string());
    println!("{:?}", stored);
    assert_eq!(stored, Some(info));
    assert!(query_pending_review(&trust, now, &ADMIN.to_string()).is_none());

    // Stake some tokens, then refresh the staking info
    let mut count = 0;
    loop {
        if count > 14 {
            break;
        }
        let res = execute_update_staking_info(&mut trust, &ADMIN.to_string(), &ADMIN.to_string(), Some(5));
        assert!(res.is_ok());
        count += 1;
    }
    let stored = query_trust_info(&trust, &ADMIN.to_string()).unwrap();
    println!("{:?}", stored);
    assert_eq!(stored.data.stake_days, 15);
    assert_eq!(stored.data.stake_amount, 5);
    assert_eq!(stored.data.prev_stake_amount, 5);
    assert_eq!(stored.score, 532_400_000_000_000_000_000);
}

#[test]
fn score_formula_exact_values() {
    let trust = setup_trust();
    let config = &trust.config;
    // 500 + 25 * 1 - 1 * (1 / 10)
    assert_eq!(calculate_trust_score(data(0, 0, 1), config), 524_900_000_000_000_000_000);
    // 500 - 25 * 3 + 1 * (3 / 10)
    assert_eq!(calculate_trust_score(data(0, 0, -3), config), 425_300_000_000_000_000_000);
    // 500 + (5 / 1 / 10) * 15
    assert_eq!(calculate_trust_score(data(15, 5, 0), config), 507_500_000_000_000_000_000);
    // The stake is clamped at 5000 tokens and 240 days: 500 + 500 * 240
    assert_eq!(calculate_trust_score(data(1000, 1_000_000, 0), config), 1_500_000_000_000_000_000_000);
    assert_eq!(calculate_trust_score(data(2, 5000, 0), config), 1_500_000_000_000_000_000_000);
    assert_eq!(calculate_trust_score(data(1, 5000, 0), config), 1_000_000_000_000_000_000_000);
}

#[test]
fn score_stays_within_bounds() {
    let trust = setup_trust();
    let config = &trust.config;
    assert_eq!(calculate_trust_score(data(0, 0, -100), config), 0);
    assert_eq!(calculate_trust_score(data(0, 0, i64::MIN), config), 0);
    assert_eq!(calculate_trust_score(data(0, 0, 100), config), 1_500_000_000_000_000_000_000);
    assert_eq!(calculate_trust_score(data(0, 0, i64::MAX), config), 1_500_000_000_000_000_000_000);
    let mut open = setup_trust();
    open.config.max_staked_tokens = u128::MAX;
    open.config.max_staked_days = u64::MAX;
    let huge = data(u64::MAX, u128::MAX, i64::MIN);
    assert_eq!(calculate_trust_score(huge, &open.config), 1_500_000_000_000_000_000_000);
    let score = calculate_trust_score(data(3, 77, -7), &open.config);
    assert!(score <= 1_500_000_000_000_000_000_000);
}

#[test]
fn live_pending_review_blocks_another() {
    let mut trust = setup_trust();
    let now: u64 = 50 * SECOND;
    let first = execute_register_pending_review(
        &mut trust,
        &COMMERCE.to_string(),
        COMMERCE_CODE_ID,
        now,
        "peer".to_string(),
        "alice".to_string(),
        1,
    )
    .unwrap();
    assert_eq!(first.expires_at, now + DAY * SECOND);
    assert_eq!(first.commerce_contract, COMMERCE);

    let later = now + DAY * SECOND - 1;
    let err = execute_register_pending_review(
        &mut trust,
        &COMMERCE.to_string(),
        COMMERCE_CODE_ID,
        later,
        "peer".to_string(),
        "bob".to_string(),
        2,
    );
    assert_eq!(err, Err(ContractError::AwaitingReview { reviewer: "bob".to_string() }));
    assert_eq!(query_pending_review(&trust, later, &"peer".to_string()), Some(first.clone()));

    let expired = now + DAY * SECOND;
    assert_eq!(query_pending_review(&trust, expired, &"peer".to_string()), None);
    let second = execute_register_pending_review(
        &mut trust,
        &COMMERCE.to_string(),
        COMMERCE_CODE_ID,
        expired,
        "peer".to_string(),
        "bob".to_string(),
        2,
    )
    .unwrap();
    assert_eq!(second.reviewer, "bob");
    assert_eq!(second.expires_at, expired + DAY * SECOND);
    assert_eq!(trust.pending_reviews.len(), 1);
    assert_eq!(query_pending_reviews_by_reviewer(&trust, expired, &"bob".to_string()), vec![second]);
    assert!(query_pending_reviews_by_reviewer(&trust, expired, &"alice".to_string()).is_empty());
}

#[test]
fn only_ledger_instances_register_reviews() {
    let mut trust = setup_trust();
    let err = execute_register_pending_review(
        &mut trust,
        &"stranger".to_string(),
        99,
        0,
        "peer".to_string(),
        "alice".to_string(),
        1,
    );
    assert_eq!(err, Err(ContractError::InvalidContract { expected_code_id: COMMERCE_CODE_ID }));
    assert!(trust.pending_reviews.is_empty());
}

#[test]
fn review_without_pending_slot_still_counts() {
    let mut trust = setup_trust();
    let info = execute_review(&mut trust, &"carol".to_string(), ReviewResult::ThumbsDown);
    assert_eq!(info.data, data(0, 0, -1));
    // 500 - 25 + 1 * (1 / 10)
    assert_eq!(info.score, 475_100_000_000_000_000_000);
    let info = execute_review(&mut trust, &"carol".to_string(), ReviewResult::ThumbsDown);
    assert_eq!(info.data.rating, -2);
    assert_eq!(query_accounts(&trust), vec!["carol".to_string()]);
}

#[test]
fn staking_info_errors() {
    let mut trust = setup_trust();
    assert_eq!(
        execute_update_staking_info(&mut trust, &BUYER.to_string(), &ADMIN.to_string(), Some(5)),
        Err(ContractError::Unauthorized)
    );
    assert_eq!(
        execute_update_staking_info(&mut trust, &ADMIN.to_string(), &ADMIN.to_string(), None),
        Err(ContractError::NotFound { kind: RecordKind::StakingAccount })
    );
    assert_eq!(
        execute_update_staking_info(&mut trust, &ADMIN.to_string(), &ADMIN.to_string(), Some(0)),
        Err(ContractError::NotFound { kind: RecordKind::StakingAccount })
    );
    assert_eq!(
        execute_update_staking_info(&mut trust, &ADMIN.to_string(), &ADMIN.to_string(), Some(5)),
        Err(ContractError::NotFound { kind: RecordKind::TrustAccount })
    );
    execute_review(&mut trust, &ADMIN.to_string(), ReviewResult::ThumbsUp);
    let info = execute_update_staking_info(&mut trust, &ADMIN.to_string(), &ADMIN.to_string(), Some(10)).unwrap();
    assert_eq!(info.data.stake_days, 1);
    // The stake shrinks below the previous observation: the streak restarts
    let info = execute_update_staking_info(&mut trust, &ADMIN.to_string(), &ADMIN.to_string(), Some(3)).unwrap();
    assert_eq!(info.data.stake_days, 2);
    let info = execute_update_staking_info(&mut trust, &ADMIN.to_string(), &ADMIN.to_string(), Some(4)).unwrap();
    assert_eq!(info.data.stake_days, 0);
    assert_eq!(info.data.prev_stake_amount, 3);
}

#[test]
fn config_update_needs_admin() {
    let mut trust = setup_trust();
    let res = execute_update_config(
        &mut trust,
        &BUYER.to_string(),
        BUYER.to_string(),
        BUYER.to_string(),
        CW20_STAKE.to_string(),
        1,
        1,
        1,
        1,
        1,
        params(),
    );
    assert_eq!(res, Err(ContractError::Unauthorized));
    let res = execute_update_config(
        &mut trust,
        &ADMIN.to_string(),
        ADMIN.to_string(),
        BUYER.to_string(),
        CW20_STAKE.to_string(),
        4,
        60,
        10,
        30,
        5,
        params(),
    );
    assert_eq!(res, Ok(()));
    assert_eq!(trust.config.maintainer, BUYER);
    assert_eq!(trust.config.review_interval, 60);
}

#[test]
fn accounts_are_listed_in_ascending_order() {
    let mut trust = setup_trust();
    execute_review(&mut trust, &"zed".to_string(), ReviewResult::ThumbsUp);
    execute_review(&mut trust, &"amy".to_string(), ReviewResult::ThumbsUp);
    execute_review(&mut trust, &"mia".to_string(), ReviewResult::ThumbsDown);
    assert_eq!(
        query_accounts(&trust),
        vec!["amy".to_string(), "mia".to_string(), "zed".to_string()]
    );
}
