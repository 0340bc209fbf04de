use marketplace::commerce::admins::AdminList;
use marketplace::commerce::contract::instantiate;
use marketplace::commerce::error::{ContractError, PaymentError, RecordKind};
use marketplace::commerce::execute::{
    execute_cancel_order, execute_complete_order, execute_create_listing, execute_create_order,
    execute_delete_listing, execute_refund_order, execute_update_listing, execute_update_order,
    execute_withdraw,
};
use marketplace::commerce::listing::{Attributes, ListingOption, ListingOptionItem, TokenAmount};
use marketplace::commerce::msg::ReviewRequestMsg;
use marketplace::commerce::order::{OrderItem, OrderOption, OrderStatus, TrackingInfo};
use marketplace::commerce::query::{
    query_locked_balance, query_order, query_order_cost, query_withdrawable_balance,
};
use marketplace::commerce::response::AdminListResponse;
use marketplace::commerce::state::CommerceState;
use marketplace::commerce::util::{eval_cost, Balance};

const CW20: &str = "contract0";
const TRUST: &str = "contract2";
const ADMIN: &str = "admin";
const BUYER: &str = "buyer";

fn setup_contract() -> CommerceState {
    instantiate(
        vec![ADMIN.to_string()],
        CW20.to_string(),
        ADMIN.to_string(),
        TRUST.to_string(),
    )
}

fn attributes() -> Attributes {
    Attributes {
        name: String::from("WHITE TAPED SLEEVE T-SHIRT"),
        images: vec![String::from(
            "https://i.ibb.co/Dp3bbDT/image-b98a8387-b183-4339-bb73-609c119be18a-1600x.jpg",
        )],
        description: None,
    }
}

fn size_options() -> Vec<ListingOption> {
    vec![ListingOption::new(
        1,
        "SIZE",
        None,
        vec![
            ListingOptionItem::new("M", None, CW20.to_string()),
            ListingOptionItem::new("L", None, CW20.to_string()),
            ListingOptionItem::new("XL", Some(200u128), CW20.to_string()),
        ],
    )]
}

fn create_listing(state: &mut CommerceState, sender: &str) -> Result<u64, ContractError> {
    execute_create_listing(state, &sender.to_string(), true, 1000, attributes(), size_options())
}

fn order_items(size: &str, cost: Option<u128>, amount: u64) -> Vec<OrderItem> {
    vec![OrderItem {
        listing_id: 1,
        options: vec![OrderOption {
            option_id: 1,
            selected_option: ListingOptionItem::new(size, cost, CW20.to_string()),
        }],
        amount,
    }]
}

fn pay(amount: u128) -> Balance {
    Balance::Cw20(TokenAmount { address: CW20.to_string(), amount })
}

fn tracking() -> Option<TrackingInfo> {
    Some(TrackingInfo {
        provider: String::from("CANADA POST"),
        url: String::from("https://canadapost.ca/tracking/test"),
    })
}

#[test]
fn proper_initialization() {
    let state = setup_contract();
    assert_eq!(state.admin_list.admins, vec![ADMIN.to_string()]);
    assert!(state.listings.is_empty());
    assert!(state.orders.is_empty());
}

#[test]
fn try_create_listing() {
    let mut state = setup_contract();
    let res = create_listing(&mut state, ADMIN);
    assert!(res.is_ok());
    let err = create_listing(&mut state, BUYER);
    assert!(err.is_err());
}

#[test]
fn try_update_listing() {
    let mut state = setup_contract();
    let res = create_listing(&mut state, ADMIN);
    assert!(res.is_ok());
    let res = execute_update_listing(
        &mut state,
        &ADMIN.to_string(),
        1,
        false,
        100,
        attributes(),
        size_options(),
    );
    assert!(res.is_ok());
    assert!(!state.listings[0].active);
    assert_eq!(state.listings[0].price.amount, 100);
    let err = execute_update_listing(
        &mut state,
        &BUYER.to_string(),
        1,
        false,
        100,
        attributes(),
        size_options(),
    );
    assert!(err.is_err());
}

#[test]
fn try_delete_listing() {
    let mut state = setup_contract();
    let res = create_listing(&mut state, ADMIN);
    assert!(res.is_ok());
    let res = execute_delete_listing(&mut state, &ADMIN.to_string(), 1);
    assert!(res.is_ok());
    let err = execute_delete_listing(&mut state, &BUYER.to_string(), 1);
    assert!(err.is_err());
}

#[test]
fn try_create_order() {
    let mut state = setup_contract();
    assert!(create_listing(&mut state, ADMIN).is_ok());
    let mut buyer_balance: u128 = 5000;

    // Cost should be 2000
    let res = execute_create_order(&mut state, BUYER.to_string(), order_items("M", None, 2), pay(2000));
    assert!(res.is_ok());
    buyer_balance -= 2000;
    assert_eq!(buyer_balance, 3000);
    assert_eq!(query_locked_balance(&state).unwrap().amount, 2000);

    // Too little is refused
    let err = execute_create_order(&mut state, BUYER.to_string(), order_items("M", None, 2), pay(1000));
    assert!(err.is_err());
}

#[test]
fn try_cancel_order() {
    let mut state = setup_contract();
    assert!(create_listing(&mut state, ADMIN).is_ok());
    let mut buyer_balance: u128 = 5000;
    let res = execute_create_order(&mut state, BUYER.to_string(), order_items("M", None, 2), pay(2000));
    assert!(res.is_ok());
    buyer_balance -= 2000;
    assert_eq!(buyer_balance, 3000);

    let refund = execute_cancel_order(&mut state, &BUYER.to_string(), 1);
    assert!(refund.is_ok());
    let refund = refund.unwrap();
    assert_eq!(refund.recipient, BUYER);
    assert_eq!(refund.token, CW20);

    let err = execute_cancel_order(&mut state, &"buyer2".to_string(), 1);
    assert!(err.is_err());

    buyer_balance += refund.amount;
    assert_eq!(buyer_balance, 5000);
}

#[test]
fn try_update_order() {
    let mut state = setup_contract();
    assert!(create_listing(&mut state, ADMIN).is_ok());
    let mut buyer_balance: u128 = 5000;
    let res = execute_create_order(&mut state, BUYER.to_string(), order_items("M", None, 2), pay(2000));
    assert!(res.is_ok());
    buyer_balance -= 2000;
    assert_eq!(buyer_balance, 3000);
    let err = execute_create_order(&mut state, BUYER.to_string(), order_items("M", None, 2), pay(1000));
    assert!(err.is_err());

    let res = execute_update_order(&mut state, &ADMIN.to_string(), 1, OrderStatus::Fulfilling, tracking());
    assert!(res.is_ok());
    let err = execute_update_order(&mut state, &"seller2".to_string(), 1, OrderStatus::Fulfilling, tracking());
    assert!(err.is_err());

    // The buyer cannot cancel an order that is being fulfilled
    let res = execute_cancel_order(&mut state, &BUYER.to_string(), 1);
    assert!(res.is_err());
}

#[test]
fn is_admin() {
    let admins: Vec<String> = vec!["bob", "paul", "john"].into_iter().map(String::from).collect();
    let config = AdminList { admins: admins.clone() };
    assert!(config.is_admin(&admins[0]));
    assert!(config.is_admin(&admins[2]));
    assert!(!config.is_admin(&"other".to_string()));
}

#[test]
fn cost_of_listing_with_option_surcharge() {
    let mut state = setup_contract();
    assert_eq!(create_listing(&mut state, ADMIN), Ok(1));
    let items = order_items("XL", Some(200), 2);
    assert_eq!(eval_cost(&state, &items), Ok(2400));

    let err = execute_create_order(&mut state, BUYER.to_string(), order_items("XL", Some(200), 2), pay(2399));
    assert_eq!(err, Err(ContractError::PaymentError(PaymentError::NoFunds)));
    let wrong_token = Balance::Cw20(TokenAmount { address: "other_token".to_string(), amount: 2400 });
    let err = execute_create_order(&mut state, BUYER.to_string(), order_items("XL", Some(200), 2), wrong_token);
    assert_eq!(err, Err(ContractError::PaymentError(PaymentError::MissingDenom(CW20.to_string()))));
    let err = execute_create_order(&mut state, BUYER.to_string(), order_items("XL", Some(200), 2), Balance::Native);
    assert_eq!(err, Err(ContractError::PaymentError(PaymentError::MissingDenom(CW20.to_string()))));
    assert!(state.orders.is_empty());

    let res = execute_create_order(&mut state, BUYER.to_string(), order_items("XL", Some(200), 2), pay(2400));
    assert_eq!(res, Ok(1));
    assert_eq!(query_order_cost(&state, 1), Ok(2400));
    assert_eq!(query_locked_balance(&state).unwrap().amount, 2400);
}

#[test]
fn complete_order_sends_review_requests() {
    let mut state = setup_contract();
    assert!(create_listing(&mut state, ADMIN).is_ok());
    assert_eq!(
        execute_create_order(&mut state, BUYER.to_string(), order_items("M", None, 2), pay(2000)),
        Ok(1)
    );
    // Not shipped yet
    assert_eq!(
        execute_complete_order(&mut state, &ADMIN.to_string(), 1),
        Err(ContractError::Unauthorized)
    );
    assert!(execute_update_order(&mut state, &ADMIN.to_string(), 1, OrderStatus::Shipped, tracking()).is_ok());
    assert_eq!(
        execute_complete_order(&mut state, &BUYER.to_string(), 1),
        Err(ContractError::Unauthorized)
    );
    let msgs = execute_complete_order(&mut state, &ADMIN.to_string(), 1).unwrap();
    assert_eq!(
        msgs,
        vec![
            ReviewRequestMsg {
                trust_contract: TRUST.to_string(),
                peer: ADMIN.to_string(),
                reviewer: BUYER.to_string(),
                order_id: 1,
            },
            ReviewRequestMsg {
                trust_contract: TRUST.to_string(),
                peer: BUYER.to_string(),
                reviewer: ADMIN.to_string(),
                order_id: 1,
            },
        ]
    );
    assert!(query_order(&state, 1).is_none());
    assert_eq!(query_locked_balance(&state).unwrap().amount, 0);
    assert_eq!(
        execute_complete_order(&mut state, &ADMIN.to_string(), 1),
        Err(ContractError::NotFound { kind: RecordKind::Order })
    );
}

#[test]
fn complete_order_with_two_admins() {
    let mut state = instantiate(
        vec!["seller1".to_string(), "seller2".to_string()],
        CW20.to_string(),
        ADMIN.to_string(),
        TRUST.to_string(),
    );
    assert!(create_listing(&mut state, "seller1").is_ok());
    assert!(execute_create_order(&mut state, BUYER.to_string(), order_items("M", None, 1), pay(1000)).is_ok());
    assert!(execute_update_order(&mut state, &"seller2".to_string(), 1, OrderStatus::Shipped, None).is_ok());
    let msgs = execute_complete_order(&mut state, &"seller2".to_string(), 1).unwrap();
    assert_eq!(msgs.len(), 3);
    assert_eq!(msgs[0].peer, "seller1");
    assert_eq!(msgs[1].peer, "seller2");
    assert_eq!(msgs[2].peer, BUYER);
    assert_eq!(msgs[2].reviewer, "seller1");
}

#[test]
fn status_cannot_move_backwards() {
    let mut state = setup_contract();
    assert!(create_listing(&mut state, ADMIN).is_ok());
    assert!(execute_create_order(&mut state, BUYER.to_string(), order_items("M", None, 1), pay(1000)).is_ok());
    assert!(execute_update_order(&mut state, &ADMIN.to_string(), 1, OrderStatus::Shipped, None).is_ok());
    let err = execute_update_order(&mut state, &ADMIN.to_string(), 1, OrderStatus::Fulfilling, tracking());
    assert_eq!(
        err,
        Err(ContractError::CustomError { val: "New status cannot be a previous status".to_string() })
    );
    assert_eq!(state.orders[0].status, OrderStatus::Shipped);
    assert_eq!(state.orders[0].tracking, None);
    assert!(execute_update_order(&mut state, &ADMIN.to_string(), 1, OrderStatus::Shipped, tracking()).is_ok());
    assert_eq!(state.orders[0].tracking, tracking());
    assert_eq!(
        execute_update_order(&mut state, &ADMIN.to_string(), 7, OrderStatus::Shipped, None),
        Err(ContractError::NotFound { kind: RecordKind::Order })
    );
}

#[test]
fn cancel_succeeds_once_for_buyer() {
    let mut state = setup_contract();
    assert!(create_listing(&mut state, ADMIN).is_ok());
    assert!(execute_create_order(&mut state, BUYER.to_string(), order_items("XL", Some(200), 1), pay(1200)).is_ok());
    assert_eq!(
        execute_cancel_order(&mut state, &ADMIN.to_string(), 1),
        Err(ContractError::Unauthorized)
    );
    let refund = execute_cancel_order(&mut state, &BUYER.to_string(), 1).unwrap();
    assert_eq!(refund.amount, 1200);
    assert_eq!(
        execute_cancel_order(&mut state, &BUYER.to_string(), 1),
        Err(ContractError::NotFound { kind: RecordKind::Order })
    );
}

#[test]
fn refund_ignores_status() {
    let mut state = setup_contract();
    assert!(create_listing(&mut state, ADMIN).is_ok());
    assert!(execute_create_order(&mut state, BUYER.to_string(), order_items("M", None, 3), pay(3000)).is_ok());
    assert!(execute_update_order(&mut state, &ADMIN.to_string(), 1, OrderStatus::Shipped, None).is_ok());
    assert_eq!(
        execute_refund_order(&mut state, &BUYER.to_string(), 1),
        Err(ContractError::Unauthorized)
    );
    let refund = execute_refund_order(&mut state, &ADMIN.to_string(), 1).unwrap();
    assert_eq!(refund.amount, 3000);
    assert_eq!(refund.recipient, BUYER);
    assert!(state.orders.is_empty());
}

#[test]
fn active_order_blocks_listing_changes() {
    let mut state = setup_contract();
    assert!(create_listing(&mut state, ADMIN).is_ok());
    assert!(execute_create_order(&mut state, BUYER.to_string(), order_items("M", None, 1), pay(1000)).is_ok());
    assert_eq!(
        execute_delete_listing(&mut state, &ADMIN.to_string(), 1),
        Err(ContractError::ActiveOrder)
    );
    assert_eq!(
        execute_update_listing(&mut state, &ADMIN.to_string(), 1, true, 1, attributes(), size_options()),
        Err(ContractError::ActiveOrder)
    );
    assert_eq!(
        execute_delete_listing(&mut state, &ADMIN.to_string(), 9),
        Err(ContractError::NotFound { kind: RecordKind::Listing })
    );
    assert!(execute_cancel_order(&mut state, &BUYER.to_string(), 1).is_ok());
    assert_eq!(execute_delete_listing(&mut state, &ADMIN.to_string(), 1), Ok(()));
    assert!(state.listings.is_empty());
}

#[test]
fn listing_ids_are_never_reused() {
    let mut state = setup_contract();
    assert_eq!(create_listing(&mut state, ADMIN), Ok(1));
    assert_eq!(create_listing(&mut state, ADMIN), Ok(2));
    assert_eq!(execute_delete_listing(&mut state, &ADMIN.to_string(), 2), Ok(()));
    assert_eq!(create_listing(&mut state, ADMIN), Ok(3));
}

#[test]
fn listing_validation_errors() {
    let mut state = setup_contract();
    let no_images = Attributes { name: "x".to_string(), description: None, images: vec![] };
    assert_eq!(
        execute_create_listing(&mut state, &ADMIN.to_string(), true, 10, no_images, vec![]),
        Err(ContractError::NotEnoughImages)
    );
    let foreign = vec![ListingOption::new(
        4,
        "COLOUR",
        Some("pick one"),
        vec![ListingOptionItem::new("RED", Some(5), "other_token".to_string())],
    )];
    assert_eq!(
        execute_create_listing(&mut state, &ADMIN.to_string(), true, 10, attributes(), foreign),
        Err(ContractError::PaymentError(PaymentError::MissingDenom(CW20.to_string())))
    );
    assert!(state.listings.is_empty());
}

#[test]
fn invalid_orders_are_refused() {
    let mut state = setup_contract();
    assert!(create_listing(&mut state, ADMIN).is_ok());
    let missing_listing = vec![OrderItem { listing_id: 5, options: vec![], amount: 1 }];
    assert_eq!(eval_cost(&state, &missing_listing), Err(ContractError::InvalidOrder));
    let missing_option = vec![OrderItem {
        listing_id: 1,
        options: vec![OrderOption {
            option_id: 9,
            selected_option: ListingOptionItem::new("M", None, CW20.to_string()),
        }],
        amount: 1,
    }];
    assert_eq!(eval_cost(&state, &missing_option), Err(ContractError::InvalidOrder));
    let huge = vec![OrderItem {
        listing_id: 1,
        options: vec![OrderOption {
            option_id: 1,
            selected_option: ListingOptionItem::new("XL", Some(u128::MAX - 10), CW20.to_string()),
        }],
        amount: 1,
    }];
    assert_eq!(eval_cost(&state, &huge), Err(ContractError::Overflow));
    let nothing = vec![OrderItem { listing_id: 1, options: vec![], amount: 0 }];
    assert_eq!(eval_cost(&state, &nothing), Ok(0));
    assert_eq!(eval_cost(&state, &vec![]), Ok(0));
}

#[test]
fn withdraw_only_the_surplus() {
    let mut state = setup_contract();
    assert!(create_listing(&mut state, ADMIN).is_ok());
    assert!(execute_create_order(&mut state, BUYER.to_string(), order_items("M", None, 2), pay(2000)).is_ok());
    assert_eq!(query_withdrawable_balance(&state, 2500).unwrap().amount, 500);
    assert_eq!(query_withdrawable_balance(&state, 1999), Err(ContractError::Overflow));
    assert_eq!(
        execute_withdraw(&state, 2500, Some(501)),
        Err(ContractError::PaymentError(PaymentError::NoFunds))
    );
    let msg = execute_withdraw(&state, 2500, Some(300)).unwrap();
    assert_eq!(msg.amount, 300);
    assert_eq!(msg.recipient, ADMIN);
    let all = execute_withdraw(&state, 2500, None).unwrap();
    assert_eq!(all.amount, 500);
    assert_eq!(all.token, CW20);
}

#[test]
fn canonical_sorts_and_dedups() {
    let list = AdminListResponse {
        admins: vec!["paul".to_string(), "bob".to_string(), "paul".to_string(), "amy".to_string()],
    };
    assert_eq!(
        list.canonical().admins,
        vec!["amy".to_string(), "bob".to_string(), "paul".to_string()]
    );
}
