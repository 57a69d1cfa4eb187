//! End-to-end tests of the exchange operations, one per operation, walking the
//! same scenarios a contract integration suite would: every rejection in
//! order, then the successful path with its state changes and transfers.

use std::collections::VecDeque;

use limit_orders::calculate_fee;
use limit_orders::errors::Error;
use limit_orders::exchange::Exchange;
use limit_orders::padding::PREFIX_CANCEL_RECORDS;
use limit_orders::state::{BlockInfo, Hop, RouteState, Transfer};

// Actor and asset ids used across the tests.
const ADMIN: u64 = 1;
const CONTRACT: u64 = 2;
const USER: u64 = 7;
const BUTT: u64 = 10;
const SSCRT: u64 = 11;
const TOKEN: u64 = 20;

const MOCK_AMOUNT: u128 = 1_000_000_000_000;
const EXECUTION_FEE: u128 = 5_555;

fn mock_env() -> BlockInfo {
    BlockInfo { height: 12_345, time: 1_571_797_419 }
}

fn init_helper(register_tokens: bool) -> Exchange {
    let mut ex = Exchange::init(ADMIN, CONTRACT, BUTT, EXECUTION_FEE, SSCRT);
    if register_tokens {
        ex.register_tokens(ADMIN, &vec![BUTT, TOKEN]).unwrap();
    }
    ex
}

fn create_order_helper(ex: &mut Exchange) {
    ex.create_order(mock_env(), BUTT, USER, MOCK_AMOUNT, MOCK_AMOUNT, MOCK_AMOUNT, TOKEN)
        .unwrap();
}

#[test]
fn test_set_execution_fee_for_order() {
    let mut ex = init_helper(true);
    let env = mock_env();

    // when token sent in is not the fee token: it raises an error
    assert_eq!(
        ex.set_execution_fee_for_order(env, BUTT, USER, 1).unwrap_err(),
        Error::WrongExecutionFeeToken
    );

    // when token sent in is the fee token but the amount is wrong
    assert_eq!(
        ex.set_execution_fee_for_order(env, SSCRT, USER, 1).unwrap_err(),
        Error::WrongExecutionFeeAmount
    );
    // when the user does not have any orders
    assert_eq!(
        ex.set_execution_fee_for_order(env, SSCRT, USER, EXECUTION_FEE).unwrap_err(),
        Error::OrderDoesNotExist
    );

    // when the user has at least one order, created in the current block
    create_order_helper(&mut ex);
    // when the order has a fee set already
    let mut creator_order = ex.order_at_position(USER, 0).unwrap();
    creator_order.execution_fee = Some(1);
    ex.update_creator_order_and_associated_contract_order(creator_order);
    assert_eq!(
        ex.set_execution_fee_for_order(env, SSCRT, USER, EXECUTION_FEE).unwrap_err(),
        Error::ExecutionFeeAlreadySet
    );
    // when the order is cancelled
    creator_order.execution_fee = None;
    creator_order.cancelled = true;
    ex.update_creator_order_and_associated_contract_order(creator_order);
    assert_eq!(
        ex.set_execution_fee_for_order(env, SSCRT, USER, EXECUTION_FEE).unwrap_err(),
        Error::OrderAlreadyCancelled
    );
    // when the order is filled
    creator_order.cancelled = false;
    creator_order.from_amount_filled = creator_order.from_amount;
    ex.update_creator_order_and_associated_contract_order(creator_order);
    assert_eq!(
        ex.set_execution_fee_for_order(env, SSCRT, USER, EXECUTION_FEE).unwrap_err(),
        Error::OrderAlreadyFilled
    );
    // when the order is open: it sets the fee on both mirrored copies and
    // returns the updated creator order
    creator_order.from_amount_filled = 0;
    ex.update_creator_order_and_associated_contract_order(creator_order);
    let returned = ex
        .set_execution_fee_for_order(env, SSCRT, USER, EXECUTION_FEE)
        .unwrap();
    let creator_order = ex.order_at_position(USER, 0).unwrap();
    assert_eq!(creator_order.execution_fee, Some(EXECUTION_FEE));
    let contract_order = ex
        .order_at_position(CONTRACT, creator_order.other_storage_position)
        .unwrap();
    assert_eq!(contract_order.execution_fee, Some(EXECUTION_FEE));
    assert_eq!(returned, creator_order);

    // when the current block differs from the block the order was created in
    let mut creator_order = ex.order_at_position(USER, 0).unwrap();
    creator_order.created_at_block_height = 1;
    ex.update_creator_order_and_associated_contract_order(creator_order);
    assert_eq!(
        ex.set_execution_fee_for_order(env, SSCRT, USER, EXECUTION_FEE).unwrap_err(),
        Error::ExecutionFeeWrongBlock
    );
}

#[test]
fn test_cancel_order() {
    let mut ex = init_helper(true);
    let env = mock_env();

    // when the order at the position does not exist
    assert_eq!(
        ex.cancel_order(env, USER, TOKEN, 0).unwrap_err(),
        Error::OrderNotFound
    );

    // when the order exists but the token used to cancel doesn't match
    create_order_helper(&mut ex);
    assert_eq!(
        ex.cancel_order(env, USER, TOKEN, 0).unwrap_err(),
        Error::FromTokenMismatch
    );

    // when the order is cancelled already
    let mut creator_order = ex.order_at_position(USER, 0).unwrap();
    creator_order.cancelled = true;
    ex.update_creator_order_and_associated_contract_order(creator_order);
    assert_eq!(
        ex.cancel_order(env, USER, BUTT, 0).unwrap_err(),
        Error::OrderAlreadyCancelled
    );
    // when the order is filled already
    creator_order.cancelled = false;
    creator_order.from_amount_filled = creator_order.from_amount;
    ex.update_creator_order_and_associated_contract_order(creator_order);
    assert_eq!(
        ex.cancel_order(env, USER, BUTT, 0).unwrap_err(),
        Error::OrderAlreadyFilled
    );

    // when the order can be cancelled
    creator_order.from_amount_filled = 5;
    ex.update_creator_order_and_associated_contract_order(creator_order);
    let sum_balance_before_cancel = ex.read_registered_token(BUTT).unwrap().sum_balance;
    let (returned, transfers) = ex.cancel_order(env, USER, BUTT, 0).unwrap();
    // it reduces the input token's locked balance by the unfilled amount
    let unfilled_amount = creator_order.from_amount - creator_order.from_amount_filled;
    assert_eq!(
        ex.read_registered_token(BUTT).unwrap().sum_balance,
        sum_balance_before_cancel - unfilled_amount
    );
    // it sends the unfilled input back to the creator
    assert_eq!(
        transfers,
        vec![Transfer { token: BUTT, recipient: USER, amount: unfilled_amount }]
    );
    // it returns the updated creator order
    let creator_order = ex.order_at_position(USER, 0).unwrap();
    assert_eq!(returned, creator_order);
    // it sets cancelled on both mirrored copies
    let contract_order = ex
        .order_at_position(CONTRACT, creator_order.other_storage_position)
        .unwrap();
    assert!(creator_order.cancelled);
    assert!(contract_order.cancelled);

    // it creates an activity record
    let (activity_records, total) = ex.get_activity_records(0, 50, PREFIX_CANCEL_RECORDS);
    assert_eq!(total, 1);
    assert_eq!(activity_records[0].position, 0);
    assert_eq!(activity_records[0].order_position, contract_order.position);
    assert_eq!(activity_records[0].activity, 0);
    assert_eq!(activity_records[0].result_from_amount_filled, None);
    assert_eq!(activity_records[0].result_net_to_amount_filled, None);
    assert_eq!(activity_records[0].updated_at_block_height, env.height);
    assert_eq!(activity_records[0].updated_at_block_time, env.time);

    // when the order has an execution fee and has been partially filled:
    // it does not refund the escrow
    let mut creator_order = creator_order;
    creator_order.execution_fee = Some(1);
    creator_order.cancelled = false;
    creator_order.from_amount_filled = 999_999_999_999;
    ex.update_creator_order_and_associated_contract_order(creator_order);
    let (_, transfers) = ex.cancel_order(env, USER, BUTT, 0).unwrap();
    assert_eq!(
        transfers,
        vec![Transfer {
            token: BUTT,
            recipient: USER,
            amount: creator_order.from_amount - creator_order.from_amount_filled,
        }]
    );

    // when the order has an execution fee and was never filled: it refunds
    // the escrow too
    creator_order.from_amount = 1;
    creator_order.execution_fee = Some(1);
    creator_order.cancelled = false;
    creator_order.from_amount_filled = 0;
    ex.update_creator_order_and_associated_contract_order(creator_order);
    let (_, transfers) = ex.cancel_order(env, USER, BUTT, 0).unwrap();
    assert_eq!(
        transfers,
        vec![
            Transfer { token: BUTT, recipient: USER, amount: 1 },
            Transfer { token: SSCRT, recipient: USER, amount: 1 },
        ]
    );
}

#[test]
fn test_config() {
    let ex = init_helper(false);
    assert_eq!(ex.config.admin, ADMIN);
    assert_eq!(ex.config.addresses_allowed_to_fill, vec![ADMIN, CONTRACT]);
    assert_eq!(ex.config.butt, BUTT);
    assert_eq!(ex.config.execution_fee, EXECUTION_FEE);
    assert_eq!(ex.config.sscrt, SSCRT);
}

#[test]
fn test_calculate_fee() {
    let amount: u128 = MOCK_AMOUNT;
    let denom: u128 = 10_000;

    // a loyalty balance at or over 100_000_000_000 pays no fee
    assert_eq!(calculate_fee(100_000_000_000, amount), 0);
    // under 100_000_000_000 and at or over 50_000_000_000: 6 bps
    assert_eq!(calculate_fee(99_999_999_999, amount), amount * 6 / denom);
    // under 50_000_000_000 and at or over 25_000_000_000: 12 bps
    assert_eq!(calculate_fee(49_999_999_999, amount), amount * 12 / denom);
    // under 25_000_000_000 and at or over 12_500_000_000: 18 bps
    assert_eq!(calculate_fee(24_999_999_999, amount), amount * 18 / denom);
    // under 12_500_000_000 and at or over 6_250_000_000: 24 bps
    assert_eq!(calculate_fee(12_499_999_999, amount), amount * 24 / denom);
    // under 6_250_000_000: 30 bps
    assert_eq!(calculate_fee(6_249_999_999, amount), amount * 30 / denom);
}

#[test]
fn test_create_order() {
    let mut ex = init_helper(true);
    let env = mock_env();

    // when the output token isn't registered: it raises an error
    assert_eq!(
        ex.create_order(env, BUTT, USER, MOCK_AMOUNT, MOCK_AMOUNT, MOCK_AMOUNT, USER)
            .unwrap_err(),
        Error::ToTokenNotRegistered
    );

    // when the output token is registered: it increases the locked balance of
    // the input token
    assert_eq!(ex.read_registered_token(BUTT).unwrap().sum_balance, 0);
    let order = ex
        .create_order(env, BUTT, USER, MOCK_AMOUNT, MOCK_AMOUNT, MOCK_AMOUNT, TOKEN)
        .unwrap();
    assert_eq!(ex.read_registered_token(BUTT).unwrap().sum_balance, MOCK_AMOUNT);

    // it returns the creator order
    assert_eq!(order.creator, USER);
    assert_eq!(order.execution_fee, None);
    assert_eq!(order.position, 0);
    assert_eq!(order.other_storage_position, 0);
    assert_eq!(order.from_token, BUTT);
    assert_eq!(order.to_token, TOKEN);
    assert_eq!(order.from_amount, MOCK_AMOUNT);
    assert_eq!(order.from_amount_filled, 0);
    assert_eq!(order.net_to_amount, MOCK_AMOUNT - calculate_fee(MOCK_AMOUNT, MOCK_AMOUNT));
    assert_eq!(order.net_to_amount_filled, 0);
    assert!(!order.cancelled);
    assert_eq!(order.fee, calculate_fee(MOCK_AMOUNT, MOCK_AMOUNT));
    assert_eq!(order.created_at_block_time, env.time);
    assert_eq!(order.created_at_block_height, env.height);

    // it stores the order for the creator and for the operator
    assert_eq!(ex.order_at_position(USER, 0).unwrap(), order);
    assert_eq!(ex.order_at_position(CONTRACT, 0).unwrap(), order);
}

#[test]
fn test_fill_order() {
    let mut ex = init_helper(true);
    let env = mock_env();

    // when called by an address that is not allowed to fill
    assert_eq!(
        ex.fill_order(env, BUTT, USER, MOCK_AMOUNT, 0).unwrap_err(),
        Error::Unauthorized
    );
    // when the amount sent in is zero
    assert_eq!(
        ex.fill_order(env, BUTT, CONTRACT, 0, 0).unwrap_err(),
        Error::ZeroAmount
    );
    // when the order does not exist
    assert_eq!(
        ex.fill_order(env, BUTT, ADMIN, 1, 0).unwrap_err(),
        Error::OrderNotFound
    );

    // when the order exists but the token sent in is not its output token
    create_order_helper(&mut ex);
    assert_eq!(
        ex.fill_order(env, BUTT, ADMIN, 1, 0).unwrap_err(),
        Error::ToTokenMismatch
    );
    // when the order is cancelled
    let mut creator_order = ex.order_at_position(USER, 0).unwrap();
    creator_order.cancelled = true;
    ex.update_creator_order_and_associated_contract_order(creator_order);
    assert_eq!(
        ex.fill_order(env, TOKEN, ADMIN, 1, 0).unwrap_err(),
        Error::OrderAlreadyCancelled
    );
    // when the amount sent in exceeds the unfilled output
    creator_order.cancelled = false;
    ex.update_creator_order_and_associated_contract_order(creator_order);
    assert_eq!(
        ex.fill_order(env, TOKEN, ADMIN, MOCK_AMOUNT + 1, 0).unwrap_err(),
        Error::AmountAboveUnfilled
    );

    // when the amount sent in fits: it updates both filled counters on both
    // copies and pays the release and the delivery
    let (released, transfers) = ex.fill_order(env, TOKEN, ADMIN, MOCK_AMOUNT / 2, 0).unwrap();
    assert_eq!(released, MOCK_AMOUNT / 2);
    let creator_order = ex.order_at_position(USER, 0).unwrap();
    let contract_order = ex
        .order_at_position(CONTRACT, creator_order.other_storage_position)
        .unwrap();
    assert_eq!(creator_order.from_amount_filled, MOCK_AMOUNT / 2);
    assert_eq!(contract_order.from_amount_filled, MOCK_AMOUNT / 2);
    assert_eq!(creator_order.net_to_amount_filled, MOCK_AMOUNT / 2);
    assert_eq!(contract_order.net_to_amount_filled, MOCK_AMOUNT / 2);
    assert_eq!(
        transfers,
        vec![
            Transfer { token: BUTT, recipient: ADMIN, amount: MOCK_AMOUNT / 2 },
            Transfer { token: TOKEN, recipient: USER, amount: MOCK_AMOUNT / 2 },
        ]
    );
    // it unlocks the release from the input token's ledger entry and leaves
    // the output token's entry alone
    assert_eq!(
        ex.read_registered_token(BUTT).unwrap().sum_balance,
        MOCK_AMOUNT / 2
    );
    assert_eq!(ex.read_registered_token(TOKEN).unwrap().sum_balance, 0);
    // it creates an activity record
    let (records, total) = ex.get_activity_records(0, 50, limit_orders::padding::PREFIX_FILL_RECORDS);
    assert_eq!(total, 1);
    assert_eq!(records[0].position, 0);
    assert_eq!(records[0].order_position, contract_order.position);
    assert_eq!(records[0].activity, 1);
    assert_eq!(records[0].result_from_amount_filled, Some(creator_order.from_amount_filled));
    assert_eq!(records[0].result_net_to_amount_filled, Some(creator_order.net_to_amount_filled));
    assert_eq!(records[0].updated_at_block_height, env.height);
    assert_eq!(records[0].updated_at_block_time, env.time);

    // when the order has an execution fee but is partially filled: the escrow
    // is not paid out
    let mut creator_order = creator_order;
    creator_order.execution_fee = Some(1);
    ex.update_creator_order_and_associated_contract_order(creator_order);
    let (_, transfers) = ex.fill_order(env, TOKEN, ADMIN, MOCK_AMOUNT / 4, 0).unwrap();
    assert_eq!(
        transfers,
        vec![
            Transfer { token: BUTT, recipient: ADMIN, amount: MOCK_AMOUNT / 4 },
            Transfer { token: TOKEN, recipient: USER, amount: MOCK_AMOUNT / 4 },
        ]
    );

    // when the order is completely unfilled and a route is in flight: the
    // escrow goes to the route's initiator
    creator_order.from_amount_filled = 0;
    creator_order.net_to_amount_filled = 0;
    creator_order.execution_fee = Some(1);
    ex.update_creator_order_and_associated_contract_order(creator_order);
    ex.route_state = Some(RouteState {
        current_hop: None,
        remaining_hops: VecDeque::new(),
        borrow_amount: 5,
        borrow_token: SSCRT,
        minimum_acceptable_amount: Some(5),
        initiator: CONTRACT,
    });
    let (_, transfers) = ex.fill_order(env, TOKEN, ADMIN, MOCK_AMOUNT / 8, 0).unwrap();
    assert_eq!(
        transfers,
        vec![
            Transfer { token: BUTT, recipient: ADMIN, amount: MOCK_AMOUNT / 8 },
            Transfer { token: TOKEN, recipient: USER, amount: MOCK_AMOUNT / 8 },
            Transfer { token: SSCRT, recipient: CONTRACT, amount: 1 },
        ]
    );

    // when no route is in flight: the escrow goes to the filler
    creator_order.from_amount_filled = 0;
    creator_order.net_to_amount_filled = 0;
    creator_order.execution_fee = Some(1);
    ex.update_creator_order_and_associated_contract_order(creator_order);
    ex.route_state = None;
    let (_, transfers) = ex.fill_order(env, TOKEN, ADMIN, MOCK_AMOUNT / 8, 0).unwrap();
    assert_eq!(
        transfers,
        vec![
            Transfer { token: BUTT, recipient: ADMIN, amount: MOCK_AMOUNT / 8 },
            Transfer { token: TOKEN, recipient: USER, amount: MOCK_AMOUNT / 8 },
            Transfer { token: SSCRT, recipient: ADMIN, amount: 1 },
        ]
    );
}

#[test]
fn test_finalize_route() {
    let mut ex = init_helper(true);

    // when no route exists
    assert_eq!(ex.finalize_route(USER).unwrap_err(), Error::NoRouteToFinalize);

    // when a route exists with hops remaining
    let hop = Hop { from_token: TOKEN, trade_smart_contract: CONTRACT, position: Some(1) };
    let mut hops = VecDeque::new();
    hops.push_back(Hop { from_token: TOKEN, trade_smart_contract: CONTRACT, position: Some(2) });
    ex.route_state = Some(RouteState {
        current_hop: Some(hop),
        remaining_hops: hops,
        borrow_amount: 1_000_000,
        borrow_token: TOKEN,
        minimum_acceptable_amount: None,
        initiator: USER,
    });
    // when not called by the system itself
    assert_eq!(ex.finalize_route(USER).unwrap_err(), Error::Unauthorized);
    // when called by the system itself but hops remain queued
    let before = ex.route_state.clone();
    assert_eq!(
        ex.finalize_route(CONTRACT).unwrap_err(),
        Error::RouteStillContainsHops
    );
    assert_eq!(ex.route_state, before);

    // when no hops remain queued but one is still current
    ex.route_state = Some(RouteState {
        current_hop: Some(hop),
        remaining_hops: VecDeque::new(),
        borrow_amount: 1_000_000,
        borrow_token: TOKEN,
        minimum_acceptable_amount: None,
        initiator: USER,
    });
    assert_eq!(
        ex.finalize_route(CONTRACT).unwrap_err(),
        Error::RouteStillContainsHops
    );

    // when the route is fully drained: it succeeds and deletes the route
    ex.route_state = Some(RouteState {
        current_hop: None,
        remaining_hops: VecDeque::new(),
        borrow_amount: 1_000_000,
        borrow_token: TOKEN,
        minimum_acceptable_amount: None,
        initiator: USER,
    });
    ex.finalize_route(CONTRACT).unwrap();
    assert!(ex.route_state.is_none());
}

#[test]
fn test_handle_first_hop() {
    let mut ex = init_helper(true);
    let borrow_amount: u128 = 555;
    let first_hop = Hop { from_token: BUTT, trade_smart_contract: CONTRACT, position: Some(0) };
    let mut hops = VecDeque::new();
    hops.push_back(first_hop);

    // when called by an address that is not allowed to fill
    assert_eq!(
        ex.handle_first_hop(USER, borrow_amount, hops.clone(), Some(borrow_amount))
            .unwrap_err(),
        Error::Unauthorized
    );
    // when the route has fewer than two hops
    assert_eq!(
        ex.handle_first_hop(ADMIN, borrow_amount, hops.clone(), Some(borrow_amount))
            .unwrap_err(),
        Error::TooFewHops
    );

    // with two hops: it stores the route and sends the borrow to the first
    // venue
    let second_hop = Hop { from_token: BUTT, trade_smart_contract: CONTRACT, position: Some(1) };
    hops.push_back(second_hop);
    let transfers = ex
        .handle_first_hop(ADMIN, borrow_amount, hops.clone(), Some(borrow_amount))
        .unwrap();
    let route_state = ex.route_state.clone().unwrap();
    assert_eq!(route_state.current_hop, Some(first_hop));
    assert_eq!(route_state.borrow_amount, borrow_amount);
    assert_eq!(route_state.borrow_token, first_hop.from_token);
    assert_eq!(route_state.initiator, ADMIN);
    assert_eq!(route_state.minimum_acceptable_amount, Some(borrow_amount));
    let mut expected_remaining = hops.clone();
    expected_remaining.pop_front();
    assert_eq!(route_state.remaining_hops, expected_remaining);
    assert_eq!(
        transfers,
        vec![Transfer { token: BUTT, recipient: CONTRACT, amount: borrow_amount }]
    );

    // a first hop without an order position sends the same transfer
    let mut hops = VecDeque::new();
    hops.push_back(Hop { from_token: BUTT, trade_smart_contract: CONTRACT, position: None });
    hops.push_back(second_hop);
    let transfers = ex
        .handle_first_hop(ADMIN, borrow_amount, hops, Some(borrow_amount))
        .unwrap();
    assert_eq!(
        transfers,
        vec![Transfer { token: BUTT, recipient: CONTRACT, amount: borrow_amount }]
    );
}

#[test]
fn test_handle_hop() {
    let mut ex = init_helper(true);
    let borrow_amount: u128 = MOCK_AMOUNT;
    let minimum_acceptable_amount: u128 = borrow_amount + 1;
    create_order_helper(&mut ex);
    create_order_helper(&mut ex);

    // when no route exists
    assert_eq!(
        ex.handle_hop(TOKEN, CONTRACT, MOCK_AMOUNT).unwrap_err(),
        Error::RouteNotFound
    );

    // when a route exists with one hop queued
    let current = Hop { from_token: BUTT, trade_smart_contract: CONTRACT, position: Some(2) };
    let queued = Hop { from_token: TOKEN, trade_smart_contract: CONTRACT, position: Some(1) };
    let mut hops = VecDeque::new();
    hops.push_back(queued);
    ex.route_state = Some(RouteState {
        current_hop: Some(current),
        remaining_hops: hops.clone(),
        borrow_amount,
        borrow_token: BUTT,
        minimum_acceptable_amount: Some(borrow_amount),
        initiator: USER,
    });

    // when not called by the current hop's venue
    assert_eq!(
        ex.handle_hop(TOKEN, BUTT, MOCK_AMOUNT).unwrap_err(),
        Error::WrongTradeContract
    );
    // when called by the right venue but with the wrong token
    assert_eq!(
        ex.handle_hop(BUTT, CONTRACT, MOCK_AMOUNT).unwrap_err(),
        Error::WrongRouteToken
    );
    // when called with the next hop's input token: it advances the route and
    // forwards the amount
    let transfers = ex.handle_hop(TOKEN, CONTRACT, MOCK_AMOUNT).unwrap();
    let route_state = ex.route_state.clone().unwrap();
    assert_eq!(route_state.current_hop, Some(queued));
    assert!(route_state.remaining_hops.is_empty());
    assert_eq!(route_state.borrow_token, BUTT);
    assert_eq!(route_state.borrow_amount, borrow_amount);
    assert_eq!(route_state.initiator, USER);
    assert_eq!(route_state.minimum_acceptable_amount, Some(borrow_amount));
    assert_eq!(
        transfers,
        vec![Transfer { token: TOKEN, recipient: CONTRACT, amount: MOCK_AMOUNT }]
    );

    // when the amount received exceeds the target order's unfilled output:
    // only the unfilled output is forwarded
    ex.route_state = Some(RouteState {
        current_hop: Some(current),
        remaining_hops: hops.clone(),
        borrow_amount,
        borrow_token: BUTT,
        minimum_acceptable_amount: Some(borrow_amount),
        initiator: USER,
    });
    let transfers = ex.handle_hop(TOKEN, CONTRACT, MOCK_AMOUNT + 1).unwrap();
    assert_eq!(
        transfers,
        vec![Transfer { token: TOKEN, recipient: CONTRACT, amount: MOCK_AMOUNT }]
    );

    // when the next hop is an external swap: the whole amount is forwarded
    let mut hops = VecDeque::new();
    hops.push_back(Hop { from_token: TOKEN, trade_smart_contract: BUTT, position: None });
    ex.route_state = Some(RouteState {
        current_hop: Some(current),
        remaining_hops: hops,
        borrow_amount,
        borrow_token: BUTT,
        minimum_acceptable_amount: Some(borrow_amount),
        initiator: USER,
    });
    let transfers = ex.handle_hop(TOKEN, CONTRACT, MOCK_AMOUNT).unwrap();
    assert_eq!(
        transfers,
        vec![Transfer { token: TOKEN, recipient: BUTT, amount: MOCK_AMOUNT }]
    );

    // on the final leg
    let final_leg = |min: Option<u128>| RouteState {
        current_hop: Some(current),
        remaining_hops: VecDeque::new(),
        borrow_amount,
        borrow_token: BUTT,
        minimum_acceptable_amount: min,
        initiator: USER,
    };
    // when not called by the borrowed token
    ex.route_state = Some(final_leg(Some(minimum_acceptable_amount)));
    assert_eq!(
        ex.handle_hop(TOKEN, CONTRACT, MOCK_AMOUNT).unwrap_err(),
        Error::WrongRouteToken
    );
    // when the amount repays the borrow but misses the slippage floor
    assert_eq!(
        ex.handle_hop(BUTT, CONTRACT, borrow_amount).unwrap_err(),
        Error::BelowMinimumAcceptableAmount
    );
    // when the amount falls short of the borrow
    assert_eq!(
        ex.handle_hop(BUTT, CONTRACT, borrow_amount - 1).unwrap_err(),
        Error::BorrowShortfall
    );
    // when the amount repays the borrow exactly: the route drains and nothing
    // is forwarded
    ex.route_state = Some(final_leg(None));
    let transfers = ex.handle_hop(BUTT, CONTRACT, borrow_amount).unwrap();
    let route_state = ex.route_state.clone().unwrap();
    assert_eq!(route_state.current_hop, None);
    assert!(route_state.remaining_hops.is_empty());
    assert_eq!(transfers, vec![]);
    // when the amount exceeds the borrow: the surplus goes to the initiator
    ex.route_state = Some(final_leg(Some(borrow_amount)));
    let transfers = ex.handle_hop(BUTT, CONTRACT, borrow_amount + 1).unwrap();
    assert_eq!(
        transfers,
        vec![Transfer { token: BUTT, recipient: USER, amount: 1 }]
    );
}

#[test]
fn test_orders_by_positions() {
    let mut ex = init_helper(true);

    // when the user has no orders yet
    assert_eq!(
        ex.orders_by_positions(USER, &vec![0]).unwrap_err(),
        Error::OrderNotFound
    );

    // when the user has orders but one requested position is unavailable
    for _ in 0..5 {
        create_order_helper(&mut ex);
    }
    assert_eq!(
        ex.orders_by_positions(USER, &vec![1, 2, 3, 5]).unwrap_err(),
        Error::OrderNotFound
    );

    // when every requested position is available
    let orders = ex.orders_by_positions(USER, &vec![1, 3, 4]).unwrap();
    assert_eq!(orders[0].creator, USER);
    assert_eq!(orders[0].position, 1);
    assert_eq!(orders[1].position, 3);
    assert_eq!(orders[2].position, 4);
}

#[test]
fn test_register_tokens() {
    let mut ex = init_helper(false);

    // when called by a non-admin
    assert_eq!(
        ex.register_tokens(USER, &vec![BUTT, TOKEN]).unwrap_err(),
        Error::Unauthorized
    );

    // when called by the admin: it registers the new assets and reports them
    let newly = ex.register_tokens(ADMIN, &vec![BUTT, TOKEN]).unwrap();
    assert!(ex.read_registered_token(BUTT).is_some());
    assert!(ex.read_registered_token(TOKEN).is_some());
    assert_eq!(newly, vec![BUTT, TOKEN]);

    // when the assets are registered already: it leaves their locked balances
    // alone and reports nothing new
    let mut entry = ex.read_registered_token(TOKEN).unwrap();
    entry.sum_balance = MOCK_AMOUNT;
    ex.write_registered_token(TOKEN, entry);
    let newly = ex.register_tokens(ADMIN, &vec![BUTT, TOKEN]).unwrap();
    assert_eq!(newly, vec![]);
    assert_eq!(ex.read_registered_token(TOKEN).unwrap().sum_balance, MOCK_AMOUNT);
}

#[test]
fn test_rescue_tokens() {
    let mut ex = init_helper(true);

    // nothing is locked, so the whole actual balance is sweepable
    assert_eq!(ex.sweep_excess(BUTT, MOCK_AMOUNT), MOCK_AMOUNT);

    // locked funds are never sweepable
    create_order_helper(&mut ex);
    assert_eq!(ex.sweep_excess(BUTT, MOCK_AMOUNT), 0);
    // an actual balance above the locked amount yields exactly the surplus
    assert_eq!(ex.sweep_excess(BUTT, MOCK_AMOUNT + 3), 3);
    // an actual balance below the locked amount yields zero, not an error
    assert_eq!(ex.sweep_excess(BUTT, 5), 0);
}

#[test]
fn test_update_config() {
    let mut ex = init_helper(false);

    // when called by a non-admin
    assert_eq!(
        ex.update_config(USER, Some(vec![USER]), Some(MOCK_AMOUNT)).unwrap_err(),
        Error::Unauthorized
    );

    // when called by the admin
    assert_eq!(ex.config.addresses_allowed_to_fill, vec![ADMIN, CONTRACT]);
    assert_eq!(ex.config.execution_fee, EXECUTION_FEE);
    ex.update_config(ADMIN, Some(vec![USER]), Some(MOCK_AMOUNT)).unwrap();
    // it replaces the allow-list, appending the system and the admin
    assert_eq!(ex.config.addresses_allowed_to_fill, vec![USER, CONTRACT, ADMIN]);
    // it updates the execution fee
    assert_eq!(ex.config.execution_fee, MOCK_AMOUNT);
}
