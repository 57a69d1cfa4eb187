//! The data model: orders, their mirrored copies, activity records, the
//! configuration, and the state of an in-flight route.
//!
//! Accounts, tokens and venues are identified by plain `u64` ids; the layer
//! that talks to the outside world maps real addresses to these ids and back.

use vstd::prelude::*;
use std::collections::VecDeque;

verus! {

/// The logical time of the current invocation.
#[derive(Clone, Copy, Debug, PartialEq, Eq, Structural)]
pub struct BlockInfo {
    pub height: u64,
    pub time: u64,
}

/// A resting limit order. It is stored twice: once in its creator's namespace
/// and once in the operator's mirror namespace, with the two position fields
/// swapped between the copies.
#[derive(Clone, Copy, Debug, PartialEq, Eq)]
pub struct Order {
    pub creator: u64,
    pub execution_fee: Option<u128>,
    pub position: u64,
    pub other_storage_position: u64,
    pub from_token: u64,
    pub to_token: u64,
    pub from_amount: u128,
    pub from_amount_filled: u128,
    pub net_to_amount: u128,
    pub net_to_amount_filled: u128,
    pub cancelled: bool,
    pub fee: u128,
    pub created_at_block_time: u64,
    pub created_at_block_height: u64,
}

/// The other copy of an order: identical except that the two position fields
/// are swapped.
pub open spec fn mirror_of(o: Order) -> Order {
    Order {
        position: o.other_storage_position,
        other_storage_position: o.position,
        ..o
    }
}

/// The arithmetic well-formedness of a single order: the filled counters never
/// pass their totals, and the input released so far stays in proportion to the
/// output delivered so far (`filled / from <= net_filled / net`, cleared of
/// divisions). Every fill preserves this, and it is what keeps the
/// proportional-release arithmetic from overshooting `from_amount`.
pub open spec fn order_consistent(o: Order) -> bool {
    &&& o.from_amount_filled <= o.from_amount
    &&& o.net_to_amount_filled <= o.net_to_amount
    &&& o.from_amount_filled * o.net_to_amount <= o.from_amount * o.net_to_amount_filled
}

/// Taking the mirror copy twice gives the order back.
pub proof fn lemma_mirror_involutive(o: Order)
    ensures
        mirror_of(mirror_of(o)) == o,
{
}

/// An immutable audit entry, appended when an order is cancelled or filled.
/// `activity` is [`ACTIVITY_CANCELLED`] or [`ACTIVITY_FILLED`]; the two
/// snapshot fields are set only for fills.
#[derive(Clone, Copy, Debug, PartialEq, Eq)]
pub struct ActivityRecord {
    pub position: u64,
    pub order_position: u64,
    pub activity: u8,
    pub result_from_amount_filled: Option<u128>,
    pub result_net_to_amount_filled: Option<u128>,
    pub updated_at_block_height: u64,
    pub updated_at_block_time: u64,
}

/// Activity kind tag for a cancellation.
pub const ACTIVITY_CANCELLED: u8 = 0;

/// Activity kind tag for a fill.
pub const ACTIVITY_FILLED: u8 = 1;

/// The configuration loaded once per invocation: the admin, the fill
/// allow-list, the loyalty token whose balance selects fee tiers, the flat
/// execution fee, and the token in which that fee is escrowed.
#[derive(Clone, Debug, PartialEq, Eq)]
pub struct Config {
    pub admin: u64,
    pub addresses_allowed_to_fill: Vec<u64>,
    pub butt: u64,
    pub execution_fee: u128,
    pub sscrt: u64,
}

/// A registered asset together with the aggregate input currently locked
/// across its open orders.
#[derive(Clone, Copy, Debug, PartialEq, Eq, Structural)]
pub struct RegisteredToken {
    pub address: u64,
    pub sum_balance: u128,
}

/// One emitted transfer instruction: move `amount` of `token` to `recipient`.
/// The system only ever emits these; it never invents funds.
#[derive(Clone, Copy, Debug, PartialEq, Eq, Structural)]
pub struct Transfer {
    pub token: u64,
    pub recipient: u64,
    pub amount: u128,
}

/// One leg of a route: the asset it consumes, the venue expected to receive it
/// and send the swapped asset back, and, where the leg is a fill against an
/// on-ledger order, that order's position in the mirror namespace.
#[derive(Clone, Copy, Debug, PartialEq, Eq)]
pub struct Hop {
    pub from_token: u64,
    pub trade_smart_contract: u64,
    pub position: Option<u64>,
}

/// The single in-flight route: the hop awaiting its callback, the queue of
/// hops still to run, and the borrow that the final leg must repay.
#[derive(Clone, Debug, PartialEq)]
pub struct RouteState {
    pub current_hop: Option<Hop>,
    pub remaining_hops: VecDeque<Hop>,
    pub borrow_amount: u128,
    pub borrow_token: u64,
    pub minimum_acceptable_amount: Option<u128>,
    pub initiator: u64,
}

/// The mathematical shadow of [`RouteState`]: the queue as a sequence.
pub struct RouteView {
    pub current_hop: Option<Hop>,
    pub remaining_hops: Seq<Hop>,
    pub borrow_amount: u128,
    pub borrow_token: u64,
    pub minimum_acceptable_amount: Option<u128>,
    pub initiator: u64,
}

impl View for RouteState {
    type V = RouteView;

    open spec fn view(&self) -> RouteView {
        RouteView {
            current_hop: self.current_hop,
            remaining_hops: self.remaining_hops@,
            borrow_amount: self.borrow_amount,
            borrow_token: self.borrow_token,
            minimum_acceptable_amount: self.minimum_acceptable_amount,
            initiator: self.initiator,
        }
    }
}

} // verus!
