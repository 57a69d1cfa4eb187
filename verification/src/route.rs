//! The route saga: a borrowed amount is chained through a queue of hops, one
//! inbound callback per hop, and a mandatory finalize check closes the route
//! only after every hop has been consumed. A route that stops short leaves
//! hops queued, so the finalize check fails and the host rolls the whole
//! top-level transaction back.

use vstd::prelude::*;
use std::collections::VecDeque;
use crate::errors::Error;
use crate::exchange::{lemma_wf_orders_stable, Exchange};
use crate::state::{Hop, Order, RouteState, RouteView, Transfer};
use crate::validations::authorize;

verus! {

/// A route may be finalized exactly when no hop is awaiting a callback and no
/// hop is still queued.
pub open spec fn route_finalizable(r: RouteView) -> bool {
    r.current_hop is None && r.remaining_hops.len() == 0
}

/// The route state that starting a route with this hop queue lays down: the
/// first hop becomes current, the rest stay queued, and the first hop's input
/// token is the borrow that the final leg must repay.
pub open spec fn first_hop_route(
    sender: u64,
    borrow_amount: u128,
    hops: Seq<Hop>,
    minimum_acceptable_amount: Option<u128>,
) -> RouteView {
    RouteView {
        current_hop: Some(hops[0]),
        remaining_hops: hops.drop_first(),
        borrow_amount,
        borrow_token: hops[0].from_token,
        minimum_acceptable_amount,
        initiator: sender,
    }
}

/// The first rejection, if any, that an inbound route callback runs into. A
/// callback must come from the venue recorded in the current hop; with hops
/// still queued it must deliver the next hop's input token (to an existing
/// order, where the next hop fills one on this ledger); on the final leg it
/// must deliver the borrowed token, repay at least the borrow, and clear the
/// slippage floor if one was set.
pub open spec fn route_callback_error(
    route: Option<RouteView>,
    contract_ns: Seq<Order>,
    contract_address: u64,
    token_sender: u64,
    from: u64,
    amount: u128,
) -> Option<Error> {
    match route {
        None => Some(Error::RouteNotFound),
        Some(r) => {
            if r.current_hop is None {
                Some(Error::WrongTradeContract)
            } else if r.current_hop->0.trade_smart_contract != from {
                Some(Error::WrongTradeContract)
            } else if r.remaining_hops.len() > 0 {
                let next = r.remaining_hops[0];
                if next.from_token != token_sender {
                    Some(Error::WrongRouteToken)
                } else if next.trade_smart_contract == contract_address && next.position is None {
                    Some(Error::OrderNotFound)
                } else if next.trade_smart_contract == contract_address && next.position->0
                    >= contract_ns.len() {
                    Some(Error::OrderNotFound)
                } else {
                    None
                }
            } else {
                if r.borrow_token != token_sender {
                    Some(Error::WrongRouteToken)
                } else if amount < r.borrow_amount {
                    Some(Error::BorrowShortfall)
                } else if r.minimum_acceptable_amount is Some && amount
                    < r.minimum_acceptable_amount->0 {
                    Some(Error::BelowMinimumAcceptableAmount)
                } else {
                    None
                }
            }
        },
    }
}

/// The route state after an accepted callback: one queued hop becomes current,
/// or, on the final leg, the route drains to the shape the finalize check
/// accepts.
pub open spec fn route_after_callback(r: RouteView) -> RouteView {
    if r.remaining_hops.len() > 0 {
        RouteView {
            current_hop: Some(r.remaining_hops[0]),
            remaining_hops: r.remaining_hops.drop_first(),
            ..r
        }
    } else {
        RouteView { current_hop: None, ..r }
    }
}

/// What an accepted mid-route callback forwards to the next venue: the amount
/// received, clamped down to the target order's unfilled output where the next
/// hop fills an order on this ledger. The clamped-off remainder is not
/// forwarded and stays with the system until recovered by a later rescue.
pub open spec fn callback_outgoing_amount(
    r: RouteView,
    contract_ns: Seq<Order>,
    contract_address: u64,
    amount: u128,
) -> u128 {
    let next = r.remaining_hops[0];
    if next.trade_smart_contract == contract_address {
        let o = contract_ns[next.position->0 as int];
        let unfilled = (o.net_to_amount - o.net_to_amount_filled) as u128;
        if amount > unfilled {
            unfilled
        } else {
            amount
        }
    } else {
        amount
    }
}

/// The transfers an accepted callback emits: the (possibly clamped) forward to
/// the next venue, or, on the final leg, the surplus over the borrow to the
/// route's initiator — nothing when the repayment is exact.
pub open spec fn route_callback_transfers(
    r: RouteView,
    contract_ns: Seq<Order>,
    contract_address: u64,
    amount: u128,
) -> Seq<Transfer> {
    if r.remaining_hops.len() > 0 {
        let next = r.remaining_hops[0];
        seq![
            Transfer {
                token: next.from_token,
                recipient: next.trade_smart_contract,
                amount: callback_outgoing_amount(r, contract_ns, contract_address, amount),
            },
        ]
    } else {
        if amount > r.borrow_amount {
            seq![
                Transfer {
                    token: r.borrow_token,
                    recipient: r.initiator,
                    amount: (amount - r.borrow_amount) as u128,
                },
            ]
        } else {
            Seq::empty()
        }
    }
}

impl Exchange {
    /// The first rejection, if any, that starting a route runs into: only
    /// allow-listed callers may start one, and a route of fewer than two hops
    /// is ill-formed — a single hop is just a direct fill or swap.
    pub open spec fn first_hop_error(self, sender: u64, hops: Seq<Hop>) -> Option<Error> {
        if !self.config.addresses_allowed_to_fill@.contains(sender) {
            Some(Error::Unauthorized)
        } else if hops.len() < 2 {
            Some(Error::TooFewHops)
        } else {
            None
        }
    }

    /// The first rejection, if any, that a finalize check runs into: only the
    /// system's own scheduled self-call may finalize, there must be a route,
    /// and it must be fully drained.
    pub open spec fn finalize_route_error(self, sender: u64) -> Option<Error> {
        match self.route() {
            None => Some(Error::NoRouteToFinalize),
            Some(r) => {
                if sender != self.contract_address {
                    Some(Error::Unauthorized)
                } else if !route_finalizable(r) {
                    Some(Error::RouteStillContainsHops)
                } else {
                    None
                }
            },
        }
    }

    /// Starts a route: records the first hop as current and the rest as
    /// queued, and emits the transfer of the borrowed amount to the first
    /// venue. The caller must also schedule the self-addressed finalize call
    /// that closes the route after the whole chain unwinds. An already active
    /// route is overwritten.
    pub fn handle_first_hop(
        &mut self,
        sender: u64,
        borrow_amount: u128,
        hops: VecDeque<Hop>,
        minimum_acceptable_amount: Option<u128>,
    ) -> (r: Result<Vec<Transfer>, Error>)
        requires
            old(self).wf(),
        ensures
            match r {
                Err(e) => {
                    &&& Some(e) == old(self).first_hop_error(sender, hops@)
                    &&& *final(self) == *old(self)
                },
                Ok(ts) => {
                    &&& old(self).first_hop_error(sender, hops@) is None
                    &&& final(self).route() == Some(
                        first_hop_route(sender, borrow_amount, hops@, minimum_acceptable_amount),
                    )
                    &&& ts@ == seq![
                        Transfer {
                            token: hops@[0].from_token,
                            recipient: hops@[0].trade_smart_contract,
                            amount: borrow_amount,
                        },
                    ]
                    &&& final(self).orders@.dom() == old(self).orders@.dom()
                    &&& forall|a: u64| #[trigger] final(self).ns(a) == old(self).ns(a)
                    &&& final(self).registered_tokens@ == old(self).registered_tokens@
                    &&& final(self).cancel_records@ == old(self).cancel_records@
                    &&& final(self).fill_records@ == old(self).fill_records@
                    &&& final(self).config == old(self).config
                    &&& final(self).contract_address == old(self).contract_address
                    &&& final(self).wf()
                },
            },
    {
        if let Err(e) = authorize(&self.config.addresses_allowed_to_fill, sender) {
            return Err(e);
        }
        if hops.len() < 2 {
            return Err(Error::TooFewHops);
        }
        let mut hops = hops;
        let first_hop = hops.pop_front().unwrap();
        let transfer = Transfer {
            token: first_hop.from_token,
            recipient: first_hop.trade_smart_contract,
            amount: borrow_amount,
        };
        self.route_state = Some(
            RouteState {
                current_hop: Some(first_hop),
                remaining_hops: hops,
                borrow_amount,
                borrow_token: first_hop.from_token,
                minimum_acceptable_amount,
                initiator: sender,
            },
        );
        let mut transfers: Vec<Transfer> = Vec::new();
        transfers.push(transfer);
        proof {
            assert(forall|a: u64| #[trigger] final(self).ns(a) == old(self).ns(a));
            lemma_wf_orders_stable(*old(self), *self);
            assert(transfers@ =~= seq![transfer]);
        }
        Ok(transfers)
    }

    /// Consumes one inbound route callback. With hops still queued, the next
    /// hop becomes current and the received amount — clamped to the target
    /// order's remaining capacity where the hop fills an order on this ledger
    /// — is forwarded to its venue. On the final leg the repayment is checked
    /// against the borrow and the slippage floor, any surplus goes to the
    /// initiator, and the route drains to the shape the finalize check
    /// accepts.
    pub fn handle_hop(&mut self, token_sender: u64, from: u64, amount: u128) -> (r: Result<
        Vec<Transfer>,
        Error,
    >)
        requires
            old(self).wf(),
        ensures
            match r {
                Err(e) => {
                    &&& Some(e) == route_callback_error(
                        old(self).route(),
                        old(self).contract_ns(),
                        old(self).contract_address,
                        token_sender,
                        from,
                        amount,
                    )
                    &&& *final(self) == *old(self)
                },
                Ok(ts) => {
                    &&& route_callback_error(
                        old(self).route(),
                        old(self).contract_ns(),
                        old(self).contract_address,
                        token_sender,
                        from,
                        amount,
                    ) is None
                    &&& final(self).route() == Some(route_after_callback(old(self).route()->0))
                    &&& ts@ == route_callback_transfers(
                        old(self).route()->0,
                        old(self).contract_ns(),
                        old(self).contract_address,
                        amount,
                    )
                    &&& final(self).orders@.dom() == old(self).orders@.dom()
                    &&& forall|a: u64| #[trigger] final(self).ns(a) == old(self).ns(a)
                    &&& final(self).registered_tokens@ == old(self).registered_tokens@
                    &&& final(self).cancel_records@ == old(self).cancel_records@
                    &&& final(self).fill_records@ == old(self).fill_records@
                    &&& final(self).config == old(self).config
                    &&& final(self).contract_address == old(self).contract_address
                    &&& final(self).wf()
                },
            },
    {
        let contract_address = self.contract_address;
        let outgoing_amount: u128;
        match &self.route_state {
            None => {
                return Err(Error::RouteNotFound);
            },
            Some(rs) => {
                let current = match rs.current_hop {
                    Some(h) => h,
                    None => {
                        return Err(Error::WrongTradeContract);
                    },
                };
                if current.trade_smart_contract != from {
                    return Err(Error::WrongTradeContract);
                }
                if rs.remaining_hops.len() > 0 {
                    let next = rs.remaining_hops[0];
                    if next.from_token != token_sender {
                        return Err(Error::WrongRouteToken);
                    }
                    if next.trade_smart_contract == contract_address {
                        let next_position = match next.position {
                            Some(p) => p,
                            None => {
                                return Err(Error::OrderNotFound);
                            },
                        };
                        let next_trade_order = match self.order_at_position(
                            contract_address,
                            next_position,
                        ) {
                            Ok(o) => o,
                            Err(e) => {
                                return Err(e);
                            },
                        };
                        let unfilled = next_trade_order.net_to_amount
                            - next_trade_order.net_to_amount_filled;
                        proof {
                            assert(old(self).contract_order_ok(
                                old(self).contract_ns()[next_position as int],
                                next_position as int,
                            ));
                        }
                        outgoing_amount = if amount > unfilled {
                            unfilled
                        } else {
                            amount
                        };
                    } else {
                        outgoing_amount = amount;
                    }
                } else {
                    if rs.borrow_token != token_sender {
                        return Err(Error::WrongRouteToken);
                    }
                    if amount < rs.borrow_amount {
                        return Err(Error::BorrowShortfall);
                    }
                    if let Some(min) = rs.minimum_acceptable_amount {
                        if amount < min {
                            return Err(Error::BelowMinimumAcceptableAmount);
                        }
                    }
                    outgoing_amount = 0;  // the final leg forwards nothing
                }
            },
        }

        let mut rs = self.route_state.take().unwrap();
        let mut transfers: Vec<Transfer> = Vec::new();
        let popped_hop = rs.remaining_hops.pop_front();
        match popped_hop {
            Some(next) => {
                rs.current_hop = Some(next);
                transfers.push(
                    Transfer {
                        token: next.from_token,
                        recipient: next.trade_smart_contract,
                        amount: outgoing_amount,
                    },
                );
            },
            None => {
                rs.current_hop = None;
                if amount > rs.borrow_amount {
                    transfers.push(
                        Transfer {
                            token: rs.borrow_token,
                            recipient: rs.initiator,
                            amount: amount - rs.borrow_amount,
                        },
                    );
                }
            },
        }
        self.route_state = Some(rs);
        proof {
            let r0 = old(self).route()->0;
            assert(final(self).route()->0.remaining_hops =~= route_after_callback(
                r0,
            ).remaining_hops);
            assert(transfers@ =~= route_callback_transfers(
                r0,
                old(self).contract_ns(),
                old(self).contract_address,
                amount,
            ));
            assert(forall|a: u64| #[trigger] final(self).ns(a) == old(self).ns(a));
            lemma_wf_orders_stable(*old(self), *self);
        }
        Ok(transfers)
    }

    /// The finalize check that every route schedules against itself: succeeds
    /// — deleting the route — only when the caller is the system itself and
    /// every hop was consumed. Failing aborts the enclosing transaction, which
    /// rolls back every transfer the route emitted.
    pub fn finalize_route(&mut self, sender: u64) -> (r: Result<(), Error>)
        requires
            old(self).wf(),
        ensures
            match r {
                Err(e) => {
                    &&& Some(e) == old(self).finalize_route_error(sender)
                    &&& *final(self) == *old(self)
                },
                Ok(()) => {
                    &&& old(self).finalize_route_error(sender) is None
                    &&& final(self).route() is None
                    &&& final(self).orders@.dom() == old(self).orders@.dom()
                    &&& forall|a: u64| #[trigger] final(self).ns(a) == old(self).ns(a)
                    &&& final(self).registered_tokens@ == old(self).registered_tokens@
                    &&& final(self).cancel_records@ == old(self).cancel_records@
                    &&& final(self).fill_records@ == old(self).fill_records@
                    &&& final(self).config == old(self).config
                    &&& final(self).contract_address == old(self).contract_address
                    &&& final(self).wf()
                },
            },
    {
        match &self.route_state {
            None => {
                return Err(Error::NoRouteToFinalize);
            },
            Some(rs) => {
                if sender != self.contract_address {
                    return Err(Error::Unauthorized);
                }
                if rs.remaining_hops.len() != 0 || rs.current_hop.is_some() {
                    return Err(Error::RouteStillContainsHops);
                }
            },
        }
        self.route_state = None;
        proof {
            assert(forall|a: u64| #[trigger] final(self).ns(a) == old(self).ns(a));
            lemma_wf_orders_stable(*old(self), *self);
        }
        Ok(())
    }
}

} // verus!
