//! Settling orders: cancelling releases the unfilled input back to the
//! creator; filling releases input in proportion to the output delivered and
//! pays the output through to the creator. Both leave an audit record.

use vstd::prelude::*;
use crate::errors::Error;
use crate::exchange::{lemma_wf_orders_stable, Exchange};
use crate::math::{lemma_fill_step_in_proportion, lemma_mul_div_le, lemma_proportion_le,
    mul_div_floor};
use crate::state::{mirror_of, order_consistent, ActivityRecord, BlockInfo, Order, RegisteredToken,
    Transfer, ACTIVITY_CANCELLED, ACTIVITY_FILLED};
use crate::validations::{authorize, validate_human_addr};

verus! {

/// The input a fill of `amount` releases: the exact unfilled remainder when
/// this fill completes the order — so no rounding dust ever survives the final
/// fill — and the floored proportion `from * amount / net` otherwise.
pub open spec fn fill_released(o: Order, amount: u128) -> int {
    if o.net_to_amount_filled + amount == o.net_to_amount {
        o.from_amount - o.from_amount_filled
    } else {
        o.from_amount * amount / (o.net_to_amount as int)
    }
}

/// An order after a fill of `amount`: both filled counters advanced, the rest
/// untouched.
pub open spec fn filled_order(o: Order, amount: u128) -> Order {
    Order {
        from_amount_filled: (o.from_amount_filled + fill_released(o, amount)) as u128,
        net_to_amount_filled: (o.net_to_amount_filled + amount) as u128,
        ..o
    }
}

impl Exchange {
    /// The first rejection, if any, that cancelling an order runs into: the
    /// order must exist under the caller, be addressed by its input token, and
    /// be neither cancelled nor fully filled; and the token ledger must still
    /// cover the refund.
    pub open spec fn cancel_error(self, sender: u64, from_token_address: u64, position: u64)
        -> Option<Error> {
        if position >= self.ns(sender).len() {
            Some(Error::OrderNotFound)
        } else {
            let o = self.ns(sender)[position as int];
            if o.from_token != from_token_address {
                Some(Error::FromTokenMismatch)
            } else if o.cancelled {
                Some(Error::OrderAlreadyCancelled)
            } else if o.from_amount == o.from_amount_filled {
                Some(Error::OrderAlreadyFilled)
            } else if self.sum_balance_of(o.from_token) < o.from_amount - o.from_amount_filled {
                Some(Error::Underflow)
            } else {
                None
            }
        }
    }

    /// The transfers a successful cancel emits: the unfilled input back to the
    /// creator, and, only when nothing was ever filled, the execution-fee
    /// escrow if one was posted.
    pub open spec fn cancel_transfers(self, sender: u64, position: u64) -> Seq<Transfer> {
        let o = self.ns(sender)[position as int];
        let refund = Transfer {
            token: o.from_token,
            recipient: sender,
            amount: (o.from_amount - o.from_amount_filled) as u128,
        };
        if o.execution_fee is Some && o.from_amount_filled == 0 {
            seq![refund, Transfer {
                token: self.config.sscrt,
                recipient: sender,
                amount: o.execution_fee->0,
            }]
        } else {
            seq![refund]
        }
    }

    /// The audit record a successful cancel appends.
    pub open spec fn cancel_record(self, env: BlockInfo, sender: u64, position: u64)
        -> ActivityRecord {
        let o = self.ns(sender)[position as int];
        ActivityRecord {
            position: self.cancel_records@.len() as u64,
            order_position: o.other_storage_position,
            activity: ACTIVITY_CANCELLED,
            result_from_amount_filled: None,
            result_net_to_amount_filled: None,
            updated_at_block_height: env.height,
            updated_at_block_time: env.time,
        }
    }

    /// Cancels the caller's order at `position`: unlocks the unfilled input
    /// from the token ledger, refunds it to the creator, marks both mirrored
    /// copies cancelled, records the cancellation, and refunds the
    /// execution-fee escrow exactly when the order was never touched by a fill.
    pub fn cancel_order(
        &mut self,
        env: BlockInfo,
        sender: u64,
        from_token_address: u64,
        position: u64,
    ) -> (r: Result<(Order, Vec<Transfer>), Error>)
        requires
            old(self).wf(),
            sender != old(self).contract_address,
        ensures
            match r {
                Err(e) => {
                    &&& Some(e) == old(self).cancel_error(sender, from_token_address, position)
                    &&& *final(self) == *old(self)
                },
                Ok((order, transfers)) => {
                    &&& old(self).cancel_error(sender, from_token_address, position) is None
                    &&& order == Order {
                        cancelled: true,
                        ..old(self).ns(sender)[position as int]
                    }
                    &&& transfers@ == old(self).cancel_transfers(sender, position)
                    &&& final(self).ns(sender) == old(self).ns(sender).update(
                        position as int,
                        order,
                    )
                    &&& final(self).contract_ns() == old(self).contract_ns().update(
                        order.other_storage_position as int,
                        mirror_of(order),
                    )
                    &&& forall|b: u64|
                        b != sender && b != old(self).contract_address
                            ==> #[trigger] final(self).ns(b) == old(self).ns(b)
                    &&& final(self).orders@.dom() == old(self).orders@.dom()
                    &&& final(self).registered_tokens@ == old(self).registered_tokens@.insert(
                        order.from_token,
                        (old(self).sum_balance_of(order.from_token) - (order.from_amount
                            - order.from_amount_filled)) as u128,
                    )
                    &&& final(self).cancel_records@ == old(self).cancel_records@.push(
                        old(self).cancel_record(env, sender, position),
                    )
                    &&& final(self).fill_records@ == old(self).fill_records@
                    &&& final(self).route() == old(self).route()
                    &&& final(self).config == old(self).config
                    &&& final(self).contract_address == old(self).contract_address
                    &&& final(self).wf()
                },
            },
    {
        let mut creator_order = match self.order_at_position(sender, position) {
            Ok(o) => o,
            Err(e) => {
                return Err(e);
            },
        };
        if let Err(e) = validate_human_addr(
            creator_order.from_token,
            from_token_address,
            Error::FromTokenMismatch,
        ) {
            return Err(e);
        }
        if creator_order.cancelled {
            return Err(Error::OrderAlreadyCancelled);
        }
        if creator_order.from_amount == creator_order.from_amount_filled {
            return Err(Error::OrderAlreadyFilled);
        }
        proof {
            assert(old(self).creator_ns_ok(sender));
            assert(old(self).creator_order_ok(
                sender,
                old(self).ns(sender)[position as int],
                position as int,
            ));
        }
        let unfilled_amount = creator_order.from_amount - creator_order.from_amount_filled;
        let from_registered_token = match self.read_registered_token(creator_order.from_token) {
            Some(t) => t,
            None => {
                return Err(Error::Underflow);  // unreachable: order tokens are registered
            },
        };
        if from_registered_token.sum_balance < unfilled_amount {
            return Err(Error::Underflow);
        }

        let mut transfers: Vec<Transfer> = Vec::new();
        transfers.push(
            Transfer {
                token: creator_order.from_token,
                recipient: sender,
                amount: unfilled_amount,
            },
        );
        let escrow_refund = creator_order.execution_fee.is_some()
            && creator_order.from_amount_filled == 0;
        let escrow_amount = match creator_order.execution_fee {
            Some(a) => a,
            None => 0,
        };

        creator_order.cancelled = true;
        self.update_creator_order_and_associated_contract_order(creator_order);
        let ghost mid1 = *self;
        self.write_registered_token(
            creator_order.from_token,
            RegisteredToken {
                address: creator_order.from_token,
                sum_balance: from_registered_token.sum_balance - unfilled_amount,
            },
        );
        let ghost mid2 = *self;
        let record = ActivityRecord {
            position: self.cancel_records.len() as u64,
            order_position: creator_order.other_storage_position,
            activity: ACTIVITY_CANCELLED,
            result_from_amount_filled: None,
            result_net_to_amount_filled: None,
            updated_at_block_height: env.height,
            updated_at_block_time: env.time,
        };
        self.cancel_records.push(record);

        if escrow_refund {
            transfers.push(
                Transfer { token: self.config.sscrt, recipient: sender, amount: escrow_amount },
            );
        }
        proof {
            assert(transfers@ =~= old(self).cancel_transfers(sender, position));
            assert(forall|a: u64| #[trigger] mid2.ns(a) == mid1.ns(a));
            assert(forall|t: u64|
                mid1.registered_tokens@.contains_key(t)
                    ==> #[trigger] mid2.registered_tokens@.contains_key(t));
            lemma_wf_orders_stable(mid1, mid2);
            assert(forall|a: u64| #[trigger] final(self).ns(a) == mid2.ns(a));
            lemma_wf_orders_stable(mid2, *self);
            assert forall|i: int| 0 <= i < final(self).cancel_records@.len() implies (
            #[trigger] final(self).cancel_records@[i]).position == i by {
                if i < mid2.cancel_records@.len() {
                    assert(mid2.cancel_records@[i].position == i);
                }
            }
            assert(final(self).ns(sender) == old(self).ns(sender).update(
                position as int,
                creator_order,
            ));
            assert(final(self).contract_ns() == old(self).contract_ns().update(
                creator_order.other_storage_position as int,
                mirror_of(creator_order),
            ));
        }
        Ok((creator_order, transfers))
    }

    /// The creator-namespace copy of the order that the mirror namespace lists
    /// at `position`.
    pub open spec fn fill_creator_order(self, position: u64) -> Order {
        let co = self.contract_ns()[position as int];
        self.ns(co.creator)[co.other_storage_position as int]
    }

    /// The first rejection, if any, that a fill runs into: the filler must be
    /// allow-listed, deliver a positive amount of the order's output token to
    /// an existing, uncancelled order, no more than its unfilled output; and
    /// the token ledger must still cover the release.
    pub open spec fn fill_error(self, token_sender: u64, from: u64, amount: u128, position: u64)
        -> Option<Error> {
        if !self.config.addresses_allowed_to_fill@.contains(from) {
            Some(Error::Unauthorized)
        } else if amount == 0 {
            Some(Error::ZeroAmount)
        } else if position >= self.contract_ns().len() {
            Some(Error::OrderNotFound)
        } else {
            let o = self.fill_creator_order(position);
            if o.to_token != token_sender {
                Some(Error::ToTokenMismatch)
            } else if o.cancelled {
                Some(Error::OrderAlreadyCancelled)
            } else if amount > o.net_to_amount - o.net_to_amount_filled {
                Some(Error::AmountAboveUnfilled)
            } else if self.sum_balance_of(o.from_token) < fill_released(o, amount) {
                Some(Error::Underflow)
            } else {
                None
            }
        }
    }

    /// Who receives the execution-fee escrow: on the order's first fill, the
    /// initiator of the route in flight if there is one, the filler otherwise;
    /// nobody when no escrow is due.
    pub open spec fn fill_escrow_recipient(self, from: u64, position: u64) -> Option<u64> {
        let o = self.fill_creator_order(position);
        if o.from_amount_filled == 0 && o.execution_fee is Some {
            Some(
                match self.route() {
                    Some(r) => r.initiator,
                    None => from,
                },
            )
        } else {
            None
        }
    }

    /// The transfers a successful fill emits: the released input to the filler,
    /// the delivered output to the creator, and the escrow where one is due.
    pub open spec fn fill_transfers(self, from: u64, amount: u128, position: u64) -> Seq<Transfer> {
        let o = self.fill_creator_order(position);
        let base = seq![
            Transfer {
                token: o.from_token,
                recipient: from,
                amount: fill_released(o, amount) as u128,
            },
            Transfer { token: o.to_token, recipient: o.creator, amount: amount },
        ];
        match self.fill_escrow_recipient(from, position) {
            Some(rcpt) => base.push(
                Transfer { token: self.config.sscrt, recipient: rcpt, amount: o.execution_fee->0 },
            ),
            None => base,
        }
    }

    /// The audit record a successful fill appends: a snapshot of both filled
    /// counters after the fill.
    pub open spec fn fill_record(self, env: BlockInfo, amount: u128, position: u64)
        -> ActivityRecord {
        let o = self.fill_creator_order(position);
        let updated = filled_order(o, amount);
        ActivityRecord {
            position: self.fill_records@.len() as u64,
            order_position: o.position,
            activity: ACTIVITY_FILLED,
            result_from_amount_filled: Some(updated.from_amount_filled),
            result_net_to_amount_filled: Some(updated.net_to_amount_filled),
            updated_at_block_height: env.height,
            updated_at_block_time: env.time,
        }
    }

    /// Fills the order at mirror position `position` with `amount` of its
    /// output token: advances both filled counters on both mirrored copies,
    /// unlocks the proportional input release from the token ledger, pays the
    /// release to the filler and the delivery to the creator, pays out the
    /// escrow on a first fill, and records the fill. The fill that completes
    /// the order releases the exact unfilled remainder.
    pub fn fill_order(
        &mut self,
        env: BlockInfo,
        token_sender: u64,
        from: u64,
        amount: u128,
        position: u64,
    ) -> (r: Result<(u128, Vec<Transfer>), Error>)
        requires
            old(self).wf(),
        ensures
            match r {
                Err(e) => {
                    &&& Some(e) == old(self).fill_error(token_sender, from, amount, position)
                    &&& *final(self) == *old(self)
                },
                Ok((released, transfers)) => {
                    let o = old(self).fill_creator_order(position);
                    let updated = filled_order(o, amount);
                    &&& old(self).fill_error(token_sender, from, amount, position) is None
                    &&& released == fill_released(o, amount)
                    &&& (o.net_to_amount_filled + amount == o.net_to_amount
                        ==> updated.from_amount_filled == o.from_amount)
                    &&& transfers@ == old(self).fill_transfers(from, amount, position)
                    &&& final(self).ns(o.creator) == old(self).ns(o.creator).update(
                        o.position as int,
                        updated,
                    )
                    &&& final(self).contract_ns() == old(self).contract_ns().update(
                        position as int,
                        mirror_of(updated),
                    )
                    &&& forall|b: u64|
                        b != o.creator && b != old(self).contract_address
                            ==> #[trigger] final(self).ns(b) == old(self).ns(b)
                    &&& final(self).orders@.dom() == old(self).orders@.dom()
                    &&& final(self).registered_tokens@ == old(self).registered_tokens@.insert(
                        o.from_token,
                        (old(self).sum_balance_of(o.from_token) - released) as u128,
                    )
                    &&& final(self).fill_records@ == old(self).fill_records@.push(
                        old(self).fill_record(env, amount, position),
                    )
                    &&& final(self).cancel_records@ == old(self).cancel_records@
                    &&& final(self).route() == old(self).route()
                    &&& final(self).config == old(self).config
                    &&& final(self).contract_address == old(self).contract_address
                    &&& final(self).wf()
                },
            },
    {
        if let Err(e) = authorize(&self.config.addresses_allowed_to_fill, from) {
            return Err(e);
        }
        if amount == 0 {
            return Err(Error::ZeroAmount);
        }
        let contract_address = self.contract_address;
        let contract_order = match self.order_at_position(contract_address, position) {
            Ok(o) => o,
            Err(e) => {
                return Err(e);
            },
        };
        proof {
            assert(old(self).contract_order_ok(
                old(self).contract_ns()[position as int],
                position as int,
            ));
        }
        let creator_order = match self.order_at_position(
            contract_order.creator,
            contract_order.other_storage_position,
        ) {
            Ok(o) => o,
            Err(e) => {
                return Err(e);  // unreachable: the mirror copy is cross-linked
            },
        };
        proof {
            assert(creator_order == old(self).fill_creator_order(position));
            assert(creator_order == mirror_of(contract_order));
            assert(order_consistent(creator_order));
        }
        if let Err(e) = validate_human_addr(
            creator_order.to_token,
            token_sender,
            Error::ToTokenMismatch,
        ) {
            return Err(e);
        }
        if creator_order.cancelled {
            return Err(Error::OrderAlreadyCancelled);
        }
        let unfilled_amount = creator_order.net_to_amount - creator_order.net_to_amount_filled;
        if amount > unfilled_amount {
            return Err(Error::AmountAboveUnfilled);
        }

        let escrow_recipient: Option<u64> = if creator_order.from_amount_filled == 0
            && creator_order.execution_fee.is_some() {
            match &self.route_state {
                Some(route) => Some(route.initiator),
                None => Some(from),
            }
        } else {
            None
        };
        let escrow_amount = match creator_order.execution_fee {
            Some(a) => a,
            None => 0,
        };

        let new_net_to_amount_filled = creator_order.net_to_amount_filled + amount;
        let from_filled_amount: u128 = if new_net_to_amount_filled == creator_order.net_to_amount {
            creator_order.from_amount - creator_order.from_amount_filled
        } else {
            proof {
                lemma_mul_div_le(
                    creator_order.from_amount as int,
                    amount as int,
                    creator_order.net_to_amount as int,
                );
            }
            mul_div_floor(creator_order.from_amount, amount, creator_order.net_to_amount)
        };
        proof {
            assert(from_filled_amount == fill_released(creator_order, amount));
            if new_net_to_amount_filled != creator_order.net_to_amount {
                lemma_fill_step_in_proportion(
                    creator_order.from_amount as int,
                    creator_order.net_to_amount as int,
                    creator_order.from_amount_filled as int,
                    creator_order.net_to_amount_filled as int,
                    amount as int,
                );
                lemma_proportion_le(
                    creator_order.from_amount as int,
                    creator_order.net_to_amount as int,
                    creator_order.from_amount_filled + from_filled_amount,
                    new_net_to_amount_filled as int,
                );
            }
        }
        let from_registered_token = match self.read_registered_token(creator_order.from_token) {
            Some(t) => t,
            None => {
                return Err(Error::Underflow);  // unreachable: order tokens are registered
            },
        };
        if from_registered_token.sum_balance < from_filled_amount {
            return Err(Error::Underflow);
        }

        let mut updated = creator_order;
        updated.from_amount_filled = creator_order.from_amount_filled + from_filled_amount;
        updated.net_to_amount_filled = new_net_to_amount_filled;
        proof {
            assert(updated == filled_order(creator_order, amount));
            assert(order_consistent(updated));
        }
        self.update_creator_order_and_associated_contract_order(updated);
        let ghost mid1 = *self;
        self.write_registered_token(
            creator_order.from_token,
            RegisteredToken {
                address: creator_order.from_token,
                sum_balance: from_registered_token.sum_balance - from_filled_amount,
            },
        );
        let ghost mid2 = *self;
        let record = ActivityRecord {
            position: self.fill_records.len() as u64,
            order_position: creator_order.position,
            activity: ACTIVITY_FILLED,
            result_from_amount_filled: Some(updated.from_amount_filled),
            result_net_to_amount_filled: Some(updated.net_to_amount_filled),
            updated_at_block_height: env.height,
            updated_at_block_time: env.time,
        };
        self.fill_records.push(record);

        let mut transfers: Vec<Transfer> = Vec::new();
        transfers.push(
            Transfer {
                token: creator_order.from_token,
                recipient: from,
                amount: from_filled_amount,
            },
        );
        transfers.push(
            Transfer { token: creator_order.to_token, recipient: creator_order.creator, amount },
        );
        if let Some(rcpt) = escrow_recipient {
            transfers.push(
                Transfer { token: self.config.sscrt, recipient: rcpt, amount: escrow_amount },
            );
        }
        proof {
            assert(transfers@ =~= old(self).fill_transfers(from, amount, position));
            assert(forall|a: u64| #[trigger] mid2.ns(a) == mid1.ns(a));
            assert(forall|t: u64|
                mid1.registered_tokens@.contains_key(t)
                    ==> #[trigger] mid2.registered_tokens@.contains_key(t));
            lemma_wf_orders_stable(mid1, mid2);
            assert(forall|a: u64| #[trigger] final(self).ns(a) == mid2.ns(a));
            lemma_wf_orders_stable(mid2, *self);
            assert forall|i: int| 0 <= i < final(self).fill_records@.len() implies (
            #[trigger] final(self).fill_records@[i]).position == i by {
                if i < mid2.fill_records@.len() {
                    assert(mid2.fill_records@[i].position == i);
                }
            }
            assert(final(self).ns(creator_order.creator) == old(self).ns(
                creator_order.creator,
            ).update(creator_order.position as int, updated));
            assert(final(self).contract_ns() == old(self).contract_ns().update(
                position as int,
                mirror_of(updated),
            ));
        }
        Ok((from_filled_amount, transfers))
    }
}

} // verus!
