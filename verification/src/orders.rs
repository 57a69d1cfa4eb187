//! Creating orders and rewriting mirrored order pairs. Every mutation of an
//! order goes through [`Exchange::update_creator_order_and_associated_contract_order`],
//! which rewrites both copies together so that the two namespaces never
//! diverge.

use vstd::prelude::*;
use crate::errors::Error;
use crate::exchange::{lemma_wf_orders_stable, Exchange};
use crate::fees::{calculate_fee, fee_of};
use crate::state::{lemma_mirror_involutive, mirror_of, order_consistent, BlockInfo, Order,
    RegisteredToken};
use crate::validations::{validate_human_addr, validate_uint128};

verus! {

/// Rewriting one mirrored pair in place keeps mirror consistency, provided the
/// rewritten order keeps its slot, its cross-link and its arithmetic
/// consistency.
proof fn lemma_pair_update_wf(pre: Exchange, post: Exchange, creator_order: Order)
    requires
        pre.wf_orders(),
        creator_order.creator != pre.contract_address,
        (creator_order.position as int) < pre.ns(creator_order.creator).len(),
        pre.ns(creator_order.creator)[creator_order.position as int].other_storage_position
            == creator_order.other_storage_position,
        order_consistent(creator_order),
        pre.token_registered(creator_order.from_token),
        pre.token_registered(creator_order.to_token),
        post.contract_address == pre.contract_address,
        post.registered_tokens@ == pre.registered_tokens@,
        post.ns(creator_order.creator) == pre.ns(creator_order.creator).update(
            creator_order.position as int,
            creator_order,
        ),
        post.contract_ns() == pre.contract_ns().update(
            creator_order.other_storage_position as int,
            mirror_of(creator_order),
        ),
        forall|b: u64|
            b != creator_order.creator && b != pre.contract_address ==> #[trigger] post.ns(b)
                == pre.ns(b),
    ensures
        post.wf_orders(),
{
    let a0 = creator_order.creator;
    let p0 = creator_order.position as int;
    let q0 = creator_order.other_storage_position as int;
    let o_old = pre.ns(a0)[p0];
    assert(pre.creator_ns_ok(a0));
    assert(pre.creator_order_ok(a0, pre.ns(a0)[p0], p0));
    let m_new = mirror_of(creator_order);
    assert forall|a: u64| a != post.contract_address implies #[trigger] post.creator_ns_ok(a) by {
        assert(pre.creator_ns_ok(a));
        assert forall|i: int| 0 <= i < post.ns(a).len() implies post.creator_order_ok(
            a,
            #[trigger] post.ns(a)[i],
            i,
        ) by {
            if a == a0 && i == p0 {
                assert(post.ns(a)[i] == creator_order);
                assert(post.contract_ns()[q0] == m_new);
            } else {
                let o = post.ns(a)[i];
                assert(o == pre.ns(a)[i]);
                assert(pre.creator_order_ok(a, pre.ns(a)[i], i));
                if o.other_storage_position as int == q0 {
                    assert(pre.contract_ns()[q0] == mirror_of(o));
                    assert(pre.contract_ns()[q0] == mirror_of(o_old));
                    lemma_mirror_involutive(o);
                    lemma_mirror_involutive(o_old);
                    assert(o == o_old);
                    assert(false);
                }
                assert(post.contract_ns()[o.other_storage_position as int] == pre.contract_ns()[
                    o.other_storage_position as int
                ]);
            }
        }
    }
    assert forall|i: int| 0 <= i < post.contract_ns().len() implies post.contract_order_ok(
        #[trigger] post.contract_ns()[i],
        i,
    ) by {
        if i == q0 {
            assert(post.contract_ns()[i] == m_new);
            lemma_mirror_involutive(creator_order);
            assert(post.ns(a0)[p0] == creator_order);
        } else {
            let o = post.contract_ns()[i];
            assert(o == pre.contract_ns()[i]);
            assert(pre.contract_order_ok(pre.contract_ns()[i], i));
            if o.creator == a0 && o.other_storage_position as int == p0 {
                assert(pre.ns(a0)[p0] == mirror_of(o));
                assert(o_old == mirror_of(o));
                lemma_mirror_involutive(o);
                assert(o == mirror_of(o_old));
                assert(false);
            }
            assert(post.ns(o.creator)[o.other_storage_position as int] == pre.ns(o.creator)[
                o.other_storage_position as int
            ]);
        }
    }
}

/// Appending a fresh mirrored pair at the tails of both namespaces keeps
/// mirror consistency.
proof fn lemma_pair_push_wf(pre: Exchange, post: Exchange, creator_order: Order)
    requires
        pre.wf_orders(),
        creator_order.creator != pre.contract_address,
        creator_order.position == pre.ns(creator_order.creator).len(),
        creator_order.other_storage_position == pre.contract_ns().len(),
        order_consistent(creator_order),
        post.token_registered(creator_order.from_token),
        post.token_registered(creator_order.to_token),
        post.contract_address == pre.contract_address,
        forall|t: u64|
            pre.registered_tokens@.contains_key(t)
                ==> #[trigger] post.registered_tokens@.contains_key(t),
        post.ns(creator_order.creator) == pre.ns(creator_order.creator).push(creator_order),
        post.contract_ns() == pre.contract_ns().push(mirror_of(creator_order)),
        forall|b: u64|
            b != creator_order.creator && b != pre.contract_address ==> #[trigger] post.ns(b)
                == pre.ns(b),
    ensures
        post.wf_orders(),
{
    let a0 = creator_order.creator;
    let p0 = creator_order.position as int;
    let q0 = creator_order.other_storage_position as int;
    let m_new = mirror_of(creator_order);
    assert forall|a: u64| a != post.contract_address implies #[trigger] post.creator_ns_ok(a) by {
        assert(pre.creator_ns_ok(a));
        assert forall|i: int| 0 <= i < post.ns(a).len() implies post.creator_order_ok(
            a,
            #[trigger] post.ns(a)[i],
            i,
        ) by {
            if a == a0 && i == p0 {
                assert(post.ns(a)[i] == creator_order);
                assert(post.contract_ns()[q0] == m_new);
            } else {
                let o = post.ns(a)[i];
                assert(o == pre.ns(a)[i]);
                assert(pre.creator_order_ok(a, pre.ns(a)[i], i));
                assert(post.contract_ns()[o.other_storage_position as int] == pre.contract_ns()[
                    o.other_storage_position as int
                ]);
            }
        }
    }
    assert forall|i: int| 0 <= i < post.contract_ns().len() implies post.contract_order_ok(
        #[trigger] post.contract_ns()[i],
        i,
    ) by {
        if i == q0 {
            assert(post.contract_ns()[i] == m_new);
            lemma_mirror_involutive(creator_order);
            assert(post.ns(a0)[p0] == creator_order);
        } else {
            let o = post.contract_ns()[i];
            assert(o == pre.contract_ns()[i]);
            assert(pre.contract_order_ok(pre.contract_ns()[i], i));
            assert(post.ns(o.creator)[o.other_storage_position as int] == pre.ns(o.creator)[
                o.other_storage_position as int
            ]);
        }
    }
}

impl Exchange {
    /// The order a freshly created order takes: numbered at the tails of both
    /// namespaces, charged the tier fee, with nothing filled yet.
    pub open spec fn created_order(
        self,
        env: BlockInfo,
        from_token: u64,
        from: u64,
        from_amount: u128,
        user_butt_balance: u128,
        to_amount: u128,
        to_token: u64,
    ) -> Order {
        Order {
            creator: from,
            execution_fee: None,
            position: self.ns(from).len() as u64,
            other_storage_position: self.contract_ns().len() as u64,
            from_token,
            to_token,
            from_amount,
            from_amount_filled: 0,
            net_to_amount: (to_amount - fee_of(user_butt_balance, to_amount)) as u128,
            net_to_amount_filled: 0,
            cancelled: false,
            fee: fee_of(user_butt_balance, to_amount) as u128,
            created_at_block_time: env.time,
            created_at_block_height: env.height,
        }
    }

    /// The first rejection, if any, that posting an execution-fee escrow runs
    /// into: the escrow must arrive in the fee token, match the configured fee,
    /// target the creator's latest order, in the block that order was created
    /// in, and that order must be untouched by an earlier escrow, a cancel or a
    /// full fill.
    pub open spec fn set_execution_fee_error(
        self,
        env: BlockInfo,
        token_sender: u64,
        from: u64,
        amount: u128,
    ) -> Option<Error> {
        if self.config.sscrt != token_sender {
            Some(Error::WrongExecutionFeeToken)
        } else if self.config.execution_fee != amount {
            Some(Error::WrongExecutionFeeAmount)
        } else if self.ns(from).len() == 0 {
            Some(Error::OrderDoesNotExist)
        } else {
            let o = self.ns(from).last();
            if o.created_at_block_height != env.height {
                Some(Error::ExecutionFeeWrongBlock)
            } else if o.execution_fee is Some {
                Some(Error::ExecutionFeeAlreadySet)
            } else if o.cancelled {
                Some(Error::OrderAlreadyCancelled)
            } else if o.from_amount == o.from_amount_filled {
                Some(Error::OrderAlreadyFilled)
            } else {
                None
            }
        }
    }

    /// Attaches the flat execution-fee escrow to the creator's latest order.
    /// The escrow can be posted once, only while the creation block is still
    /// current, and is recorded on both mirrored copies.
    pub fn set_execution_fee_for_order(
        &mut self,
        env: BlockInfo,
        token_sender: u64,
        from: u64,
        amount: u128,
    ) -> (r: Result<Order, Error>)
        requires
            old(self).wf(),
            from != old(self).contract_address,
        ensures
            match r {
                Err(e) => {
                    &&& Some(e) == old(self).set_execution_fee_error(env, token_sender, from, amount)
                    &&& *final(self) == *old(self)
                },
                Ok(order) => {
                    &&& old(self).set_execution_fee_error(env, token_sender, from, amount) is None
                    &&& order == Order {
                        execution_fee: Some(amount),
                        ..old(self).ns(from).last()
                    }
                    &&& final(self).ns(from) == old(self).ns(from).update(
                        old(self).ns(from).len() - 1,
                        order,
                    )
                    &&& final(self).contract_ns() == old(self).contract_ns().update(
                        order.other_storage_position as int,
                        mirror_of(order),
                    )
                    &&& forall|b: u64|
                        b != from && b != old(self).contract_address
                            ==> #[trigger] final(self).ns(b) == old(self).ns(b)
                    &&& final(self).orders@.dom() == old(self).orders@.dom()
                    &&& final(self).same_but_orders(*old(self))
                    &&& final(self).wf()
                },
            },
    {
        if let Err(e) = validate_human_addr(
            self.config.sscrt,
            token_sender,
            Error::WrongExecutionFeeToken,
        ) {
            return Err(e);
        }
        if let Err(e) = validate_uint128(
            self.config.execution_fee,
            amount,
            Error::WrongExecutionFeeAmount,
        ) {
            return Err(e);
        }
        let next_order_position = self.storage_count(from);
        if next_order_position == 0 {
            return Err(Error::OrderDoesNotExist);
        }
        let order_position = (next_order_position - 1) as u64;
        let mut creator_order = match self.order_at_position(from, order_position) {
            Ok(o) => o,
            Err(e) => {
                return Err(e);  // unreachable: the namespace is not empty
            },
        };
        if creator_order.created_at_block_height != env.height {
            return Err(Error::ExecutionFeeWrongBlock);
        }
        if creator_order.execution_fee.is_some() {
            return Err(Error::ExecutionFeeAlreadySet);
        }
        if creator_order.cancelled {
            return Err(Error::OrderAlreadyCancelled);
        }
        if creator_order.from_amount == creator_order.from_amount_filled {
            return Err(Error::OrderAlreadyFilled);
        }
        proof {
            assert(old(self).creator_ns_ok(from));
            assert(old(self).creator_order_ok(
                from,
                old(self).ns(from)[order_position as int],
                order_position as int,
            ));
        }
        creator_order.execution_fee = Some(amount);
        self.update_creator_order_and_associated_contract_order(creator_order);
        Ok(creator_order)
    }

    /// Rewrites the creator-namespace copy of an order and its mirror copy in
    /// one step. The rewritten order must keep its slot and its cross-link; the
    /// mirror copy is derived from it, so the two copies cannot diverge.
    pub fn update_creator_order_and_associated_contract_order(&mut self, creator_order: Order)
        requires
            old(self).wf(),
            creator_order.creator != old(self).contract_address,
            (creator_order.position as int) < old(self).ns(creator_order.creator).len(),
            old(self).ns(creator_order.creator)[creator_order.position as int]
                .other_storage_position == creator_order.other_storage_position,
            order_consistent(creator_order),
            old(self).token_registered(creator_order.from_token),
            old(self).token_registered(creator_order.to_token),
        ensures
            final(self).wf(),
            final(self).ns(creator_order.creator) == old(self).ns(creator_order.creator).update(
                creator_order.position as int,
                creator_order,
            ),
            final(self).contract_ns() == old(self).contract_ns().update(
                creator_order.other_storage_position as int,
                mirror_of(creator_order),
            ),
            forall|b: u64|
                b != creator_order.creator && b != old(self).contract_address
                    ==> #[trigger] final(self).ns(b) == old(self).ns(b),
            final(self).orders@.dom() == old(self).orders@.dom(),
            final(self).same_but_orders(*old(self)),
    {
        proof {
            assert(old(self).creator_ns_ok(creator_order.creator));
            assert(old(self).creator_order_ok(
                creator_order.creator,
                old(self).ns(creator_order.creator)[creator_order.position as int],
                creator_order.position as int,
            ));
        }
        let contract_address = self.contract_address;
        self.ns_update(creator_order.creator, creator_order.position, creator_order);
        let contract_order = Order {
            position: creator_order.other_storage_position,
            other_storage_position: creator_order.position,
            ..creator_order
        };
        self.ns_update(contract_address, contract_order.position, contract_order);
        proof {
            assert(final(self).ns(creator_order.creator) =~= old(self).ns(
                creator_order.creator,
            ).update(creator_order.position as int, creator_order));
            lemma_pair_update_wf(*old(self), *self, creator_order);
        }
    }

    /// Creates a resting order: validates the output asset, charges the tier
    /// fee, locks the input in the token ledger, and stores the order in the
    /// creator's namespace and the mirror namespace, cross-linked. Once the
    /// inputs are valid, creation cannot fail.
    pub fn create_order(
        &mut self,
        env: BlockInfo,
        from_token: u64,
        from: u64,
        from_amount: u128,
        user_butt_balance: u128,
        to_amount: u128,
        to_token: u64,
    ) -> (r: Result<Order, Error>)
        requires
            old(self).wf(),
            from != old(self).contract_address,
            old(self).token_registered(from_token),
            old(self).sum_balance_of(from_token) + from_amount <= u128::MAX,
        ensures
            match r {
                Err(e) => {
                    &&& e == Error::ToTokenNotRegistered
                    &&& !old(self).token_registered(to_token)
                    &&& *final(self) == *old(self)
                },
                Ok(order) => {
                    &&& old(self).token_registered(to_token)
                    &&& order == old(self).created_order(
                        env,
                        from_token,
                        from,
                        from_amount,
                        user_butt_balance,
                        to_amount,
                        to_token,
                    )
                    &&& final(self).ns(from) == old(self).ns(from).push(order)
                    &&& final(self).contract_ns() == old(self).contract_ns().push(mirror_of(order))
                    &&& forall|b: u64|
                        b != from && b != old(self).contract_address
                            ==> #[trigger] final(self).ns(b) == old(self).ns(b)
                    &&& final(self).registered_tokens@ == old(self).registered_tokens@.insert(
                        from_token,
                        (old(self).sum_balance_of(from_token) + from_amount) as u128,
                    )
                    &&& final(self).config == old(self).config
                    &&& final(self).contract_address == old(self).contract_address
                    &&& final(self).cancel_records@ == old(self).cancel_records@
                    &&& final(self).fill_records@ == old(self).fill_records@
                    &&& final(self).route() == old(self).route()
                    &&& final(self).wf()
                },
            },
    {
        if self.read_registered_token(to_token).is_none() {
            return Err(Error::ToTokenNotRegistered);
        }
        let fee = calculate_fee(user_butt_balance, to_amount);

        let from_token_details = match self.read_registered_token(from_token) {
            Some(t) => t,
            None => {
                return Err(Error::ToTokenNotRegistered);  // unreachable: required registered
            },
        };
        self.write_registered_token(
            from_token,
            RegisteredToken {
                address: from_token,
                sum_balance: from_token_details.sum_balance + from_amount,
            },
        );

        let contract_address = self.contract_address;
        let contract_order_position = self.storage_count(contract_address) as u64;
        let creator_order_position = self.storage_count(from) as u64;
        let order = Order {
            creator: from,
            execution_fee: None,
            position: creator_order_position,
            other_storage_position: contract_order_position,
            from_token,
            to_token,
            from_amount,
            from_amount_filled: 0,
            net_to_amount: to_amount - fee,
            net_to_amount_filled: 0,
            cancelled: false,
            fee,
            created_at_block_time: env.time,
            created_at_block_height: env.height,
        };
        let contract_order = Order {
            position: contract_order_position,
            other_storage_position: creator_order_position,
            ..order
        };
        let ghost mid = *self;
        self.ns_push(contract_address, contract_order);
        let ghost mid2 = *self;
        self.ns_push(from, order);
        proof {
            assert(forall|a: u64| #[trigger] mid.ns(a) == old(self).ns(a));
            assert(forall|t: u64|
                old(self).registered_tokens@.contains_key(t)
                    ==> #[trigger] mid.registered_tokens@.contains_key(t));
            lemma_wf_orders_stable(*old(self), mid);
            assert(contract_order == mirror_of(order));
            assert(final(self).ns(from) == mid2.ns(from).push(order));
            assert(mid2.ns(from) == mid.ns(from));
            assert(final(self).contract_ns() == mid2.ns(contract_address));
            assert(mid2.ns(contract_address) == mid.ns(contract_address).push(contract_order));
            assert forall|b: u64| b != from && b != old(self).contract_address
                implies #[trigger] final(self).ns(b) == mid.ns(b) by {
                assert(mid2.ns(b) == mid.ns(b));
                assert(final(self).ns(b) == mid2.ns(b));
            }
            lemma_pair_push_wf(mid, *self, order);
            assert(final(self).registered_tokens@ == mid.registered_tokens@);
            assert(final(self).route() == mid2.route() && mid2.route() == mid.route() && mid.route()
                == old(self).route());
            assert(final(self).cancel_records@ == mid.cancel_records@);
            assert(final(self).fill_records@ == mid.fill_records@);
            assert(final(self).config == mid.config);
        }
        Ok(order)
    }
}

} // verus!
