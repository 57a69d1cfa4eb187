//! The whole persistent state of the exchange, and the primitive reads and
//! writes on it. One invocation of the system loads this state, runs exactly
//! one operation to completion, and either commits every write and emitted
//! transfer or, on any error, none of them — so every mutating operation here
//! leaves the state untouched when it returns an error.

use vstd::prelude::*;
use std::collections::HashMap;
use crate::errors::Error;
use crate::state::{mirror_of, order_consistent, ActivityRecord, Config, Order, RegisteredToken,
    RouteState, RouteView};

verus! {

broadcast use vstd::std_specs::hash::group_hash_axioms;

/// The exchange: configuration, the token ledger of registered assets, every
/// order namespace (each creator's, plus the operator's mirror namespace under
/// [`Self::contract_address`]), the two append-only activity logs, and the
/// single in-flight route slot.
pub struct Exchange {
    pub config: Config,
    pub contract_address: u64,
    pub registered_tokens: HashMap<u64, u128>,
    pub orders: HashMap<u64, Vec<Order>>,
    pub cancel_records: Vec<ActivityRecord>,
    pub fill_records: Vec<ActivityRecord>,
    pub route_state: Option<RouteState>,
}

impl Exchange {
    /// The order namespace of `a`; an account with no orders yet has the empty
    /// namespace.
    pub open spec fn ns(self, a: u64) -> Seq<Order> {
        if self.orders@.contains_key(a) {
            self.orders@[a]@
        } else {
            Seq::empty()
        }
    }

    /// The operator's mirror namespace, which holds the second copy of every
    /// order.
    pub open spec fn contract_ns(self) -> Seq<Order> {
        self.ns(self.contract_address)
    }

    /// Whether `token` is a registered asset.
    pub open spec fn token_registered(self, token: u64) -> bool {
        self.registered_tokens@.contains_key(token)
    }

    /// The aggregate locked balance recorded for a registered asset.
    pub open spec fn sum_balance_of(self, token: u64) -> u128 {
        self.registered_tokens@[token]
    }

    /// The in-flight route, seen mathematically.
    pub open spec fn route(self) -> Option<RouteView> {
        match self.route_state {
            Some(r) => Some(r@),
            None => None,
        }
    }

    /// An order as it must look to belong to this exchange at all: internally
    /// consistent, on registered assets, and created by a counterparty rather
    /// than the operator.
    pub open spec fn order_fits(self, o: Order) -> bool {
        &&& order_consistent(o)
        &&& self.token_registered(o.from_token)
        &&& self.token_registered(o.to_token)
        &&& o.creator != self.contract_address
    }

    /// The `i`th order of creator namespace `a`: numbered by its slot, owned by
    /// `a`, and mirrored at its recorded position of the mirror namespace.
    pub open spec fn creator_order_ok(self, a: u64, o: Order, i: int) -> bool {
        &&& o.position == i
        &&& o.creator == a
        &&& self.order_fits(o)
        &&& o.other_storage_position < self.contract_ns().len()
        &&& self.contract_ns()[o.other_storage_position as int] == mirror_of(o)
    }

    /// Every order of creator namespace `a` is in place and mirrored.
    pub open spec fn creator_ns_ok(self, a: u64) -> bool {
        forall|i: int|
            0 <= i < self.ns(a).len() ==> self.creator_order_ok(a, #[trigger] self.ns(a)[i], i)
    }

    /// The `i`th order of the mirror namespace: numbered by its slot and
    /// cross-linked back to the identical copy in its creator's namespace.
    pub open spec fn contract_order_ok(self, o: Order, i: int) -> bool {
        &&& o.position == i
        &&& self.order_fits(o)
        &&& o.other_storage_position < self.ns(o.creator).len()
        &&& self.ns(o.creator)[o.other_storage_position as int] == mirror_of(o)
    }

    /// Mirror consistency: every order is stored exactly twice, under its
    /// creator and under the operator, the two copies equal except for the
    /// swapped position fields, each copy numbered by its slot.
    pub open spec fn wf_orders(self) -> bool {
        &&& forall|a: u64|
            a != self.contract_address ==> #[trigger] self.creator_ns_ok(a)
        &&& forall|i: int|
            0 <= i < self.contract_ns().len() ==> self.contract_order_ok(
                #[trigger] self.contract_ns()[i],
                i,
            )
    }

    /// The two activity logs are numbered densely from zero.
    pub open spec fn wf_records(self) -> bool {
        &&& forall|i: int|
            0 <= i < self.cancel_records@.len() ==> (#[trigger] self.cancel_records@[i]).position
                == i
        &&& forall|i: int|
            0 <= i < self.fill_records@.len() ==> (#[trigger] self.fill_records@[i]).position == i
    }

    /// Well-formedness of the whole exchange: mirror consistency of the order
    /// namespaces and dense numbering of the activity logs.
    pub open spec fn wf(self) -> bool {
        self.wf_orders() && self.wf_records()
    }

    /// Everything except the order namespaces is the same in both states.
    pub open spec fn same_but_orders(self, other: Exchange) -> bool {
        &&& self.config == other.config
        &&& self.contract_address == other.contract_address
        &&& self.registered_tokens@ == other.registered_tokens@
        &&& self.cancel_records@ == other.cancel_records@
        &&& self.fill_records@ == other.fill_records@
        &&& self.route() == other.route()
    }

    /// Every order namespace is the same in both states.
    pub open spec fn same_orders(self, other: Exchange) -> bool {
        &&& self.orders@.dom() == other.orders@.dom()
        &&& forall|a: u64| #[trigger] self.ns(a) == other.ns(a)
    }

    /// Sets up a fresh exchange. The deployer becomes the admin, and the fill
    /// allow-list starts as the deployer and the system itself.
    pub fn init(
        sender: u64,
        contract_address: u64,
        butt: u64,
        execution_fee: u128,
        sscrt: u64,
    ) -> (ex: Exchange)
        ensures
            ex.wf(),
            ex.config.admin == sender,
            ex.config.addresses_allowed_to_fill@ == seq![sender, contract_address],
            ex.config.butt == butt,
            ex.config.execution_fee == execution_fee,
            ex.config.sscrt == sscrt,
            ex.contract_address == contract_address,
            ex.registered_tokens@ == Map::<u64, u128>::empty(),
            ex.orders@.dom() == Set::<u64>::empty(),
            ex.cancel_records@.len() == 0,
            ex.fill_records@.len() == 0,
            ex.route() is None,
    {
        let mut allowed: Vec<u64> = Vec::new();
        allowed.push(sender);
        allowed.push(contract_address);
        proof {
            assert(allowed@ =~= seq![sender, contract_address]);
        }
        let ex = Exchange {
            config: Config {
                admin: sender,
                addresses_allowed_to_fill: allowed,
                butt,
                execution_fee,
                sscrt,
            },
            contract_address,
            registered_tokens: HashMap::new(),
            orders: HashMap::new(),
            cancel_records: Vec::new(),
            fill_records: Vec::new(),
            route_state: None,
        };
        proof {
            assert(forall|a: u64| ex.ns(a) =~= Seq::<Order>::empty());
        }
        ex
    }

    /// The number of orders stored for an account, which is also the position
    /// the account's next order will take.
    pub fn storage_count(&self, for_address: u64) -> (count: usize)
        ensures
            count == self.ns(for_address).len(),
    {
        match self.orders.get(&for_address) {
            Some(v) => v.len(),
            None => 0,
        }
    }

    /// Looks an order up by account and position.
    pub fn order_at_position(&self, address: u64, position: u64) -> (r: Result<Order, Error>)
        ensures
            match r {
                Ok(o) => position < self.ns(address).len() && o == self.ns(address)[position as int],
                Err(e) => e == Error::OrderNotFound && position >= self.ns(address).len(),
            },
    {
        match self.orders.get(&address) {
            Some(v) => {
                let n = v.len();
                if position < n as u64 {
                    Ok(v[position as usize])
                } else {
                    Err(Error::OrderNotFound)
                }
            },
            None => Err(Error::OrderNotFound),
        }
    }

    /// Looks a registered asset up, with its aggregate locked balance.
    pub fn read_registered_token(&self, token_address: u64) -> (r: Option<RegisteredToken>)
        ensures
            match r {
                Some(t) => self.token_registered(token_address) && t.address == token_address
                    && t.sum_balance == self.sum_balance_of(token_address),
                None => !self.token_registered(token_address),
            },
    {
        match self.registered_tokens.get(&token_address) {
            Some(balance) => Some(
                RegisteredToken { address: token_address, sum_balance: *balance },
            ),
            None => None,
        }
    }

    /// Registers an asset or overwrites its ledger entry.
    pub fn write_registered_token(&mut self, token_address: u64, registered_token: RegisteredToken)
        requires
            registered_token.address == token_address,
        ensures
            final(self).registered_tokens@ == old(self).registered_tokens@.insert(
                token_address,
                registered_token.sum_balance,
            ),
            final(self).config == old(self).config,
            final(self).contract_address == old(self).contract_address,
            final(self).same_orders(*old(self)),
            final(self).cancel_records@ == old(self).cancel_records@,
            final(self).fill_records@ == old(self).fill_records@,
            final(self).route() == old(self).route(),
    {
        self.registered_tokens.insert(token_address, registered_token.sum_balance);
        proof {
            assert(forall|a: u64| final(self).ns(a) =~= old(self).ns(a));
        }
    }

    /// Replaces the order at slot `i` of namespace `a`, touching nothing else.
    pub(crate) fn ns_update(&mut self, a: u64, i: u64, o: Order)
        requires
            i < old(self).ns(a).len(),
        ensures
            final(self).orders@.dom() == old(self).orders@.dom(),
            final(self).ns(a) == old(self).ns(a).update(i as int, o),
            forall|b: u64| b != a ==> final(self).ns(b) == #[trigger] old(self).ns(b),
            final(self).same_but_orders(*old(self)),
    {
        let mut v = self.orders.remove(&a).unwrap();
        let n = v.len();
        assert(i < n as u64);
        let i = i as usize;
        v[i] = o;
        self.orders.insert(a, v);
        proof {
            assert(final(self).orders@.dom() =~= old(self).orders@.dom());
            assert(final(self).ns(a) =~= old(self).ns(a).update(i as int, o));
            assert(forall|b: u64| b != a ==> final(self).ns(b) =~= old(self).ns(b));
        }
    }

    /// Appends an order at the end of namespace `a`, touching nothing else.
    pub(crate) fn ns_push(&mut self, a: u64, o: Order)
        ensures
            final(self).orders@.dom() == old(self).orders@.dom().insert(a),
            final(self).ns(a) == old(self).ns(a).push(o),
            forall|b: u64| b != a ==> final(self).ns(b) == #[trigger] old(self).ns(b),
            final(self).same_but_orders(*old(self)),
    {
        let mut v = match self.orders.remove(&a) {
            Some(existing) => existing,
            None => Vec::new(),
        };
        v.push(o);
        self.orders.insert(a, v);
        proof {
            assert(final(self).orders@.dom() =~= old(self).orders@.dom().insert(a));
            assert(final(self).ns(a) =~= old(self).ns(a).push(o));
            assert(forall|b: u64| b != a ==> final(self).ns(b) =~= old(self).ns(b));
        }
    }
}

/// Mirror consistency does not care which state the order namespaces sit in:
/// it survives any change that keeps every namespace, keeps the operator
/// address, and keeps every registered asset registered.
pub proof fn lemma_wf_orders_stable(pre: Exchange, post: Exchange)
    requires
        pre.wf_orders(),
        post.contract_address == pre.contract_address,
        forall|a: u64| #[trigger] post.ns(a) == pre.ns(a),
        forall|t: u64|
            pre.registered_tokens@.contains_key(t)
                ==> #[trigger] post.registered_tokens@.contains_key(t),
    ensures
        post.wf_orders(),
{
    assert forall|a: u64| a != post.contract_address implies #[trigger] post.creator_ns_ok(a) by {
        assert(pre.creator_ns_ok(a));
        assert forall|i: int| 0 <= i < post.ns(a).len() implies post.creator_order_ok(
            a,
            #[trigger] post.ns(a)[i],
            i,
        ) by {
            assert(pre.creator_order_ok(a, pre.ns(a)[i], i));
        }
    }
    assert forall|i: int| 0 <= i < post.contract_ns().len() implies post.contract_order_ok(
        #[trigger] post.contract_ns()[i],
        i,
    ) by {
        assert(pre.contract_order_ok(pre.contract_ns()[i], i));
    }
}

} // verus!
