//! Administrative operations: registering assets, adjusting the
//! configuration, and computing how much of a token's custodial balance is
//! sweepable without touching locked user funds.

use vstd::prelude::*;
use crate::errors::Error;
use crate::exchange::{lemma_wf_orders_stable, Exchange};

verus! {

/// The token ledger after registering `tokens` in order: an asset not yet
/// registered enters with a zero locked balance, an already registered one is
/// left alone.
pub open spec fn registered_after(m: Map<u64, u128>, tokens: Seq<u64>) -> Map<u64, u128>
    decreases tokens.len(),
{
    if tokens.len() == 0 {
        m
    } else {
        let prev = registered_after(m, tokens.drop_last());
        if prev.contains_key(tokens.last()) {
            prev
        } else {
            prev.insert(tokens.last(), 0)
        }
    }
}

/// Which of `tokens`, in order and without repetition, were not registered
/// before.
pub open spec fn newly_registered(m: Map<u64, u128>, tokens: Seq<u64>) -> Seq<u64>
    decreases tokens.len(),
{
    if tokens.len() == 0 {
        Seq::empty()
    } else {
        let prev_map = registered_after(m, tokens.drop_last());
        let prev = newly_registered(m, tokens.drop_last());
        if prev_map.contains_key(tokens.last()) {
            prev
        } else {
            prev.push(tokens.last())
        }
    }
}

impl Exchange {
    /// Registers each listed asset that is not registered yet, starting its
    /// locked balance at zero and never touching the ledger entry of an asset
    /// already registered. Returns the assets actually added, for which the
    /// caller must register the receive hook. Admin only.
    pub fn register_tokens(&mut self, sender: u64, tokens: &Vec<u64>) -> (r: Result<
        Vec<u64>,
        Error,
    >)
        requires
            old(self).wf(),
        ensures
            match r {
                Err(e) => {
                    &&& e == Error::Unauthorized
                    &&& sender != old(self).config.admin
                    &&& *final(self) == *old(self)
                },
                Ok(newly) => {
                    &&& sender == old(self).config.admin
                    &&& final(self).registered_tokens@ == registered_after(
                        old(self).registered_tokens@,
                        tokens@,
                    )
                    &&& newly@ == newly_registered(old(self).registered_tokens@, tokens@)
                    &&& final(self).orders@.dom() == old(self).orders@.dom()
                    &&& forall|a: u64| #[trigger] final(self).ns(a) == old(self).ns(a)
                    &&& final(self).cancel_records@ == old(self).cancel_records@
                    &&& final(self).fill_records@ == old(self).fill_records@
                    &&& final(self).route() == old(self).route()
                    &&& final(self).config == old(self).config
                    &&& final(self).contract_address == old(self).contract_address
                    &&& final(self).wf()
                },
            },
    {
        if sender != self.config.admin {
            return Err(Error::Unauthorized);
        }
        let mut newly: Vec<u64> = Vec::new();
        let mut i: usize = 0;
        while i < tokens.len()
            invariant
                i <= tokens@.len(),
                self.registered_tokens@ == registered_after(
                    old(self).registered_tokens@,
                    tokens@.subrange(0, i as int),
                ),
                newly@ == newly_registered(
                    old(self).registered_tokens@,
                    tokens@.subrange(0, i as int),
                ),
                self.orders@ == old(self).orders@,
                self.cancel_records@ == old(self).cancel_records@,
                self.fill_records@ == old(self).fill_records@,
                self.route_state == old(self).route_state,
                self.config == old(self).config,
                self.contract_address == old(self).contract_address,
            decreases tokens@.len() - i,
        {
            let token = tokens[i];
            if !self.registered_tokens.contains_key(&token) {
                self.registered_tokens.insert(token, 0);
                newly.push(token);
            }
            i += 1;
            proof {
                assert(tokens@.subrange(0, i as int).drop_last() =~= tokens@.subrange(
                    0,
                    i - 1,
                ));
                assert(tokens@.subrange(0, i as int).last() == tokens@[i - 1]);
            }
        }
        proof {
            assert(tokens@.subrange(0, tokens@.len() as int) =~= tokens@);
            assert(forall|a: u64| #[trigger] final(self).ns(a) == old(self).ns(a));
            assert forall|t: u64|
                old(self).registered_tokens@.contains_key(t)
                    implies #[trigger] final(self).registered_tokens@.contains_key(t) by {
                lemma_registered_after_monotone(old(self).registered_tokens@, tokens@, t);
            }
            lemma_wf_orders_stable(*old(self), *self);
        }
        Ok(newly)
    }

    /// The fill allow-list after an update: the requested list, with the
    /// system itself and the admin appended where missing — neither can be
    /// locked out.
    pub open spec fn updated_allowed(self, list: Seq<u64>) -> Seq<u64> {
        let with_contract = if list.contains(self.contract_address) {
            list
        } else {
            list.push(self.contract_address)
        };
        if with_contract.contains(self.config.admin) {
            with_contract
        } else {
            with_contract.push(self.config.admin)
        }
    }

    /// Replaces the fill allow-list and/or the flat execution fee. Admin only;
    /// the admin and the system itself always stay allow-listed.
    pub fn update_config(
        &mut self,
        sender: u64,
        addresses_allowed_to_fill: Option<Vec<u64>>,
        execution_fee: Option<u128>,
    ) -> (r: Result<(), Error>)
        requires
            old(self).wf(),
        ensures
            match r {
                Err(e) => {
                    &&& e == Error::Unauthorized
                    &&& sender != old(self).config.admin
                    &&& *final(self) == *old(self)
                },
                Ok(()) => {
                    &&& sender == old(self).config.admin
                    &&& final(self).config.addresses_allowed_to_fill@ == match addresses_allowed_to_fill {
                        Some(list) => old(self).updated_allowed(list@),
                        None => old(self).config.addresses_allowed_to_fill@,
                    }
                    &&& final(self).config.execution_fee == match execution_fee {
                        Some(fee) => fee,
                        None => old(self).config.execution_fee,
                    }
                    &&& final(self).config.admin == old(self).config.admin
                    &&& final(self).config.butt == old(self).config.butt
                    &&& final(self).config.sscrt == old(self).config.sscrt
                    &&& final(self).orders@.dom() == old(self).orders@.dom()
                    &&& forall|a: u64| #[trigger] final(self).ns(a) == old(self).ns(a)
                    &&& final(self).registered_tokens@ == old(self).registered_tokens@
                    &&& final(self).cancel_records@ == old(self).cancel_records@
                    &&& final(self).fill_records@ == old(self).fill_records@
                    &&& final(self).route() == old(self).route()
                    &&& final(self).contract_address == old(self).contract_address
                    &&& final(self).wf()
                },
            },
    {
        if sender != self.config.admin {
            return Err(Error::Unauthorized);
        }
        if let Some(new_list) = addresses_allowed_to_fill {
            let mut list = new_list;
            if !vec_contains(&list, self.contract_address) {
                list.push(self.contract_address);
            }
            if !vec_contains(&list, self.config.admin) {
                list.push(self.config.admin);
            }
            self.config.addresses_allowed_to_fill = list;
        }
        if let Some(fee) = execution_fee {
            self.config.execution_fee = fee;
        }
        proof {
            assert(forall|a: u64| #[trigger] final(self).ns(a) == old(self).ns(a));
            lemma_wf_orders_stable(*old(self), *self);
        }
        Ok(())
    }

    /// How much of a registered asset's actual custodial balance exceeds the
    /// aggregate locked across its open orders: the sweepable surplus — dust,
    /// interest, donations — and zero where nothing exceeds it. The locked
    /// funds themselves are never sweepable.
    pub fn sweep_excess(&self, token_address: u64, actual_balance: u128) -> (amount: u128)
        requires
            self.token_registered(token_address),
        ensures
            amount == if actual_balance >= self.sum_balance_of(token_address) {
                actual_balance - self.sum_balance_of(token_address)
            } else {
                0
            },
    {
        let entry = match self.read_registered_token(token_address) {
            Some(t) => t,
            None => {
                return 0;  // unreachable: the asset is registered
            },
        };
        if actual_balance >= entry.sum_balance {
            actual_balance - entry.sum_balance
        } else {
            0
        }
    }
}

/// Whether a vector holds a value.
pub fn vec_contains(v: &Vec<u64>, x: u64) -> (r: bool)
    ensures
        r == v@.contains(x),
{
    let mut i: usize = 0;
    while i < v.len()
        invariant
            i <= v@.len(),
            forall|j: int| 0 <= j < i ==> v@[j] != x,
        decreases v@.len() - i,
    {
        if v[i] == x {
            return true;
        }
        i += 1;
    }
    false
}

/// Registering assets never unregisters one.
proof fn lemma_registered_after_monotone(m: Map<u64, u128>, tokens: Seq<u64>, t: u64)
    requires
        m.contains_key(t),
    ensures
        registered_after(m, tokens).contains_key(t),
    decreases tokens.len(),
{
    if tokens.len() > 0 {
        lemma_registered_after_monotone(m, tokens.drop_last(), t);
    }
}

} // verus!
