//! The library-wide laws, stated and proved over the same spec functions that
//! the operations' contracts use.

use vstd::prelude::*;
use crate::errors::Error;
use crate::exchange::Exchange;
use crate::route::{first_hop_route, route_after_callback, route_callback_error,
    route_finalizable};
use crate::state::{mirror_of, Hop, Order};

verus! {

/// The total of a sequence of amounts.
pub open spec fn sum(s: Seq<int>) -> int
    decreases s.len(),
{
    if s.len() == 0 {
        0
    } else {
        sum(s.drop_last()) + s.last()
    }
}

/// Conservation of an order's input. `counters` are the values an order's
/// `from_amount_filled` moves through: it starts at zero (`create_order`
/// leaves a fresh order with nothing filled), and each fill advances it by
/// exactly the release it pays out (`fill_order` returns
/// `updated.from_amount_filled - o.from_amount_filled` of the input token).
/// Then the releases of all fills, plus the refund a cancel would pay
/// (`cancel_order` refunds `from_amount - from_amount_filled`; zero once the
/// order is fully filled), add up to `from_amount` exactly — no input is
/// created or lost, whatever rounding each step did.
pub proof fn lemma_fill_conservation(releases: Seq<int>, counters: Seq<int>, from_amount: int)
    requires
        counters.len() == releases.len() + 1,
        counters[0] == 0,
        forall|i: int| 0 <= i < releases.len() ==> counters[i + 1] == counters[i] + releases[i],
    ensures
        sum(releases) + (from_amount - counters.last()) == from_amount,
    decreases releases.len(),
{
    if releases.len() == 0 {
    } else {
        let n = releases.len() as int;
        lemma_fill_conservation(releases.drop_last(), counters.drop_last(), from_amount);
        assert(counters[n] == counters[n - 1] + releases[n - 1]);
        assert(counters.drop_last().last() == counters[n - 1]);
    }
}

/// Mirror consistency as a standalone statement: in a well-formed exchange,
/// every creator-namespace order has its second copy at its recorded slot of
/// the mirror namespace, identical except that the two position fields are
/// swapped. Every mutating operation ensures `wf()`, so this holds after any
/// mutation.
pub proof fn lemma_mirror_consistency(ex: Exchange, a: u64, i: int)
    requires
        ex.wf(),
        a != ex.contract_address,
        0 <= i < ex.ns(a).len(),
    ensures
        ex.ns(a)[i].other_storage_position < ex.contract_ns().len(),
        ex.contract_ns()[ex.ns(a)[i].other_storage_position as int] == mirror_of(ex.ns(a)[i]),
{
    assert(ex.creator_ns_ok(a));
    assert(ex.creator_order_ok(a, ex.ns(a)[i], i));
}

/// The lifecycle of a two-hop route: starting it leaves one hop current and
/// one queued, so a finalize check rejects; the first accepted callback makes
/// the second hop current with nothing queued, so a finalize check still
/// rejects; only the second accepted callback drains the route into the one
/// shape a finalize check accepts. Exactly two callbacks, no fewer.
pub proof fn lemma_two_hop_route_lifecycle(
    sender: u64,
    borrow_amount: u128,
    hops: Seq<Hop>,
    minimum_acceptable_amount: Option<u128>,
)
    requires
        hops.len() == 2,
    ensures
        ({
            let r0 = first_hop_route(sender, borrow_amount, hops, minimum_acceptable_amount);
            let r1 = route_after_callback(r0);
            let r2 = route_after_callback(r1);
            &&& r0.current_hop == Some(hops[0]) && r0.remaining_hops =~= seq![hops[1]]
            &&& !route_finalizable(r0)
            &&& r1.current_hop == Some(hops[1]) && r1.remaining_hops.len() == 0
            &&& !route_finalizable(r1)
            &&& route_finalizable(r2)
        }),
{
    let r0 = first_hop_route(sender, borrow_amount, hops, minimum_acceptable_amount);
    assert(r0.remaining_hops =~= seq![hops[1]]);
}

/// The two callbacks of a two-hop route are themselves accepted when each
/// arrives from the venue then current, carrying the token then expected — the
/// second hop's input first, the borrowed token on the final leg with at least
/// the borrowed amount (here, of a route without a slippage floor, whose
/// second hop is an external swap rather than an on-ledger fill).
pub proof fn lemma_two_hop_route_callbacks_accepted(
    sender: u64,
    borrow_amount: u128,
    hops: Seq<Hop>,
    contract_ns: Seq<Order>,
    contract_address: u64,
    a1: u128,
    a2: u128,
)
    requires
        hops.len() == 2,
        hops[1].trade_smart_contract != contract_address,
        a2 >= borrow_amount,
    ensures
        ({
            let r0 = first_hop_route(sender, borrow_amount, hops, None);
            let r1 = route_after_callback(r0);
            &&& route_callback_error(
                Some(r0),
                contract_ns,
                contract_address,
                hops[1].from_token,
                hops[0].trade_smart_contract,
                a1,
            ) is None
            &&& route_callback_error(
                Some(r1),
                contract_ns,
                contract_address,
                hops[0].from_token,
                hops[1].trade_smart_contract,
                a2,
            ) is None
        }),
{
    let r0 = first_hop_route(sender, borrow_amount, hops, None);
    assert(r0.remaining_hops[0] == hops[1]);
}

/// A finalize check on a route that still has a hop current or queued fails
/// with exactly the still-contains-hops rejection — and `finalize_route`
/// guarantees that a failing check leaves the whole exchange, route included,
/// unchanged.
pub proof fn lemma_finalize_rejects_live_route(ex: Exchange)
    requires
        ex.route() is Some,
        !route_finalizable(ex.route()->0),
    ensures
        ex.finalize_route_error(ex.contract_address) == Some(Error::RouteStillContainsHops),
{
}

} // verus!
