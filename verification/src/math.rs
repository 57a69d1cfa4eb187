//! Wide proportional arithmetic: the exchange releases input in proportion to
//! the output delivered, computed as a multiply-then-divide over a width that
//! cannot overflow at token-amount magnitudes.

use vstd::prelude::*;
use vstd::arithmetic::div_mod::{
    lemma_div_is_ordered, lemma_fundamental_div_mod, lemma_multiply_divide_le,
    lemma_remainder_lower,
};
use vstd::arithmetic::mul::{
    lemma_mul_inequality, lemma_mul_is_commutative, lemma_mul_is_distributive_add_other_way,
};

verus! {

/// Relies on `primitive_types::U256`: `From<u128>` embeds exactly, `Mul` of two
/// values below 2^128 cannot overflow 256 bits, `Div` floors (and here never
/// divides by zero), and `as_u128` returns the value when it fits in 128 bits.
#[verifier::external_body]
pub(crate) fn mul_div_floor(a: u128, b: u128, c: u128) -> (r: u128)
    requires
        c > 0,
        a * b / (c as int) <= u128::MAX,
    ensures
        r == a * b / (c as int),
{
    let wide = primitive_types::U256::from(a) * primitive_types::U256::from(b)
        / primitive_types::U256::from(c);
    wide.as_u128()
}

/// When the multiplier is at most the divisor, the proportional part of `a`
/// is at most `a`.
pub proof fn lemma_mul_div_le(a: int, b: int, c: int)
    requires
        0 <= a,
        0 <= b <= c,
        0 < c,
    ensures
        a * b / c <= a,
{
    lemma_mul_inequality(b, c, a);
    lemma_mul_is_commutative(b, a);
    lemma_mul_is_commutative(c, a);
    lemma_multiply_divide_le(a * b, c, a);
}

/// Scaling a floored quotient back up by the divisor cannot exceed the
/// dividend.
pub proof fn lemma_div_mul_le(x: int, d: int)
    requires
        0 <= x,
        0 < d,
    ensures
        (x / d) * d <= x,
{
    lemma_fundamental_div_mod(x, d);
    lemma_remainder_lower(x, d);
    lemma_mul_is_commutative(x / d, d);
}

/// The proportional-fill step keeps the released input within bounds: if the
/// input already released stays in proportion to the output already delivered,
/// it still does after releasing `from * a / net` for `a` more units of output.
pub proof fn lemma_fill_step_in_proportion(from: int, net: int, filled: int, netf: int, a: int)
    requires
        0 <= from,
        0 < net,
        0 <= filled,
        0 <= netf,
        0 <= a,
        filled * net <= from * netf,
    ensures
        (filled + from * a / net) * net <= from * (netf + a),
{
    let q = from * a / net;
    lemma_div_mul_le(from * a, net);
    assert((filled + q) * net == filled * net + q * net) by {
        lemma_mul_is_distributive_add_other_way(net, filled, q);
    }
    assert(from * netf + from * a == from * (netf + a)) by {
        vstd::arithmetic::mul::lemma_mul_is_distributive_add(from, netf, a);
    }
}

/// Proportion bounds the released input by the full input amount.
pub proof fn lemma_proportion_le(from: int, net: int, filled: int, netf: int)
    requires
        0 <= from,
        0 < net,
        0 <= filled,
        netf <= net,
        filled * net <= from * netf,
    ensures
        filled <= from,
{
    lemma_mul_inequality(netf, net, from);
    lemma_mul_is_commutative(netf, from);
    lemma_mul_is_commutative(net, from);
    if filled > from {
        lemma_mul_inequality(from + 1, filled, net);
        assert(from * net < (from + 1) * net) by {
            lemma_mul_is_distributive_add_other_way(net, from, 1);
        }
    }
}

} // verus!
