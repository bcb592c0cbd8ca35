//! Fee arithmetic: the fee one hop charges and the amounts a path forwards.

use vstd::prelude::*;

verus! {

/// Fee policy of one channel direction.
#[derive(Clone, Copy, Debug, PartialEq, Eq, Structural)]
pub struct FeePolicy {
    pub fee_base: u64,
    pub fee_rate: u64,
}

/// The fee charged for forwarding `amount` under `policy`: a thousandth of
/// the base fee plus a millionth of the rate times the amount, both rounded
/// down.
pub open spec fn fee(policy: FeePolicy, amount: int) -> int {
    policy.fee_base as int / 1000 + (policy.fee_rate as int * amount) / 1_000_000
}

/// `fee` capped at the largest `u64`: the weight by which routes are ranked.
pub open spec fn fee_weight(policy: FeePolicy, amount: int) -> int {
    if fee(policy, amount) <= u64::MAX as int {
        fee(policy, amount)
    } else {
        u64::MAX as int
    }
}

/// The amount that hop `i` of a path must forward so that `amount` arrives
/// at the destination. The last hop forwards `amount` itself; every other
/// hop forwards what the next hop forwards plus the fee the next hop's
/// policy charges on that.
pub open spec fn required_forward(hops: Seq<FeePolicy>, amount: int, i: int) -> int
    decreases hops.len() - i,
{
    if i + 1 >= hops.len() {
        amount
    } else {
        let downstream = required_forward(hops, amount, i + 1);
        downstream + fee(hops[i + 1], downstream)
    }
}

/// What the source pays beyond the principal.
pub open spec fn total_fee(hops: Seq<FeePolicy>, amount: int) -> int {
    required_forward(hops, amount, 0) - amount
}

/// No fee is negative.
pub proof fn lemma_fee_nonnegative(policy: FeePolicy, amount: int)
    requires
        0 <= amount,
    ensures
        0 <= fee(policy, amount),
{
    assert(0 <= policy.fee_rate as int * amount) by (nonlinear_arith)
        requires
            0 <= policy.fee_rate as int,
            0 <= amount,
    ;
}

/// A larger amount never pays a smaller fee under the same policy.
pub proof fn lemma_fee_monotonic(policy: FeePolicy, a: int, b: int)
    requires
        0 <= a <= b,
    ensures
        fee(policy, a) <= fee(policy, b),
{
    let r = policy.fee_rate as int;
    assert(r * a <= r * b) by (nonlinear_arith)
        requires
            0 <= r,
            a <= b,
    ;
}

/// Computes the fee for forwarding `amount` under `policy`.
pub fn fee_for(policy: FeePolicy, amount: u64) -> (r: u128)
    ensures
        r as int == fee(policy, amount as int),
{
    let rate: u128 = policy.fee_rate as u128;
    let wide: u128 = amount as u128;
    assert(rate * wide <= 0xFFFF_FFFF_FFFF_FFFF * 0xFFFF_FFFF_FFFF_FFFF) by (nonlinear_arith)
        requires
            0 <= rate <= 0xFFFF_FFFF_FFFF_FFFF,
            0 <= wide <= 0xFFFF_FFFF_FFFF_FFFF,
    ;
    let product: u128 = rate * wide;
    let base: u128 = (policy.fee_base / 1000) as u128;
    base + product / 1_000_000
}

} // verus!
