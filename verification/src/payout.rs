use vstd::prelude::*;

use vstd::arithmetic::div_mod::lemma_fundamental_div_mod;
use vstd::arithmetic::div_mod::lemma_hoist_over_denominator;

verus! {

/// Largest number of cells a grid may have. Keeping the capacity within
/// this bound keeps `2 * capacity`, and with it every intermediate value
/// of the payout computation, inside the machine range.
pub const MAX_CAPACITY: u64 = 0x8000_0000;

/// What an account holding `share` cells is owed out of a pool of `pool`:
/// `floor(pool * share / (2 * capacity))`. The divisor is twice the grid's
/// capacity by design, so even if every cell is owned and every owner
/// withdraws, at most half the pool is ever distributed; the remainder
/// stays with the pool's holder.
pub open spec fn payout_spec(pool: int, share: int, capacity: int) -> int {
    (pool * share) / (2 * capacity)
}

/// Splitting the dividend `pool` into quotient and remainder by the
/// divisor lets the payout be computed without the product `pool * share`
/// ever being formed: each summand, and the sum itself, stays at or below
/// `pool / 2 + share`.
proof fn lemma_payout_split(pool: int, share: int, capacity: int)
    requires
        0 <= pool,
        0 <= share,
        share <= capacity,
        1 <= capacity <= MAX_CAPACITY,
    ensures
        ({
            let d = 2 * capacity;
            let q = pool / d;
            let rem = pool % d;
            &&& q * share + (rem * share) / d == payout_spec(pool, share, capacity)
            &&& 0 <= q * share <= pool / 2
            &&& 0 <= (rem * share) / d <= share
            &&& 0 <= rem * share < 0x8000_0000_0000_0000
        }),
{
    let d = 2 * capacity;
    let q = pool / d;
    let rem = pool % d;
    lemma_fundamental_div_mod(pool, d);
    assert(rem * share < 0x8000_0000_0000_0000) by (nonlinear_arith)
        requires
            0 <= rem < 2 * capacity,
            0 <= share <= capacity,
            capacity <= 0x8000_0000,
    ;
    assert(rem * share + (q * share) * d == pool * share) by (nonlinear_arith)
        requires
            pool == d * q + rem,
    ;
    lemma_hoist_over_denominator(rem * share, q * share, d as nat);
    assert(0 <= q * share && q * share <= q * capacity) by (nonlinear_arith)
        requires
            0 <= q,
            0 <= share <= capacity,
    ;
    assert(2 * (q * capacity) <= pool) by (nonlinear_arith)
        requires
            d == 2 * capacity,
            q * d <= pool,
    ;
    assert(0 <= rem * share && rem * share <= d * share) by (nonlinear_arith)
        requires
            0 <= rem < d,
            0 <= share,
    ;
    assert((d * share) / d == share) by (nonlinear_arith)
        requires
            1 <= d,
    ;
    vstd::arithmetic::div_mod::lemma_div_is_ordered(rem * share, d * share, d);
    vstd::arithmetic::div_mod::lemma_div_pos_is_pos(rem * share, d);
}

/// Computes `payout_spec` exactly, entirely within `u128`.
pub fn compute_payout(pool: u128, share: u64, capacity: u64) -> (r: u128)
    requires
        1 <= capacity <= MAX_CAPACITY,
        share <= capacity,
    ensures
        r == payout_spec(pool as int, share as int, capacity as int),
{
    proof {
        lemma_payout_split(pool as int, share as int, capacity as int);
    }
    let divisor: u128 = 2 * (capacity as u128);
    let q: u128 = pool / divisor;
    let rem: u128 = pool % divisor;
    let part_quotient: u128 = q * (share as u128);
    let part_remainder: u128 = (rem * (share as u128)) / divisor;
    part_quotient + part_remainder
}

} // verus!
