use vstd::prelude::*;

use crate::game::Contract;
use crate::grid::Grid;
use crate::grid::cell_key;
use crate::grid::owned_cells;
use crate::grid::price_after;
use crate::payout::payout_spec;

verus! {

/// The price law's terms are never negative.
pub proof fn lemma_price_after_nonneg(start: int, multiplier: int, k: nat)
    requires
        0 <= start,
        0 <= multiplier,
    ensures
        0 <= price_after(start, multiplier, k),
    decreases k,
{
    if k > 0 {
        lemma_price_after_nonneg(start, multiplier, (k - 1) as nat);
        assert(0 <= price_after(start, multiplier, (k - 1) as nat) * multiplier)
            by (nonlinear_arith)
            requires
                0 <= price_after(start, multiplier, (k - 1) as nat),
                0 <= multiplier,
        ;
    }
}

/// Price monotonicity across claims: with a multiplier of at least one,
/// the price after more successful claims is never lower. Together with
/// `lemma_cell_price_is_power` this says that a cell's price never
/// decreases over any sequence of successful claims.
pub proof fn lemma_price_after_monotonic(start: int, multiplier: int, k1: nat, k2: nat)
    requires
        0 <= start,
        1 <= multiplier,
        k1 <= k2,
    ensures
        price_after(start, multiplier, k1) <= price_after(start, multiplier, k2),
    decreases k2,
{
    if k1 < k2 {
        lemma_price_after_monotonic(start, multiplier, k1, (k2 - 1) as nat);
        lemma_price_after_nonneg(start, multiplier, (k2 - 1) as nat);
        assert(price_after(start, multiplier, (k2 - 1) as nat) <= price_after(
            start,
            multiplier,
            (k2 - 1) as nat,
        ) * multiplier) by (nonlinear_arith)
            requires
                0 <= price_after(start, multiplier, (k2 - 1) as nat),
                1 <= multiplier,
        ;
    }
}

/// The price law itself: every stored cell of a well-formed grid has been
/// claimed at least once, and its price is the starting price multiplied
/// once per successful claim — `start_price * multiplier ^ claim_count`.
pub proof fn lemma_cell_price_is_power(g: Grid, x: u32, y: u32)
    requires
        g.wf(),
        g.cell_at(x, y) is Some,
    ensures
        g.claim_count(x, y) >= 1,
        match g.cell_at(x, y) {
            Some(c) => c.price == price_after(
                g.start_price as int,
                g.multiplier as int,
                g.claim_count(x, y),
            ),
            None => false,
        },
{
    let k = cell_key(g.width, x, y);
    assert(g.cells@.dom().contains(k));
    assert(g.cell_wf(k));
}

/// Count consistency: in every well-formed game state, each account's
/// ledger entry equals the number of grid cells the account owns at that
/// moment.
pub proof fn lemma_ledger_counts_owned_cells(c: Contract, account: u64)
    requires
        c.wf(),
    ensures
        c.ledger.count_spec(account) as nat == owned_cells(c.grid.cells@, account).len(),
{
    assert(c.ledger.count_spec(account) as nat == owned_cells(c.grid.cells@, account).len());
}

/// An account holding no cell is owed nothing — though its one permitted
/// withdrawal still spends its turn.
pub proof fn lemma_zero_share_zero_payout(pool: int, capacity: int)
    requires
        0 <= pool,
        1 <= capacity,
    ensures
        payout_spec(pool, 0, capacity) == 0,
{
    assert((pool * 0) / (2 * capacity) == 0) by (nonlinear_arith)
        requires
            1 <= capacity,
    ;
}

} // verus!
