use vstd::prelude::*;

use std::collections::HashSet;

use crate::errors::GameError;
use crate::grid::Grid;
use crate::grid::cell_key;
use crate::grid::lemma_owned_cells_finite;
use crate::grid::lemma_owned_cells_insert;
use crate::grid::owned_cells;
use crate::ledger::AccountLedger;
use crate::payout::MAX_CAPACITY;
use crate::payout::compute_payout;
use crate::payout::payout_spec;
use crate::pixel::PixelInfo;
use crate::round::Round;

verus! {

broadcast use vstd::std_specs::hash::group_hash_axioms;

/// The whole game: grid, per-account ledger, round clock, withdrawal
/// guard and reward pool, owned as one aggregate. Every mutating call is
/// one atomic step — it either commits the full transition or fails with
/// a `GameError` and changes nothing.
pub struct Contract {
    pub grid: Grid,
    pub ledger: AccountLedger,
    pub round: Round,
    /// Accounts that have already withdrawn their reward; grows
    /// monotonically and never shrinks.
    pub withdrawn: HashSet<u64>,
    /// The reward pool: refreshed to the host's total balance by every
    /// successful claim, hence frozen at its last pre-end value once the
    /// round is over.
    pub reward_dist_balance: u128,
    /// Host block height at the last successful claim.
    pub last_change_block_height: u64,
}

impl Contract {
    /// Count consistency: the ledger's entry for every account equals the
    /// number of grid cells the account currently owns.
    pub open spec fn counts_consistent(self) -> bool {
        forall|a: u64|
            (#[trigger] self.ledger.count_spec(a)) as nat == owned_cells(
                self.grid.cells@,
                a,
            ).len()
    }

    pub open spec fn wf(self) -> bool {
        &&& self.grid.wf()
        &&& self.round.wf()
        &&& self.counts_consistent()
    }

    /// A fresh game over an empty grid. The configuration is fixed here
    /// for good; the host supplies its clock, balance and block height.
    pub fn init(
        width: u32,
        height: u32,
        start_price: u128,
        multiplier: u32,
        duration: u64,
        now_ms: u64,
        current_balance: u128,
        block_height: u64,
    ) -> (r: Contract)
        requires
            1 <= width,
            1 <= height,
            (width as int) * (height as int) <= MAX_CAPACITY,
            1 <= multiplier,
            now_ms + duration <= u64::MAX,
        ensures
            r.wf(),
            r.grid.width == width,
            r.grid.height == height,
            r.grid.start_price == start_price,
            r.grid.multiplier == multiplier,
            r.grid.cells@ == Map::<u64, PixelInfo>::empty(),
            forall|a: u64| #[trigger] r.ledger.count_spec(a) == 0,
            r.round == (Round { start_timestamp: now_ms, duration }),
            r.withdrawn@ == Set::<u64>::empty(),
            r.reward_dist_balance == current_balance,
            r.last_change_block_height == block_height,
    {
        let contract = Contract {
            grid: Grid::new(width, height, start_price, multiplier),
            ledger: AccountLedger::new(),
            round: Round::new(now_ms, duration),
            withdrawn: HashSet::new(),
            reward_dist_balance: current_balance,
            last_change_block_height: block_height,
        };
        proof {
            assert forall|a: u64|
                (#[trigger] contract.ledger.count_spec(a)) as nat == owned_cells(
                    contract.grid.cells@,
                    a,
                ).len() by {
                assert(owned_cells(contract.grid.cells@, a) =~= Set::<u64>::empty());
            }
        }
        contract
    }

    /// Claim or recolor cell `(position_x, position_y)` for `payer`. The
    /// round clock rules first: once `now_ms` has reached the round's end
    /// every claim fails with `RoundOver`. While the round runs, the grid
    /// transition decides (bounds, price raise, payment), the ledger is
    /// settled in the same step, and the reward pool is refreshed to
    /// `current_balance`. A failing call commits nothing.
    pub fn set_pixel(
        &mut self,
        color: u32,
        position_x: u32,
        position_y: u32,
        payer: u64,
        attached_amount: u128,
        now_ms: u64,
        current_balance: u128,
        block_height: u64,
    ) -> (r: Result<(), GameError>)
        requires
            old(self).wf(),
        ensures
            final(self).wf(),
            final(self).round == old(self).round,
            final(self).withdrawn@ == old(self).withdrawn@,
            final(self).grid.width == old(self).grid.width,
            final(self).grid.height == old(self).grid.height,
            final(self).grid.start_price == old(self).grid.start_price,
            final(self).grid.multiplier == old(self).grid.multiplier,
            r is Err ==> *final(self) == *old(self),
            old(self).round.is_finished_spec(now_ms) ==> r == Err::<(), GameError>(
                GameError::RoundOver,
            ),
            !old(self).round.is_finished_spec(now_ms) ==> {
                let g = old(self).grid;
                let cur = g.current_price(position_x, position_y);
                let raised = cur * g.multiplier;
                let k = cell_key(g.width, position_x, position_y);
                let previous = g.owner_at(position_x, position_y);
                &&& !(position_x < g.width && position_y < g.height) ==> r == Err::<
                    (),
                    GameError,
                >(GameError::OutOfBounds)
                &&& position_x < g.width && position_y < g.height ==> {
                    &&& raised > u128::MAX ==> r == Err::<(), GameError>(GameError::PriceOverflow)
                    &&& raised <= u128::MAX && attached_amount < raised ==> r == Err::<
                        (),
                        GameError,
                    >(GameError::InsufficientPayment)
                    &&& raised <= u128::MAX && attached_amount >= raised ==> {
                        &&& raised >= cur
                        &&& r == Ok::<(), GameError>(())
                        &&& final(self).grid.cells@ == g.cells@.insert(
                            k,
                            (PixelInfo {
                                owner: payer,
                                price: raised as u128,
                                color: color,
                                position_x: position_x,
                                position_y: position_y,
                            }),
                        )
                        &&& final(self).grid.claims@ == g.claims@.insert(
                            k,
                            g.claim_count(position_x, position_y) + 1,
                        )
                        &&& final(self).reward_dist_balance == current_balance
                        &&& final(self).last_change_block_height == block_height
                        &&& final(self).ledger.count_spec(payer) == old(self).ledger.count_spec(
                            payer,
                        ) + (if previous == Some(payer) {
                            0int
                        } else {
                            1int
                        })
                        &&& match previous {
                            Some(p) => p != payer ==> final(self).ledger.count_spec(p) == old(
                                self,
                            ).ledger.count_spec(p) - 1,
                            None => true,
                        }
                        &&& forall|a: u64|
                            a != payer && previous != Some(a)
                                ==> #[trigger] final(self).ledger.count_spec(a) == old(
                                self,
                            ).ledger.count_spec(a)
                    }
                }
            },
    {
        if self.round.is_finished(now_ms) {
            return Err(GameError::RoundOver);
        }
        let ghost old_grid = self.grid.cells@;
        let previous_owner = match self.grid.claim_or_recolor(
            position_x,
            position_y,
            color,
            payer,
            attached_amount,
        ) {
            Ok(p) => p,
            Err(e) => {
                return Err(e);
            },
        };
        let ghost k = cell_key(old(self).grid.width, position_x, position_y);
        proof {
            lemma_owned_cells_finite(old_grid, payer);
            old(self).grid.lemma_owned_cells_bounded(payer);
            if let Some(p) = previous_owner {
                lemma_owned_cells_finite(old_grid, p);
                assert(owned_cells(old_grid, p).contains(k));
                assert(owned_cells(old_grid, p).len() >= 1) by {
                    if owned_cells(old_grid, p).len() == 0 {
                        owned_cells(old_grid, p).lemma_len0_is_empty();
                    }
                }
            }
            if previous_owner != Some(payer) {
                assert(!owned_cells(old_grid, payer).contains(k));
            }
        }
        self.ledger.transfer_cell_credit(previous_owner, payer);
        self.reward_dist_balance = current_balance;
        self.last_change_block_height = block_height;
        proof {
            let cell = self.grid.cells@[k];
            assert forall|a: u64|
                (#[trigger] self.ledger.count_spec(a)) as nat == owned_cells(
                    self.grid.cells@,
                    a,
                ).len() by {
                lemma_owned_cells_insert(old_grid, k, cell, a);
                lemma_owned_cells_finite(old_grid, a);
            }
        }
        Ok(())
    }

    /// Pay `account` its share of the frozen reward pool, at most once.
    /// Fails with `RoundStillActive` while the round runs and with
    /// `AlreadyWithdrawn` on any repeat. On success the account is marked
    /// withdrawn before the returned transfer amount leaves the library,
    /// so a retried or re-entered transfer can never pay twice; the
    /// amount is `floor(pool * share / (2 * capacity))`, zero shares
    /// included.
    pub fn withdraw(&mut self, account: u64, now_ms: u64) -> (r: Result<u128, GameError>)
        requires
            old(self).wf(),
        ensures
            final(self).wf(),
            final(self).grid == old(self).grid,
            final(self).ledger == old(self).ledger,
            final(self).round == old(self).round,
            final(self).reward_dist_balance == old(self).reward_dist_balance,
            final(self).last_change_block_height == old(self).last_change_block_height,
            r is Err ==> *final(self) == *old(self),
            !old(self).round.is_finished_spec(now_ms) ==> r == Err::<u128, GameError>(
                GameError::RoundStillActive,
            ),
            old(self).round.is_finished_spec(now_ms) && old(self).withdrawn@.contains(account)
                ==> r == Err::<u128, GameError>(GameError::AlreadyWithdrawn),
            old(self).round.is_finished_spec(now_ms) && !old(self).withdrawn@.contains(account)
                ==> {
                &&& r matches Ok(reward) && reward == payout_spec(
                    old(self).reward_dist_balance as int,
                    old(self).ledger.count_spec(account) as int,
                    old(self).grid.capacity(),
                )
                &&& final(self).withdrawn@ == old(self).withdrawn@.insert(account)
            },
    {
        if !self.round.is_finished(now_ms) {
            return Err(GameError::RoundStillActive);
        }
        if self.withdrawn.contains(&account) {
            return Err(GameError::AlreadyWithdrawn);
        }
        let share = self.ledger.count_of(account);
        let width = self.grid.width;
        let height = self.grid.height;
        proof {
            old(self).grid.lemma_owned_cells_bounded(account);
            assert(1 <= (width as int) * (height as int)) by (nonlinear_arith)
                requires
                    1 <= width,
                    1 <= height,
            ;
        }
        let capacity: u64 = (width as u64) * (height as u64);
        let reward = compute_payout(self.reward_dist_balance, share, capacity);
        self.withdrawn.insert(account);
        Ok(reward)
    }

    /// Read-only snapshot of one cell; never fails, never mutates.
    pub fn get_pixel(&self, position_x: u32, position_y: u32) -> (r: Option<PixelInfo>)
        ensures
            r == self.grid.cell_at(position_x, position_y),
    {
        self.grid.get(position_x, position_y)
    }

    /// All populated cells of one row, by ascending column; empty for a
    /// row outside the grid. Callers must not read meaning into the
    /// order.
    pub fn get_field_row(&self, position_y: u32) -> (r: Vec<PixelInfo>)
        ensures
            r@ == self.grid.row_seq(position_y),
    {
        self.grid.get_row(position_y)
    }

    /// Whether the round is over: a pure function of the supplied clock,
    /// true exactly from the end boundary on.
    pub fn is_game_finished(&self, now_ms: u64) -> (r: bool)
        requires
            self.round.wf(),
        ensures
            r == self.round.is_finished_spec(now_ms),
    {
        self.round.is_finished(now_ms)
    }

    /// The fixed instant from which claims fail and withdrawals begin.
    pub fn game_finish_timestamp(&self) -> (r: u64)
        requires
            self.round.wf(),
        ensures
            r == self.round.end_spec(),
    {
        self.round.end_timestamp()
    }

    /// How many blocks have passed since the last successful claim.
    pub fn number_of_blocks_unchanged(&self, current_block_height: u64) -> (r: u64)
        requires
            current_block_height >= self.last_change_block_height,
        ensures
            r == current_block_height - self.last_change_block_height,
    {
        current_block_height - self.last_change_block_height
    }
}

} // verus!
