use vstd::prelude::*;

use std::collections::HashMap;

use crate::errors::GameError;
use crate::payout::MAX_CAPACITY;
use crate::pixel::PixelInfo;

use vstd::relations::injective_on;
use vstd::set_lib::lemma_int_range;
use vstd::set_lib::lemma_len_subset;
use vstd::set_lib::lemma_map_size;
use vstd::set_lib::set_int_range;

verus! {

broadcast use vstd::std_specs::hash::group_hash_axioms;

/// Flat storage key of cell `(x, y)` on a grid `width` cells wide:
/// `y * width + x`. For coordinates inside the grid the encoding is
/// injective and every key is below `width * height`.
pub open spec fn cell_key(width: u32, x: u32, y: u32) -> u64 {
    ((y as int) * (width as int) + (x as int)) as u64
}

/// The keys of the cells that `account` owns in grid contents `g`.
pub open spec fn owned_cells(g: Map<u64, PixelInfo>, account: u64) -> Set<u64> {
    g.dom().filter(|k: u64| g[k].owner == account)
}

/// The cell price after `k` successful claims of one cell:
/// `start * multiplier^k`.
pub open spec fn price_after(start: int, multiplier: int, k: nat) -> int
    decreases k,
{
    if k == 0 {
        start
    } else {
        price_after(start, multiplier, (k - 1) as nat) * multiplier
    }
}

/// The `u64` keys below `n`.
pub open spec fn keys_below(n: u64) -> Set<u64> {
    Set::new(|k: u64| k < n)
}

/// There are exactly `n` keys below `n`.
pub proof fn lemma_keys_below_len(n: u64)
    ensures
        keys_below(n).finite(),
        keys_below(n).len() == n,
{
    let ints = set_int_range(0, n as int);
    let f = |i: int| i as u64;
    lemma_int_range(0, n as int);
    assert(injective_on(f, ints));
    assert forall|k: u64| keys_below(n).contains(k) implies ints.map(f).contains(k) by {
        assert(ints.contains(k as int) && f(k as int) == k);
    }
    assert forall|k: u64| ints.map(f).contains(k) implies keys_below(n).contains(k) by {
        let i = choose|i: int| ints.contains(i) && f(i) == k;
    }
    assert(ints.map(f) =~= keys_below(n));
    lemma_map_size(ints, keys_below(n), f);
}

/// How each account's owned-cell set changes when cell `k` is stored as
/// `c`: the new owner's set gains `k`, and every other account's set
/// loses it.
pub proof fn lemma_owned_cells_insert(g: Map<u64, PixelInfo>, k: u64, c: PixelInfo, account: u64)
    ensures
        c.owner == account ==> owned_cells(g.insert(k, c), account) == owned_cells(
            g,
            account,
        ).insert(k),
        c.owner != account ==> owned_cells(g.insert(k, c), account) == owned_cells(
            g,
            account,
        ).remove(k),
{
    if c.owner == account {
        assert(owned_cells(g.insert(k, c), account) =~= owned_cells(g, account).insert(k));
    } else {
        assert(owned_cells(g.insert(k, c), account) =~= owned_cells(g, account).remove(k));
    }
}

/// An account's owned-cell set is a finite part of the grid's key set.
pub proof fn lemma_owned_cells_finite(g: Map<u64, PixelInfo>, account: u64)
    requires
        g.dom().finite(),
    ensures
        owned_cells(g, account).finite(),
        owned_cells(g, account).len() <= g.dom().len(),
        owned_cells(g, account).subset_of(g.dom()),
{
    lemma_len_subset(owned_cells(g, account), g.dom());
}

/// The sparse canvas: a cell is stored only once it has been claimed, and
/// an absent cell implicitly has no owner and the starting price. Claiming
/// multiplies the price, which therefore never decreases.
pub struct Grid {
    /// Number of columns; coordinates satisfy `position_x < width`.
    pub width: u32,
    /// Number of rows; coordinates satisfy `position_y < height`.
    pub height: u32,
    /// Implicit price of a never-claimed cell.
    pub start_price: u128,
    /// Factor applied to a cell's price by every successful claim.
    pub multiplier: u32,
    /// The claimed cells, keyed by `cell_key`.
    pub cells: HashMap<u64, PixelInfo>,
    /// How many successful claims each stored cell has seen. Bookkeeping
    /// for the pricing law only; it never reaches the executable state.
    pub claims: Ghost<Map<u64, nat>>,
}

impl Grid {
    /// Total number of cells the grid can hold.
    pub open spec fn capacity(self) -> int {
        (self.width as int) * (self.height as int)
    }

    /// The deployment configuration the grid was created with.
    pub open spec fn config_wf(self) -> bool {
        &&& 1 <= self.width
        &&& 1 <= self.height
        &&& self.capacity() <= MAX_CAPACITY
        &&& 1 <= self.multiplier
    }

    /// What holds of every stored cell: its coordinates lie inside the
    /// grid and match its key, and its price is the starting price raised
    /// once per successful claim — the pricing law.
    pub open spec fn cell_wf(self, k: u64) -> bool {
        let c = self.cells@[k];
        &&& c.position_x < self.width
        &&& c.position_y < self.height
        &&& k == cell_key(self.width, c.position_x, c.position_y)
        &&& k < self.capacity()
        &&& self.claims@.contains_key(k)
        &&& 1 <= self.claims@[k]
        &&& c.price == price_after(self.start_price as int, self.multiplier as int, self.claims@[k])
        &&& c.price >= self.start_price
    }

    pub open spec fn wf(self) -> bool {
        &&& self.config_wf()
        &&& forall|k: u64| #[trigger] self.cells@.dom().contains(k) ==> self.cell_wf(k)
    }

    /// Snapshot of cell `(x, y)`; `None` while the cell was never claimed
    /// or lies outside the grid.
    pub open spec fn cell_at(self, x: u32, y: u32) -> Option<PixelInfo> {
        if x < self.width && y < self.height && self.cells@.contains_key(
            cell_key(self.width, x, y),
        ) {
            Some(self.cells@[cell_key(self.width, x, y)])
        } else {
            None
        }
    }

    /// The price a claim of `(x, y)` builds on right now.
    pub open spec fn current_price(self, x: u32, y: u32) -> u128 {
        match self.cell_at(x, y) {
            Some(c) => c.price,
            None => self.start_price,
        }
    }

    /// Owner of `(x, y)`, if the cell was ever claimed.
    pub open spec fn owner_at(self, x: u32, y: u32) -> Option<u64> {
        match self.cell_at(x, y) {
            Some(c) => Some(c.owner),
            None => None,
        }
    }

    /// How often `(x, y)` has been successfully claimed.
    pub open spec fn claim_count(self, x: u32, y: u32) -> nat {
        let k = cell_key(self.width, x, y);
        if self.cells@.contains_key(k) {
            self.claims@[k]
        } else {
            0
        }
    }

    pub fn new(width: u32, height: u32, start_price: u128, multiplier: u32) -> (r: Grid)
        requires
            1 <= width,
            1 <= height,
            (width as int) * (height as int) <= MAX_CAPACITY,
            1 <= multiplier,
        ensures
            r.wf(),
            r.width == width,
            r.height == height,
            r.start_price == start_price,
            r.multiplier == multiplier,
            r.cells@ == Map::<u64, PixelInfo>::empty(),
    {
        Grid {
            width,
            height,
            start_price,
            multiplier,
            cells: HashMap::new(),
            claims: Ghost(Map::empty()),
        }
    }

    /// The flat key of `(x, y)`; total, and free of overflow for every
    /// coordinate pair.
    fn key_of(&self, x: u32, y: u32) -> (r: u64)
        ensures
            r == cell_key(self.width, x, y),
            r == (y as int) * (self.width as int) + (x as int),
    {
        proof {
            assert((y as int) * (self.width as int) + (x as int) <= u64::MAX) by (nonlinear_arith)
                requires
                    x <= u32::MAX,
                    y <= u32::MAX,
                    self.width <= u32::MAX,
            ;
        }
        (y as u64) * (self.width as u64) + (x as u64)
    }

    /// Read-only snapshot of one cell; never fails and never mutates.
    pub fn get(&self, x: u32, y: u32) -> (r: Option<PixelInfo>)
        ensures
            r == self.cell_at(x, y),
    {
        if x < self.width && y < self.height {
            let k = self.key_of(x, y);
            match self.cells.get(&k) {
                Some(c) => Some(*c),
                None => None,
            }
        } else {
            None
        }
    }

    /// The populated cells of row `y` with column below `n`, by ascending
    /// column.
    pub open spec fn row_seq_upto(self, y: u32, n: int) -> Seq<PixelInfo>
        decreases n,
    {
        if n <= 0 {
            Seq::empty()
        } else {
            let prefix = self.row_seq_upto(y, n - 1);
            let k = cell_key(self.width, (n - 1) as u32, y);
            if self.cells@.contains_key(k) {
                prefix.push(self.cells@[k])
            } else {
                prefix
            }
        }
    }

    /// All populated cells of row `y`, by ascending column; a row outside
    /// the grid is empty.
    pub open spec fn row_seq(self, y: u32) -> Seq<PixelInfo> {
        if y < self.height {
            self.row_seq_upto(y, self.width as int)
        } else {
            Seq::empty()
        }
    }

    /// All populated cells of row `y`. Callers must not read meaning into
    /// the order beyond what `row_seq` states.
    pub fn get_row(&self, y: u32) -> (r: Vec<PixelInfo>)
        ensures
            r@ == self.row_seq(y),
    {
        let mut result: Vec<PixelInfo> = Vec::new();
        if y >= self.height {
            return result;
        }
        let mut x: u32 = 0;
        while x < self.width
            invariant
                x <= self.width,
                y < self.height,
                result@ == self.row_seq_upto(y, x as int),
            decreases self.width - x,
        {
            let k = self.key_of(x, y);
            match self.cells.get(&k) {
                Some(c) => result.push(*c),
                None => {},
            }
            x = x + 1;
        }
        result
    }

    /// The ownership, pricing and color transition of one claim. The
    /// round's legality is the caller's to check first; here a claim fails
    /// exactly when the coordinate lies outside the grid, when raising the
    /// price would overflow, or when the attached amount does not reach
    /// the raised price — and a failing claim changes nothing. A
    /// successful claim stores the cell with the claimant as owner, the
    /// raised price and the new color, and hands back the previous owner
    /// so the ledger can be settled in the same atomic step.
    pub fn claim_or_recolor(
        &mut self,
        position_x: u32,
        position_y: u32,
        color: u32,
        payer: u64,
        attached_amount: u128,
    ) -> (r: Result<Option<u64>, GameError>)
        requires
            old(self).wf(),
        ensures
            final(self).wf(),
            final(self).width == old(self).width,
            final(self).height == old(self).height,
            final(self).start_price == old(self).start_price,
            final(self).multiplier == old(self).multiplier,
            r is Err ==> *final(self) == *old(self),
            !(position_x < old(self).width && position_y < old(self).height) ==> r == Err::<
                Option<u64>,
                GameError,
            >(GameError::OutOfBounds),
            position_x < old(self).width && position_y < old(self).height ==> {
                let cur = old(self).current_price(position_x, position_y);
                let raised = cur * old(self).multiplier;
                let k = cell_key(old(self).width, position_x, position_y);
                &&& raised > u128::MAX ==> r == Err::<Option<u64>, GameError>(
                    GameError::PriceOverflow,
                )
                &&& raised <= u128::MAX && attached_amount < raised ==> r == Err::<
                    Option<u64>,
                    GameError,
                >(GameError::InsufficientPayment)
                &&& raised <= u128::MAX && attached_amount >= raised ==> {
                    &&& raised >= cur
                    &&& r == Ok::<Option<u64>, GameError>(
                        old(self).owner_at(position_x, position_y),
                    )
                    &&& final(self).cells@ == old(self).cells@.insert(
                        k,
                        (PixelInfo {
                            owner: payer,
                            price: raised as u128,
                            color: color,
                            position_x: position_x,
                            position_y: position_y,
                        }),
                    )
                    &&& final(self).claims@ == old(self).claims@.insert(
                        k,
                        old(self).claim_count(position_x, position_y) + 1,
                    )
                }
            },
    {
        if !(position_x < self.width && position_y < self.height) {
            return Err(GameError::OutOfBounds);
        }
        let k = self.key_of(position_x, position_y);
        let (current_price, previous_owner): (u128, Option<u64>) = match self.cells.get(&k) {
            Some(c) => (c.price, Some(c.owner)),
            None => (self.start_price, None),
        };
        let new_price = match current_price.checked_mul(self.multiplier as u128) {
            Some(p) => p,
            None => {
                return Err(GameError::PriceOverflow);
            },
        };
        if attached_amount < new_price {
            return Err(GameError::InsufficientPayment);
        }
        let ghost previous_claims: nat = self.claim_count(position_x, position_y);
        let cell = PixelInfo {
            owner: payer,
            price: new_price,
            color,
            position_x,
            position_y,
        };
        self.cells.insert(k, cell);
        self.claims = Ghost(self.claims@.insert(k, previous_claims + 1));
        proof {
            assert(k < self.capacity()) by (nonlinear_arith)
                requires
                    k == (position_y as int) * (self.width as int) + (position_x as int),
                    position_x < self.width,
                    position_y < self.height,
                    self.capacity() == (self.width as int) * (self.height as int),
            ;
            assert(new_price >= current_price) by (nonlinear_arith)
                requires
                    new_price == (current_price as int) * (self.multiplier as int),
                    1 <= self.multiplier,
                    0 <= current_price,
            ;
            assert forall|k2: u64| #[trigger] self.cells@.dom().contains(k2) implies self.cell_wf(
                k2,
            ) by {
                if k2 != k {
                    assert(old(self).cells@.dom().contains(k2));
                    assert(old(self).cell_wf(k2));
                } else {
                    if old(self).cells@.dom().contains(k2) {
                        assert(old(self).cell_wf(k2));
                    }
                    let s = self.start_price as int;
                    let m = self.multiplier as int;
                    assert(self.claims@[k] == previous_claims + 1);
                    assert(price_after(s, m, previous_claims + 1) == price_after(
                        s,
                        m,
                        previous_claims,
                    ) * m);
                }
            }
        }
        Ok(previous_owner)
    }

    /// No account can own more cells than the grid holds: every stored
    /// key lies below the capacity, and there are only `capacity` such
    /// keys.
    pub proof fn lemma_owned_cells_bounded(self, account: u64)
        requires
            self.wf(),
        ensures
            owned_cells(self.cells@, account).finite(),
            owned_cells(self.cells@, account).len() <= self.capacity(),
    {
        let owned = owned_cells(self.cells@, account);
        let cap = self.capacity() as u64;
        assert forall|k: u64| owned.contains(k) implies keys_below(cap).contains(k) by {
            assert(self.cells@.dom().contains(k));
        }
        lemma_keys_below_len(cap);
        lemma_len_subset(owned, keys_below(cap));
    }
}

} // verus!
