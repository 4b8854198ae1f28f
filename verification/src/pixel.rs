use vstd::prelude::*;

verus! {

/// One claimed cell of the grid. A coordinate with no stored `PixelInfo`
/// implicitly has no owner and stands at the grid's starting price.
#[derive(Clone, Copy, PartialEq, Eq, Structural, Debug)]
pub struct PixelInfo {
    /// Opaque token for the owning account, as resolved by the host layer.
    pub owner: u64,
    /// What the next claimant's payment must reach; never decreases.
    pub price: u128,
    /// Display value; the last successful claim wins.
    pub color: u32,
    /// Column of the cell, `0 <= position_x < width`.
    pub position_x: u32,
    /// Row of the cell, `0 <= position_y < height`.
    pub position_y: u32,
}

} // verus!
