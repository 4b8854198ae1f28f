//! A contested pixel canvas. Participants pay an escalating price to claim
//! or recolor cells of a fixed grid while a bounded round runs; once the
//! round is over, the snapshotted reward pool is paid out at most once per
//! account, proportionally to the number of cells it holds.
//!
//! The crate is the game's state machine alone, over plain values: account
//! identities arrive as opaque `u64` tokens, amounts as `u128`, timestamps
//! in milliseconds as `u64`. Identity resolution, payment intake and
//! dispatch, the wall clock and persistence belong to the hosting layer.

pub mod errors;
pub mod game;
pub mod grid;
pub mod laws;
pub mod ledger;
pub mod payout;
pub mod pixel;
pub mod round;

pub use errors::GameError;
pub use game::Contract;
pub use grid::Grid;
pub use ledger::AccountLedger;
pub use pixel::PixelInfo;
pub use round::Round;
