use vstd::prelude::*;

verus! {

/// Why a claim or a withdrawal was refused. Every failing call returns one
/// of these and commits no state change at all.
#[derive(Clone, Copy, PartialEq, Eq, Structural, Debug)]
pub enum GameError {
    /// The claimed coordinate lies outside the grid.
    OutOfBounds,
    /// The round has ended; no further claims are accepted.
    RoundOver,
    /// The round is still running; withdrawals must wait for its end.
    RoundStillActive,
    /// The attached amount does not cover the cell's next price.
    InsufficientPayment,
    /// Raising the cell's price again would leave the price type's range.
    PriceOverflow,
    /// The account has already withdrawn its reward once.
    AlreadyWithdrawn,
}

impl GameError {
    /// A short description, for hosts that surface errors as text.
    pub fn message(&self) -> (r: &'static str)
        ensures
            r@ =~= self.message_spec(),
    {
        match self {
            GameError::OutOfBounds => "incorrect coordinates",
            GameError::RoundOver => "the game is already finished",
            GameError::RoundStillActive => "the game is still going on",
            GameError::InsufficientPayment => "not enough tokens attached",
            GameError::PriceOverflow => "the pixel price cannot rise further",
            GameError::AlreadyWithdrawn => "the reward was already withdrawn",
        }
    }

    pub open spec fn message_spec(self) -> Seq<char> {
        match self {
            GameError::OutOfBounds => "incorrect coordinates"@,
            GameError::RoundOver => "the game is already finished"@,
            GameError::RoundStillActive => "the game is still going on"@,
            GameError::InsufficientPayment => "not enough tokens attached"@,
            GameError::PriceOverflow => "the pixel price cannot rise further"@,
            GameError::AlreadyWithdrawn => "the reward was already withdrawn"@,
        }
    }
}

} // verus!
