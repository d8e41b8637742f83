//! What can stop a round.

use vstd::prelude::*;

verus! {

/// A broken invariant of the game state, or a deck that cannot be read.
/// Either is fatal: nothing is made up to go on with.
#[derive(Clone, Copy, Debug, PartialEq, Eq, Structural)]
pub enum GameError {
    /// A card had to be drawn from the shared deck and none was left.
    EmptyDeck,
    /// A line of a deck source does not write the value of a card.
    InvalidCardValue,
}

} // verus!
