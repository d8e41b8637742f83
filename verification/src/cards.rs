//! Cards, the atomic units of play.

use vstd::prelude::*;

verus! {

/// The effect that a special card carries. The base rules resolve a round
/// from card values alone; the tag is kept with the card for rule sets that
/// read it.
#[derive(Clone, Copy, Debug, PartialEq, Eq, Structural)]
pub enum SpecialType {
    Flip,
    Swap,
    Double,
    TieBreaker,
}

/// One card. A card is a plain value: it moves between containers and is
/// never shared.
#[derive(Clone, Copy, Debug, PartialEq, Eq, Structural)]
pub struct Card {
    pub value: i8,
    pub special_type: Option<SpecialType>,
}

impl Card {
    /// Lowest value of a standard card.
    pub const MIN_STANDARD: i8 = 1;

    /// Highest value of a standard card.
    pub const MAX_STANDARD: i8 = 10;

    /// A standard card lies in the fixed range and carries no effect.
    pub open spec fn is_standard(self) -> bool {
        Card::MIN_STANDARD <= self.value <= Card::MAX_STANDARD && self.special_type is None
    }

    /// A card of the given value without a special effect.
    pub fn new(value: i8) -> (card: Card)
        ensures
            card.value == value,
            card.special_type is None,
    {
        Card { value, special_type: None }
    }
}

/// The definition of a special card: the values it may take, if it is
/// restricted to some, and the effect it stands for.
#[derive(Debug)]
pub struct SpecialCard {
    pub value: Option<Vec<u8>>,
    pub special_type: SpecialType,
}

} // verus!
