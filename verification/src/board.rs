//! The cards a player has committed to the round.

use vstd::prelude::*;
use crate::cards::Card;

verus! {

/// The sum of the values of `cards`.
pub open spec fn card_sum(cards: Seq<Card>) -> int
    decreases cards.len(),
{
    if cards.len() == 0 {
        0
    } else {
        card_sum(cards.drop_last()) + cards.last().value
    }
}

/// The sum of `n` card values lies within `n` times the range of one value.
pub proof fn lemma_card_sum_bounds(cards: Seq<Card>)
    ensures
        -128 * cards.len() <= card_sum(cards) <= 127 * cards.len(),
    decreases cards.len(),
{
    if cards.len() > 0 {
        lemma_card_sum_bounds(cards.drop_last());
    }
}

/// An ordered sequence of cards owned by one player. A board only grows
/// during a round.
#[derive(Debug)]
pub struct Board {
    pub cards: Vec<Card>,
}

impl View for Board {
    type V = Seq<Card>;

    open spec fn view(&self) -> Seq<Card> {
        self.cards@
    }
}

impl Clone for Board {
    fn clone(&self) -> (copy: Board)
        ensures
            copy@ == self@,
    {
        Board { cards: self.cards.clone() }
    }
}

impl Board {
    /// The sum of the card values on the board. The result is wide enough to
    /// hold the sum of any number of cards.
    pub fn total(&self) -> (total: i128)
        ensures
            total == card_sum(self@),
    {
        let mut total: i128 = 0;
        let mut i: usize = 0;
        while i < self.cards.len()
            invariant
                i <= self.cards.len(),
                total == card_sum(self.cards@.take(i as int)),
            decreases self.cards.len() - i,
        {
            proof {
                lemma_card_sum_bounds(self.cards@.take(i as int));
                assert(self.cards@.take(i + 1).drop_last() =~= self.cards@.take(i as int));
            }
            total = total + self.cards[i].value as i128;
            i = i + 1;
        }
        proof {
            assert(self.cards@.take(i as int) =~= self.cards@);
        }
        total
    }
}

} // verus!
