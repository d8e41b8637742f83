//! A player of one round.

use vstd::prelude::*;
use vstd::multiset::Multiset;
use crate::cards::Card;
use crate::deck::{lemma_move_last, Deck};
use crate::hand::Hand;

verus! {

/// Where a player stands in the round. A player starts out `Playing`; once
/// `Standing` the player neither draws nor acts for the rest of the round.
#[derive(Clone, Copy, Debug, PartialEq, Eq, Structural)]
pub enum Status {
    Playing,
    Standing,
    Busted,
}

/// One player: a hand, a private deck and a status.
#[derive(Debug)]
pub struct Player {
    pub hand: Hand,
    pub deck: Deck,
    pub status: Status,
}

/// What a player holds, as plain sequences.
pub struct PlayerView {
    pub hand: Seq<Card>,
    pub deck: Seq<Card>,
    pub status: Status,
}

impl View for Player {
    type V = PlayerView;

    open spec fn view(&self) -> PlayerView {
        PlayerView { hand: self.hand@, deck: self.deck@, status: self.status }
    }
}

/// Number of cards dealt into a hand at the start of a round.
pub const HAND_SIZE: usize = 5;

impl PlayerView {
    /// The cards that the player holds, in the hand and in the private deck
    /// together.
    pub open spec fn cards(self) -> Multiset<Card> {
        self.deck.to_multiset().add(self.hand.to_multiset())
    }
}

impl Player {
    /// Shuffles the private deck and deals its top cards into the hand, as
    /// many as a starting hand holds.
    pub fn deal_hand(&mut self)
        requires
            old(self)@.deck.len() >= HAND_SIZE,
        ensures
            final(self)@.cards() == old(self)@.cards(),
            final(self)@.hand.len() == old(self)@.hand.len() + HAND_SIZE,
            final(self)@.deck.len() == old(self)@.deck.len() - HAND_SIZE,
            final(self)@.hand.take(old(self)@.hand.len() as int) == old(self)@.hand,
            final(self)@.status == old(self)@.status,
    {
        self.deck.shuffle();
        let mut dealt: usize = 0;
        while dealt < HAND_SIZE
            invariant
                dealt <= HAND_SIZE,
                self@.cards() == old(self)@.cards(),
                self@.hand.len() == old(self)@.hand.len() + dealt,
                self@.deck.len() == old(self)@.deck.len() - dealt,
                self@.hand.take(old(self)@.hand.len() as int) == old(self)@.hand,
                self@.status == old(self)@.status,
                old(self)@.deck.len() >= HAND_SIZE,
            decreases HAND_SIZE - dealt,
        {
            proof {
                lemma_move_last(self@.deck, self@.hand);
            }
            let card = self.deck.draw();
            self.hand.cards.push(card);
            dealt = dealt + 1;
        }
    }
}

impl Clone for Player {
    fn clone(&self) -> (copy: Player)
        ensures
            copy@ == self@,
    {
        Player { hand: self.hand.clone(), deck: self.deck.clone(), status: self.status }
    }
}

} // verus!
