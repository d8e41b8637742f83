//! The cards a player holds back.

use vstd::prelude::*;
use vstd::string::*;
use crate::cards::Card;
use crate::style::{shows, yellow_italic};

verus! {

/// The text that stands for `count` hidden cards: one question mark for
/// each, separated by a comma and a space.
pub open spec fn hidden_cards(count: nat) -> Seq<char>
    decreases count,
{
    if count == 0 {
        Seq::empty()
    } else if count == 1 {
        seq!['?']
    } else {
        hidden_cards((count - 1) as nat) + seq![',', ' ', '?']
    }
}

/// The cards of one player, in the order in which they are shown. A card
/// enters by being dealt and leaves only through [`Hand::take`].
#[derive(Debug)]
pub struct Hand {
    pub cards: Vec<Card>,
}

impl View for Hand {
    type V = Seq<Card>;

    open spec fn view(&self) -> Seq<Card> {
        self.cards@
    }
}

impl Clone for Hand {
    fn clone(&self) -> (copy: Hand)
        ensures
            copy@ == self@,
    {
        Hand { cards: self.cards.clone() }
    }
}

impl Hand {
    /// An empty hand.
    pub fn new() -> (hand: Hand)
        ensures
            hand@ == Seq::<Card>::empty(),
    {
        Hand { cards: Vec::new() }
    }

    /// Removes the card at `index` and returns it, keeping the order of the
    /// others. An index past the end is turned down and the hand stays as it
    /// is.
    pub fn take(&mut self, index: usize) -> (taken: Option<Card>)
        ensures
            index < old(self)@.len() ==> taken == Some(old(self)@[index as int]) && final(self)@
                == old(self)@.remove(index as int),
            index >= old(self)@.len() ==> taken is None && final(self)@ == old(self)@,
    {
        if index < self.cards.len() {
            Some(self.cards.remove(index))
        } else {
            None
        }
    }

    /// The hand as an opponent sees it: every card a question mark. An empty
    /// hand is shown as a label, styled for the terminal.
    pub fn get_anonymous_hand_string(&self) -> (text: String)
        ensures
            self@.len() > 0 ==> text@ == hidden_cards(self@.len()),
            self@.len() == 0 ==> shows(text@, "<Empty Hand>"@),
    {
        if self.cards.len() == 0 {
            return yellow_italic("<Empty Hand>");
        }
        let mut text = String::new();
        let mut i: usize = 0;
        while i < self.cards.len()
            invariant
                i <= self.cards.len(),
                self.cards.len() > 0,
                i == 0 ==> text@ == Seq::<char>::empty(),
                0 < i < self.cards.len() ==> text@ == hidden_cards(i as nat) + seq![',', ' '],
                i == self.cards.len() ==> text@ == hidden_cards(i as nat),
            decreases self.cards.len() - i,
        {
            proof {
                reveal_strlit("?");
                reveal_strlit(", ");
            }
            let ghost before = text@;
            text.append("?");
            proof {
                assert("?"@ =~= seq!['?']);
                assert(", "@ =~= seq![',', ' ']);
                assert(text@ =~= before + seq!['?']);
                if i > 0 {
                    assert(text@ =~= hidden_cards(i as nat) + seq![',', ' ', '?']);
                }
                assert(text@ == hidden_cards((i + 1) as nat));
            }
            if i != self.cards.len() - 1 {
                text.append(", ");
            }
            i = i + 1;
        }
        text
    }
}

} // verus!
