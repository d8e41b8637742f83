//! Decks: ordered piles of cards that are drawn from the end.

use vstd::prelude::*;
use rand::seq::SliceRandom;
use crate::cards::Card;

verus! {

/// Number of cards of a standard fill: four sets of the values one to ten.
pub const STANDARD_FILL_SIZE: usize = 40;

/// One card of each value from one to ten, in rising order.
pub open spec fn value_set() -> Seq<Card> {
    Seq::new(10, |i: int| Card { value: (i + 1) as i8, special_type: None })
}

/// `count` value sets, one after the other.
pub open spec fn value_sets(count: nat) -> Seq<Card>
    decreases count,
{
    if count == 0 {
        Seq::empty()
    } else {
        value_sets((count - 1) as nat) + value_set()
    }
}

/// The standard fill in the order in which it is laid down: four value
/// sets.
pub open spec fn standard_fill() -> Seq<Card> {
    value_sets(4)
}

/// The standard fill has forty cards, all of them standard: the card at
/// place `i` has the value that follows `i` modulo ten.
pub proof fn lemma_standard_fill(i: int)
    requires
        0 <= i < STANDARD_FILL_SIZE,
    ensures
        standard_fill().len() == STANDARD_FILL_SIZE,
        standard_fill()[i] == (Card { value: (i % 10 + 1) as i8, special_type: None }),
        standard_fill()[i].is_standard(),
{
    reveal_with_fuel(value_sets, 5);
}

/// Moving the last card of one pile onto another keeps the cards of the two
/// piles taken together.
pub proof fn lemma_move_last(from: Seq<Card>, onto: Seq<Card>)
    requires
        from.len() > 0,
    ensures
        from.drop_last().to_multiset().add(onto.push(from.last()).to_multiset())
            == from.to_multiset().add(onto.to_multiset()),
{
    lemma_move_at(from, from.len() - 1, onto);
    assert(from.remove(from.len() - 1) =~= from.drop_last());
}

/// Moving the card at `index` of one pile onto another keeps the cards of
/// the two piles taken together.
pub proof fn lemma_move_at(from: Seq<Card>, index: int, onto: Seq<Card>)
    requires
        0 <= index < from.len(),
    ensures
        from.remove(index).to_multiset().add(onto.push(from[index]).to_multiset())
            == from.to_multiset().add(onto.to_multiset()),
{
    broadcast use vstd::seq_lib::group_to_multiset_ensures;

    assert(from.contains(from[index]));
    assert(from.remove(index).to_multiset().add(onto.push(from[index]).to_multiset())
        =~= from.to_multiset().add(onto.to_multiset()));
}

/// Shuffles with `rand::seq::SliceRandom::shuffle`, drawing from
/// `rand::thread_rng`. The shuffle only ever swaps two elements of the
/// slice, so whatever order comes out holds the same cards as before, each
/// as often as before. Nothing is claimed about the order itself.
#[verifier::external_body]
fn shuffle_cards(cards: &mut Vec<Card>)
    ensures
        final(cards)@.to_multiset() == old(cards)@.to_multiset(),
{
    cards.shuffle(&mut rand::thread_rng());
}

/// An ordered pile of cards. The last card is the top of the pile.
#[derive(Debug)]
pub struct Deck {
    pub cards: Vec<Card>,
}

impl View for Deck {
    type V = Seq<Card>;

    open spec fn view(&self) -> Seq<Card> {
        self.cards@
    }
}

impl Clone for Deck {
    fn clone(&self) -> (copy: Deck)
        ensures
            copy@ == self@,
    {
        Deck { cards: self.cards.clone() }
    }
}

impl Deck {
    /// An empty deck.
    pub fn new() -> (deck: Deck)
        ensures
            deck@ == Seq::<Card>::empty(),
    {
        Deck { cards: Vec::new() }
    }

    /// Puts the cards into a random order. The deck holds the same cards
    /// afterwards.
    pub fn shuffle(&mut self)
        ensures
            final(self)@.to_multiset() == old(self)@.to_multiset(),
            final(self)@.len() == old(self)@.len(),
    {
        proof {
            old(self)@.to_multiset_ensures();
        }
        shuffle_cards(&mut self.cards);
        proof {
            self@.to_multiset_ensures();
        }
    }

    /// Removes the last card and returns it.
    pub fn draw(&mut self) -> (card: Card)
        requires
            old(self)@.len() > 0,
        ensures
            card == old(self)@.last(),
            final(self)@ == old(self)@.drop_last(),
    {
        self.cards.pop().unwrap()
    }

    /// Lays the standard fill on top of the cards already in the deck.
    pub fn default_fill(&mut self)
        ensures
            final(self)@ == old(self)@ + standard_fill(),
    {
        let mut round: usize = 0;
        while round < 4
            invariant
                round <= 4,
                self@ == old(self)@ + value_sets(round as nat),
            decreases 4 - round,
        {
            let mut i: i8 = 0;
            while i < 10
                invariant
                    0 <= i <= 10,
                    self@ == old(self)@ + value_sets(round as nat) + value_set().take(i as int),
                decreases 10 - i,
            {
                self.cards.push(Card { value: i + 1, special_type: None });
                proof {
                    assert(value_set().take(i + 1) =~= value_set().take(i as int).push(
                        value_set()[i as int],
                    ));
                }
                i = i + 1;
            }
            proof {
                assert(value_set().take(10) =~= value_set());
                assert(old(self)@ + value_sets(round as nat) + value_set() =~= old(self)@
                    + value_sets((round + 1) as nat));
            }
            round = round + 1;
        }
    }
}

} // verus!
