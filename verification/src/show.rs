//! Cards, piles and the match as text for a terminal.
//!
//! Values and totals are written in decimal and lists with commas. Labels
//! and colours go through the terminal styling, of which only this much is
//! known: a styled text is the plain text with escape sequences around it,
//! or empty.

use vstd::prelude::*;
use vstd::string::*;
use crate::board::{card_sum, Board};
use crate::cards::Card;
use crate::deck::Deck;
use crate::hand::Hand;
use crate::match_play::{Match, MatchView};
use crate::style::{blue, dark_green, dark_red, green, red, shows, yellow_italic};
use crate::text::{integer_string, integer_text, join, joined, texts};

verus! {

/// The colour in which a card is written.
#[derive(Clone, Copy, Debug, PartialEq, Eq, Structural)]
pub enum Tint {
    /// For a card that adds to a total.
    Green,
    /// For a card that adds nothing or takes away.
    Red,
}

/// The value of each card of a pile as text.
pub open spec fn value_texts(cards: Seq<Card>) -> Seq<Seq<char>> {
    Seq::new(cards.len(), |i: int| integer_text(cards[i].value as int))
}

/// Each of `styled` shows the value of the card at its place in `cards`.
pub open spec fn shows_values(styled: Seq<Seq<char>>, cards: Seq<Card>) -> bool {
    styled.len() == cards.len() && forall|i: int|
        0 <= i < cards.len() ==> shows(#[trigger] styled[i], integer_text(cards[i].value as int))
}

/// The values of a board and, in brackets, their sum.
pub open spec fn board_text(cards: Seq<Card>) -> Seq<char> {
    joined(value_texts(cards)) + seq![' ', '('] + integer_text(card_sum(cards)) + seq![')']
}

/// The four plain texts of the banner of a match: round and turn, the
/// score of player 0, a separator, and the score of player 1.
pub open spec fn banner_texts(m: MatchView) -> Seq<Seq<char>> {
    seq![
        "Round: "@ + integer_text(m.round as int) + " | Turn: "@ + integer_text(
            m.current().turn as int,
        ) + "\n"@,
        "You: "@ + integer_text(m.score[0] as int),
        "   | "@,
        "Opponent: "@ + integer_text(m.score[1] as int),
    ]
}

/// `text` is the banner of `m` in the styled parts `styled`.
pub open spec fn shows_banner(text: Seq<char>, styled: Seq<Seq<char>>, m: MatchView) -> bool {
    &&& styled.len() == 4
    &&& forall|i: int| 0 <= i < 4 ==> shows(#[trigger] styled[i], banner_texts(m)[i])
    &&& text == styled[0] + styled[1] + styled[2] + styled[3]
}

/// The values of the cards as strings, in order.
fn value_strings(cards: &Vec<Card>) -> (parts: Vec<String>)
    ensures
        texts(parts@) == value_texts(cards@),
{
    let mut parts: Vec<String> = Vec::new();
    let mut i: usize = 0;
    while i < cards.len()
        invariant
            i <= cards@.len(),
            texts(parts@) == value_texts(cards@.take(i as int)),
        decreases cards@.len() - i,
    {
        let ghost before = parts@;
        let part = integer_string(cards[i].value as i128);
        let ghost written = part@;
        parts.push(part);
        proof {
            assert(texts(parts@) =~= texts(before).push(written));
            assert(value_texts(cards@.take(i + 1)) =~= value_texts(cards@.take(i as int)).push(
                written,
            ));
        }
        i = i + 1;
    }
    proof {
        assert(cards@.take(i as int) =~= cards@);
    }
    parts
}

impl Card {
    /// The colour of the card: green above zero, red otherwise.
    pub fn tint(&self) -> (tint: Tint)
        ensures
            tint == if self.value > 0 {
                Tint::Green
            } else {
                Tint::Red
            },
    {
        if self.value > 0 {
            Tint::Green
        } else {
            Tint::Red
        }
    }

    /// The value of the card, in the colour of the card.
    pub fn to_string(&self) -> (text: String)
        ensures
            shows(text@, integer_text(self.value as int)),
    {
        let value = integer_string(self.value as i128);
        match self.tint() {
            Tint::Green => dark_green(value.as_str()),
            Tint::Red => dark_red(value.as_str()),
        }
    }
}

impl Deck {
    /// The values of the cards, from the bottom of the deck to the top. An
    /// empty deck is written as a label, styled for the terminal.
    pub fn to_string(&self) -> (text: String)
        ensures
            self@.len() > 0 ==> text@ == joined(value_texts(self@)),
            self@.len() == 0 ==> shows(text@, "<Empty Deck>"@),
    {
        if self.cards.len() == 0 {
            return yellow_italic("<Empty Deck>");
        }
        let parts = value_strings(&self.cards);
        join(&parts)
    }
}

impl Hand {
    /// The cards of the hand, each in its colour. An empty hand is written
    /// as a label, styled for the terminal.
    pub fn to_string(&self) -> (text: String)
        ensures
            self@.len() > 0 ==> exists|styled: Seq<Seq<char>>|
                shows_values(styled, self@) && text@ == joined(styled),
            self@.len() == 0 ==> shows(text@, "<Empty Hand>"@),
    {
        if self.cards.len() == 0 {
            return yellow_italic("<Empty Hand>");
        }
        let mut parts: Vec<String> = Vec::new();
        let mut i: usize = 0;
        while i < self.cards.len()
            invariant
                i <= self.cards@.len(),
                shows_values(texts(parts@), self.cards@.take(i as int)),
            decreases self.cards@.len() - i,
        {
            let ghost before = parts@;
            let part = self.cards[i].to_string();
            let ghost written = part@;
            parts.push(part);
            proof {
                assert(texts(parts@) =~= texts(before).push(written));
                assert(self.cards@.take(i + 1).drop_last() =~= self.cards@.take(i as int));
            }
            i = i + 1;
        }
        proof {
            assert(self.cards@.take(i as int) =~= self@);
        }
        join(&parts)
    }
}

impl Board {
    /// The values of the cards in the order in which they were laid, and
    /// their sum in brackets. An empty board is written as a label, styled
    /// for the terminal.
    pub fn to_string(&self) -> (text: String)
        ensures
            self@.len() > 0 ==> text@ == board_text(self@),
            self@.len() == 0 ==> shows(text@, "<Empty Board>"@),
    {
        if self.cards.len() == 0 {
            return yellow_italic("<Empty Board>");
        }
        let parts = value_strings(&self.cards);
        let mut text = join(&parts);
        let total = integer_string(self.total());
        proof {
            reveal_strlit(" (");
            reveal_strlit(")");
        }
        text.append(" (");
        text.append(total.as_str());
        text.append(")");
        proof {
            assert(text@ =~= board_text(self@));
        }
        text
    }
}

impl Match {
    /// The banner of the match: the round and the turn-cycle being played,
    /// and the score of each player, each part in a colour of its own.
    pub fn to_string(&self) -> (text: String)
        requires
            self@.wf(),
            self@.round >= 1,
        ensures
            exists|styled: Seq<Seq<char>>| shows_banner(text@, styled, self@),
    {
        let mut details = String::new();
        details.append("Round: ");
        details.append(integer_string(self.round as i128).as_str());
        details.append(" | Turn: ");
        details.append(integer_string(self.games[self.round - 1].turn as i128).as_str());
        details.append("\n");
        let mut player = String::new();
        player.append("You: ");
        player.append(integer_string(self.score[0] as i128).as_str());
        let mut opponent = String::new();
        opponent.append("Opponent: ");
        opponent.append(integer_string(self.score[1] as i128).as_str());

        let first = blue(details.as_str());
        let second = green(player.as_str());
        let third = blue("   | ");
        let fourth = red(opponent.as_str());
        let ghost styled = seq![first@, second@, third@, fourth@];
        proof {
            assert(details@ =~= banner_texts(self@)[0]);
            assert(player@ =~= banner_texts(self@)[1]);
            assert(opponent@ =~= banner_texts(self@)[3]);
        }
        let mut text = first;
        text.append(second.as_str());
        text.append(third.as_str());
        text.append(fourth.as_str());
        proof {
            assert(text@ =~= styled[0] + styled[1] + styled[2] + styled[3]);
            assert(shows_banner(text@, styled, self@));
        }
        text
    }
}

} // verus!
