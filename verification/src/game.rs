//! One round of play: two players, their boards and the shared draw deck.

use vstd::prelude::*;
use vstd::multiset::Multiset;
use crate::board::{card_sum, lemma_card_sum_bounds, Board};
use crate::cards::Card;
use crate::deck::{standard_fill, Deck, STANDARD_FILL_SIZE};
use crate::hand::Hand;
use crate::player::{Player, PlayerView, Status, HAND_SIZE};

verus! {

/// The sum that a board should come close to without passing it.
pub const TARGET: i128 = 20;

/// A board total above the target is a bust.
pub open spec fn busted(total: int) -> bool {
    total > TARGET
}

/// Who wins a round with the given board totals. A player who busts loses to
/// one who does not; of two who do not, the higher total wins. Two busts, or
/// two equal totals, decide nothing.
pub open spec fn round_winner(total0: int, total1: int) -> Option<usize> {
    if busted(total0) && busted(total1) {
        None
    } else if busted(total0) {
        Some(1)
    } else if busted(total1) {
        Some(0)
    } else if total0 > total1 {
        Some(0)
    } else if total1 > total0 {
        Some(1)
    } else {
        None
    }
}

/// One round: player `i` owns `players[i]` and `board[i]`; `deck` is the
/// draw deck the two share.
#[derive(Debug)]
pub struct Game {
    pub players: [Player; 2],
    pub board: [Board; 2],
    pub deck: Deck,
    pub turn: u8,
    pub winner: u8,
}

/// A round as plain data.
pub struct GameView {
    pub players: Seq<PlayerView>,
    pub boards: Seq<Seq<Card>>,
    pub deck: Seq<Card>,
    pub turn: nat,
    pub winner: u8,
}

impl GameView {
    /// There are two players and a board for each.
    pub open spec fn wf(self) -> bool {
        self.players.len() == 2 && self.boards.len() == 2
    }

    /// The number of cards in the round, over all seven containers.
    pub open spec fn card_count(self) -> nat {
        self.deck.len() + self.boards[0].len() + self.boards[1].len() + self.players[0].hand.len()
            + self.players[1].hand.len() + self.players[0].deck.len() + self.players[1].deck.len()
    }

    /// The cards in the round, each as often as it occurs over all seven
    /// containers.
    pub open spec fn all_cards(self) -> Multiset<Card> {
        self.deck.to_multiset().add(self.boards[0].to_multiset()).add(
            self.boards[1].to_multiset(),
        ).add(self.players[0].hand.to_multiset()).add(self.players[1].hand.to_multiset()).add(
            self.players[0].deck.to_multiset(),
        ).add(self.players[1].deck.to_multiset())
    }

    /// Both players have chosen to stand: the round is over and can be
    /// resolved.
    pub open spec fn both_standing(self) -> bool {
        self.players[0].status == Status::Standing && self.players[1].status == Status::Standing
    }

    /// The round after the top card of the shared deck has gone onto the
    /// board of `player`.
    pub open spec fn with_drawn(self, player: int) -> GameView {
        GameView {
            deck: self.deck.drop_last(),
            boards: self.boards.update(player, self.boards[player].push(self.deck.last())),
            ..self
        }
    }

    /// The round after `player` has chosen to stand.
    pub open spec fn with_standing(self, player: int) -> GameView {
        GameView {
            players: self.players.update(
                player,
                PlayerView { status: Status::Standing, ..self.players[player] },
            ),
            ..self
        }
    }

    /// The round after `player` has moved the card at `index` of the hand
    /// onto the board.
    pub open spec fn with_played(self, player: int, index: int) -> GameView {
        GameView {
            players: self.players.update(
                player,
                PlayerView {
                    hand: self.players[player].hand.remove(index),
                    ..self.players[player]
                },
            ),
            boards: self.boards.update(
                player,
                self.boards[player].push(self.players[player].hand[index]),
            ),
            ..self
        }
    }

    /// The round after one more turn-cycle has been counted.
    pub open spec fn with_cycle_counted(self) -> GameView {
        GameView { turn: self.turn + 1, ..self }
    }

    /// The winner by the totals of the two boards.
    pub open spec fn winner_by_totals(self) -> Option<usize> {
        round_winner(card_sum(self.boards[0]), card_sum(self.boards[1]))
    }

    /// A round as it stands when play begins: the shared deck holds the
    /// standard fill in some order, each player holds the cards of the
    /// private deck that the player came with, a starting hand of them in
    /// the hand, and nothing has been played.
    pub open spec fn is_opening(self, deck0: Seq<Card>, deck1: Seq<Card>) -> bool {
        &&& self.wf()
        &&& self.deck.to_multiset() == standard_fill().to_multiset()
        &&& self.players[0].cards() == deck0.to_multiset()
        &&& self.players[1].cards() == deck1.to_multiset()
        &&& forall|p: int|
            0 <= p < 2 ==> {
                &&& (#[trigger] self.players[p]).hand.len() == HAND_SIZE
                &&& self.players[p].status == Status::Playing
                &&& self.boards[p] == Seq::<Card>::empty()
            }
        &&& self.turn == 1
        &&& self.winner == 0
    }
}

/// The number of cards in a round is the size of the multiset of its cards.
pub proof fn lemma_card_count_is_size(g: GameView)
    ensures
        g.card_count() == g.all_cards().len(),
{
    broadcast use vstd::seq_lib::to_multiset_len;

}

impl View for Game {
    type V = GameView;

    open spec fn view(&self) -> GameView {
        GameView {
            players: seq![self.players[0]@, self.players[1]@],
            boards: seq![self.board[0]@, self.board[1]@],
            deck: self.deck@,
            turn: self.turn as nat,
            winner: self.winner,
        }
    }
}

impl Game {
    /// Starts a round with the two private decks. The shared deck is built
    /// here: the standard fill, shuffled. Each private deck is shuffled and
    /// its top cards are dealt into the hand of its player.
    pub fn new(deck1: Deck, deck2: Deck) -> (game: Game)
        requires
            deck1@.len() >= HAND_SIZE,
            deck2@.len() >= HAND_SIZE,
        ensures
            game@.is_opening(deck1@, deck2@),
            game@.card_count() == STANDARD_FILL_SIZE + deck1@.len() + deck2@.len(),
    {
        let mut player1 = Player { hand: Hand::new(), deck: deck1, status: Status::Playing };
        let mut player2 = Player { hand: Hand::new(), deck: deck2, status: Status::Playing };
        let board1 = Board { cards: Vec::new() };
        let board2 = Board { cards: Vec::new() };
        let mut board_deck = Deck::new();
        board_deck.default_fill();
        proof {
            assert(board_deck@ =~= standard_fill());
            crate::deck::lemma_standard_fill(0);
        }
        board_deck.shuffle();
        player1.deal_hand();
        player2.deal_hand();
        proof {
            Seq::<Card>::empty().to_multiset_ensures();
            vstd::multiset::lemma_multiset_empty_len(Seq::<Card>::empty().to_multiset());
            assert(player1@.cards() =~= deck1@.to_multiset());
            assert(player2@.cards() =~= deck2@.to_multiset());
        }
        Game {
            players: [player1, player2],
            board: [board1, board2],
            deck: board_deck,
            turn: 1,
            winner: 0,
        }
    }

    /// Whether both players stand, which ends the round.
    pub fn both_standing(&self) -> (done: bool)
        ensures
            done == self@.both_standing(),
    {
        self.players[0].status == Status::Standing && self.players[1].status == Status::Standing
    }

    /// Resolves the round from the two board totals. The round itself is
    /// left as it is, and the result is not kept in it.
    pub fn check_win(&mut self) -> (winner: Option<usize>)
        ensures
            winner == final(self)@.winner_by_totals(),
            *final(self) == *old(self),
    {
        let player1_total: i128 = self.board[0].total();
        let player2_total: i128 = self.board[1].total();
        proof {
            lemma_card_sum_bounds(self.board[0]@);
            lemma_card_sum_bounds(self.board[1]@);
            assert(self.board[0]@.len() == self.board[0].cards.len() <= usize::MAX);
            assert(self.board[1]@.len() == self.board[1].cards.len() <= usize::MAX);
        }
        let player1_distance: i128 = TARGET - player1_total;
        let player2_distance: i128 = TARGET - player2_total;
        if player1_distance < 0 && player2_distance < 0 {
            None
        } else if player1_distance < 0 {
            Some(1)
        } else if player2_distance < 0 {
            Some(0)
        } else if player1_distance < player2_distance {
            Some(0)
        } else if player2_distance < player1_distance {
            Some(1)
        } else {
            None
        }
    }
}

} // verus!
