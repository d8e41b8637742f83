//! A match: rounds played one after the other until a player has won
//! enough of them.

use vstd::prelude::*;
use crate::deck::{Deck, STANDARD_FILL_SIZE};
use crate::game::{Game, GameView};
use crate::player::HAND_SIZE;

verus! {

/// The score that wins the match.
pub const WINNING_SCORE: u8 = 3;

/// The player who has reached the winning score, if one has. Should both
/// have, player 0 is named.
pub open spec fn match_winner(score: Seq<nat>) -> Option<usize> {
    if score[0] >= WINNING_SCORE {
        Some(0)
    } else if score[1] >= WINNING_SCORE {
        Some(1)
    } else {
        None
    }
}

/// The score after a round: the winner of a decided round gains one point,
/// and a drawn round moves nothing.
pub open spec fn tally(score: Seq<nat>, winner: Option<usize>) -> Seq<nat> {
    match winner {
        Some(player) => score.update(player as int, score[player as int] + 1),
        None => score,
    }
}

/// The score after the rounds whose results are given, in their order.
pub open spec fn tally_all(score: Seq<nat>, results: Seq<Option<usize>>) -> Seq<nat>
    decreases results.len(),
{
    if results.len() == 0 {
        score
    } else {
        tally(tally_all(score, results.drop_last()), results.last())
    }
}

/// The number of rounds among `results` that `player` has won.
pub open spec fn wins(results: Seq<Option<usize>>, player: usize) -> nat
    decreases results.len(),
{
    if results.len() == 0 {
        0
    } else {
        wins(results.drop_last(), player) + if results.last() == Some(player) {
            1nat
        } else {
            0nat
        }
    }
}

/// Over rounds that `player` wins or that are drawn, the player gains a
/// point for each win and the other player's score stays as it is.
pub proof fn lemma_tally_counts_wins(score: Seq<nat>, results: Seq<Option<usize>>, player: usize)
    requires
        score.len() == 2,
        player < 2,
        forall|i: int|
            0 <= i < results.len() ==> results[i] is None || results[i] == Some(player),
    ensures
        tally_all(score, results).len() == 2,
        tally_all(score, results)[player as int] == score[player as int] + wins(results, player),
        tally_all(score, results)[1 - player] == score[1 - player],
    decreases results.len(),
{
    if results.len() > 0 {
        lemma_tally_counts_wins(score, results.drop_last(), player);
    }
}

/// Three rounds won by the same player, with nothing but drawn rounds
/// between them, make that player the winner of the match,
/// and the draws leave the other player's score as it was. It holds from
/// any score at which the other player has not won the match.
pub proof fn lemma_three_wins_decide(score: Seq<nat>, results: Seq<Option<usize>>, player: usize)
    requires
        score.len() == 2,
        player < 2,
        score[1 - player] < WINNING_SCORE,
        forall|i: int|
            0 <= i < results.len() ==> results[i] is None || results[i] == Some(player),
        wins(results, player) == 3,
    ensures
        match_winner(tally_all(score, results)) == Some(player),
        tally_all(score, results)[1 - player] == score[1 - player],
{
    lemma_tally_counts_wins(score, results, player);
}

/// A sequence of rounds with the running score. Round `n`, counted from
/// one, is `games[n - 1]`; the last one is the round being played.
#[derive(Debug)]
pub struct Match {
    pub games: Vec<Game>,
    pub round: usize,
    pub score: [u8; 2],
}

/// A match as plain data.
pub struct MatchView {
    pub games: Seq<GameView>,
    pub round: nat,
    pub score: Seq<nat>,
}

impl MatchView {
    /// The round counter is the number of rounds started.
    pub open spec fn wf(self) -> bool {
        self.round == self.games.len() && self.score.len() == 2
    }

    /// The round being played.
    pub open spec fn current(self) -> GameView
        recommends
            self.round >= 1,
    {
        self.games[self.round - 1]
    }

    /// The match after the round being played has been closed with the
    /// result `winner` and the round `next` has been started.
    pub open spec fn concluded(self, winner: Option<usize>, next: GameView) -> MatchView {
        MatchView {
            games: self.games.push(next),
            round: self.round + 1,
            score: tally(self.score, winner),
        }
    }
}

/// A drawn round that is closed advances the round counter and appends the
/// round that follows, and moves neither player's score.
pub proof fn lemma_drawn_round_moves_no_score(m: MatchView, next: GameView)
    ensures
        m.concluded(None, next).score == m.score,
        m.concluded(None, next).round == m.round + 1,
        m.concluded(None, next).games == m.games.push(next),
{
}

impl View for Match {
    type V = MatchView;

    open spec fn view(&self) -> MatchView {
        MatchView {
            games: self.games@.map_values(|game: Game| game@),
            round: self.round as nat,
            score: seq![self.score[0] as nat, self.score[1] as nat],
        }
    }
}

impl Match {
    /// A match in which no round has been started and no point scored.
    pub fn new() -> (started: Match)
        ensures
            started@.wf(),
            started@.round == 0,
            started@.games == Seq::<GameView>::empty(),
            started@.score == seq![0nat, 0nat],
    {
        let started = Match { games: Vec::new(), round: 0, score: [0, 0] };
        proof {
            assert(started@.games =~= Seq::<GameView>::empty());
        }
        started
    }

    /// Starts the next round with the two private decks and makes it the
    /// current one. The rounds before it and the score stay as they are.
    pub fn new_game(&mut self, player_deck: Deck, opponent_deck: Deck)
        requires
            old(self)@.wf(),
            player_deck@.len() >= HAND_SIZE,
            opponent_deck@.len() >= HAND_SIZE,
        ensures
            final(self)@.wf(),
            final(self)@.round == old(self)@.round + 1,
            final(self)@.games.drop_last() == old(self)@.games,
            final(self)@.current().is_opening(player_deck@, opponent_deck@),
            final(self)@.current().card_count() == STANDARD_FILL_SIZE + player_deck@.len()
                + opponent_deck@.len(),
            final(self)@.score == old(self)@.score,
    {
        let new_game = Game::new(player_deck, opponent_deck);
        self.games.push(new_game);
        proof {
            assert(self.games@.len() == self.games.len());
            assert(self@.games.drop_last() =~= old(self)@.games);
        }
        self.round += 1;
    }

    /// The round being played.
    pub fn current_game(&mut self) -> (game: &mut Game)
        requires
            old(self)@.wf(),
            old(self)@.round >= 1,
        ensures
            *game == old(self).games[old(self).round - 1],
            final(self).games@ == old(self).games@.update(old(self).round - 1, *final(game)),
            game@ == old(self)@.current(),
            final(self)@.games == old(self)@.games.update(old(self).round - 1, final(game)@),
            final(self)@.round == old(self)@.round,
            final(self)@.score == old(self)@.score,
    {
        let index: usize = self.round - 1;
        &mut self.games[index]
    }

    /// Enters the result of a round that is over.
    pub fn record_result(&mut self, winner: Option<usize>)
        requires
            winner matches Some(player) ==> player < 2 && old(self).score[player as int] < u8::MAX,
        ensures
            final(self)@.score == tally(old(self)@.score, winner),
            final(self)@.games == old(self)@.games,
            final(self)@.round == old(self)@.round,
    {
        match winner {
            Some(player) => {
                self.score[player] = self.score[player] + 1;
                proof {
                    assert(self@.score =~= tally(old(self)@.score, winner));
                }
            },
            None => {},
        }
    }

    /// The player who has won the match, if it is decided. The match itself
    /// is left as it is.
    pub fn check_win(&mut self) -> (winner: Option<usize>)
        ensures
            winner == match_winner(final(self)@.score),
            *final(self) == *old(self),
    {
        if self.score[0] >= WINNING_SCORE {
            Some(0)
        } else if self.score[1] >= WINNING_SCORE {
            Some(1)
        } else {
            None
        }
    }

    /// Closes the round being played and opens the next: resolves the round
    /// from its board totals, enters the result, and starts a new round with
    /// the two private decks. A drawn round moves no score and still
    /// advances the round counter.
    pub fn conclude_round(&mut self, player_deck: Deck, opponent_deck: Deck) -> (winner: Option<
        usize,
    >)
        requires
            old(self)@.wf(),
            old(self)@.round >= 1,
            old(self).score[0] < u8::MAX,
            old(self).score[1] < u8::MAX,
            player_deck@.len() >= HAND_SIZE,
            opponent_deck@.len() >= HAND_SIZE,
        ensures
            winner == old(self)@.current().winner_by_totals(),
            final(self)@ == old(self)@.concluded(winner, final(self)@.current()),
            final(self)@.current().is_opening(player_deck@, opponent_deck@),
            winner is None ==> final(self)@.score == old(self)@.score,
            final(self)@.wf(),
    {
        let winner = self.games[self.round - 1].check_win();
        proof {
            assert(self@.games =~= old(self)@.games);
        }
        self.record_result(winner);
        self.new_game(player_deck, opponent_deck);
        proof {
            assert(self@.games =~= old(self)@.games.push(self@.current()));
        }
        winner
    }
}

} // verus!
