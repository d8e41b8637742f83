//! What holds of every round, however it is played.
//!
//! The statements are about [`step`] and [`run`], the functions that
//! [`Game::step`](crate::game::Game::step) and
//! [`Game::run_script`](crate::game::Game::run_script) are proved to compute.

use vstd::prelude::*;
use crate::deck::{
    lemma_move_at, lemma_move_last, lemma_standard_fill, standard_fill, STANDARD_FILL_SIZE,
};
use crate::cards::Card;
use crate::game::GameView;
use crate::player::Status;
use crate::turn::{run, run_fails, step, Action, Input, Outcome, Position, TurnState};

verus! {

/// A step leads from a round of two players to a round of two players, and
/// from a state of one of them to a state of one of them.
pub proof fn lemma_step_wf(g: GameView, state: TurnState, input: Input)
    requires
        g.wf(),
        state.wf(),
    ensures
        step(g, state, input).game.wf(),
        step(g, state, input).state.wf(),
{
}

/// A step neither makes nor loses a card: the cards of the seven containers
/// taken together, and so their number, are the same before and after.
pub proof fn lemma_step_keeps_cards(g: GameView, state: TurnState, input: Input)
    requires
        g.wf(),
        state.wf(),
    ensures
        step(g, state, input).game.all_cards() == g.all_cards(),
        step(g, state, input).game.card_count() == g.card_count(),
{
    broadcast use vstd::multiset::group_multiset_axioms;

    let after = step(g, state, input).game;
    let p: int = state.player() as int;
    if after == g.with_drawn(p) && g.deck.len() > 0 {
        lemma_move_last(g.deck, g.boards[p]);
        assert(after.boards[p] == g.boards[p].push(g.deck.last()));
        assert(after.boards[1 - p] == g.boards[1 - p]);
        assert forall|c: Card| after.all_cards().count(c) == g.all_cards().count(c) by {
            assert(after.deck.to_multiset().add(after.boards[p].to_multiset()).count(c)
                == g.deck.to_multiset().add(g.boards[p].to_multiset()).count(c));
        }
    } else if input is Card && after == g.with_played(p, input->Card_0 as int) && input->Card_0
        < g.players[p].hand.len() {
        let index: int = input->Card_0 as int;
        lemma_move_at(g.players[p].hand, index, g.boards[p]);
        assert(after.boards[p] == g.boards[p].push(g.players[p].hand[index]));
        assert(after.boards[1 - p] == g.boards[1 - p]);
        assert(after.players[p].hand == g.players[p].hand.remove(index));
        assert(after.players[1 - p] == g.players[1 - p]);
        assert forall|c: Card| after.all_cards().count(c) == g.all_cards().count(c) by {
            assert(after.players[p].hand.to_multiset().add(after.boards[p].to_multiset()).count(c)
                == g.players[p].hand.to_multiset().add(g.boards[p].to_multiset()).count(c));
        }
    } else {
        assert(after.boards == g.boards);
        assert(after.deck == g.deck);
        assert(after.players[0].hand == g.players[0].hand);
        assert(after.players[1].hand == g.players[1].hand);
        assert(after.players[0].deck == g.players[0].deck);
        assert(after.players[1].deck == g.players[1].deck);
    }
    assert(after.all_cards() =~= g.all_cards());
    crate::game::lemma_card_count_is_size(g);
    crate::game::lemma_card_count_is_size(after);
}

/// However a round is played on, no card is made or lost.
pub proof fn lemma_run_keeps_cards(g: GameView, state: TurnState, inputs: Seq<Input>)
    requires
        g.wf(),
        state.wf(),
    ensures
        run(g, state, inputs).game.all_cards() == g.all_cards(),
        run(g, state, inputs).game.card_count() == g.card_count(),
        run(g, state, inputs).game.wf(),
        run(g, state, inputs).state.wf(),
    decreases inputs.len(),
{
    if inputs.len() > 0 {
        lemma_run_keeps_cards(g, state, inputs.drop_last());
        let before = run(g, state, inputs.drop_last());
        lemma_step_keeps_cards(before.game, before.state, inputs.last());
        lemma_step_wf(before.game, before.state, inputs.last());
    }
}

/// Every card is accounted for: at every point of a round that was opened
/// with the private decks `deck0` and `deck1`, the seven containers hold the
/// forty cards of the standard fill and the cards that the two private
/// decks brought, no more and no fewer.
pub proof fn lemma_cards_accounted_for(
    g: GameView,
    deck0: Seq<Card>,
    deck1: Seq<Card>,
    state: TurnState,
    inputs: Seq<Input>,
)
    requires
        g.is_opening(deck0, deck1),
        state.wf(),
    ensures
        run(g, state, inputs).game.card_count() == STANDARD_FILL_SIZE + deck0.len() + deck1.len(),
        run(g, state, inputs).game.all_cards() == standard_fill().to_multiset().add(
            deck0.to_multiset(),
        ).add(deck1.to_multiset()),
{
    broadcast use vstd::seq_lib::group_to_multiset_ensures;

    lemma_run_keeps_cards(g, state, inputs);
    crate::game::lemma_card_count_is_size(g);
    Seq::<Card>::empty().to_multiset_ensures();
    vstd::multiset::lemma_multiset_empty_len(Seq::<Card>::empty().to_multiset());
    lemma_standard_fill(0);
    assert(g.all_cards() =~= standard_fill().to_multiset().add(deck0.to_multiset()).add(
        deck1.to_multiset(),
    ));
}

/// Running two scripts one after the other is running them joined.
pub proof fn lemma_run_concat(
    g: GameView,
    state: TurnState,
    first: Seq<Input>,
    rest: Seq<Input>,
)
    ensures
        run(g, state, first + rest) == run(
            run(g, state, first).game,
            run(g, state, first).state,
            rest,
        ),
    decreases rest.len(),
{
    if rest.len() == 0 {
        assert(first + rest =~= first);
    } else {
        lemma_run_concat(g, state, first, rest.drop_last());
        assert((first + rest).drop_last() =~= first + rest.drop_last());
    }
}

/// A run that has failed stays failed, whatever follows.
pub proof fn lemma_run_fails_extends(
    g: GameView,
    state: TurnState,
    first: Seq<Input>,
    rest: Seq<Input>,
)
    requires
        run_fails(g, state, first),
    ensures
        run_fails(g, state, first + rest),
    decreases rest.len(),
{
    if rest.len() == 0 {
        assert(first + rest =~= first);
    } else {
        lemma_run_fails_extends(g, state, first, rest.drop_last());
        assert((first + rest).drop_last() =~= first + rest.drop_last());
    }
}

/// Where the shared deck is exhausted and a card has to be drawn, the round
/// stays where it is, whatever is fed to it.
pub proof fn lemma_exhausted_round_is_stuck(g: GameView, state: TurnState, inputs: Seq<Input>)
    requires
        step(g, state, Input::Proceed).result is Err,
    ensures
        run(g, state, inputs) == (Position { game: g, state }),
    decreases inputs.len(),
{
    if inputs.len() > 0 {
        lemma_exhausted_round_is_stuck(g, state, inputs.drop_last());
    }
}

/// `after` is a round that play can lead to from `before`: boards have only
/// grown, at their ends; the shared deck has only been drawn from, at its
/// end; hands have not grown and private decks are as they were; a player
/// who stood still stands, and any other status is kept or has turned to
/// standing; the count of turn-cycles has not gone down.
pub open spec fn leads_to(before: GameView, after: GameView) -> bool {
    &&& after.deck.is_prefix_of(before.deck)
    &&& after.turn >= before.turn
    &&& after.winner == before.winner
    &&& forall|p: int|
        0 <= p < 2 ==> {
            &&& (#[trigger] before.boards[p]).is_prefix_of(after.boards[p])
            &&& after.players[p].hand.len() <= before.players[p].hand.len()
            &&& after.players[p].deck == before.players[p].deck
            &&& after.players[p].status == before.players[p].status || after.players[p].status
                == Status::Standing
        }
}

/// A step leads only forward: nothing leaves a board, nothing enters a hand
/// or the shared deck, private decks are not touched, and no one goes back
/// from standing to playing.
pub proof fn lemma_step_leads_forward(g: GameView, state: TurnState, input: Input)
    requires
        g.wf(),
        state.wf(),
    ensures
        leads_to(g, step(g, state, input).game),
{
    let after = step(g, state, input).game;
    assert forall|p: int| 0 <= p < 2 implies (#[trigger] g.boards[p]).is_prefix_of(
        after.boards[p],
    ) by {
        assert(after.boards[p] == g.boards[p] || after.boards[p].drop_last() =~= g.boards[p]);
    }
}

/// However a round is played on, it leads only forward.
pub proof fn lemma_run_leads_forward(g: GameView, state: TurnState, inputs: Seq<Input>)
    requires
        g.wf(),
        state.wf(),
    ensures
        leads_to(g, run(g, state, inputs).game),
    decreases inputs.len(),
{
    if inputs.len() > 0 {
        lemma_run_leads_forward(g, state, inputs.drop_last());
        lemma_run_keeps_cards(g, state, inputs.drop_last());
        let before = run(g, state, inputs.drop_last());
        lemma_step_leads_forward(before.game, before.state, inputs.last());
        let after = run(g, state, inputs).game;
        assert forall|p: int| 0 <= p < 2 implies (#[trigger] g.boards[p]).is_prefix_of(
            after.boards[p],
        ) by {
            assert(before.game.boards[p].is_prefix_of(after.boards[p]));
        }
    }
}

/// A step touches only what belongs to the player whose turn it is: the
/// other player's hand, private deck, status and board stay as they are.
pub proof fn lemma_step_spares_other_player(g: GameView, state: TurnState, input: Input)
    requires
        g.wf(),
        state.wf(),
    ensures
        step(g, state, input).game.players[1 - state.player()] == g.players[1 - state.player()],
        step(g, state, input).game.boards[1 - state.player()] == g.boards[1 - state.player()],
{
}

/// A step stays with its player, or passes the turn from player 0 to player
/// 1, or closes the turn of player 1 and counts the turn-cycle. The count
/// never goes down, and it goes up only there.
pub proof fn lemma_step_keeps_order(g: GameView, state: TurnState, input: Input)
    requires
        g.wf(),
        state.wf(),
    ensures
        step(g, state, input).game.turn == g.turn || step(g, state, input).game.turn == g.turn + 1,
        step(g, state, input).game.turn == g.turn ==> step(g, state, input).state.player()
            >= state.player(),
        step(g, state, input).game.turn != g.turn ==> state.player() == 1 && step(
            g,
            state,
            input,
        ).state == (TurnState::TurnStart { player: 0 }),
{
}

/// The count of turn-cycles never goes down.
pub proof fn lemma_run_counts_up(g: GameView, state: TurnState, inputs: Seq<Input>)
    requires
        g.wf(),
        state.wf(),
    ensures
        run(g, state, inputs).game.turn >= g.turn,
    decreases inputs.len(),
{
    if inputs.len() > 0 {
        lemma_run_counts_up(g, state, inputs.drop_last());
        lemma_run_keeps_cards(g, state, inputs.drop_last());
        let before = run(g, state, inputs.drop_last());
        lemma_step_keeps_order(before.game, before.state, inputs.last());
    }
}

/// Within one turn-cycle, that is as long as the count stands, the turn
/// never goes back from player 1 to player 0; what belongs to player 0 is
/// left alone once player 1 is in turn, and what belongs to player 1 is
/// left alone as long as player 0 is.
pub proof fn lemma_run_within_cycle(g: GameView, state: TurnState, inputs: Seq<Input>)
    requires
        g.wf(),
        state.wf(),
        run(g, state, inputs).game.turn == g.turn,
    ensures
        run(g, state, inputs).state.player() >= state.player(),
        state.player() == 1 ==> run(g, state, inputs).game.players[0] == g.players[0] && run(
            g,
            state,
            inputs,
        ).game.boards[0] == g.boards[0],
        run(g, state, inputs).state.player() == 0 ==> run(g, state, inputs).game.players[1]
            == g.players[1] && run(g, state, inputs).game.boards[1] == g.boards[1],
    decreases inputs.len(),
{
    if inputs.len() > 0 {
        let before = run(g, state, inputs.drop_last());
        lemma_run_counts_up(g, state, inputs.drop_last());
        lemma_run_keeps_cards(g, state, inputs.drop_last());
        lemma_step_keeps_order(before.game, before.state, inputs.last());
        lemma_step_spares_other_player(before.game, before.state, inputs.last());
        lemma_run_within_cycle(g, state, inputs.drop_last());
    }
}

/// In a turn-cycle that is not complete, stopped anywhere: if player 0 is in
/// turn there, nothing of player 1's has changed yet; if player 1 is, the
/// turn stays with player 1 and nothing of player 0's changes in the rest of
/// the script.
pub proof fn lemma_order_in_open_cycle(g: GameView, inputs: Seq<Input>, k: int)
    requires
        g.wf(),
        0 <= k <= inputs.len(),
        run(g, TurnState::TurnStart { player: 0 }, inputs).game.turn == g.turn,
    ensures
        ({
            let start = TurnState::TurnStart { player: 0 };
            let mid = run(g, start, inputs.take(k));
            let end = run(g, start, inputs);
            &&& mid.game.turn == g.turn
            &&& mid.state.player() == 0 ==> mid.game.players[1] == g.players[1]
                && mid.game.boards[1] == g.boards[1]
            &&& mid.state.player() == 1 ==> end.state.player() == 1 && end.game.players[0]
                == mid.game.players[0] && end.game.boards[0] == mid.game.boards[0]
        }),
{
    let start = TurnState::TurnStart { player: 0 };
    let mid = run(g, start, inputs.take(k));
    assert(inputs =~= inputs.take(k) + inputs.skip(k));
    lemma_run_concat(g, start, inputs.take(k), inputs.skip(k));
    lemma_run_keeps_cards(g, start, inputs.take(k));
    lemma_run_counts_up(g, start, inputs.take(k));
    lemma_run_counts_up(mid.game, mid.state, inputs.skip(k));
    lemma_run_within_cycle(g, start, inputs.take(k));
    lemma_run_within_cycle(mid.game, mid.state, inputs.skip(k));
    lemma_run_keeps_cards(mid.game, mid.state, inputs.skip(k));
}

/// Player 0 goes first: in a turn-cycle, everything that player 0 draws and
/// does is applied before anything that player 1 draws or does. Take a
/// script that starts a turn-cycle and completes it with its last input at
/// the earliest, and stop it anywhere before the cycle is complete. If
/// player 0 is in turn there, nothing of player 1's has changed yet; if
/// player 1 is, nothing of player 0's changes in the rest of the script.
pub proof fn lemma_turn_order(g: GameView, inputs: Seq<Input>, k: int)
    requires
        g.wf(),
        0 <= k <= inputs.len(),
        inputs.len() > 0 ==> run(
            g,
            TurnState::TurnStart { player: 0 },
            inputs.drop_last(),
        ).game.turn == g.turn,
    ensures
        ({
            let start = TurnState::TurnStart { player: 0 };
            let mid = run(g, start, inputs.take(k));
            let end = run(g, start, inputs);
            &&& mid.game.turn == g.turn && mid.state.player() == 0 ==> mid.game.players[1]
                == g.players[1] && mid.game.boards[1] == g.boards[1]
            &&& mid.game.turn == g.turn && mid.state.player() == 1 ==> end.game.players[0]
                == mid.game.players[0] && end.game.boards[0] == mid.game.boards[0]
        }),
{
    let start = TurnState::TurnStart { player: 0 };
    if k == inputs.len() {
        assert(inputs.take(k) =~= inputs);
        if run(g, start, inputs).game.turn == g.turn {
            lemma_order_in_open_cycle(g, inputs, k);
        }
    } else {
        let body = inputs.drop_last();
        let before = run(g, start, body);
        assert(body.take(k) =~= inputs.take(k));
        lemma_order_in_open_cycle(g, body, k);
        lemma_run_keeps_cards(g, start, body);
        lemma_step_spares_other_player(before.game, before.state, inputs.last());
    }
}

/// Once a player has played in a turn, no input changes anything for the
/// rest of that turn, except to close it: as long as the turn-cycle is the
/// same and the turn is still with the player, the round is as it was and a
/// play is still marked as used.
pub proof fn lemma_one_play_per_turn(g: GameView, player: usize, inputs: Seq<Input>)
    requires
        g.wf(),
        player < 2,
    ensures
        ({
            let played = TurnState::AwaitAction { player, played: true };
            let end = run(g, played, inputs);
            end.game.turn == g.turn && end.state.player() == player ==> end.game == g && end.state
                == played
        }),
    decreases inputs.len(),
{
    if inputs.len() > 0 {
        let played = TurnState::AwaitAction { player, played: true };
        let before = run(g, played, inputs.drop_last());
        lemma_one_play_per_turn(g, player, inputs.drop_last());
        lemma_run_counts_up(g, played, inputs.drop_last());
        lemma_run_keeps_cards(g, played, inputs.drop_last());
        lemma_step_keeps_order(before.game, before.state, inputs.last());
        if before.game.turn == g.turn {
            lemma_run_within_cycle(g, played, inputs.drop_last());
        }
    }
}

/// One play a turn: a player plays a card, does whatever else, and asks to
/// play again in the same turn. The second request is turned down, and
/// neither a hand nor a board changes by it.
pub proof fn lemma_second_play_turned_down(
    g: GameView,
    player: usize,
    index: usize,
    between: Seq<Input>,
)
    requires
        g.wf(),
        player < 2,
        index < g.players[player as int].hand.len(),
    ensures
        ({
            let first = step(
                g,
                TurnState::AwaitAction { player, played: false },
                Input::Act(Action::Play),
            );
            let moved = step(first.game, first.state, Input::Card(index));
            let later = run(moved.game, moved.state, between);
            let second = step(later.game, later.state, Input::Act(Action::Play));
            &&& first.result == Ok::<Outcome, crate::error::GameError>(Outcome::CardRequested)
            &&& moved.result == Ok::<Outcome, crate::error::GameError>(Outcome::Played)
            &&& moved.game == g.with_played(player as int, index as int)
            &&& later.game.turn == g.turn && later.state.player() == player ==> {
                &&& second.result == Ok::<Outcome, crate::error::GameError>(Outcome::AlreadyPlayed)
                &&& second.game == moved.game
                &&& second.state == later.state
            }
        }),
{
    let moved = g.with_played(player as int, index as int);
    lemma_one_play_per_turn(moved, player, between);
}

/// The play is free again in every new turn: the draw that opens a turn
/// leaves the play unused, and a request to play is then taken up if the
/// player holds a card.
pub proof fn lemma_new_turn_frees_play(g: GameView, player: usize)
    requires
        g.wf(),
        player < 2,
        g.players[player as int].status != Status::Standing,
        g.deck.len() > 0,
        g.players[player as int].hand.len() > 0,
    ensures
        ({
            let opened = step(g, TurnState::TurnStart { player }, Input::Proceed);
            let asked = step(opened.game, opened.state, Input::Act(Action::Play));
            &&& opened.state == (TurnState::AwaitAction { player, played: false })
            &&& asked.result == Ok::<Outcome, crate::error::GameError>(Outcome::CardRequested)
            &&& asked.state == (TurnState::AwaitCard { player })
        }),
{
}

/// Standing lasts: a player who stands, and is not in the middle of a turn,
/// is never dealt a card and never asked for anything again in the round.
/// Whatever is fed to the machine, the player's hand, private deck, status
/// and board stay as they are, and the state reached awaits nothing from
/// the player.
pub proof fn lemma_standing_persists(
    g: GameView,
    state: TurnState,
    inputs: Seq<Input>,
    player: usize,
)
    requires
        g.wf(),
        state.wf(),
        player < 2,
        g.players[player as int].status == Status::Standing,
        !state.prompts(player),
    ensures
        run(g, state, inputs).game.players[player as int] == g.players[player as int],
        run(g, state, inputs).game.boards[player as int] == g.boards[player as int],
        !run(g, state, inputs).state.prompts(player),
    decreases inputs.len(),
{
    if inputs.len() > 0 {
        lemma_standing_persists(g, state, inputs.drop_last(), player);
        lemma_run_keeps_cards(g, state, inputs.drop_last());
        let before = run(g, state, inputs.drop_last());
        lemma_step_spares_other_player(before.game, before.state, inputs.last());
    }
}

/// Once a player has chosen to stand, the round goes on without the player:
/// whatever is fed to the machine afterwards, the player stays standing, is
/// dealt no card, keeps hand, private deck and board as they are, and is
/// asked for nothing.
pub proof fn lemma_stand_is_final(g: GameView, player: usize, played: bool, inputs: Seq<Input>)
    requires
        g.wf(),
        player < 2,
    ensures
        ({
            let stood = step(
                g,
                TurnState::AwaitAction { player, played },
                Input::Act(Action::Stand),
            );
            let end = run(stood.game, stood.state, inputs);
            &&& stood.result == Ok::<Outcome, crate::error::GameError>(Outcome::Stood)
            &&& stood.game.players[player as int].status == Status::Standing
            &&& end.game.players[player as int] == stood.game.players[player as int]
            &&& end.game.boards[player as int] == g.boards[player as int]
            &&& !end.state.prompts(player)
        }),
{
    let stood = step(g, TurnState::AwaitAction { player, played }, Input::Act(Action::Stand));
    lemma_standing_persists(stood.game, stood.state, inputs, player);
}

/// The turn of a standing player is passed over: no card is drawn, nothing
/// is asked, and nothing but the count of turn-cycles can change.
pub proof fn lemma_standing_player_is_skipped(g: GameView, player: usize)
    requires
        g.wf(),
        player < 2,
        g.players[player as int].status == Status::Standing,
    ensures
        ({
            let next = step(g, TurnState::TurnStart { player }, Input::Proceed);
            &&& next.result == Ok::<Outcome, crate::error::GameError>(Outcome::Skipped)
            &&& next.state is TurnStart
            &&& next.game.deck == g.deck
            &&& next.game.boards == g.boards
            &&& next.game.players == g.players
        }),
{
}

} // verus!
