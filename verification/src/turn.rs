//! The turn state machine of a round.
//!
//! A turn-cycle gives each player one turn, player 0 first. A turn begins
//! with a forced draw from the shared deck, unless the player stands, and
//! goes on with the player's actions until the player stands or ends the
//! turn. The machine never waits: the driver holds a [`TurnState`], obtains
//! what the state asks for, and hands it to [`Game::step`].

use vstd::prelude::*;
use crate::error::GameError;
use crate::game::{Game, GameView};
use crate::laws::{
    lemma_exhausted_round_is_stuck, lemma_run_concat, lemma_run_fails_extends,
    lemma_step_keeps_order,
};
use crate::player::Status;

verus! {

/// What a player may choose to do while the turn is open.
#[derive(Clone, Copy, Debug, PartialEq, Eq, Structural)]
pub enum Action {
    /// Stop playing for the rest of the round.
    Stand,
    /// Move one card from the hand onto the board, once per turn-cycle.
    Play,
    /// Close the turn, and act again in the next turn-cycle.
    EndTurn,
}

/// Where a turn-cycle stands, and so what the driver has to supply next.
#[derive(Clone, Copy, Debug, PartialEq, Eq, Structural)]
pub enum TurnState {
    /// The turn of `player` is about to begin. Nothing is awaited.
    TurnStart { player: usize },
    /// The turn of `player` is open and an action is awaited. `played` says
    /// whether the player has moved a card in this turn-cycle.
    AwaitAction { player: usize, played: bool },
    /// `player` has chosen to play and the index of a card of the hand is
    /// awaited.
    AwaitCard { player: usize },
}

/// What the driver hands to the machine.
#[derive(Clone, Copy, Debug, PartialEq, Eq, Structural)]
pub enum Input {
    /// Nothing: lets a turn begin.
    Proceed,
    /// The action that the player chose.
    Act(Action),
    /// The index, in the hand, of the card that the player chose.
    Card(usize),
}

/// What a step did.
#[derive(Clone, Copy, Debug, PartialEq, Eq, Structural)]
pub enum Outcome {
    /// The player stands: no card was drawn, and the turn is over.
    Skipped,
    /// A card went from the shared deck onto the player's board.
    Drew,
    /// The player stands from now on, and the turn is over.
    Stood,
    /// The turn is over.
    TurnEnded,
    /// The player may play, and is to choose the card.
    CardRequested,
    /// A card went from the player's hand onto the player's board.
    Played,
    /// Turned down: the player has played in this turn-cycle.
    AlreadyPlayed,
    /// Turned down: the player holds no card.
    EmptyHand,
    /// Turned down: the hand has no card at the index.
    InvalidCard,
    /// Turned down: the state awaits another kind of input.
    Ignored,
}

/// The state after a step, and what the step did.
#[derive(Clone, Copy, Debug, PartialEq, Eq, Structural)]
pub struct Step {
    pub state: TurnState,
    pub outcome: Outcome,
}

/// A round together with the state of its turn-cycle.
pub struct Position {
    pub game: GameView,
    pub state: TurnState,
}

/// What a step leads to: the position after it, and what it did or why it
/// failed.
pub struct Transition {
    pub game: GameView,
    pub state: TurnState,
    pub result: Result<Outcome, GameError>,
}

impl TurnState {
    /// The player whose turn it is.
    pub open spec fn player(self) -> usize {
        match self {
            TurnState::TurnStart { player } => player,
            TurnState::AwaitAction { player, .. } => player,
            TurnState::AwaitCard { player } => player,
        }
    }

    /// The state speaks of one of the two players.
    pub open spec fn wf(self) -> bool {
        self.player() < 2
    }

    /// The state awaits an action or a card from `player`.
    pub open spec fn prompts(self, player: usize) -> bool {
        self.player() == player && !(self is TurnStart)
    }

    /// The state in which every turn-cycle begins.
    pub fn cycle_start() -> (state: TurnState)
        ensures
            state == (TurnState::TurnStart { player: 0 }),
    {
        TurnState::TurnStart { player: 0 }
    }
}

impl Outcome {
    /// The step closed the turn of the player.
    pub open spec fn closes_turn(self) -> bool {
        self is Skipped || self is Stood || self is TurnEnded
    }
}

impl Step {
    /// Whether the step closed the turn of the second player, and with it
    /// the turn-cycle.
    pub fn completes_cycle(&self) -> (done: bool)
        ensures
            done == (self.outcome.closes_turn() && self.state == (TurnState::TurnStart {
                player: 0,
            })),
    {
        let closed = match self.outcome {
            Outcome::Skipped => true,
            Outcome::Stood => true,
            Outcome::TurnEnded => true,
            _ => false,
        };
        let at_start = match self.state {
            TurnState::TurnStart { player } => player == 0,
            _ => false,
        };
        closed && at_start
    }
}

/// The turn of `player` is over: the other player is next, and after the
/// second player the turn-cycle is counted.
pub open spec fn turn_over(g: GameView, player: usize, outcome: Outcome) -> Transition {
    if player == 0 {
        Transition { game: g, state: TurnState::TurnStart { player: 1 }, result: Ok(outcome) }
    } else {
        Transition {
            game: g.with_cycle_counted(),
            state: TurnState::TurnStart { player: 0 },
            result: Ok(outcome),
        }
    }
}

/// The step leaves everything as it is.
pub open spec fn turned_down(g: GameView, state: TurnState, outcome: Outcome) -> Transition {
    Transition { game: g, state, result: Ok(outcome) }
}

/// The turn of `player` begins. A standing player is passed over. Any other
/// player is dealt the top card of the shared deck onto the board, and the
/// turn opens with the one play of the turn-cycle unused. With no card left
/// to draw the round cannot go on.
pub open spec fn begin_turn(g: GameView, player: usize) -> Transition {
    if g.players[player as int].status == Status::Standing {
        turn_over(g, player, Outcome::Skipped)
    } else if g.deck.len() == 0 {
        Transition {
            game: g,
            state: TurnState::TurnStart { player },
            result: Err(GameError::EmptyDeck),
        }
    } else {
        Transition {
            game: g.with_drawn(player as int),
            state: TurnState::AwaitAction { player, played: false },
            result: Ok(Outcome::Drew),
        }
    }
}

/// `player` chooses `action` while the turn is open.
pub open spec fn act(g: GameView, player: usize, played: bool, action: Action) -> Transition {
    match action {
        Action::Stand => turn_over(g.with_standing(player as int), player, Outcome::Stood),
        Action::EndTurn => turn_over(g, player, Outcome::TurnEnded),
        Action::Play => if played {
            turned_down(g, TurnState::AwaitAction { player, played }, Outcome::AlreadyPlayed)
        } else if g.players[player as int].hand.len() == 0 {
            turned_down(g, TurnState::AwaitAction { player, played }, Outcome::EmptyHand)
        } else {
            Transition {
                game: g,
                state: TurnState::AwaitCard { player },
                result: Ok(Outcome::CardRequested),
            }
        },
    }
}

/// `player` names the card to play.
pub open spec fn play_card(g: GameView, player: usize, index: usize) -> Transition {
    if index < g.players[player as int].hand.len() {
        Transition {
            game: g.with_played(player as int, index as int),
            state: TurnState::AwaitAction { player, played: true },
            result: Ok(Outcome::Played),
        }
    } else {
        turned_down(g, TurnState::AwaitCard { player }, Outcome::InvalidCard)
    }
}

/// One step of the machine: what `input` leads to in `state`.
pub open spec fn step(g: GameView, state: TurnState, input: Input) -> Transition {
    match (state, input) {
        (TurnState::TurnStart { player }, Input::Proceed) => begin_turn(g, player),
        (TurnState::AwaitAction { player, played }, Input::Act(action)) => act(
            g,
            player,
            played,
            action,
        ),
        (TurnState::AwaitCard { player }, Input::Card(index)) => play_card(g, player, index),
        _ => turned_down(g, state, Outcome::Ignored),
    }
}

/// What the caller of a step gets back.
pub open spec fn step_result(t: Transition) -> Result<Step, GameError> {
    match t.result {
        Ok(outcome) => Ok(Step { state: t.state, outcome }),
        Err(error) => Err(error),
    }
}

/// The position that `inputs`, taken in order, lead to.
pub open spec fn run(g: GameView, state: TurnState, inputs: Seq<Input>) -> Position
    decreases inputs.len(),
{
    if inputs.len() == 0 {
        Position { game: g, state }
    } else {
        let before = run(g, state, inputs.drop_last());
        let t = step(before.game, before.state, inputs.last());
        Position { game: t.game, state: t.state }
    }
}

/// Some step of the run fails.
pub open spec fn run_fails(g: GameView, state: TurnState, inputs: Seq<Input>) -> bool
    decreases inputs.len(),
{
    inputs.len() > 0 && {
        let before = run(g, state, inputs.drop_last());
        run_fails(g, state, inputs.drop_last()) || step(
            before.game,
            before.state,
            inputs.last(),
        ).result is Err
    }
}

impl Game {
    /// Moves the top card of the shared deck onto the board of `player`.
    fn draw_for(&mut self, player: usize)
        requires
            player < 2,
            old(self)@.deck.len() > 0,
        ensures
            final(self)@ == old(self)@.with_drawn(player as int),
    {
        let card = self.deck.draw();
        self.board[player].cards.push(card);
        proof {
            assert(self@.boards =~= old(self)@.with_drawn(player as int).boards);
            assert(self@.players =~= old(self)@.players);
        }
    }

    /// Marks `player` as standing.
    fn stand(&mut self, player: usize)
        requires
            player < 2,
        ensures
            final(self)@ == old(self)@.with_standing(player as int),
    {
        self.players[player].status = Status::Standing;
        proof {
            assert(self@.players =~= old(self)@.with_standing(player as int).players);
            assert(self@.boards =~= old(self)@.boards);
        }
    }

    /// Passes the turn on from `player`, and counts the turn-cycle if it is
    /// complete.
    fn close_turn(&mut self, player: usize, outcome: Outcome) -> (step: Step)
        requires
            player < 2,
            old(self).turn < u8::MAX,
        ensures
            final(self)@ == turn_over(old(self)@, player, outcome).game,
            Ok::<Step, GameError>(step) == step_result(turn_over(old(self)@, player, outcome)),
    {
        if player == 0 {
            Step { state: TurnState::TurnStart { player: 1 }, outcome }
        } else {
            self.turn = self.turn + 1;
            Step { state: TurnState::TurnStart { player: 0 }, outcome }
        }
    }

    /// Feeds a script to the machine, input by input, from `state` on. The
    /// run stops at the first step that fails. Since a failed step leaves
    /// the round where it is, and nothing can move it from there, the round
    /// is then as it would be had the whole script been fed.
    pub fn run_script(&mut self, state: TurnState, inputs: &Vec<Input>) -> (result: Result<
        TurnState,
        GameError,
    >)
        requires
            state.wf(),
            old(self).turn + inputs@.len() <= u8::MAX,
        ensures
            final(self)@ == run(old(self)@, state, inputs@).game,
            result == if run_fails(old(self)@, state, inputs@) {
                Err::<TurnState, GameError>(GameError::EmptyDeck)
            } else {
                Ok::<TurnState, GameError>(run(old(self)@, state, inputs@).state)
            },
            result matches Ok(end) ==> end.wf(),
            final(self)@.card_count() == old(self)@.card_count(),
    {
        let mut current = state;
        let mut i: usize = 0;
        while i < inputs.len()
            invariant
                i <= inputs@.len(),
                current.wf(),
                old(self).turn + inputs@.len() <= u8::MAX,
                self.turn <= old(self).turn + i,
                self@ == run(old(self)@, state, inputs@.take(i as int)).game,
                current == run(old(self)@, state, inputs@.take(i as int)).state,
                !run_fails(old(self)@, state, inputs@.take(i as int)),
                self@.card_count() == old(self)@.card_count(),
            decreases inputs@.len() - i,
        {
            let ghost before = self@;
            proof {
                assert(inputs@.take(i + 1).drop_last() =~= inputs@.take(i as int));
                assert(inputs@ =~= inputs@.take(i + 1) + inputs@.skip(i + 1));
                lemma_step_keeps_order(before, current, inputs@[i as int]);
            }
            match self.step(current, inputs[i]) {
                Ok(next) => {
                    current = next.state;
                },
                Err(error) => {
                    proof {
                        let done = inputs@.take(i + 1);
                        let rest = inputs@.skip(i + 1);
                        lemma_run_fails_extends(old(self)@, state, done, rest);
                        lemma_run_concat(old(self)@, state, done, rest);
                        lemma_exhausted_round_is_stuck(before, current, rest);
                    }
                    return Err(error);
                },
            }
            i = i + 1;
        }
        proof {
            assert(inputs@.take(i as int) =~= inputs@);
        }
        Ok(current)
    }

    /// Takes one step of the turn-cycle: applies `input` in `state`, and
    /// returns the state that follows with what was done. An input that the
    /// state does not await, a second play in one turn-cycle, a play with an
    /// empty hand and an index past the hand are turned down and change
    /// nothing. The step fails, and changes nothing, where a card has to be
    /// drawn and the shared deck is empty.
    pub fn step(&mut self, state: TurnState, input: Input) -> (result: Result<Step, GameError>)
        requires
            state.wf(),
            old(self).turn < u8::MAX,
        ensures
            final(self)@ == step(old(self)@, state, input).game,
            result == step_result(step(old(self)@, state, input)),
            result matches Ok(next) ==> next.state.wf(),
            final(self)@.card_count() == old(self)@.card_count(),
    {
        match (state, input) {
            (TurnState::TurnStart { player }, Input::Proceed) => {
                if self.players[player].status == Status::Standing {
                    Ok(self.close_turn(player, Outcome::Skipped))
                } else if self.deck.cards.len() == 0 {
                    Err(GameError::EmptyDeck)
                } else {
                    self.draw_for(player);
                    Ok(
                        Step {
                            state: TurnState::AwaitAction { player, played: false },
                            outcome: Outcome::Drew,
                        },
                    )
                }
            },
            (TurnState::AwaitAction { player, played }, Input::Act(action)) => {
                match action {
                    Action::Stand => {
                        self.stand(player);
                        Ok(self.close_turn(player, Outcome::Stood))
                    },
                    Action::EndTurn => Ok(self.close_turn(player, Outcome::TurnEnded)),
                    Action::Play => {
                        if played {
                            Ok(Step { state, outcome: Outcome::AlreadyPlayed })
                        } else if self.players[player].hand.cards.len() == 0 {
                            Ok(Step { state, outcome: Outcome::EmptyHand })
                        } else {
                            Ok(
                                Step {
                                    state: TurnState::AwaitCard { player },
                                    outcome: Outcome::CardRequested,
                                },
                            )
                        }
                    },
                }
            },
            (TurnState::AwaitCard { player }, Input::Card(index)) => {
                match self.players[player].hand.take(index) {
                    Some(card) => {
                        self.board[player].cards.push(card);
                        proof {
                            let moved = old(self)@.with_played(player as int, index as int);
                            assert(self@.players =~= moved.players);
                            assert(self@.boards =~= moved.boards);
                        }
                        Ok(
                            Step {
                                state: TurnState::AwaitAction { player, played: true },
                                outcome: Outcome::Played,
                            },
                        )
                    },
                    None => Ok(Step { state, outcome: Outcome::InvalidCard }),
                }
            },
            _ => Ok(Step { state, outcome: Outcome::Ignored }),
        }
    }
}

} // verus!
