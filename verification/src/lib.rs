//! A two-player card game played to a target of twenty, as a best-of match.
//!
//! The crate holds the game-state engine: cards and their containers, the
//! turn state machine of one round, win resolution, and match scoring. It
//! also reads decks and choices from text and writes the table as text for
//! a terminal. It performs no input or output itself; a driver feeds it
//! what the players typed and prints what it hands back.

pub mod cards;
pub mod deck;
pub mod board;
pub mod hand;
pub mod player;
pub mod style;
pub mod game;
pub mod error;
pub mod turn;
pub mod laws;
pub mod match_play;
pub mod source;
pub mod text;
pub mod show;
pub mod messages;

pub use crate::board::Board;
pub use crate::cards::{Card, SpecialCard, SpecialType};
pub use crate::deck::Deck;
pub use crate::error::GameError;
pub use crate::game::Game;
pub use crate::hand::Hand;
pub use crate::match_play::Match;
pub use crate::player::{Player, Status};
pub use crate::turn::{Action, Input, Outcome, Step, TurnState};
