//! What the table log says of a turn.

use vstd::prelude::*;
use vstd::string::*;
use crate::text::{integer_string, integer_text};
use crate::turn::Outcome;

verus! {

/// What the log can report of a player.
#[derive(Clone, Copy, Debug, PartialEq, Eq, Structural)]
pub enum Event {
    /// A card was drawn for the player.
    Draw,
    /// The player stands.
    Stand,
    /// The player's turn is over.
    EndTurn,
    /// The player plays a card.
    Play,
    /// The player's turn begins.
    TurnStart,
}

/// The name of a player in the log: players are counted from one.
pub open spec fn player_name(player: usize) -> Seq<char> {
    "Player "@ + integer_text(player + 1)
}

/// The line of the log for `event` of `player`.
pub open spec fn action_message(player: usize, event: Event) -> Seq<char> {
    match event {
        Event::Draw => player_name(player) + " Draws..."@,
        Event::Stand => player_name(player) + " Stands..."@,
        Event::Play => player_name(player) + " Plays..."@,
        Event::TurnStart => "Starting "@ + player_name(player) + "'s Turn..."@,
        Event::EndTurn => "Ending "@ + player_name(player) + "'s Turn..."@,
    }
}

/// How a player is addressed at the console.
pub open spec fn identifier(player: usize) -> Seq<char> {
    if player == 0 {
        "You"@
    } else if player == 1 {
        "Opponent"@
    } else {
        player_name(player)
    }
}

/// What the log reports of a step: nothing where an input was turned down
/// or a card was laid.
pub open spec fn reported(outcome: Outcome) -> Option<Event> {
    match outcome {
        Outcome::Drew => Some(Event::Draw),
        Outcome::Skipped => Some(Event::Stand),
        Outcome::Stood => Some(Event::Stand),
        Outcome::TurnEnded => Some(Event::EndTurn),
        Outcome::CardRequested => Some(Event::Play),
        _ => None,
    }
}

/// Writes the name of `player` at the end of `text`.
fn push_player_name(text: &mut String, player: usize)
    ensures
        final(text)@ == old(text)@ + player_name(player),
{
    text.append("Player ");
    text.append(integer_string(player as i128 + 1).as_str());
    proof {
        assert(text@ =~= old(text)@ + player_name(player));
    }
}

impl Outcome {
    /// What the log reports of the step.
    pub fn event(&self) -> (event: Option<Event>)
        ensures
            event == reported(*self),
    {
        match self {
            Outcome::Drew => Some(Event::Draw),
            Outcome::Skipped => Some(Event::Stand),
            Outcome::Stood => Some(Event::Stand),
            Outcome::TurnEnded => Some(Event::EndTurn),
            Outcome::CardRequested => Some(Event::Play),
            _ => None,
        }
    }
}

/// The line of the log for `event` of `player`.
pub fn get_action_message(player: usize, event: Event) -> (message: String)
    ensures
        message@ == action_message(player, event),
{
    let mut message = String::new();
    match event {
        Event::Draw => {
            push_player_name(&mut message, player);
            message.append(" Draws...");
        },
        Event::Stand => {
            push_player_name(&mut message, player);
            message.append(" Stands...");
        },
        Event::Play => {
            push_player_name(&mut message, player);
            message.append(" Plays...");
        },
        Event::TurnStart => {
            message.append("Starting ");
            push_player_name(&mut message, player);
            message.append("'s Turn...");
        },
        Event::EndTurn => {
            message.append("Ending ");
            push_player_name(&mut message, player);
            message.append("'s Turn...");
        },
    }
    proof {
        assert(message@ =~= action_message(player, event));
    }
    message
}

/// How a player is addressed at the console.
pub fn player_number_to_identifier(player: usize) -> (name: String)
    ensures
        name@ == identifier(player),
{
    let mut name = String::new();
    if player == 0 {
        name.append("You");
    } else if player == 1 {
        name.append("Opponent");
    } else {
        push_player_name(&mut name, player);
    }
    proof {
        assert(name@ =~= identifier(player));
    }
    name
}

} // verus!
