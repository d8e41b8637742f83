use pazaak::messages::{get_action_message, player_number_to_identifier, Event};
use pazaak::show::Tint;
use pazaak::text::{integer_string, join};
use pazaak::{Board, Card, Deck, Hand, Match, Outcome};

fn cards(values: &[i8]) -> Vec<Card> {
    values.iter().map(|v| Card::new(*v)).collect()
}

/// The text without the escape sequences that style it.
fn plain(styled: &str) -> String {
    let mut text = String::new();
    let mut chars = styled.chars();
    while let Some(c) = chars.next() {
        if c == '\u{1b}' {
            for d in chars.by_ref() {
                if d == 'm' {
                    break;
                }
            }
        } else {
            text.push(c);
        }
    }
    text
}

#[test]
fn integers_are_written_in_decimal() {
    assert_eq!(integer_string(0), "0");
    assert_eq!(integer_string(7), "7");
    assert_eq!(integer_string(10), "10");
    assert_eq!(integer_string(-1), "-1");
    assert_eq!(integer_string(-128), "-128");
    assert_eq!(integer_string(1000000), "1000000");
    assert_eq!(integer_string(i128::MAX), "170141183460469231731687303715884105727");
    assert_eq!(integer_string(i128::MIN), "-170141183460469231731687303715884105728");
}

#[test]
fn integers_are_written_as_std_writes_them() {
    for value in [0i128, 1, 9, 10, 11, 99, 100, 101, -9, -10, -99, -100, 12345678901234567890] {
        assert_eq!(integer_string(value), format!("{}", value));
    }
    for value in -130..130 {
        assert_eq!(integer_string(value), format!("{}", value));
    }
}

#[test]
fn lists_are_joined_with_commas() {
    assert_eq!(join(&vec![]), "");
    assert_eq!(join(&vec!["a".to_string()]), "a");
    assert_eq!(join(&vec!["a".to_string(), "b".to_string()]), "a, b");
    assert_eq!(join(&vec!["1".to_string(), String::new(), "3".to_string()]), "1, , 3");
}

#[test]
fn deck_is_written_as_its_values() {
    let deck = Deck { cards: cards(&[1, -2, 10]) };
    assert_eq!(deck.to_string(), "1, -2, 10");
    assert_eq!(Deck { cards: cards(&[0]) }.to_string(), "0");
}

#[test]
fn empty_deck_is_a_styled_label() {
    let text = Deck::new().to_string();
    assert_eq!(plain(&text), "<Empty Deck>");
    assert_ne!(text, "<Empty Deck>");
}

#[test]
fn board_is_written_with_its_total() {
    let board = Board { cards: cards(&[10, 8]) };
    assert_eq!(board.to_string(), "10, 8 (18)");
    let low = Board { cards: cards(&[3, -5]) };
    assert_eq!(low.to_string(), "3, -5 (-2)");
    let one = Board { cards: cards(&[4]) };
    assert_eq!(one.to_string(), "4 (4)");
}

#[test]
fn empty_board_is_a_styled_label() {
    let text = Board { cards: vec![] }.to_string();
    assert_eq!(plain(&text), "<Empty Board>");
    assert_ne!(text, "<Empty Board>");
}

#[test]
fn card_is_tinted_by_its_sign() {
    assert_eq!(Card::new(1).tint(), Tint::Green);
    assert_eq!(Card::new(10).tint(), Tint::Green);
    assert_eq!(Card::new(0).tint(), Tint::Red);
    assert_eq!(Card::new(-4).tint(), Tint::Red);
}

#[test]
fn card_is_written_as_its_styled_value() {
    let gain = Card::new(5).to_string();
    assert_eq!(plain(&gain), "5");
    assert_ne!(gain, "5");
    let loss = Card::new(-5).to_string();
    assert_eq!(plain(&loss), "-5");
    assert_ne!(loss, "-5");
    assert_ne!(plain(&gain), plain(&loss));
}

#[test]
fn hand_is_written_as_its_styled_cards() {
    let hand = Hand { cards: cards(&[1, -2, 3]) };
    let text = hand.to_string();
    assert_eq!(plain(&text), "1, -2, 3");
    assert_eq!(text, format!("{}, {}, {}", Card::new(1).to_string(), Card::new(-2).to_string(), Card::new(3).to_string()));
}

#[test]
fn empty_hand_is_a_styled_label() {
    let text = Hand::new().to_string();
    assert_eq!(plain(&text), "<Empty Hand>");
    assert_eq!(text, Hand::new().get_anonymous_hand_string());
}

#[test]
fn match_banner_names_round_turn_and_score() {
    let deck = Deck { cards: cards(&[1, 2, 3, 4, 5]) };
    let mut m = Match::new();
    m.new_game(deck.clone(), deck.clone());
    assert_eq!(plain(&m.to_string()), "Round: 1 | Turn: 1\nYou: 0   | Opponent: 0");
    m.record_result(Some(1));
    m.record_result(Some(1));
    m.record_result(Some(0));
    m.new_game(deck.clone(), deck.clone());
    m.current_game().turn = 12;
    let banner = m.to_string();
    assert_eq!(plain(&banner), "Round: 2 | Turn: 12\nYou: 1   | Opponent: 2");
    assert_ne!(banner, plain(&banner));
}

#[test]
fn log_lines_name_the_player_from_one() {
    assert_eq!(get_action_message(0, Event::Draw), "Player 1 Draws...");
    assert_eq!(get_action_message(1, Event::Stand), "Player 2 Stands...");
    assert_eq!(get_action_message(0, Event::Play), "Player 1 Plays...");
    assert_eq!(get_action_message(1, Event::TurnStart), "Starting Player 2's Turn...");
    assert_eq!(get_action_message(0, Event::EndTurn), "Ending Player 1's Turn...");
    assert_eq!(get_action_message(41, Event::Draw), "Player 42 Draws...");
    assert_eq!(
        get_action_message(usize::MAX, Event::Draw),
        format!("Player {} Draws...", usize::MAX as u128 + 1)
    );
}

#[test]
fn players_are_addressed_by_seat() {
    assert_eq!(player_number_to_identifier(0), "You");
    assert_eq!(player_number_to_identifier(1), "Opponent");
    assert_eq!(player_number_to_identifier(2), "Player 3");
    assert_eq!(player_number_to_identifier(9), "Player 10");
}

#[test]
fn steps_are_reported_as_events() {
    assert_eq!(Outcome::Drew.event(), Some(Event::Draw));
    assert_eq!(Outcome::Skipped.event(), Some(Event::Stand));
    assert_eq!(Outcome::Stood.event(), Some(Event::Stand));
    assert_eq!(Outcome::TurnEnded.event(), Some(Event::EndTurn));
    assert_eq!(Outcome::CardRequested.event(), Some(Event::Play));
    for outcome in [
        Outcome::Played,
        Outcome::AlreadyPlayed,
        Outcome::EmptyHand,
        Outcome::InvalidCard,
        Outcome::Ignored,
    ] {
        assert_eq!(outcome.event(), None);
    }
}

#[test]
fn written_card_values_read_back() {
    for value in i8::MIN..=i8::MAX {
        let text = integer_string(value as i128);
        assert_eq!(pazaak::source::parse_card_value(&text), Some(value));
    }
    let deck = Deck { cards: cards(&[10, -3, 0]) };
    let lines = deck.to_string().replace(", ", "\n");
    let read = Deck::from_source(&lines).unwrap();
    assert_eq!(read.cards, deck.cards);
}
