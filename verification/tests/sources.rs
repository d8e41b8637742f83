use pazaak::source::{parse_card_index, parse_card_value};
use pazaak::{Action, Deck, GameError};

fn values(deck: &Deck) -> Vec<i8> {
    deck.cards.iter().map(|c| c.value).collect()
}

/// Reads a deck line by line with the parsers of std.
fn read_with_std(source: &str) -> Option<Vec<i8>> {
    let mut values = Vec::new();
    for line in source.lines() {
        values.push(line.parse::<i8>().ok()?);
    }
    Some(values)
}

#[test]
fn card_values_are_plain_integers() {
    assert_eq!(parse_card_value("5"), Some(5));
    assert_eq!(parse_card_value("10"), Some(10));
    assert_eq!(parse_card_value("+5"), Some(5));
    assert_eq!(parse_card_value("-5"), Some(-5));
    assert_eq!(parse_card_value("0"), Some(0));
    assert_eq!(parse_card_value("-0"), Some(0));
    assert_eq!(parse_card_value("007"), Some(7));
    assert_eq!(parse_card_value("0000000000000000000000000000000005"), Some(5));
}

#[test]
fn card_values_fill_the_range_of_a_card() {
    assert_eq!(parse_card_value("127"), Some(127));
    assert_eq!(parse_card_value("+127"), Some(127));
    assert_eq!(parse_card_value("128"), None);
    assert_eq!(parse_card_value("-128"), Some(-128));
    assert_eq!(parse_card_value("-129"), None);
    assert_eq!(parse_card_value("1000"), None);
    assert_eq!(parse_card_value("99999999999999999999999999999999999999999999"), None);
    assert_eq!(parse_card_value("-99999999999999999999999999999999999999999999"), None);
}

#[test]
fn card_values_hold_nothing_but_sign_and_digits() {
    for text in ["", "+", "-", "+-5", "--5", "5-", " 5", "5 ", "5\r", "1_0", "1.0", "x", "0x5", "٣", "5é"] {
        assert_eq!(parse_card_value(text), None, "{:?}", text);
    }
}

#[test]
fn card_values_agree_with_std() {
    for text in ["5", "+5", "-5", "", "+", "-", "127", "128", "-128", "-129", "007", " 1", "1 ", "١", "12a"] {
        assert_eq!(parse_card_value(text), text.parse::<i8>().ok(), "{:?}", text);
    }
}

#[test]
fn card_index_is_an_unsigned_integer() {
    assert_eq!(parse_card_index("0"), Some(0));
    assert_eq!(parse_card_index("3"), Some(3));
    assert_eq!(parse_card_index("+3"), Some(3));
    assert_eq!(parse_card_index("0012"), Some(12));
    assert_eq!(parse_card_index("-3"), None);
    assert_eq!(parse_card_index("-0"), None);
    assert_eq!(parse_card_index(""), None);
    assert_eq!(parse_card_index("+"), None);
    assert_eq!(parse_card_index("two"), None);
    assert_eq!(parse_card_index("2 "), None);
}

#[test]
fn card_index_fills_the_range_of_an_index() {
    let max = format!("{}", usize::MAX);
    assert_eq!(parse_card_index(&max), Some(usize::MAX));
    let past = format!("{}0", usize::MAX);
    assert_eq!(parse_card_index(&past), None);
    assert_eq!(parse_card_index("340282366920938463463374607431768211456"), None);
    for text in ["18446744073709551615", "18446744073709551616", "4294967295", "4294967296"] {
        assert_eq!(parse_card_index(text), text.parse::<usize>().ok(), "{:?}", text);
    }
}

#[test]
fn tokens_name_the_three_actions() {
    assert_eq!(Action::from_token("stand"), Some(Action::Stand));
    assert_eq!(Action::from_token("play"), Some(Action::Play));
    assert_eq!(Action::from_token("end"), Some(Action::EndTurn));
}

#[test]
fn other_tokens_name_nothing() {
    for token in ["", "Stand", "STAND", " stand", "stand ", "end turn", "endturn", "draw", "pla", "plays"] {
        assert_eq!(Action::from_token(token), None, "{:?}", token);
    }
}

#[test]
fn deck_source_lists_one_card_a_line() {
    let deck = Deck::from_source("1\n-2\n+3\n").unwrap();
    assert_eq!(values(&deck), vec![1, -2, 3]);
    assert!(deck.cards.iter().all(|c| c.special_type.is_none()));
    let unterminated = Deck::from_source("1\n-2\n+3").unwrap();
    assert_eq!(values(&unterminated), vec![1, -2, 3]);
    let single = Deck::from_source("10").unwrap();
    assert_eq!(values(&single), vec![10]);
}

#[test]
fn empty_source_is_an_empty_deck() {
    let deck = Deck::from_source("").unwrap();
    assert!(deck.cards.is_empty());
}

#[test]
fn carriage_return_belongs_to_the_line_ending() {
    let deck = Deck::from_source("4\r\n5\r\n6").unwrap();
    assert_eq!(values(&deck), vec![4, 5, 6]);
    assert!(matches!(Deck::from_source("4\r\n5\r"), Err(GameError::InvalidCardValue)));
    assert!(matches!(Deck::from_source("4\r\r\n"), Err(GameError::InvalidCardValue)));
    assert!(matches!(Deck::from_source("4\r5\n"), Err(GameError::InvalidCardValue)));
}

#[test]
fn malformed_line_spoils_the_source() {
    for source in ["x", "1\n\n2", "\n", "1\n2\nx\n", "1\n2\n\n", " 1\n", "1 \n2", "1,2", "128\n", "1\n2\n3\n-129"] {
        assert!(
            matches!(Deck::from_source(source), Err(GameError::InvalidCardValue)),
            "{:?}",
            source
        );
    }
}

#[test]
fn deck_source_agrees_with_std() {
    let sources = [
        "", "\n", "\r\n", "1", "1\n", "1\r\n", "1\n2", "1\n2\n", "1\r\n2\r\n", "1\r", "1\n\r", "\n1",
        "1\n\n", "+1\n-1\n0\n", "127\n-128", "128", "é\n1", "1\n2\r\r\n3", "10\n9\n8\n7\n6\n5\n4\n3\n2\n1\n",
    ];
    for source in sources {
        let expected = read_with_std(source);
        let read = Deck::from_source(source).ok().map(|d| values(&d));
        assert_eq!(read, expected, "{:?}", source);
    }
}

#[test]
fn last_line_of_the_source_is_drawn_first() {
    let mut deck = Deck::from_source("1\n2\n3\n").unwrap();
    assert_eq!(deck.draw().value, 3);
    assert_eq!(deck.draw().value, 2);
    assert_eq!(deck.draw().value, 1);
}
