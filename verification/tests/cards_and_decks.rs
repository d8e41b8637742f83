use pazaak::{Board, Card, Deck, Hand, Player, SpecialCard, SpecialType, Status};

fn deck_of(values: &[i8]) -> Deck {
    Deck { cards: values.iter().map(|v| Card::new(*v)).collect() }
}

fn values_of(cards: &[Card]) -> Vec<i8> {
    cards.iter().map(|c| c.value).collect()
}

#[test]
fn new_card_has_value_and_no_effect() {
    let card = Card::new(7);
    assert_eq!(card.value, 7);
    assert_eq!(card.special_type, None);
    let minus = Card::new(-3);
    assert_eq!(minus.value, -3);
    assert_eq!(minus.special_type, None);
}

#[test]
fn special_card_keeps_its_definition() {
    let card = SpecialCard { value: Some(vec![1, 2]), special_type: SpecialType::Flip };
    assert_eq!(card.value, Some(vec![1, 2]));
    assert_eq!(card.special_type, SpecialType::Flip);
}

#[test]
fn new_deck_is_empty() {
    assert!(Deck::new().cards.is_empty());
}

#[test]
fn default_fill_lays_four_sets_in_order() {
    let mut deck = Deck::new();
    deck.default_fill();
    assert_eq!(deck.cards.len(), 40);
    let mut expected = Vec::new();
    for _ in 0..4 {
        for v in 1..=10 {
            expected.push(v as i8);
        }
    }
    assert_eq!(values_of(&deck.cards), expected);
    assert!(deck.cards.iter().all(|c| c.special_type.is_none()));
}

#[test]
fn default_fill_goes_on_top_of_what_is_there() {
    let mut deck = deck_of(&[-4, 9]);
    deck.default_fill();
    assert_eq!(deck.cards.len(), 42);
    assert_eq!(values_of(&deck.cards[..3]), vec![-4, 9, 1]);
    assert_eq!(deck.cards[41].value, 10);
}

#[test]
fn draw_takes_the_last_card() {
    let mut deck = deck_of(&[3, 8, 5]);
    assert_eq!(deck.draw(), Card::new(5));
    assert_eq!(values_of(&deck.cards), vec![3, 8]);
    assert_eq!(deck.draw(), Card::new(8));
    assert_eq!(deck.draw(), Card::new(3));
    assert!(deck.cards.is_empty());
}

#[test]
fn shuffle_keeps_the_cards() {
    let mut deck = Deck::new();
    deck.default_fill();
    deck.shuffle();
    assert_eq!(deck.cards.len(), 40);
    let mut sorted = values_of(&deck.cards);
    sorted.sort();
    let mut expected = Vec::new();
    for v in 1..=10 {
        for _ in 0..4 {
            expected.push(v as i8);
        }
    }
    assert_eq!(sorted, expected);
}

#[test]
fn shuffle_changes_the_order() {
    let mut laid = Deck::new();
    laid.default_fill();
    let mut deck = laid.clone();
    deck.shuffle();
    assert_ne!(values_of(&deck.cards), values_of(&laid.cards));
}

#[test]
fn shuffle_of_small_decks() {
    let mut empty = Deck::new();
    empty.shuffle();
    assert!(empty.cards.is_empty());
    let mut single = deck_of(&[4]);
    single.shuffle();
    assert_eq!(values_of(&single.cards), vec![4]);
}

#[test]
fn cloned_deck_holds_the_same_cards() {
    let deck = deck_of(&[1, -2, 3]);
    let copy = deck.clone();
    assert_eq!(copy.cards, deck.cards);
}

#[test]
fn board_total_is_the_sum() {
    let board = Board { cards: vec![Card::new(10), Card::new(-3), Card::new(6)] };
    assert_eq!(board.total(), 13);
    assert_eq!(Board { cards: vec![] }.total(), 0);
}

#[test]
fn board_total_does_not_wrap() {
    let board = Board { cards: vec![Card::new(10); 13] };
    assert_eq!(board.total(), 130);
    let low = Board { cards: vec![Card::new(-128); 3] };
    assert_eq!(low.total(), -384);
}

#[test]
fn new_hand_is_empty() {
    assert!(Hand::new().cards.is_empty());
}

#[test]
fn take_removes_the_card_at_the_index() {
    let mut hand = Hand { cards: vec![Card::new(1), Card::new(2), Card::new(3)] };
    assert_eq!(hand.take(1), Some(Card::new(2)));
    assert_eq!(values_of(&hand.cards), vec![1, 3]);
    assert_eq!(hand.take(1), Some(Card::new(3)));
    assert_eq!(hand.take(0), Some(Card::new(1)));
    assert!(hand.cards.is_empty());
}

#[test]
fn take_past_the_end_is_turned_down() {
    let mut hand = Hand { cards: vec![Card::new(1), Card::new(2)] };
    assert_eq!(hand.take(2), None);
    assert_eq!(hand.take(usize::MAX), None);
    assert_eq!(values_of(&hand.cards), vec![1, 2]);
    let mut empty = Hand::new();
    assert_eq!(empty.take(0), None);
}

#[test]
fn anonymous_hand_hides_every_card() {
    let one = Hand { cards: vec![Card::new(9)] };
    assert_eq!(one.get_anonymous_hand_string(), "?");
    let three = Hand { cards: vec![Card::new(1), Card::new(-2), Card::new(3)] };
    assert_eq!(three.get_anonymous_hand_string(), "?, ?, ?");
    let five = Hand { cards: vec![Card::new(4); 5] };
    assert_eq!(five.get_anonymous_hand_string(), "?, ?, ?, ?, ?");
}

#[test]
fn anonymous_empty_hand_is_a_styled_label() {
    let text = Hand::new().get_anonymous_hand_string();
    assert!(text.contains("<Empty Hand>"));
    assert!(text.starts_with('\u{1b}'));
    assert_ne!(text, "<Empty Hand>");
}

#[test]
fn clones_hold_the_same_cards() {
    let hand = Hand { cards: vec![Card::new(1), Card::new(2)] };
    let board = Board { cards: vec![Card::new(3)] };
    assert_eq!(hand.clone().cards, hand.cards);
    assert_eq!(board.clone().cards, board.cards);
    let player = Player { hand, deck: deck_of(&[4, 5]), status: Status::Standing };
    let copy = player.clone();
    assert_eq!(copy.hand.cards, player.hand.cards);
    assert_eq!(copy.deck.cards, player.deck.cards);
    assert_eq!(copy.status, Status::Standing);
}
