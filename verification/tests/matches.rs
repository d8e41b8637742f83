use pazaak::{Card, Deck, Match, Status};

fn deck(values: &[i8]) -> Deck {
    Deck { cards: values.iter().map(|v| Card::new(*v)).collect() }
}

fn started() -> Match {
    let mut m = Match::new();
    m.new_game(deck(&[1, 2, 3, 4, 5, 6]), deck(&[6, 5, 4, 3, 2, 1]));
    m
}

fn set_boards(m: &mut Match, first: &[i8], second: &[i8]) {
    let game = m.current_game();
    game.board[0].cards = first.iter().map(|v| Card::new(*v)).collect();
    game.board[1].cards = second.iter().map(|v| Card::new(*v)).collect();
}

#[test]
fn new_match_has_nothing_in_it() {
    let mut m = Match::new();
    assert!(m.games.is_empty());
    assert_eq!(m.round, 0);
    assert_eq!(m.score, [0, 0]);
    assert_eq!(m.check_win(), None);
}

#[test]
fn new_game_appends_and_counts() {
    let mut m = Match::new();
    m.new_game(deck(&[1, 2, 3, 4, 5, 6]), deck(&[6, 5, 4, 3, 2, 1]));
    assert_eq!(m.round, 1);
    assert_eq!(m.games.len(), 1);
    assert_eq!(m.score, [0, 0]);
    m.new_game(deck(&[1, 1, 1, 1, 1]), deck(&[2, 2, 2, 2, 2, 2, 2]));
    assert_eq!(m.round, 2);
    assert_eq!(m.games.len(), 2);
    assert_eq!(m.games[0].players[0].deck.cards.len(), 1);
    assert_eq!(m.games[1].players[0].deck.cards.len(), 0);
    assert_eq!(m.games[1].players[1].deck.cards.len(), 2);
    assert_eq!(m.games[1].players[0].hand.cards.len(), 5);
    assert_eq!(m.games[1].deck.cards.len(), 40);
    assert_eq!(m.games[1].turn, 1);
}

#[test]
fn current_game_is_the_last_one_started() {
    let mut m = started();
    m.current_game().turn = 9;
    assert_eq!(m.games[0].turn, 9);
    m.new_game(deck(&[1, 1, 1, 1, 1]), deck(&[2, 2, 2, 2, 2]));
    assert_eq!(m.current_game().turn, 1);
    m.current_game().players[1].status = Status::Standing;
    assert_eq!(m.games[1].players[1].status, Status::Standing);
    assert_eq!(m.games[0].players[1].status, Status::Playing);
    assert_eq!(m.games[0].turn, 9);
}

#[test]
fn record_result_gives_the_winner_a_point() {
    let mut m = started();
    m.record_result(Some(1));
    assert_eq!(m.score, [0, 1]);
    m.record_result(Some(0));
    assert_eq!(m.score, [1, 1]);
    m.record_result(None);
    assert_eq!(m.score, [1, 1]);
    assert_eq!(m.round, 1);
    assert_eq!(m.games.len(), 1);
}

#[test]
fn match_is_won_at_three() {
    let mut m = Match::new();
    m.score = [2, 2];
    assert_eq!(m.check_win(), None);
    m.score = [3, 2];
    assert_eq!(m.check_win(), Some(0));
    m.score = [1, 3];
    assert_eq!(m.check_win(), Some(1));
    m.score = [2, 4];
    assert_eq!(m.check_win(), Some(1));
    assert_eq!(m.score, [2, 4]);
}

#[test]
fn three_wins_with_draws_between_win_the_match() {
    let mut m = started();
    m.record_result(Some(0));
    let results = [Some(1), None, Some(1), None, None, Some(1)];
    for (i, result) in results.iter().enumerate() {
        assert_eq!(m.check_win(), None);
        m.record_result(*result);
        assert_eq!(m.score[0], 1);
        assert!(i < 5 || m.score[1] == 3);
    }
    assert_eq!(m.score, [1, 3]);
    assert_eq!(m.check_win(), Some(1));
}

#[test]
fn drawn_round_advances_without_scoring() {
    let mut m = started();
    m.record_result(Some(0));
    set_boards(&mut m, &[10, 5], &[8, 7]);
    let winner = m.conclude_round(deck(&[1, 2, 3, 4, 5]), deck(&[5, 4, 3, 2, 1]));
    assert_eq!(winner, None);
    assert_eq!(m.score, [1, 0]);
    assert_eq!(m.round, 2);
    assert_eq!(m.games.len(), 2);
    assert_eq!(m.games[0].board[0].cards.len(), 2);
    assert!(m.current_game().board[0].cards.is_empty());
    assert_eq!(m.current_game().players[0].hand.cards.len(), 5);
}

#[test]
fn decided_round_scores_for_its_winner() {
    let mut m = started();
    set_boards(&mut m, &[10, 10, 1], &[10, 9]);
    let winner = m.conclude_round(deck(&[1, 2, 3, 4, 5]), deck(&[5, 4, 3, 2, 1]));
    assert_eq!(winner, Some(1));
    assert_eq!(m.score, [0, 1]);
    assert_eq!(m.round, 2);
    set_boards(&mut m, &[10, 10], &[10, 9]);
    let winner = m.conclude_round(deck(&[1, 2, 3, 4, 5]), deck(&[5, 4, 3, 2, 1]));
    assert_eq!(winner, Some(0));
    assert_eq!(m.score, [1, 1]);
    assert_eq!(m.round, 3);
    assert_eq!(m.games.len(), 3);
}

#[test]
fn same_decks_serve_every_round() {
    let player = deck(&[1, 2, 3, 4, 5, 6]);
    let opponent = deck(&[-1, -2, -3, -4, -5]);
    let mut m = Match::new();
    for round in 1..=3 {
        m.new_game(player.clone(), opponent.clone());
        assert_eq!(m.round, round);
        let game = m.current_game();
        let mut held: Vec<i8> = game.players[0].hand.cards.iter().map(|c| c.value).collect();
        held.extend(game.players[0].deck.cards.iter().map(|c| c.value));
        held.sort();
        assert_eq!(held, vec![1, 2, 3, 4, 5, 6]);
    }
    assert_eq!(player.cards.len(), 6);
    assert_eq!(opponent.cards.len(), 5);
}

#[test]
fn three_rounds_won_decide_the_match() {
    let mut m = started();
    let boards: [(&[i8], &[i8]); 5] = [
        (&[10, 10], &[10, 9]),
        (&[10, 5], &[8, 7]),
        (&[10, 8], &[10, 10, 2]),
        (&[10, 10, 5], &[10, 10, 1]),
        (&[9, 9, 2], &[9, 9, 1]),
    ];
    let winners = [Some(0), None, Some(0), None, Some(0)];
    let scores = [[1, 0], [1, 0], [2, 0], [2, 0], [3, 0]];
    for i in 0..5 {
        assert_eq!(m.check_win(), None);
        set_boards(&mut m, boards[i].0, boards[i].1);
        let winner = m.conclude_round(deck(&[1, 2, 3, 4, 5]), deck(&[5, 4, 3, 2, 1]));
        assert_eq!(winner, winners[i]);
        assert_eq!(m.score, scores[i]);
        assert_eq!(m.round, i + 2);
    }
    assert_eq!(m.check_win(), Some(0));
    assert_eq!(m.games.len(), 6);
}

#[test]
fn every_round_of_a_match_holds_all_its_cards() {
    let mut m = Match::new();
    for _ in 0..3 {
        m.new_game(deck(&[1, 2, 3, 4, 5, 6, 7]), deck(&[1, 2, 3, 4, 5]));
        let game = m.current_game();
        let count = game.deck.cards.len()
            + game.players[0].hand.cards.len()
            + game.players[0].deck.cards.len()
            + game.players[1].hand.cards.len()
            + game.players[1].deck.cards.len()
            + game.board[0].cards.len()
            + game.board[1].cards.len();
        assert_eq!(count, 40 + 7 + 5);
    }
}
