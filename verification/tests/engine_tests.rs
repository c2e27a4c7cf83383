use ormen::Card;
use ormen::Game;
use ormen::Suit;

fn card(suit: Suit, value: usize) -> Card {
    Card { suit, value }
}

#[test]
fn single_collapse_on_rank_match() {
    // Hearts-7 then diamonds-7: the ranks match one place back, so the new
    // card slides onto the old one and a single one-card candidate remains.
    let snake = vec![card(Suit::Hearts, 7), card(Suit::Diamonds, 7)];
    let moves = Game::play_round(&snake, 1, 1);
    assert_eq!(moves.len(), 1);
    assert_eq!(moves[0], vec![card(Suit::Diamonds, 7)]);
}

#[test]
fn no_match_returns_the_snake_unchanged() {
    let snake = vec![card(Suit::Hearts, 7), card(Suit::Diamonds, 9)];
    let moves = Game::play_round(&snake, 1, 1);
    assert_eq!(moves.len(), 1);
    assert_eq!(moves[0], snake);
}

#[test]
fn lone_card_has_nothing_to_merge() {
    let snake = vec![card(Suit::Hearts, 7)];
    let moves = Game::play_round(&snake, 0, 0);
    assert_eq!(moves.len(), 1);
    assert_eq!(moves[0], snake);
}

#[test]
fn distance_three_match_cascades() {
    // The two clubs-5 sit three apart; the far one absorbs the near one,
    // and the cascade then merges the two hearts as well.
    let snake = vec![
        card(Suit::Clubs, 5),
        card(Suit::Hearts, 2),
        card(Suit::Hearts, 9),
        card(Suit::Clubs, 5),
    ];
    let moves = Game::play_round(&snake, 3, 3);
    assert_eq!(moves.len(), 1);
    assert_eq!(moves[0], vec![card(Suit::Clubs, 5), card(Suit::Hearts, 9)]);
}

#[test]
fn branching_collapses_give_both_terminals() {
    // The last card matches both one place back (suit) and three places
    // back (rank); the offset-one branch ends at once, the offset-three
    // branch cascades once more, and both terminals must be enumerated.
    let snake = vec![
        card(Suit::Diamonds, 5),
        card(Suit::Hearts, 2),
        card(Suit::Diamonds, 5),
        card(Suit::Hearts, 5),
    ];
    let moves = Game::play_round(&snake, 3, 3);
    assert_eq!(moves.len(), 2);
    assert!(moves.contains(&vec![
        card(Suit::Diamonds, 5),
        card(Suit::Hearts, 2),
        card(Suit::Hearts, 5),
    ]));
    assert!(moves.contains(&vec![card(Suit::Hearts, 2), card(Suit::Diamonds, 5)]));
}

#[test]
fn candidates_are_never_duplicated() {
    // With anchor equal to reference the anchor position is checked twice;
    // the resulting candidate must still appear only once.
    let snake = vec![card(Suit::Hearts, 7), card(Suit::Diamonds, 7)];
    let moves = Game::play_round(&snake, 1, 1);
    assert_eq!(moves.len(), 1);
}

#[test]
fn solve_at_finds_offset_one_match() {
    let snake = vec![card(Suit::Hearts, 7), card(Suit::Diamonds, 7)];
    let moves = Game::solve_at(&snake, 1, 1).expect("a rank match one place back");
    assert_eq!(moves, vec![vec![card(Suit::Diamonds, 7)]]);
}

#[test]
fn solve_at_rejects_offset_past_the_start() {
    let snake = vec![card(Suit::Hearts, 7), card(Suit::Diamonds, 7)];
    assert!(Game::solve_at(&snake, 1, 3).is_none());
}

#[test]
fn solve_merge_combines_both_offsets() {
    let snake = vec![
        card(Suit::Diamonds, 5),
        card(Suit::Hearts, 2),
        card(Suit::Diamonds, 5),
        card(Suit::Hearts, 5),
    ];
    let moves = Game::solve_merge(&snake, 3).expect("matches at both offsets");
    assert_eq!(moves.len(), 2);
}

#[test]
fn merge_outside_the_snake_adds_nothing() {
    let snake = vec![card(Suit::Hearts, 7), card(Suit::Diamonds, 7)];
    let mut found: Vec<Vec<Card>> = Vec::new();
    Game::merge(&snake, 5, &mut found);
    assert!(found.is_empty());
}

#[test]
fn every_candidate_is_at_most_the_input_length() {
    // A snake thick with matches: whatever the engine enumerates, no
    // candidate may come out longer than what went in.
    let snake = vec![
        card(Suit::Hearts, 5),
        card(Suit::Hearts, 2),
        card(Suit::Clubs, 2),
        card(Suit::Clubs, 5),
        card(Suit::Hearts, 5),
    ];
    let moves = Game::play_round(&snake, 4, 4);
    assert!(!moves.is_empty());
    for m in &moves {
        assert!(m.len() <= snake.len());
    }
}
