use ormen::Card;
use ormen::Game;
use ormen::Player;
use ormen::Suit;

fn card(suit: Suit, value: usize) -> Card {
    Card { suit, value }
}

#[test]
fn new_game_has_a_full_pile_and_an_empty_snake() {
    let game = Game::new();
    assert_eq!(game.cards_left(), 52);
    assert!(game.snake().is_empty());
}

#[test]
fn player_always_picks_the_first_candidate() {
    let player = Player { wins: 0, losses: 0 };
    let candidates = vec![vec![card(Suit::Hearts, 1)], vec![card(Suit::Spades, 1)]];
    assert_eq!(player.take_turn(&candidates, Vec::new()), 0);
}

#[test]
fn branching_round_is_routed_through_the_player() {
    // Drawing diamonds-5, hearts-2, diamonds-5, hearts-5 in that order ends
    // in a round with two candidate snakes; the player picks the first, the
    // offset-one branch.
    let pile = vec![
        card(Suit::Hearts, 5),
        card(Suit::Diamonds, 5),
        card(Suit::Hearts, 2),
        card(Suit::Diamonds, 5),
    ];
    let mut game = Game::from_deck(pile);
    let player = Player { wins: 0, losses: 0 };
    while game.cards_left() > 0 {
        game.play_step(&player);
    }
    assert_eq!(
        game.snake(),
        &vec![card(Suit::Diamonds, 5), card(Suit::Hearts, 2), card(Suit::Hearts, 5)]
    );
}

#[test]
fn steps_without_matches_only_append() {
    let pile = vec![
        card(Suit::Clubs, 9),
        card(Suit::Diamonds, 4),
        card(Suit::Hearts, 7),
    ];
    let mut game = Game::from_deck(pile);
    let player = Player { wins: 0, losses: 0 };
    while game.cards_left() > 0 {
        game.play_step(&player);
    }
    assert_eq!(
        game.snake(),
        &vec![card(Suit::Hearts, 7), card(Suit::Diamonds, 4), card(Suit::Clubs, 9)]
    );
}

#[test]
fn a_full_random_game_runs_to_the_end() {
    let mut game = Game::new();
    let player = Player { wins: 0, losses: 0 };
    while game.cards_left() > 0 {
        game.play_step(&player);
    }
    assert!(game.snake().len() >= 1);
    assert!(game.snake().len() <= 52);
}

#[test]
fn rank_labels_match_the_card_faces() {
    assert_eq!(Game::get_value_string(1), " A");
    assert_eq!(Game::get_value_string(2), " 2");
    assert_eq!(Game::get_value_string(9), " 9");
    assert_eq!(Game::get_value_string(10), "10");
    assert_eq!(Game::get_value_string(11), " J");
    assert_eq!(Game::get_value_string(12), " D");
    assert_eq!(Game::get_value_string(13), " K");
}

#[test]
fn suit_glyphs_match_the_suits() {
    assert_eq!(Game::get_suit_char(Suit::Hearts), '\u{2665}');
    assert_eq!(Game::get_suit_char(Suit::Diamonds), '\u{2666}');
    assert_eq!(Game::get_suit_char(Suit::Clubs), '\u{2663}');
    assert_eq!(Game::get_suit_char(Suit::Spades), '\u{2660}');
}
