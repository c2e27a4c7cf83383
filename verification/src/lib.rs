//! A solitaire-style card game ("the snake"): cards are drawn one at a time
//! from a shuffled deck and appended to a growing ordered sequence. After each
//! draw, a merge-resolution engine looks for cards that share a suit or a rank
//! at fixed offsets and collapses matching pairs, cascading recursively and
//! enumerating every reachable resulting sequence.

pub mod card;
pub mod deck;
pub mod engine;
pub mod game;
pub mod laws;

pub use card::Card;
pub use card::Suit;
pub use deck::get_deck;
pub use deck::get_shuffled_deck;
pub use game::Game;
pub use game::Player;
