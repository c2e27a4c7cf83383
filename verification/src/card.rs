//! The card model: a suit and a rank. Two cards match when they share a suit
//! or share a rank; a match is what lets one card collapse onto another.

use vstd::prelude::*;

verus! {

/// One of the four French suits.
#[derive(Debug, Clone, Copy, PartialEq, Eq, Structural)]
pub enum Suit {
    Hearts,
    Diamonds,
    Clubs,
    Spades,
}

/// An immutable card value: a suit and a rank (`value`, 1 through 13 in a
/// standard deck).
#[derive(Debug, Clone, Copy, PartialEq, Eq, Structural)]
pub struct Card {
    pub suit: Suit,
    pub value: usize,
}

/// Two cards match when they share a suit or share a rank.
pub open spec fn cards_match(a: Card, b: Card) -> bool {
    a.suit == b.suit || a.value == b.value
}

} // verus!
