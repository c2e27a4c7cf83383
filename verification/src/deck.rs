//! Deck construction: the 52-card ordered deck, suit-major with ranks 1
//! through 13 ascending, and a randomly permuted copy of it.

use vstd::prelude::*;
use crate::card::Card;
use crate::card::Suit;

verus! {

/// The suit of the `k`-th block of thirteen cards in the ordered deck.
pub open spec fn suit_of_index(k: int) -> Suit {
    if k == 0 {
        Suit::Hearts
    } else if k == 1 {
        Suit::Diamonds
    } else if k == 2 {
        Suit::Clubs
    } else {
        Suit::Spades
    }
}

/// The card at position `i` of the ordered deck: suits change every thirteen
/// cards, ranks run 1 through 13 inside each block.
pub open spec fn deck_card(i: int) -> Card {
    Card { suit: suit_of_index(i / 13), value: (i % 13 + 1) as usize }
}

/// The full ordered deck: 52 cards, suit-major, ranks ascending.
pub open spec fn spec_ordered_deck() -> Seq<Card> {
    Seq::new(52, |i: int| deck_card(i))
}

/// Builds the ordered deck: hearts, diamonds, clubs, spades, each suit with
/// ranks 1 through 13 in ascending order.
pub fn get_deck() -> (deck: Vec<Card>)
    ensures
        deck@ == spec_ordered_deck(),
{
    let mut deck: Vec<Card> = Vec::with_capacity(52);
    for suit_id in 0..4usize
        invariant
            deck@.len() == suit_id * 13,
            forall|k: int| 0 <= k < deck@.len() ==> deck@[k] == deck_card(k),
    {
        let suit: Suit = match suit_id {
            0 => Suit::Hearts,
            1 => Suit::Diamonds,
            2 => Suit::Clubs,
            _ => Suit::Spades,
        };
        for value in 1..14usize
            invariant
                suit_id < 4,
                1 <= value <= 14,
                suit == suit_of_index(suit_id as int),
                deck@.len() == suit_id * 13 + value - 1,
                forall|k: int| 0 <= k < deck@.len() ==> deck@[k] == deck_card(k),
        {
            let n: usize = deck.len();
            deck.push(Card { suit: suit, value: value });
            proof {
                vstd::arithmetic::div_mod::lemma_fundamental_div_mod_converse(
                    n as int,
                    13,
                    suit_id as int,
                    value - 1,
                );
            }
        }
    }
    proof {
        assert(deck@ =~= spec_ordered_deck());
    }
    deck
}

/// Relies on rand's `SliceRandom::shuffle` (a Fisher-Yates shuffle over the
/// whole slice): it permutes the elements in place, so exactly the same cards
/// remain, in some order.
#[verifier::external_body]
fn shuffle_deck(deck: &mut Vec<Card>)
    ensures
        final(deck)@.len() == old(deck)@.len(),
        final(deck)@.to_multiset() == old(deck)@.to_multiset(),
{
    let mut rng = rand::thread_rng();
    rand::seq::SliceRandom::shuffle(deck.as_mut_slice(), &mut rng);
}

/// Builds the ordered deck and returns a random permutation of it: the same
/// 52 cards in some shuffled order.
pub fn get_shuffled_deck() -> (deck: Vec<Card>)
    ensures
        deck@.len() == 52,
        deck@.to_multiset() == spec_ordered_deck().to_multiset(),
{
    let mut deck: Vec<Card> = get_deck();
    shuffle_deck(&mut deck);
    deck
}

/// Deck integrity: the ordered deck has exactly 52 cards, no card appears
/// twice, every rank lies in 1 through 13, and every suit-rank combination is
/// present. Since there are exactly 52 such combinations, each suit
/// contributes exactly its 13 ranks.
pub proof fn lemma_deck_integrity()
    ensures
        spec_ordered_deck().len() == 52,
        spec_ordered_deck().no_duplicates(),
        forall|k: int| 0 <= k < 52 ==> 1 <= (#[trigger] spec_ordered_deck()[k]).value <= 13,
        forall|c: Card|
            1 <= c.value <= 13 ==> #[trigger] spec_ordered_deck().contains(c),
{
    assert forall|k: int| 0 <= k < 52 implies 1 <= (#[trigger] spec_ordered_deck()[k]).value
        <= 13 by {
        vstd::arithmetic::div_mod::lemma_mod_pos_bound(k, 13);
    }
    assert forall|i: int, j: int|
        0 <= i < 52 && 0 <= j < 52 && i != j implies spec_ordered_deck()[i]
        != spec_ordered_deck()[j] by {
        vstd::arithmetic::div_mod::lemma_fundamental_div_mod(i, 13);
        vstd::arithmetic::div_mod::lemma_fundamental_div_mod(j, 13);
        vstd::arithmetic::div_mod::lemma_mod_pos_bound(i, 13);
        vstd::arithmetic::div_mod::lemma_mod_pos_bound(j, 13);
    }
    assert forall|c: Card| 1 <= c.value <= 13 implies #[trigger] spec_ordered_deck().contains(
        c,
    ) by {
        let s: int = if c.suit == Suit::Hearts {
            0
        } else if c.suit == Suit::Diamonds {
            1
        } else if c.suit == Suit::Clubs {
            2
        } else {
            3
        };
        let k: int = s * 13 + c.value - 1;
        vstd::arithmetic::div_mod::lemma_fundamental_div_mod_converse(k, 13, s, c.value - 1);
        assert(spec_ordered_deck()[k] == c);
    }
}

} // verus!
