//! The game state and its turn step: a draw pile, the snake, and the list of
//! played cards, advanced one draw at a time through the merge-resolution
//! engine.

use vstd::prelude::*;
use crate::card::Card;
use crate::card::Suit;
use crate::deck::get_shuffled_deck;
use crate::deck::spec_ordered_deck;
use crate::engine::clone_snake;
use crate::engine::spec_play_round;

verus! {

/// One game in progress: the remaining draw pile, the snake built so far,
/// and the cards taken out of play.
pub struct Game {
    pub(crate) deck: Vec<Card>,
    pub(crate) snake: Vec<Card>,
    pub(crate) played: Vec<Card>,
}

/// The decision-maker: picks one candidate snake when a merge leaves more
/// than one, and keeps a running win-loss tally across games.
pub struct Player {
    pub wins: usize,
    pub losses: usize,
}

impl Game {
    /// The remaining draw pile, newest draw at the end.
    pub closed spec fn deck_view(&self) -> Seq<Card> {
        self.deck@
    }

    /// The snake built so far.
    pub closed spec fn snake_view(&self) -> Seq<Card> {
        self.snake@
    }

    /// The cards taken out of play.
    pub closed spec fn played_view(&self) -> Seq<Card> {
        self.played@
    }

    /// Starts a fresh game: a shuffled 52-card draw pile, an empty snake and
    /// an empty played list.
    pub fn new() -> (game: Game)
        ensures
            game.deck_view().len() == 52,
            game.deck_view().to_multiset() == spec_ordered_deck().to_multiset(),
            game.snake_view() == Seq::<Card>::empty(),
            game.played_view() == Seq::<Card>::empty(),
    {
        Game { deck: get_shuffled_deck(), snake: Vec::with_capacity(52), played: Vec::with_capacity(52) }
    }

    /// Starts a game from a given draw pile, with an empty snake and an empty
    /// played list; cards are drawn from the end of the pile.
    pub fn from_deck(deck: Vec<Card>) -> (game: Game)
        ensures
            game.deck_view() == deck@,
            game.snake_view() == Seq::<Card>::empty(),
            game.played_view() == Seq::<Card>::empty(),
    {
        Game { deck, snake: Vec::new(), played: Vec::new() }
    }

    /// How many cards are still in the draw pile.
    pub fn cards_left(&self) -> (n: usize)
        ensures
            n == self.deck_view().len(),
    {
        self.deck.len()
    }

    /// The current snake.
    pub fn snake(&self) -> (snake: &Vec<Card>)
        ensures
            snake@ == self.snake_view(),
    {
        &self.snake
    }

    /// Plays one turn: draws the top card of the pile, appends it to the
    /// snake, and resolves merges with both the anchor and the reference at
    /// the new card. When more than one candidate snake results, the player
    /// chooses; the chosen candidate becomes the new snake. The played list
    /// is handed to the player and otherwise left as it is.
    pub fn play_step(&mut self, player: &Player)
        requires
            old(self).deck_view().len() > 0,
            old(self).snake_view().len() + 3 <= usize::MAX,
        ensures
            final(self).deck_view() == old(self).deck_view().drop_last(),
            final(self).played_view() == old(self).played_view(),
            spec_play_round(
                old(self).snake_view().push(old(self).deck_view().last()),
                old(self).snake_view().len() as int,
                old(self).snake_view().len() as int,
            ).contains(final(self).snake_view()),
            final(self).snake_view().len() <= old(self).snake_view().len() + 1,
    {
        let drawn = self.deck.pop().unwrap();
        self.snake.push(drawn);
        let index: usize = self.snake.len() - 1;
        let mut moves = Self::play_round(&self.snake, index, index);
        let choice: usize = if moves.len() == 1 {
            0
        } else {
            player.take_turn(&moves, clone_snake(&self.played))
        };
        proof {
            assert(crate::engine::snakes_view(moves@).to_set().contains(
                crate::engine::snakes_view(moves@)[choice as int],
            ));
            crate::laws::lemma_play_round_len(self.snake@, index as int, index as int);
        }
        let chosen = moves.remove(choice);
        self.snake = chosen;
    }

    /// The two-character rank label shown on a card face: `A` for 1, the
    /// digits for 2 through 10, then `J`, `D` and `K` for the court cards,
    /// padded to two characters.
    pub fn get_value_string(value: usize) -> (label: String)
        requires
            1 <= value <= 13,
        ensures
            label@ == spec_value_string(value as int),
    {
        let label: &str = match value {
            1 => " A",
            2 => " 2",
            3 => " 3",
            4 => " 4",
            5 => " 5",
            6 => " 6",
            7 => " 7",
            8 => " 8",
            9 => " 9",
            10 => "10",
            11 => " J",
            12 => " D",
            _ => " K",
        };
        label.to_owned()
    }

    /// The glyph shown for a suit.
    pub fn get_suit_char(suit: Suit) -> (glyph: char)
        ensures
            glyph == spec_suit_char(suit),
    {
        match suit {
            Suit::Hearts => '\u{2665}',
            Suit::Diamonds => '\u{2666}',
            Suit::Clubs => '\u{2663}',
            Suit::Spades => '\u{2660}',
        }
    }
}

/// The rank label of each rank, as `get_value_string` renders it.
pub open spec fn spec_value_string(value: int) -> Seq<char> {
    if value == 1 {
        " A"@
    } else if value == 2 {
        " 2"@
    } else if value == 3 {
        " 3"@
    } else if value == 4 {
        " 4"@
    } else if value == 5 {
        " 5"@
    } else if value == 6 {
        " 6"@
    } else if value == 7 {
        " 7"@
    } else if value == 8 {
        " 8"@
    } else if value == 9 {
        " 9"@
    } else if value == 10 {
        "10"@
    } else if value == 11 {
        " J"@
    } else if value == 12 {
        " D"@
    } else if value == 13 {
        " K"@
    } else {
        Seq::empty()
    }
}

/// The suit glyph of each suit, as `get_suit_char` renders it.
pub open spec fn spec_suit_char(suit: Suit) -> char {
    match suit {
        Suit::Hearts => '\u{2665}',
        Suit::Diamonds => '\u{2666}',
        Suit::Clubs => '\u{2663}',
        Suit::Spades => '\u{2660}',
    }
}

impl Player {
    /// The decision-maker's one operation: given the candidate snakes and the
    /// played list, return the index of the chosen candidate. This player
    /// always keeps the first candidate.
    pub fn take_turn(&self, snakes: &Vec<Vec<Card>>, played: Vec<Card>) -> (choice: usize)
        requires
            snakes@.len() > 0,
        ensures
            choice == 0,
            choice < snakes@.len(),
    {
        0
    }
}

} // verus!
