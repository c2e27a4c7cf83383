//! General properties of the merge-resolution engine: every candidate a
//! round returns is at most as long as the input snake, and a round over a
//! snake with no matches at the checked positions returns exactly the
//! unchanged snake.

use vstd::prelude::*;
use crate::card::Card;
use crate::card::cards_match;
use crate::engine::collapse;
use crate::engine::spec_merge;
use crate::engine::spec_play_round;
use crate::engine::spec_solve_at;
use crate::engine::spec_solve_merge;

verus! {

/// Every candidate a collapse at one offset reaches is strictly shorter
/// than the input snake: the collapse removes a card, and what cascades
/// from there can only remove more.
pub proof fn lemma_solve_at_len(s: Seq<Card>, index: int, offset: int)
    ensures
        forall|t: Seq<Card>| #[trigger]
            spec_solve_at(s, index, offset).contains(t) ==> t.len() < s.len(),
    decreases s.len(), 0int,
{
    if 0 < offset <= index && index < s.len() && cards_match(s[index], s[index - offset]) {
        let shorter = collapse(s, index, index - offset);
        lemma_play_round_len(shorter, index, index - offset);
        assert(shorter.len() == s.len() - 1);
        assert forall|t: Seq<Card>| #[trigger]
            spec_solve_at(s, index, offset).contains(t) implies t.len() < s.len() by {
            assert(spec_play_round(shorter, index, index - offset).contains(t));
        }
    }
}

/// Every candidate reached from one check position is strictly shorter than
/// the input snake.
pub proof fn lemma_solve_merge_len(s: Seq<Card>, index: int)
    ensures
        forall|t: Seq<Card>| #[trigger]
            spec_solve_merge(s, index).contains(t) ==> t.len() < s.len(),
    decreases s.len(), 1int,
{
    lemma_solve_at_len(s, index, 1);
    lemma_solve_at_len(s, index, 3);
    assert forall|t: Seq<Card>| #[trigger]
        spec_solve_merge(s, index).contains(t) implies t.len() < s.len() by {
        assert(spec_solve_at(s, index, 1).contains(t) || spec_solve_at(s, index, 3).contains(t));
    }
}

/// As `lemma_solve_merge_len`, for a check position that may lie outside
/// the snake.
pub proof fn lemma_merge_len(s: Seq<Card>, index: int)
    ensures
        forall|t: Seq<Card>| #[trigger] spec_merge(s, index).contains(t) ==> t.len() < s.len(),
    decreases s.len(), 2int,
{
    if 0 <= index < s.len() {
        lemma_solve_merge_len(s, index);
        assert forall|t: Seq<Card>| #[trigger]
            spec_merge(s, index).contains(t) implies t.len() < s.len() by {
            assert(spec_solve_merge(s, index).contains(t));
        }
    }
}

/// Length invariant: every candidate a resolution round returns has length
/// at most the length of the input snake; it is exactly the input length
/// less one per collapse applied along that candidate's path.
pub proof fn lemma_play_round_len(s: Seq<Card>, index: int, last_index: int)
    ensures
        forall|t: Seq<Card>| #[trigger]
            spec_play_round(s, index, last_index).contains(t) ==> t.len() <= s.len(),
    decreases s.len(), 3int,
{
    lemma_merge_len(s, last_index);
    lemma_merge_len(s, last_index + 1);
    lemma_merge_len(s, last_index + 2);
    lemma_merge_len(s, index + 1);
    lemma_merge_len(s, index);
    let found = (if last_index + 1 != index {
        spec_merge(s, last_index)
    } else {
        Set::<Seq<Card>>::empty()
    }) + spec_merge(s, last_index + 1) + spec_merge(s, last_index + 2) + spec_merge(s, index + 1)
        + spec_merge(s, index);
    assert forall|t: Seq<Card>| #[trigger]
        spec_play_round(s, index, last_index).contains(t) implies t.len() <= s.len() by {
        if found.is_empty() {
            assert(set![s].contains(t));
            assert(t == s);
        } else {
            assert(found.contains(t));
            assert(spec_merge(s, last_index).contains(t) || spec_merge(s, last_index + 1).contains(
                t,
            ) || spec_merge(s, last_index + 2).contains(t) || spec_merge(s, index + 1).contains(t)
                || spec_merge(s, index).contains(t));
        }
    }
}

/// No card one or three places back of the card at check position `i`
/// shares its suit or its rank; positions or offsets that fall outside the
/// snake are out of consideration.
pub open spec fn no_match_at(s: Seq<Card>, i: int) -> bool {
    &&& (1 <= i < s.len() ==> !cards_match(s[i], s[i - 1]))
    &&& (3 <= i < s.len() ==> !cards_match(s[i], s[i - 3]))
}

/// All five check positions of a round are clear of matches.
pub open spec fn checks_clear(s: Seq<Card>, index: int, last_index: int) -> bool {
    &&& (last_index + 1 != index ==> no_match_at(s, last_index))
    &&& no_match_at(s, last_index + 1)
    &&& no_match_at(s, last_index + 2)
    &&& no_match_at(s, index + 1)
    &&& no_match_at(s, index)
}

/// No-op correctness: when no checked position has a suit or rank match at
/// either offset, the round returns exactly one candidate, the unchanged
/// snake.
pub proof fn lemma_play_round_noop(s: Seq<Card>, index: int, last_index: int)
    requires
        checks_clear(s, index, last_index),
    ensures
        spec_play_round(s, index, last_index) == set![s],
{
    assert(spec_merge(s, last_index).is_empty() || last_index + 1 == index);
    assert(spec_merge(s, last_index + 1).is_empty());
    assert(spec_merge(s, last_index + 2).is_empty());
    assert(spec_merge(s, index + 1).is_empty());
    assert(spec_merge(s, index).is_empty());
    let found = (if last_index + 1 != index {
        spec_merge(s, last_index)
    } else {
        Set::<Seq<Card>>::empty()
    }) + spec_merge(s, last_index + 1) + spec_merge(s, last_index + 2) + spec_merge(s, index + 1)
        + spec_merge(s, index);
    assert(found =~= Set::<Seq<Card>>::empty());
    assert(spec_play_round(s, index, last_index) =~= set![s]);
}

} // verus!
