//! The merge-resolution engine. After a card is appended to the snake, up to
//! five positions around the new card and the previous collapse are checked;
//! at each checked position a card one or three places back that shares a
//! suit or a rank lets the nearer pair collapse, the farther card absorbing
//! the nearer one. Collapses cascade recursively, and when more than one
//! collapse applies the engine enumerates every reachable resulting snake.

use vstd::prelude::*;
use vstd::assert_by_contradiction;
use vstd::pervasive::VecAdditionalExecFns;
use crate::card::Card;
use crate::card::cards_match;
use crate::game::Game;

verus! {

/// The sequences held by a list of snakes.
pub open spec fn snakes_view(v: Seq<Vec<Card>>) -> Seq<Seq<Card>> {
    Seq::new(v.len(), |i: int| v[i]@)
}

/// No two snakes in the list are equal.
pub open spec fn distinct_snakes(s: Seq<Seq<Card>>) -> bool {
    forall|i: int, j: int| 0 <= i < j < s.len() ==> s[i] != s[j]
}

/// One collapse: the card at `index` slides back onto the matching card at
/// `target`, overwriting it, and the slot at `index` closes up, so the snake
/// gets one card shorter.
pub open spec fn collapse(s: Seq<Card>, index: int, target: int) -> Seq<Card>
    recommends
        0 <= target < index < s.len(),
{
    s.update(target, s[index]).remove(index)
}

/// The candidate snakes reached by collapsing the card at `index` onto the
/// card `offset` places back, when that card exists and matches; the empty
/// set when it does not.
pub open spec fn spec_solve_at(s: Seq<Card>, index: int, offset: int) -> Set<Seq<Card>>
    decreases s.len(), 0int,
{
    if 0 < offset <= index && index < s.len() && cards_match(s[index], s[index - offset]) {
        spec_play_round(collapse(s, index, index - offset), index, index - offset)
    } else {
        Set::empty()
    }
}

/// The candidate snakes reached by collapsing the card at `index` onto a
/// match one place back or three places back; both branches count.
pub open spec fn spec_solve_merge(s: Seq<Card>, index: int) -> Set<Seq<Card>>
    decreases s.len(), 1int,
{
    spec_solve_at(s, index, 1) + spec_solve_at(s, index, 3)
}

/// As `spec_solve_merge`, for a check position that may lie outside the
/// snake: an invalid position contributes nothing.
pub open spec fn spec_merge(s: Seq<Card>, index: int) -> Set<Seq<Card>>
    decreases s.len(), 2int,
{
    if 0 <= index < s.len() {
        spec_solve_merge(s, index)
    } else {
        Set::empty()
    }
}

/// The full resolution round: check the reference position (unless reference
/// and anchor are already adjacent), the two positions after it, the position
/// after the anchor, and the anchor itself; collect every candidate those
/// checks reach. When no check finds a collapse, the snake itself is the one
/// candidate.
pub open spec fn spec_play_round(s: Seq<Card>, index: int, last_index: int) -> Set<Seq<Card>>
    decreases s.len(), 3int,
{
    let found = (if last_index + 1 != index {
        spec_merge(s, last_index)
    } else {
        Set::empty()
    }) + spec_merge(s, last_index + 1) + spec_merge(s, last_index + 2) + spec_merge(s, index + 1)
        + spec_merge(s, index);
    if found.is_empty() {
        set![s]
    } else {
        found
    }
}

/// Copies a snake card by card.
pub(crate) fn clone_snake(s: &Vec<Card>) -> (r: Vec<Card>)
    ensures
        r@ == s@,
{
    let mut r: Vec<Card> = Vec::with_capacity(s.len());
    for k in 0..s.len()
        invariant
            r@.len() == k,
            forall|t: int| 0 <= t < k ==> r@[t] == s@[t],
    {
        r.push(s[k]);
    }
    proof {
        assert(r@ =~= s@);
    }
    r
}

/// Compares two snakes card by card.
fn snake_eq(a: &Vec<Card>, b: &Vec<Card>) -> (r: bool)
    ensures
        r == (a@ == b@),
{
    if a.len() != b.len() {
        return false;
    }
    for k in 0..a.len()
        invariant
            a@.len() == b@.len(),
            forall|t: int| 0 <= t < k ==> a@[t] == b@[t],
    {
        if a[k] != b[k] {
            return false;
        }
    }
    proof {
        assert(a@ =~= b@);
    }
    true
}

/// Whether the list already holds a snake with exactly these cards.
fn contains_snake(list: &Vec<Vec<Card>>, s: &Vec<Card>) -> (r: bool)
    ensures
        r == snakes_view(list@).contains(s@),
{
    let n: usize = list.len();
    for k in 0..n
        invariant
            n == list@.len(),
            forall|t: int| 0 <= t < k ==> snakes_view(list@)[t] != s@,
    {
        if snake_eq(&list[k], s) {
            proof {
                assert(snakes_view(list@)[k as int] == s@);
            }
            return true;
        }
    }
    proof {
        assert_by_contradiction!(!snakes_view(list@).contains(s@), {
            let t = choose|t: int|
                0 <= t < snakes_view(list@).len() && snakes_view(list@)[t] == s@;
            assert(snakes_view(list@)[t] != s@);
        });
    }
    false
}

/// Adds a snake to the list unless an equal one is already there, so the
/// list keeps exactly one copy of each candidate.
fn push_unique(list: &mut Vec<Vec<Card>>, s: Vec<Card>)
    requires
        distinct_snakes(snakes_view(old(list)@)),
    ensures
        snakes_view(final(list)@).to_set() == snakes_view(old(list)@).to_set().insert(s@),
        distinct_snakes(snakes_view(final(list)@)),
        final(list)@.len() >= old(list)@.len(),
{
    let present = contains_snake(list, &s);
    if !present {
        list.push(s);
        proof {
            assert(snakes_view(list@) =~= snakes_view(old(list)@).push(s@));
            snakes_view(old(list)@).lemma_push_to_set_commute(s@);
            assert forall|i: int, j: int|
                0 <= i < j < snakes_view(list@).len() implies snakes_view(list@)[i]
                != snakes_view(list@)[j] by {
                if j == snakes_view(list@).len() - 1 {
                    assert(snakes_view(old(list)@)[i] != s@);
                }
            }
        }
    } else {
        proof {
            assert(snakes_view(list@).to_set() =~= snakes_view(list@).to_set().insert(s@));
        }
    }
}

/// Adds every snake of `src` to `dst`, skipping those already present.
fn append_unique(dst: &mut Vec<Vec<Card>>, src: &Vec<Vec<Card>>)
    requires
        distinct_snakes(snakes_view(old(dst)@)),
    ensures
        snakes_view(final(dst)@).to_set() == snakes_view(old(dst)@).to_set() + snakes_view(
            src@,
        ).to_set(),
        distinct_snakes(snakes_view(final(dst)@)),
        final(dst)@.len() >= old(dst)@.len(),
{
    let n: usize = src.len();
    for k in 0..n
        invariant
            n == src@.len(),
            dst@.len() >= old(dst)@.len(),
            distinct_snakes(snakes_view(dst@)),
            snakes_view(dst@).to_set() == snakes_view(old(dst)@).to_set() + snakes_view(
                src@,
            ).take(k as int).to_set(),
    {
        let item = clone_snake(&src[k]);
        push_unique(dst, item);
        proof {
            assert(snakes_view(src@).take(k + 1) =~= snakes_view(src@).take(k as int).push(
                snakes_view(src@)[k as int],
            ));
            snakes_view(src@).take(k as int).lemma_push_to_set_commute(snakes_view(src@)[k as int]);
            assert(snakes_view(dst@).to_set() =~= snakes_view(old(dst)@).to_set() + snakes_view(
                src@,
            ).take(k + 1).to_set());
        }
    }
    proof {
        assert(snakes_view(src@).take(n as int) =~= snakes_view(src@));
    }
}

impl Game {
    /// Checks the card at `index` against the card `offset` places back: on
    /// a suit or rank match the pair collapses and the cascade continues
    /// from the collapsed position; `None` when there is no such card or no
    /// match.
    pub fn solve_at(snake: &Vec<Card>, index: usize, offset: usize) -> (r: Option<Vec<Vec<Card>>>)
        requires
            offset == 1 || offset == 3,
            index < snake@.len(),
            snake@.len() + 2 <= usize::MAX,
        ensures
            r.is_some() <==> !spec_solve_at(snake@, index as int, offset as int).is_empty(),
            (match r {
                Some(v) => snakes_view(v@).to_set() == spec_solve_at(
                    snake@,
                    index as int,
                    offset as int,
                ) && distinct_snakes(snakes_view(v@)) && v@.len() >= 1,
                None => true,
            }),
        decreases snake@.len(), 0int,
    {
        if index > offset - 1 {
            if snake[index].suit == snake[index - offset].suit || snake[index].value == snake[
                index - offset].value {
                let mut shorter = clone_snake(snake);
                let absorbed = shorter[index];
                shorter.set(index - offset, absorbed);
                shorter.remove(index);
                proof {
                    assert(shorter@ == collapse(snake@, index as int, index - offset));
                }
                let cascade = Self::play_round(&shorter, index, index - offset);
                proof {
                    assert(snakes_view(cascade@).to_set().contains(snakes_view(cascade@)[0]));
                }
                return Some(cascade);
            }
        }
        proof {
            assert(spec_solve_at(snake@, index as int, offset as int).is_empty());
        }
        None
    }

    /// Checks both offsets, one place back and three places back, at one
    /// position; when both match, the candidates of both branches are
    /// accumulated together.
    pub fn solve_merge(snake: &Vec<Card>, index: usize) -> (r: Option<Vec<Vec<Card>>>)
        requires
            index < snake@.len(),
            snake@.len() + 2 <= usize::MAX,
        ensures
            r.is_some() <==> !spec_solve_merge(snake@, index as int).is_empty(),
            (match r {
                Some(v) => snakes_view(v@).to_set() == spec_solve_merge(snake@, index as int)
                    && distinct_snakes(snakes_view(v@)) && v@.len() >= 1,
                None => true,
            }),
        decreases snake@.len(), 1int,
    {
        let snake1 = Self::solve_at(snake, index, 1);
        let snake3 = Self::solve_at(snake, index, 3);

        if snake1.is_some() && snake3.is_some() {
            let mut both = snake1.unwrap();
            let other = snake3.unwrap();
            append_unique(&mut both, &other);
            proof {
                assert(snakes_view(both@).to_set().contains(snakes_view(both@)[0]));
            }
            return Some(both);
        } else if snake1.is_some() {
            proof {
                assert(spec_solve_merge(snake@, index as int) =~= spec_solve_at(
                    snake@,
                    index as int,
                    1,
                ));
            }
            return snake1;
        } else if snake3.is_some() {
            proof {
                assert(spec_solve_merge(snake@, index as int) =~= spec_solve_at(
                    snake@,
                    index as int,
                    3,
                ));
            }
            return snake3;
        }
        proof {
            assert(spec_solve_merge(snake@, index as int).is_empty());
        }
        None
    }

    /// Checks one position if it lies inside the snake and adds every
    /// candidate it reaches to `new_snakes`, keeping the list free of
    /// duplicates.
    pub fn merge(snake: &Vec<Card>, index: usize, new_snakes: &mut Vec<Vec<Card>>)
        requires
            snake@.len() + 2 <= usize::MAX,
            distinct_snakes(snakes_view(old(new_snakes)@)),
        ensures
            snakes_view(final(new_snakes)@).to_set() == snakes_view(old(new_snakes)@).to_set()
                + spec_merge(snake@, index as int),
            distinct_snakes(snakes_view(final(new_snakes)@)),
            final(new_snakes)@.len() >= old(new_snakes)@.len(),
        decreases snake@.len(), 2int,
    {
        if index < snake.len() {
            let result = Self::solve_merge(snake, index);
            if result.is_some() {
                let found = result.unwrap();
                append_unique(new_snakes, &found);
            } else {
                proof {
                    assert(snakes_view(new_snakes@).to_set() =~= snakes_view(new_snakes@).to_set()
                        + spec_merge(snake@, index as int));
                }
            }
        } else {
            proof {
                assert(snakes_view(new_snakes@).to_set() =~= snakes_view(new_snakes@).to_set()
                    + spec_merge(snake@, index as int));
            }
        }
    }

    /// One full resolution round over the snake: checks the reference
    /// position (unless reference and anchor are already adjacent), the two
    /// positions after it, the position after the anchor, and the anchor
    /// itself, and returns every candidate snake those checks reach, without
    /// duplicates. When no check finds a collapse, the snake itself comes
    /// back as the one candidate.
    pub fn play_round(snake: &Vec<Card>, index: usize, last_index: usize) -> (r: Vec<Vec<Card>>)
        requires
            index <= usize::MAX - 1,
            last_index <= usize::MAX - 2,
            snake@.len() + 2 <= usize::MAX,
        ensures
            snakes_view(r@).to_set() == spec_play_round(snake@, index as int, last_index as int),
            distinct_snakes(snakes_view(r@)),
            r@.len() >= 1,
        decreases snake@.len(), 3int,
    {
        let mut new_snakes: Vec<Vec<Card>> = Vec::new();

        if last_index + 1 != index {
            Self::merge(snake, last_index, &mut new_snakes);
        }
        Self::merge(snake, last_index + 1, &mut new_snakes);
        Self::merge(snake, last_index + 2, &mut new_snakes);
        Self::merge(snake, index + 1, &mut new_snakes);
        Self::merge(snake, index, &mut new_snakes);

        let ghost found = (if last_index as int + 1 != index as int {
            spec_merge(snake@, last_index as int)
        } else {
            Set::<Seq<Card>>::empty()
        }) + spec_merge(snake@, last_index as int + 1) + spec_merge(snake@, last_index as int + 2)
            + spec_merge(snake@, index as int + 1) + spec_merge(snake@, index as int);
        proof {
            assert(snakes_view(new_snakes@).to_set() =~= found);
        }

        if new_snakes.len() == 0 {
            let mut unchanged: Vec<Vec<Card>> = Vec::new();
            unchanged.push(clone_snake(snake));
            proof {
                assert(found.is_empty());
                assert(snakes_view(unchanged@).len() == 1);
                assert(snakes_view(unchanged@)[0] == snake@);
                assert forall|x: Seq<Card>| snakes_view(unchanged@).to_set().contains(x)
                    implies x == snake@ by {
                    let t = choose|t: int|
                        0 <= t < snakes_view(unchanged@).len() && snakes_view(unchanged@)[t] == x;
                    assert(t == 0);
                }
                assert(snakes_view(unchanged@).to_set().contains(snake@));
                assert(snakes_view(unchanged@).to_set() =~= set![snake@]);
            }
            return unchanged;
        }
        proof {
            assert(snakes_view(new_snakes@).to_set().contains(snakes_view(new_snakes@)[0]));
            assert(!found.is_empty());
        }
        new_snakes
    }
}

} // verus!
