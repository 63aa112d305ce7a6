//! The player's snake: an ordered chain of occupied cells (head first) with a
//! mirrored occupancy count per cell, a facing direction, and the direction of
//! the most recently committed move.

use std::collections::HashMap;
use std::collections::VecDeque;

use vstd::prelude::*;
use vstd::arithmetic::div_mod::lemma_fundamental_div_mod_converse;

use crate::direction::Direction;
use crate::vector2::{fits_i32, shifted, vec_of, Vector2};

verus! {

/// Packs a cell's two coordinates into one 64-bit occupancy-map key.
pub closed spec fn cell_key(p: Vector2) -> u64 {
    (((p.x as u32) as u64) * 0x1_0000_0000u64 + ((p.y as u32) as u64)) as u64
}

/// Distinct cells pack to distinct keys.
pub proof fn lemma_cell_key_injective(p: Vector2, q: Vector2)
    requires
        cell_key(p) == cell_key(q),
    ensures
        p == q,
{
    let pa = (p.x as u32) as u64;
    let pb = (p.y as u32) as u64;
    let qa = (q.x as u32) as u64;
    let qb = (q.y as u32) as u64;
    let k = pa * 0x1_0000_0000 + pb;
    lemma_fundamental_div_mod_converse(k as int, 0x1_0000_0000, pa as int, pb as int);
    lemma_fundamental_div_mod_converse(k as int, 0x1_0000_0000, qa as int, qb as int);
    let px = p.x;
    let qx = q.x;
    let py = p.y;
    let qy = q.y;
    assert((px as u32) == (qx as u32) ==> px == qx) by (bit_vector);
    assert((py as u32) == (qy as u32) ==> py == qy) by (bit_vector);
}

/// How many times `p` occurs in `s`.
pub open spec fn count_occurrences(s: Seq<Vector2>, p: Vector2) -> nat
    decreases s.len(),
{
    if s.len() == 0 {
        0
    } else {
        (if s.first() == p {
            1nat
        } else {
            0nat
        }) + count_occurrences(s.drop_first(), p)
    }
}

/// A cell occurs no more often than the sequence is long.
pub proof fn lemma_count_occurrences_le_len(s: Seq<Vector2>, p: Vector2)
    ensures
        count_occurrences(s, p) <= s.len(),
    decreases s.len(),
{
    if s.len() > 0 {
        lemma_count_occurrences_le_len(s.drop_first(), p);
    }
}

/// Splitting off the last element splits the occurrence count.
pub proof fn lemma_count_occurrences_drop_last(s: Seq<Vector2>, p: Vector2)
    requires
        s.len() > 0,
    ensures
        count_occurrences(s, p) == count_occurrences(s.drop_last(), p) + (if s.last() == p {
            1nat
        } else {
            0nat
        }),
    decreases s.len(),
{
    if s.len() == 1 {
        assert(s.drop_last() =~= Seq::<Vector2>::empty());
        assert(s.drop_first() =~= Seq::<Vector2>::empty());
        assert(count_occurrences(Seq::<Vector2>::empty(), p) == 0);
    } else {
        lemma_count_occurrences_drop_last(s.drop_first(), p);
        assert(s.drop_first().drop_last() =~= s.drop_last().drop_first());
        assert(s.drop_last().first() == s.first());
        assert(s.drop_first().last() == s.last());
        assert(count_occurrences(s.drop_last(), p) == (if s.drop_last().first() == p {
            1nat
        } else {
            0nat
        }) + count_occurrences(s.drop_last().drop_first(), p));
    }
}

/// A cell occurs in a sequence exactly when its occurrence count is positive.
pub proof fn lemma_count_occurrences_contains(s: Seq<Vector2>, p: Vector2)
    ensures
        count_occurrences(s, p) > 0 <==> s.contains(p),
    decreases s.len(),
{
    if s.len() > 0 {
        lemma_count_occurrences_contains(s.drop_first(), p);
        if s.contains(p) {
            let i = choose|i: int| 0 <= i < s.len() && s[i] == p;
            if i > 0 {
                assert(s.drop_first()[i - 1] == p);
            }
        }
        if s.drop_first().contains(p) {
            let i = choose|i: int| 0 <= i < s.drop_first().len() && s.drop_first()[i] == p;
            assert(s[i + 1] == p);
        }
    }
}

/// The snake: its body cells in order (head first), a mirrored occupancy
/// count per covered cell, the direction it is facing (applied on the next
/// advance), and the direction of the most recent committed move.
pub struct Snake {
    /// The direction the snake is currently facing.
    facing: Direction,
    /// The last direction the snake moved. Kept separately from `facing` so
    /// that staging two quarter turns within one tick cannot reverse the
    /// snake onto itself.
    last_move_direction: Direction,
    /// The points making up the snake's body, head at the front.
    body: VecDeque<Vector2>,
    /// Map mirroring `body` with the number of times a given point is
    /// covered by the snake. Allows accounting for self-intersection.
    body_point_counts: HashMap<u64, usize>,
}

impl Snake {
    /// The body cells, head first.
    pub closed spec fn spec_body(&self) -> Seq<Vector2> {
        self.body@
    }

    /// The direction to be applied on the next advance.
    pub closed spec fn spec_facing(&self) -> Direction {
        self.facing
    }

    /// The direction applied on the most recent advance.
    pub closed spec fn spec_last_move(&self) -> Direction {
        self.last_move_direction
    }

    /// The cell under the snake's head.
    pub open spec fn spec_head(&self) -> Vector2 {
        self.spec_body()[0]
    }

    /// The cell under the snake's tail.
    pub open spec fn spec_tail(&self) -> Vector2 {
        self.spec_body().last()
    }

    /// Whether the head's next position in the facing direction has both
    /// coordinates representable in `i32`.
    pub open spec fn next_head_fits(&self) -> bool {
        fits_i32(shifted(self.spec_head()@, self.spec_facing(), 1))
    }

    /// The head position after the next advance.
    pub open spec fn spec_next_head(&self) -> Vector2 {
        vec_of(shifted(self.spec_head()@, self.spec_facing(), 1))
    }

    /// The occupancy map mirrors the body: a key is present exactly when its
    /// cell occurs in the body, and it then stores the occurrence count.
    pub closed spec fn occupancy_ok(&self) -> bool {
        forall|p: Vector2|
            #![trigger cell_key(p)]
            {
                &&& (self.body_point_counts@.contains_key(cell_key(p)) <==> count_occurrences(
                    self.body@,
                    p,
                ) > 0)
                &&& (count_occurrences(self.body@, p) > 0
                    ==> self.body_point_counts@[cell_key(p)] == count_occurrences(self.body@, p))
            }
    }

    /// Well-formedness: at least one body segment, and the occupancy map in
    /// lock-step with the body.
    pub open spec fn wf(&self) -> bool {
        &&& self.spec_body().len() >= 1
        &&& self.occupancy_ok()
    }

    /// Packs `point` into its occupancy-map key.
    fn key_of(point: &Vector2) -> (r: u64)
        ensures
            r == cell_key(*point),
    {
        ((point.x as u32) as u64) * 0x1_0000_0000u64 + ((point.y as u32) as u64)
    }

    /// Creates a [`Snake`] facing `facing` with length 1 with head (and tail)
    /// located at `head_position`.
    pub fn new(head_position: Vector2, facing: Direction) -> (r: Self)
        ensures
            r.wf(),
            r.spec_body() == seq![head_position],
            r.spec_facing() == facing,
            r.spec_last_move() == facing,
    {
        let mut snek = Self {
            body: VecDeque::new(),
            body_point_counts: HashMap::new(),
            last_move_direction: facing,
            facing,
        };
        proof {
            assert forall|p: Vector2| #![trigger cell_key(p)] count_occurrences(snek.body@, p)
                == 0 by {
                lemma_count_occurrences_le_len(snek.body@, p);
            }
        }
        snek.push_head(head_position);
        proof {
            assert(snek.spec_body() =~= seq![head_position]);
        }
        snek
    }

    /// Gets the direction the [`Snake`] is facing.
    pub fn facing(&self) -> (r: Direction)
        ensures
            r == self.spec_facing(),
    {
        self.facing
    }

    /// Gets the total length of the [`Snake`].
    pub fn len(&self) -> (r: usize)
        ensures
            r == self.spec_body().len(),
    {
        self.body.len()
    }

    /// Returns `true` if the [`Snake`] has no body. Note that this never
    /// happens when [`Snake::new`] is used, as that constructor ensures at
    /// least one body segment.
    pub fn is_empty(&self) -> (r: bool)
        ensures
            r == (self.spec_body().len() == 0),
    {
        self.body.len() == 0
    }

    /// Gets the position of the [`Snake`]'s head.
    pub fn head(&self) -> (r: &Vector2)
        requires
            self.spec_body().len() >= 1,
        ensures
            *r == self.spec_head(),
    {
        &self.body[0]
    }

    /// Gets the position of the [`Snake`]'s tail.
    pub fn tail(&self) -> (r: &Vector2)
        requires
            self.spec_body().len() >= 1,
        ensures
            *r == self.spec_tail(),
    {
        &self.body[self.body.len() - 1]
    }

    /// The body of the [`Snake`], from head to tail.
    pub fn body_iter(&self) -> (r: Vec<Vector2>)
        ensures
            r@ == self.spec_body(),
    {
        let n = self.body.len();
        let mut cells: Vec<Vector2> = Vec::new();
        let mut i: usize = 0;
        while i < n
            invariant
                i <= n,
                n == self.spec_body().len(),
                cells@ =~= self.spec_body().take(i as int),
            decreases n - i,
        {
            cells.push(self.body[i]);
            i = i + 1;
            proof {
                assert(cells@ =~= self.spec_body().take(i as int));
            }
        }
        proof {
            assert(cells@ =~= self.spec_body());
        }
        cells
    }

    /// Returns whether or not the [`Snake`]'s body covers the provided
    /// [`Vector2`].
    pub fn contains(&self, point: &Vector2) -> (r: bool)
        requires
            self.occupancy_ok(),
        ensures
            r == self.spec_body().contains(*point),
    {
        proof {
            lemma_count_occurrences_contains(self.body@, *point);
        }
        self.body_point_counts.contains_key(&Self::key_of(point))
    }

    /// Speculatively retrieve the head of the [`Snake`] after the next call
    /// to [`Snake::advance`].
    pub fn next_head_position(&self) -> (r: Vector2)
        requires
            self.spec_body().len() >= 1,
            self.next_head_fits(),
        ensures
            r == self.spec_next_head(),
    {
        let head = *self.head();
        head.neighbour(self.facing, 1)
    }

    /// Attempt to change the direction the [`Snake`] is moving. The direction
    /// is not changed and `false` is returned when the new direction would
    /// cause the [`Snake`] to reverse onto itself, that is, when it is the
    /// opposite of the direction of the most recent committed move.
    pub fn try_set_facing(&mut self, new_direction: Direction) -> (r: bool)
        ensures
            r == (new_direction != old(self).spec_last_move().flip()),
            final(self).spec_facing() == if r {
                new_direction
            } else {
                old(self).spec_facing()
            },
            final(self).spec_body() == old(self).spec_body(),
            final(self).spec_last_move() == old(self).spec_last_move(),
            old(self).wf() ==> final(self).wf(),
    {
        if new_direction != self.last_move_direction.flip() {
            self.facing = new_direction;
            true
        } else {
            false
        }
    }

    /// Advances the [`Snake`] by a single step: the head moves one cell in
    /// the facing direction, and unless the snake `consumed_food` the tail
    /// cell is vacated to maintain the length.
    pub fn advance(&mut self, consumed_food: bool)
        requires
            old(self).wf(),
            old(self).next_head_fits(),
        ensures
            final(self).wf(),
            final(self).spec_facing() == old(self).spec_facing(),
            final(self).spec_last_move() == old(self).spec_facing(),
            final(self).spec_body() == if consumed_food {
                seq![old(self).spec_next_head()] + old(self).spec_body()
            } else {
                seq![old(self).spec_next_head()] + old(self).spec_body().drop_last()
            },
    {
        // Computed first so the length-1 edge case reads its own head before
        // the tail is vacated.
        let new_head = self.next_head_position();
        if !consumed_food {
            let _ = self.pop_tail();
        }
        self.push_head(new_head);
        self.last_move_direction = self.facing;
    }

    /// Push a new head onto the snake, keeping the occupancy map in step.
    fn push_head(&mut self, head: Vector2)
        requires
            old(self).occupancy_ok(),
        ensures
            final(self).occupancy_ok(),
            final(self).spec_body() == seq![head] + old(self).spec_body(),
            final(self).spec_facing() == old(self).spec_facing(),
            final(self).spec_last_move() == old(self).spec_last_move(),
    {
        let ghost old_body = self.body@;
        let key = Self::key_of(&head);
        proof {
            lemma_count_occurrences_le_len(old_body, head);
        }
        let count = match self.body_point_counts.get(&key) {
            Some(c) => *c,
            None => 0,
        };
        proof {
            assert(count == count_occurrences(old_body, head));
        }
        self.body.push_front(head);
        let n = self.body.len();
        proof {
            assert(n == old_body.len() + 1);
            assert(count + 1 <= n);
        }
        self.body_point_counts.insert(key, count + 1);
        proof {
            let new_body = self.body@;
            assert(new_body.drop_first() =~= old_body);
            assert forall|p: Vector2|
                #![trigger cell_key(p)]
                {
                    &&& (self.body_point_counts@.contains_key(cell_key(p)) <==> count_occurrences(
                        new_body,
                        p,
                    ) > 0)
                    &&& (count_occurrences(new_body, p) > 0 ==> self.body_point_counts@[cell_key(p)]
                        == count_occurrences(new_body, p))
                } by {
                if cell_key(p) == cell_key(head) {
                    lemma_cell_key_injective(p, head);
                }
            }
        }
    }

    /// Pop the tail from the snake, keeping the occupancy map in step.
    fn pop_tail(&mut self) -> (r: Option<Vector2>)
        requires
            old(self).occupancy_ok(),
        ensures
            final(self).occupancy_ok(),
            final(self).spec_facing() == old(self).spec_facing(),
            final(self).spec_last_move() == old(self).spec_last_move(),
            old(self).spec_body().len() == 0 ==> r is None && final(self).spec_body() == old(
                self).spec_body(),
            old(self).spec_body().len() > 0 ==> r == Some(old(self).spec_tail()) && final(
                self).spec_body() == old(self).spec_body().drop_last(),
    {
        let ghost old_body = self.body@;
        let old_tail = match self.body.pop_back() {
            Some(t) => t,
            None => {
                return None;
            },
        };
        proof {
            assert(old_body.last() == old_tail);
            lemma_count_occurrences_drop_last(old_body, old_tail);
        }
        let key = Self::key_of(&old_tail);
        let count = match self.body_point_counts.get(&key) {
            Some(c) => *c,
            None => {
                // The occupancy map mirrors the body, so the vacated tail
                // cell always has an entry.
                proof {
                    assert(count_occurrences(old_body, old_tail) > 0);
                }
                0
            },
        };
        if count <= 1 {
            self.body_point_counts.remove(&key);
        } else {
            self.body_point_counts.insert(key, count - 1);
        }
        proof {
            let new_body = self.body@;
            assert(new_body =~= old_body.drop_last());
            assert forall|p: Vector2|
                #![trigger cell_key(p)]
                {
                    &&& (self.body_point_counts@.contains_key(cell_key(p)) <==> count_occurrences(
                        new_body,
                        p,
                    ) > 0)
                    &&& (count_occurrences(new_body, p) > 0 ==> self.body_point_counts@[cell_key(p)]
                        == count_occurrences(new_body, p))
                } by {
                lemma_count_occurrences_drop_last(old_body, p);
                if cell_key(p) == cell_key(old_tail) {
                    lemma_cell_key_injective(p, old_tail);
                }
            }
        }
        Some(old_tail)
    }
}

} // verus!
