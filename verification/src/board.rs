//! An axis-aligned bounded grid: membership testing, row-major cell
//! enumeration, and uniform random sampling of a free cell.

use core::ops::Range;

use vstd::prelude::*;
use vstd::arithmetic::div_mod::{lemma_mod_bound, lemma_multiply_divide_lt};

use crate::vector2::Vector2;

verus! {

/// A rectangular board holding the cells `(x, y)` with
/// `min_x <= x < max_x` and `min_y <= y < max_y`.
pub struct Board {
    min_x: i32,
    min_y: i32,
    max_x: i32,
    max_y: i32,
}

impl Board {
    /// Inclusive lower bound on x-coordinates.
    pub closed spec fn spec_min_x(&self) -> int {
        self.min_x as int
    }

    /// Inclusive lower bound on y-coordinates.
    pub closed spec fn spec_min_y(&self) -> int {
        self.min_y as int
    }

    /// Exclusive upper bound on x-coordinates.
    pub closed spec fn spec_max_x(&self) -> int {
        self.max_x as int
    }

    /// Exclusive upper bound on y-coordinates.
    pub closed spec fn spec_max_y(&self) -> int {
        self.max_y as int
    }

    /// Well-formedness: both ranges are strictly increasing, and the board is
    /// small enough that widths fit in `i32`, the cell count fits in `usize`,
    /// and every cell has all four neighbouring coordinates representable.
    pub open spec fn wf(&self) -> bool {
        &&& i32::MIN < self.spec_min_x()
        &&& i32::MIN < self.spec_min_y()
        &&& self.spec_min_x() < self.spec_max_x()
        &&& self.spec_min_y() < self.spec_max_y()
        &&& self.spec_max_x() <= i32::MAX
        &&& self.spec_max_y() <= i32::MAX
        &&& self.spec_max_x() - self.spec_min_x() <= i32::MAX
        &&& self.spec_max_y() - self.spec_min_y() <= i32::MAX
        &&& (self.spec_max_x() - self.spec_min_x()) * (self.spec_max_y() - self.spec_min_y())
            <= usize::MAX
    }

    /// The number of columns.
    pub open spec fn spec_width(&self) -> int {
        self.spec_max_x() - self.spec_min_x()
    }

    /// The number of rows.
    pub open spec fn spec_height(&self) -> int {
        self.spec_max_y() - self.spec_min_y()
    }

    /// The number of cells.
    pub open spec fn spec_total(&self) -> int {
        self.spec_width() * self.spec_height()
    }

    /// Whether `point` lies on the board.
    pub open spec fn in_bounds(&self, point: Vector2) -> bool {
        &&& self.spec_min_x() <= point@.0 < self.spec_max_x()
        &&& self.spec_min_y() <= point@.1 < self.spec_max_y()
    }

    /// All cells of the board in row-major order: `y` varies in the outer
    /// position, `x` in the inner one.
    pub open spec fn cell_seq(&self) -> Seq<Vector2> {
        Seq::new(
            self.spec_total() as nat,
            |i: int|
                Vector2 {
                    x: (self.spec_min_x() + i % self.spec_width()) as i32,
                    y: (self.spec_min_y() + i / self.spec_width()) as i32,
                },
        )
    }

    /// Every entry of the cell enumeration lies on the board.
    pub proof fn lemma_cell_seq_in_bounds(&self, i: int)
        requires
            self.wf(),
            0 <= i < self.spec_total(),
        ensures
            self.in_bounds(self.cell_seq()[i]),
    {
        let w = self.spec_width();
        lemma_mod_bound(i, w);
        lemma_multiply_divide_lt(i, w, self.spec_height());
        assert(i / w >= 0) by {
            vstd::arithmetic::div_mod::lemma_div_pos_is_pos(i, w);
        }
    }

    /// The cell enumeration holds each in-bounds point exactly once.
    pub proof fn lemma_cell_seq_no_duplicates(&self)
        requires
            self.wf(),
        ensures
            self.cell_seq().no_duplicates(),
    {
        assert forall|i: int, j: int|
            0 <= i < self.spec_total() && 0 <= j < self.spec_total() && i != j implies self.cell_seq()[i]
            != self.cell_seq()[j] by {
            let w = self.spec_width();
            lemma_mod_bound(i, w);
            lemma_mod_bound(j, w);
            lemma_multiply_divide_lt(i, w, self.spec_height());
            lemma_multiply_divide_lt(j, w, self.spec_height());
            vstd::arithmetic::div_mod::lemma_div_pos_is_pos(i, w);
            vstd::arithmetic::div_mod::lemma_div_pos_is_pos(j, w);
            if self.cell_seq()[i] == self.cell_seq()[j] {
                assert(i % w == j % w);
                assert(i / w == j / w);
                vstd::arithmetic::div_mod::lemma_fundamental_div_mod(i, w);
                vstd::arithmetic::div_mod::lemma_fundamental_div_mod(j, w);
            }
        }
    }

    /// Constructs a new [`Board`] from inclusive lower and exclusive upper
    /// bounds on each of `x` and `y`.
    pub fn new(x: (i32, i32), y: (i32, i32)) -> (r: Self)
        requires
            x.0 < x.1,
            y.0 < y.1,
            i32::MIN < x.0,
            i32::MIN < y.0,
            x.1 - x.0 <= i32::MAX,
            y.1 - y.0 <= i32::MAX,
            (x.1 - x.0) * (y.1 - y.0) <= usize::MAX,
        ensures
            r.wf(),
            r.spec_min_x() == x.0,
            r.spec_max_x() == x.1,
            r.spec_min_y() == y.0,
            r.spec_max_y() == y.1,
    {
        Self { min_x: x.0, max_x: x.1, min_y: y.0, max_y: y.1 }
    }

    /// Returns the width of this [`Board`].
    pub fn width(&self) -> (r: i32)
        requires
            self.wf(),
        ensures
            r == self.spec_width(),
    {
        self.max_x - self.min_x
    }

    /// Returns the height of this [`Board`].
    pub fn height(&self) -> (r: i32)
        requires
            self.wf(),
        ensures
            r == self.spec_height(),
    {
        self.max_y - self.min_y
    }

    /// Returns the [`Range`] of valid x-coordinates for this [`Board`].
    pub fn x_range(&self) -> (r: Range<i32>)
        ensures
            r.start == self.spec_min_x(),
            r.end == self.spec_max_x(),
    {
        self.min_x..self.max_x
    }

    /// Returns the [`Range`] of valid y-coordinates for this [`Board`].
    pub fn y_range(&self) -> (r: Range<i32>)
        ensures
            r.start == self.spec_min_y(),
            r.end == self.spec_max_y(),
    {
        self.min_y..self.max_y
    }

    /// Determines whether or not `point` is contained within the [`Board`].
    pub fn contains(&self, point: &Vector2) -> (r: bool)
        ensures
            r == self.in_bounds(*point),
    {
        self.min_x <= point.x && point.x < self.max_x && self.min_y <= point.y && point.y
            < self.max_y
    }

    /// The cells of the board in row-major order.
    pub fn cell_iter(&self) -> (r: Vec<Vector2>)
        requires
            self.wf(),
        ensures
            r@ == self.cell_seq(),
    {
        let w = self.width() as usize;
        let total = w * (self.height() as usize);
        let mut cells: Vec<Vector2> = Vec::new();
        let mut i: usize = 0;
        while i < total
            invariant
                self.wf(),
                w == self.spec_width(),
                total == self.spec_total(),
                i <= total,
                cells@ =~= self.cell_seq().take(i as int),
            decreases total - i,
        {
            let cell = self.cell_at(i, w);
            cells.push(cell);
            i = i + 1;
            proof {
                assert(cells@ =~= self.cell_seq().take(i as int));
            }
        }
        proof {
            assert(cells@ =~= self.cell_seq());
        }
        cells
    }

    /// The cell at row-major position `i`.
    fn cell_at(&self, i: usize, w: usize) -> (r: Vector2)
        requires
            self.wf(),
            w == self.spec_width(),
            i < self.spec_total(),
        ensures
            r == self.cell_seq()[i as int],
    {
        proof {
            lemma_mod_bound(i as int, w as int);
            lemma_multiply_divide_lt(i as int, w as int, self.spec_height());
            vstd::arithmetic::div_mod::lemma_div_pos_is_pos(i as int, w as int);
        }
        Vector2 { x: self.min_x + (i % w) as i32, y: self.min_y + (i / w) as i32 }
    }
}

/// The set of cells a membership predicate can answer `true` for.
pub open spec fn taken_set<F: Fn(&Vector2) -> bool>(f: F) -> Set<Vector2> {
    Set::new(|c: Vector2| call_ensures(f, (&c,), true))
}

/// Whether a membership predicate returns one fixed answer per cell.
pub open spec fn is_decided<F: Fn(&Vector2) -> bool>(f: F) -> bool {
    forall|c: Vector2, b1: bool, b2: bool|
        #![trigger call_ensures(f, (&c,), b1), call_ensures(f, (&c,), b2)]
        call_ensures(f, (&c,), b1) && call_ensures(f, (&c,), b2) ==> b1 == b2
}

/// How many entries of `cells` lie in `taken`.
pub open spec fn count_matching(cells: Seq<Vector2>, taken: Set<Vector2>) -> nat
    decreases cells.len(),
{
    if cells.len() == 0 {
        0
    } else {
        (if taken.contains(cells.first()) {
            1nat
        } else {
            0nat
        }) + count_matching(cells.drop_first(), taken)
    }
}

/// The `k`-th entry of `cells` (0-based, in order) that is not in `taken`,
/// or `None` if fewer than `k + 1` such entries exist.
pub open spec fn nth_free(cells: Seq<Vector2>, taken: Set<Vector2>, k: nat) -> Option<Vector2>
    decreases cells.len(),
{
    if cells.len() == 0 {
        None
    } else if !taken.contains(cells.first()) {
        if k == 0 {
            Some(cells.first())
        } else {
            nth_free(cells.drop_first(), taken, (k - 1) as nat)
        }
    } else {
        nth_free(cells.drop_first(), taken, k)
    }
}

/// No more entries match than there are entries.
pub proof fn lemma_count_matching_le_len(cells: Seq<Vector2>, taken: Set<Vector2>)
    ensures
        count_matching(cells, taken) <= cells.len(),
    decreases cells.len(),
{
    if cells.len() > 0 {
        lemma_count_matching_le_len(cells.drop_first(), taken);
    }
}

/// Enlarging the set cannot lower the matching count.
pub proof fn lemma_count_matching_subset(cells: Seq<Vector2>, small: Set<Vector2>, large: Set<
    Vector2,
>)
    requires
        forall|c: Vector2| small.contains(c) ==> large.contains(c),
    ensures
        count_matching(cells, small) <= count_matching(cells, large),
    decreases cells.len(),
{
    if cells.len() > 0 {
        lemma_count_matching_subset(cells.drop_first(), small, large);
    }
}

/// A cell that never occurs in `cells` does not affect the matching count.
pub proof fn lemma_count_matching_remove(cells: Seq<Vector2>, taken: Set<Vector2>, c: Vector2)
    requires
        !cells.contains(c),
    ensures
        count_matching(cells, taken) == count_matching(cells, taken.remove(c)),
    decreases cells.len(),
{
    if cells.len() > 0 {
        assert(cells.first() != c);
        assert(forall|i: int|
            0 <= i < cells.drop_first().len() ==> cells.drop_first()[i] == cells[i + 1]);
        lemma_count_matching_remove(cells.drop_first(), taken, c);
    }
}

/// Over duplicate-free entries, no more entries match than the set has members.
pub proof fn lemma_count_matching_le_set_len(cells: Seq<Vector2>, taken: Set<Vector2>)
    requires
        cells.no_duplicates(),
        taken.finite(),
    ensures
        count_matching(cells, taken) <= taken.len(),
    decreases cells.len(),
{
    if cells.len() > 0 {
        let first = cells.first();
        let rest = cells.drop_first();
        assert(forall|i: int| 0 <= i < rest.len() ==> rest[i] == cells[i + 1]);
        assert(rest.no_duplicates());
        if taken.contains(first) {
            assert(!rest.contains(first));
            lemma_count_matching_remove(rest, taken, first);
            lemma_count_matching_le_set_len(rest, taken.remove(first));
            assert(taken.remove(first).len() == taken.len() - 1);
        } else {
            lemma_count_matching_le_set_len(rest, taken);
        }
    }
}

/// A free entry at position `k` exists if and only if the free entries
/// outnumber `k`.
pub proof fn lemma_nth_free_is_some(cells: Seq<Vector2>, taken: Set<Vector2>, k: nat)
    ensures
        nth_free(cells, taken, k) is Some <==> k + count_matching(cells, taken) < cells.len(),
    decreases cells.len(),
{
    if cells.len() > 0 {
        lemma_count_matching_le_len(cells.drop_first(), taken);
        if !taken.contains(cells.first()) && k > 0 {
            lemma_nth_free_is_some(cells.drop_first(), taken, (k - 1) as nat);
        } else {
            lemma_nth_free_is_some(cells.drop_first(), taken, k);
        }
    }
}

/// A selected free entry occurs among the entries and is not taken.
pub proof fn lemma_nth_free_props(cells: Seq<Vector2>, taken: Set<Vector2>, k: nat, c: Vector2)
    requires
        nth_free(cells, taken, k) == Some(c),
    ensures
        cells.contains(c),
        !taken.contains(c),
    decreases cells.len(),
{
    if cells.len() > 0 {
        if !taken.contains(cells.first()) && k == 0 {
            assert(cells[0] == c);
        } else if !taken.contains(cells.first()) {
            lemma_nth_free_props(cells.drop_first(), taken, (k - 1) as nat, c);
            assert(cells.drop_first().contains(c));
            let i = choose|i: int|
                0 <= i < cells.drop_first().len() && cells.drop_first()[i] == c;
            assert(cells[i + 1] == c);
        } else {
            lemma_nth_free_props(cells.drop_first(), taken, k, c);
            let i = choose|i: int|
                0 <= i < cells.drop_first().len() && cells.drop_first()[i] == c;
            assert(cells[i + 1] == c);
        }
    }
}

/// Relies on `rand::random_range` over `0..n`: it returns a uniformly random
/// value within the range, and panics only when the range is empty, which the
/// precondition rules out.
#[verifier::external_body]
fn sample_below(n: usize) -> (r: usize)
    requires
        n > 0,
    ensures
        r < n,
{
    rand::random_range(0..n)
}

impl Board {
    /// The `index`-th cell of the row-major enumeration, counting only cells
    /// on which `is_taken` answers `false`, or `None` if fewer than
    /// `index + 1` such cells exist.
    #[verifier::loop_isolation(false)]
    pub fn free_cell_at<F: Fn(&Vector2) -> bool>(&self, index: usize, is_taken: F) -> (r: Option<
        Vector2,
    >)
        requires
            self.wf(),
            forall|c: Vector2| #[trigger] call_requires(is_taken, (&c,)),
            is_decided(is_taken),
        ensures
            r == nth_free(self.cell_seq(), taken_set(is_taken), index as nat),
            r matches Some(cell) ==> call_ensures(is_taken, (&cell,), false),
    {
        let w = self.width() as usize;
        let total = w * (self.height() as usize);
        let ghost cells = self.cell_seq();
        let ghost taken = taken_set(is_taken);
        let mut i: usize = 0;
        let mut seen_free: usize = 0;
        proof {
            assert(cells.skip(0) =~= cells);
        }
        while i < total
            invariant
                i <= total,
                seen_free <= index,
                nth_free(cells, taken, index as nat) == nth_free(
                    cells.skip(i as int),
                    taken,
                    (index - seen_free) as nat,
                ),
            decreases total - i,
        {
            let cell = self.cell_at(i, w);
            proof {
                assert(cells.skip(i as int).len() > 0);
                assert(cells.skip(i as int).first() == cell);
                assert(cells.skip(i as int).drop_first() =~= cells.skip(i as int + 1));
            }
            let cell_taken = is_taken(&cell);
            if cell_taken {
                proof {
                    assert(taken.contains(cell));
                }
            } else {
                proof {
                    assert(!taken.contains(cell));
                }
                if seen_free == index {
                    return Some(cell);
                }
                seen_free = seen_free + 1;
            }
            i = i + 1;
        }
        proof {
            assert(cells.skip(total as int) =~= Seq::<Vector2>::empty());
        }
        None
    }

    /// Generates a random free cell according to `is_taken`. Returns `None`
    /// if no free cell could be found.
    ///
    /// When `taken_cell_count` is at least the number of board cells on which
    /// `is_taken` answers `true`, yet below the board's cell count, a free
    /// cell is always found. An undercounted `taken_cell_count` may instead
    /// exhaust the scan and yield `None` even though free cells exist; that
    /// is accepted caller responsibility.
    pub fn random_free_cell<F: Fn(&Vector2) -> bool>(
        &self,
        taken_cell_count: usize,
        is_taken: F,
    ) -> (r: Option<Vector2>)
        requires
            self.wf(),
            forall|c: Vector2| #[trigger] call_requires(is_taken, (&c,)),
            is_decided(is_taken),
        ensures
            r matches Some(cell) ==> self.in_bounds(cell) && call_ensures(
                is_taken,
                (&cell,),
                false,
            ),
            r matches Some(cell) ==> exists|k: nat|
                k < self.spec_total() - taken_cell_count && Some(cell) == nth_free(
                    self.cell_seq(),
                    taken_set(is_taken),
                    k,
                ),
            count_matching(self.cell_seq(), taken_set(is_taken)) <= taken_cell_count
                < self.spec_total() ==> r is Some,
            taken_cell_count >= self.spec_total() ==> r is None,
    {
        let total = (self.width() as usize) * (self.height() as usize);
        if taken_cell_count >= total {
            return None;
        }
        let free_cells = total - taken_cell_count;
        let target_cell = sample_below(free_cells);
        let r = self.free_cell_at(target_cell, is_taken);
        proof {
            let cells = self.cell_seq();
            let taken = taken_set(is_taken);
            lemma_nth_free_is_some(cells, taken, target_cell as nat);
            if r is Some {
                lemma_nth_free_props(cells, taken, target_cell as nat, r->Some_0);
                let i = choose|i: int| 0 <= i < cells.len() && cells[i] == r->Some_0;
                self.lemma_cell_seq_in_bounds(i);
            }
        }
        r
    }
}

} // verus!
