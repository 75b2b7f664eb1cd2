//! The mathematical model of a grid: a total map from the coordinates of a
//! rectangle to cell states, read as a torus.

use crate::cell::{next_cell, CellState};
use vstd::prelude::*;
use vstd::set_lib::lemma_set_disjoint_lens;

verus! {

/// `v` folded onto a ring of `n` places: the non-negative remainder, so that
/// `wrap(-1, n) == n - 1` and `wrap(n, n) == 0`.
pub open spec fn wrap(v: int, n: int) -> int {
    v % n
}

/// The coordinates of a rectangle of `width` by `height` cells.
pub open spec fn rectangle(width: nat, height: nat) -> Set<(int, int)> {
    Set::new(|c: (int, int)| 0 <= c.0 < width && 0 <= c.1 < height)
}

/// The coordinates of a sequence as mathematical integers.
pub open spec fn coords(s: Seq<(usize, usize)>) -> Seq<(int, int)> {
    s.map_values(|c: (usize, usize)| (c.0 as int, c.1 as int))
}

/// A generation: the grid at one tick, as a mathematical value.
#[verifier::ext_equal]
pub struct GridView {
    /// The number of columns.
    pub width: nat,
    /// The number of rows.
    pub height: nat,
    /// The state of the cell at each coordinate `(x, y)`, column first.
    pub cells: Map<(int, int), CellState>,
}

impl GridView {
    /// Whether `(x, y)` lies in the rectangle.
    pub open spec fn in_bounds(self, x: int, y: int) -> bool {
        0 <= x < self.width && 0 <= y < self.height
    }

    /// The map is total on the rectangle and holds nothing outside of it.
    pub open spec fn wf(self) -> bool {
        forall|c: (int, int)| #[trigger] self.cells.dom().contains(c) <==> self.in_bounds(c.0, c.1)
    }

    /// The grid of `width` by `height` cells in which every cell is dead.
    pub open spec fn dead(width: nat, height: nat) -> GridView {
        GridView {
            width,
            height,
            cells: Map::new(
                |c: (int, int)| 0 <= c.0 < width && 0 <= c.1 < height,
                |c: (int, int)| CellState::DEAD,
            ),
        }
    }

    /// Whether the cell at `c` is alive.
    pub open spec fn is_alive(self, c: (int, int)) -> bool {
        self.cells[c] == CellState::ALIVE
    }

    /// One if the cell at `c` is alive, zero if not.
    pub open spec fn alive_at(self, c: (int, int)) -> nat {
        if self.is_alive(c) {
            1
        } else {
            0
        }
    }

    /// The eight coordinates around `(x, y)` on the torus, row by row from
    /// the upper left.
    pub open spec fn neighbors(self, x: int, y: int) -> Seq<(int, int)> {
        let left = wrap(x - 1, self.width as int);
        let right = wrap(x + 1, self.width as int);
        let above = wrap(y - 1, self.height as int);
        let below = wrap(y + 1, self.height as int);
        seq![
            (left, above),
            (x, above),
            (right, above),
            (left, y),
            (right, y),
            (left, below),
            (x, below),
            (right, below),
        ]
    }

    /// How many of the eight neighbours of `(x, y)` are alive.
    pub open spec fn alive_neighbors(self, x: int, y: int) -> nat {
        self.neighbors(x, y).filter(|c: (int, int)| self.is_alive(c)).len()
    }

    /// The next generation: every cell follows the rule on this generation's
    /// states alone.
    pub open spec fn step(self) -> GridView {
        GridView {
            width: self.width,
            height: self.height,
            cells: Map::new(
                |c: (int, int)| self.in_bounds(c.0, c.1),
                |c: (int, int)| next_cell(self.cells[c], self.alive_neighbors(c.0, c.1) as int),
            ),
        }
    }
}

/// One step off either end of the ring comes back in at the other end, and
/// a place on the ring stays where it is.
pub proof fn lemma_wrap_near(v: int, n: int)
    requires
        0 < n,
        -n <= v < 2 * n,
    ensures
        wrap(v, n) == if v < 0 {
            v + n
        } else if v < n {
            v
        } else {
            v - n
        },
        0 <= wrap(v, n) < n,
{
    let folded = if v < 0 {
        v + n
    } else if v < n {
        v
    } else {
        v - n
    };
    assert(v % n == folded) by (nonlinear_arith)
        requires
            0 < n,
            -n <= v < 2 * n,
            folded == if v < 0 {
                v + n
            } else if v < n {
                v
            } else {
                v - n
            },
    {
    }
}

/// Filtering one element more keeps it exactly when the predicate holds of it.
pub proof fn lemma_filter_take_step<A>(s: Seq<A>, pred: spec_fn(A) -> bool, i: int)
    requires
        0 <= i < s.len(),
    ensures
        s.take(i + 1).filter(pred).len() == s.take(i).filter(pred).len() + if pred(s[i]) {
            1nat
        } else {
            0nat
        },
{
    reveal(Seq::filter);
    assert(s.take(i + 1).drop_last() =~= s.take(i));
}

/// The coordinates of the first `width` cells of row `y`.
spec fn row(width: nat, y: int) -> Set<(int, int)> {
    Set::new(|c: (int, int)| 0 <= c.0 < width && c.1 == y)
}

/// A row of `width` cells has `width` coordinates.
proof fn lemma_row_len(width: nat, y: int)
    ensures
        row(width, y).finite(),
        row(width, y).len() == width,
    decreases width,
{
    if width == 0 {
        assert(row(width, y) =~= Set::empty());
    } else {
        lemma_row_len((width - 1) as nat, y);
        assert(row(width, y) =~= row((width - 1) as nat, y).insert((width - 1, y)));
    }
}

/// A rectangle of `width` by `height` cells has `width * height`
/// coordinates.
pub proof fn lemma_rectangle_len(width: nat, height: nat)
    ensures
        rectangle(width, height).finite(),
        rectangle(width, height).len() == width * height,
    decreases height,
{
    if height == 0 {
        assert(rectangle(width, height) =~= Set::empty());
        assert(width * height == 0) by (nonlinear_arith)
            requires
                height == 0,
        {
        }
    } else {
        let above = rectangle(width, (height - 1) as nat);
        let last = row(width, height - 1);
        lemma_rectangle_len(width, (height - 1) as nat);
        lemma_row_len(width, height - 1);
        assert(rectangle(width, height) =~= above + last);
        assert(above.disjoint(last));
        lemma_set_disjoint_lens(above, last);
        assert(width * (height - 1) + width == width * height) by (nonlinear_arith);
    }
}

impl GridView {
    /// Totality: a grid holds exactly one state for each of the
    /// `width * height` coordinates of its rectangle, and none for any other
    /// coordinate.
    pub proof fn lemma_total(self)
        requires
            self.wf(),
        ensures
            self.cells.dom() == rectangle(self.width, self.height),
            self.cells.dom().finite(),
            self.cells.dom().len() == self.width * self.height,
    {
        assert(self.cells.dom() =~= rectangle(self.width, self.height));
        lemma_rectangle_len(self.width, self.height);
    }

    /// Every neighbour of a coordinate of the rectangle lies in the
    /// rectangle.
    pub proof fn lemma_neighbors_in_bounds(self, x: int, y: int)
        requires
            self.in_bounds(x, y),
        ensures
            self.neighbors(x, y).len() == 8,
            forall|i: int|
                0 <= i < 8 ==> self.in_bounds(
                    (#[trigger] self.neighbors(x, y)[i]).0,
                    self.neighbors(x, y)[i].1,
                ),
    {
        lemma_wrap_near(x - 1, self.width as int);
        lemma_wrap_near(x + 1, self.width as int);
        lemma_wrap_near(y - 1, self.height as int);
        lemma_wrap_near(y + 1, self.height as int);
    }

    /// The number of live neighbours is the sum over the eight neighbours,
    /// each counted once for each time that it stands in the sequence, and
    /// so it is eight at most.
    pub proof fn lemma_alive_neighbors_sum(self, x: int, y: int)
        ensures
            self.alive_neighbors(x, y) == self.alive_at(self.neighbors(x, y)[0])
                + self.alive_at(self.neighbors(x, y)[1])
                + self.alive_at(self.neighbors(x, y)[2])
                + self.alive_at(self.neighbors(x, y)[3])
                + self.alive_at(self.neighbors(x, y)[4])
                + self.alive_at(self.neighbors(x, y)[5])
                + self.alive_at(self.neighbors(x, y)[6])
                + self.alive_at(self.neighbors(x, y)[7]),
            self.alive_neighbors(x, y) <= 8,
    {
        let ns = self.neighbors(x, y);
        let pred = |c: (int, int)| self.is_alive(c);
        assert(ns.take(0).filter(pred).len() == 0) by {
            reveal(Seq::filter);
        }
        lemma_filter_take_step(ns, pred, 0);
        lemma_filter_take_step(ns, pred, 1);
        lemma_filter_take_step(ns, pred, 2);
        lemma_filter_take_step(ns, pred, 3);
        lemma_filter_take_step(ns, pred, 4);
        lemma_filter_take_step(ns, pred, 5);
        lemma_filter_take_step(ns, pred, 6);
        lemma_filter_take_step(ns, pred, 7);
        assert(ns.take(8) =~= ns);
    }
}

} // verus!
