//! The grid held in memory, and the operations on it.

use crate::cell::{next_state, CellState};
use crate::model::{coords, lemma_filter_take_step, lemma_wrap_near, wrap, GridView};
use vstd::prelude::*;

verus! {

/// The width of the grid that the simulation runs on.
pub const WIDTH: usize = 79;

/// The height of the grid that the simulation runs on.
pub const HEIGHT: usize = 20;

/// A grid of cells, stored row by row.
pub struct Grid {
    width: usize,
    height: usize,
    cells: Vec<CellState>,
}

impl View for Grid {
    type V = GridView;

    closed spec fn view(&self) -> GridView {
        GridView {
            width: self.width as nat,
            height: self.height as nat,
            cells: Map::new(
                |c: (int, int)| 0 <= c.0 < self.width && 0 <= c.1 < self.height,
                |c: (int, int)| self.cells@[offset(self.width as int, c.0, c.1)],
            ),
        }
    }
}

impl Grid {
    #[verifier::type_invariant]
    spec fn inv(self) -> bool {
        self.cells.len() == self.width * self.height
    }

    /// A grid of `width` by `height` cells, all of them dead.
    pub fn new(width: usize, height: usize) -> (grid: Grid)
        requires
            width * height <= usize::MAX,
        ensures
            grid@ == GridView::dead(width as nat, height as nat),
    {
        let grid = Grid { width, height, cells: vec![CellState::DEAD; width * height] };
        proof {
            assert forall|c: (int, int)|
                #[trigger] grid@.cells.dom().contains(c)
                implies grid@.cells[c] == CellState::DEAD by {
                lemma_index_in_range(width as int, height as int, c.0, c.1);
            }
            assert(grid@ =~= GridView::dead(width as nat, height as nat));
        }
        grid
    }

    /// The view of a grid in memory is total on its rectangle.
    pub proof fn lemma_view_total(&self)
        ensures
            self@.wf(),
    {
    }

    /// The number of columns.
    pub fn width(&self) -> (w: usize)
        ensures
            w == self@.width,
    {
        self.width
    }

    /// The number of rows.
    pub fn height(&self) -> (h: usize)
        ensures
            h == self@.height,
    {
        self.height
    }

    /// The state of the cell at `(x, y)`.
    pub fn get(&self, x: usize, y: usize) -> (state: CellState)
        requires
            self@.in_bounds(x as int, y as int),
        ensures
            state == self@.cells[(x as int, y as int)],
    {
        proof {
            use_type_invariant(self);
            lemma_index_in_range(self.width as int, self.height as int, x as int, y as int);
        }
        self.cells[y * self.width + x]
    }

    /// Puts `state` into the cell at `(x, y)` and leaves every other cell
    /// as it was.
    pub fn set(&mut self, x: usize, y: usize, state: CellState)
        requires
            old(self)@.in_bounds(x as int, y as int),
        ensures
            final(self)@ == (GridView {
                cells: old(self)@.cells.insert((x as int, y as int), state),
                ..old(self)@
            }),
    {
        proof {
            use_type_invariant(&*self);
            lemma_index_in_range(self.width as int, self.height as int, x as int, y as int);
        }
        let i = y * self.width + x;
        self.cells[i] = state;
        proof {
            let w = self.width as int;
            let target = (x as int, y as int);
            assert forall|c: (int, int)|
                #[trigger] self@.cells.dom().contains(c) && c != target
                implies self@.cells[c] == old(self)@.cells[c] by {
                lemma_index_in_range(w, self.height as int, c.0, c.1);
                if offset(w, c.0, c.1) == offset(w, x as int, y as int) {
                    lemma_index_injective(w, c.0, c.1, x as int, y as int);
                }
            }
            assert(self@.cells =~= old(self)@.cells.insert(target, state));
        }
    }

    /// The eight coordinates around `(x, y)`, with the grid's edges joined:
    /// the column before the first is the last one, the column after the last
    /// is the first, and so for the rows.
    pub fn neighbors_of(&self, x: usize, y: usize) -> (around: [(usize, usize); 8])
        requires
            self@.in_bounds(x as int, y as int),
        ensures
            coords(around@) == self@.neighbors(x as int, y as int),
            forall|i: int|
                0 <= i < 8 ==> self@.in_bounds(
                    (#[trigger] around@[i]).0 as int,
                    around@[i].1 as int,
                ),
    {
        let left = ring_prev(x, self.width);
        let right = ring_next(x, self.width);
        let above = ring_prev(y, self.height);
        let below = ring_next(y, self.height);
        let around = [
            (left, above),
            (x, above),
            (right, above),
            (left, y),
            (right, y),
            (left, below),
            (x, below),
            (right, below),
        ];
        proof {
            assert(coords(around@) =~= self@.neighbors(x as int, y as int));
        }
        around
    }

    /// The number of live cells among the eight neighbours of `(x, y)`.
    pub fn count_alive_neighbors(&self, x: usize, y: usize) -> (count: u8)
        requires
            self@.in_bounds(x as int, y as int),
        ensures
            count == self@.alive_neighbors(x as int, y as int),
            count <= 8,
    {
        let around = self.neighbors_of(x, y);
        let ghost ns = self@.neighbors(x as int, y as int);
        let ghost pred = |c: (int, int)| self@.is_alive(c);
        let mut count: u8 = 0;
        let mut i: usize = 0;
        proof {
            assert(ns.take(0).filter(pred).len() == 0) by {
                reveal(Seq::filter);
            }
        }
        while i < 8
            invariant
                0 <= i <= 8,
                count <= i,
                count == ns.take(i as int).filter(pred).len(),
                ns == self@.neighbors(x as int, y as int),
                ns == coords(around@),
                pred == |c: (int, int)| self@.is_alive(c),
                forall|k: int|
                    0 <= k < 8 ==> self@.in_bounds(
                        (#[trigger] around@[k]).0 as int,
                        around@[k].1 as int,
                    ),
            decreases 8 - i,
        {
            let (nx, ny) = around[i];
            proof {
                lemma_filter_take_step(ns, pred, i as int);
                assert(ns[i as int] == (nx as int, ny as int));
            }
            if self.get(nx, ny) == CellState::ALIVE {
                count = count + 1;
            }
            i = i + 1;
        }
        proof {
            assert(ns.take(8) =~= ns);
        }
        count
    }

    /// The next generation. Every cell of the result is computed from this
    /// grid, which stays as it is: no cell sees a neighbour's new state.
    pub fn advance(&self) -> (next: Grid)
        ensures
            next@ == self@.step(),
            next@.width == self@.width,
            next@.height == self@.height,
            next@.wf(),
            next@.cells.dom().finite(),
            next@.cells.dom().len() == self@.width * self@.height,
    {
        let width = self.width;
        let height = self.height;
        let mut cells: Vec<CellState> = Vec::new();
        let mut y: usize = 0;
        while y < height
            invariant
                width == self.width,
                height == self.height,
                0 <= y <= height,
                cells.len() == y * width,
                holds_next(cells@, self@, y as int, 0),
            decreases height - y,
        {
            let mut x: usize = 0;
            while x < width
                invariant
                    width == self.width,
                    height == self.height,
                    0 <= y < height,
                    0 <= x <= width,
                    cells.len() == y * width + x,
                    holds_next(cells@, self@, y as int, x as int),
                decreases width - x,
            {
                let current = self.get(x, y);
                let count = self.count_alive_neighbors(x, y);
                let ghost before = cells@;
                cells.push(next_state(&current, count));
                proof {
                    let w = width as int;
                    assert forall|cx: int, cy: int|
                        0 <= cx < w && (0 <= cy < y || (cy == y && cx < x + 1))
                        implies cells@[#[trigger] offset(w, cx, cy)]
                            == self@.step().cells[(cx, cy)] by {
                        if cy != y || cx != x {
                            lemma_offset_order(w, cx, cy, x as int, y as int);
                            assert(cells@[offset(w, cx, cy)] == before[offset(w, cx, cy)]);
                        }
                    }
                }
                x = x + 1;
            }
            proof {
                assert((y + 1) * width == y * width + width) by (nonlinear_arith);
            }
            y = y + 1;
        }
        proof {
            assert(height * width == width * height) by (nonlinear_arith);
        }
        let next = Grid { width, height, cells };
        proof {
            assert forall|c: (int, int)|
                #[trigger] next@.cells.dom().contains(c)
                implies next@.cells[c] == self@.step().cells[c] by {
                assert(next@.cells[c] == cells@[offset(width as int, c.0, c.1)]);
            }
            assert(next@ =~= self@.step());
            next@.lemma_total();
        }
        next
    }
}

/// Whether `cells` holds, in row-major order, the next states of the first
/// `rows` rows of `grid` and of the first `extra` cells of the row after
/// them.
spec fn holds_next(cells: Seq<CellState>, grid: GridView, rows: int, extra: int) -> bool {
    forall|cx: int, cy: int|
        0 <= cx < grid.width && (0 <= cy < rows || (cy == rows && cx < extra))
            ==> cells[#[trigger] offset(grid.width as int, cx, cy)]
                == grid.step().cells[(cx, cy)]
}

/// The place before `v` on a ring of `n` places.
fn ring_prev(v: usize, n: usize) -> (r: usize)
    requires
        v < n,
    ensures
        r == wrap(v - 1, n as int),
        r < n,
{
    proof {
        lemma_wrap_near(v - 1, n as int);
    }
    if v == 0 {
        n - 1
    } else {
        v - 1
    }
}

/// The place after `v` on a ring of `n` places.
fn ring_next(v: usize, n: usize) -> (r: usize)
    requires
        v < n,
    ensures
        r == wrap(v + 1, n as int),
        r < n,
{
    proof {
        lemma_wrap_near(v + 1, n as int);
    }
    if v == n - 1 {
        0
    } else {
        v + 1
    }
}

/// The place of `(x, y)` in a row-major store of rows of `width` cells.
spec fn offset(width: int, x: int, y: int) -> int {
    y * width + x
}

/// In row-major order a coordinate comes before another one if it stands in
/// an earlier row, or in the same row further left.
proof fn lemma_offset_order(width: int, x1: int, y1: int, x2: int, y2: int)
    requires
        0 <= x1 < width,
        0 <= x2 < width,
        0 <= y1,
        y1 < y2 || (y1 == y2 && x1 < x2),
    ensures
        0 <= offset(width, x1, y1) < offset(width, x2, y2),
{
    assert(0 <= y1 * width + x1 < y2 * width + x2) by (nonlinear_arith)
        requires
            0 <= x1 < width,
            0 <= x2 < width,
            0 <= y1,
            y1 < y2 || (y1 == y2 && x1 < x2),
    {
    }
}

/// The place of `(x, y)` in row-major order lies within `width * height`.
proof fn lemma_index_in_range(width: int, height: int, x: int, y: int)
    requires
        0 <= x < width,
        0 <= y < height,
    ensures
        0 <= y * width <= offset(width, x, y) < width * height,
{
    assert(0 <= y * width && y * width + width <= height * width) by (nonlinear_arith)
        requires
            0 <= y < height,
            0 < width,
    {
    }
    assert(height * width == width * height) by (nonlinear_arith);
}

/// Two coordinates of one rectangle with the same place in row-major order
/// are the same coordinate.
proof fn lemma_index_injective(width: int, x1: int, y1: int, x2: int, y2: int)
    requires
        0 <= x1 < width,
        0 <= x2 < width,
        offset(width, x1, y1) == offset(width, x2, y2),
    ensures
        x1 == x2,
        y1 == y2,
{
    assert(y1 == y2 && x1 == x2) by (nonlinear_arith)
        requires
            0 <= x1 < width,
            0 <= x2 < width,
            y1 * width + x1 == y2 * width + x2,
    {
    }
}

} // verus!
