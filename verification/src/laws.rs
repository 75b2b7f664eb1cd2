//! What holds of every grid: the seam of the torus, the bound on the
//! neighbour count, what a step reads, and two patterns that every player
//! of the game knows.

use crate::cell::next_cell;
use crate::model::{lemma_wrap_near, wrap, GridView};
use vstd::prelude::*;

verus! {

impl GridView {
    /// The seam of the torus: the column before the first one is the last,
    /// the column after the last one is the first, and so for the rows;
    /// everywhere else the neighbours lie one step away.
    pub proof fn lemma_edges_wrap(self, x: int, y: int)
        requires
            self.in_bounds(x, y),
        ensures
            wrap(x - 1, self.width as int) == if x == 0 {
                self.width - 1
            } else {
                x - 1
            },
            wrap(x + 1, self.width as int) == if x == self.width - 1 {
                0
            } else {
                x + 1
            },
            wrap(y - 1, self.height as int) == if y == 0 {
                self.height - 1
            } else {
                y - 1
            },
            wrap(y + 1, self.height as int) == if y == self.height - 1 {
                0
            } else {
                y + 1
            },
    {
        lemma_wrap_near(x - 1, self.width as int);
        lemma_wrap_near(x + 1, self.width as int);
        lemma_wrap_near(y - 1, self.height as int);
        lemma_wrap_near(y + 1, self.height as int);
    }

    /// Wrap-around at the corner: the first neighbour of `(0, 0)` is the
    /// opposite corner of the grid, and no neighbour of `(0, 0)` has a
    /// negative component.
    pub proof fn lemma_corner_wraps(self)
        requires
            self.width > 0,
            self.height > 0,
        ensures
            self.neighbors(0, 0)[0] == (self.width - 1, self.height - 1),
            self.neighbors(0, 0).contains((self.width - 1, self.height - 1)),
            forall|i: int|
                0 <= i < 8 ==> (#[trigger] self.neighbors(0, 0)[i]).0 >= 0
                    && self.neighbors(0, 0)[i].1 >= 0,
    {
        self.lemma_edges_wrap(0, 0);
    }

    /// No cell has more than eight live neighbours.
    pub proof fn lemma_alive_neighbors_bound(self, x: int, y: int)
        ensures
            0 <= self.alive_neighbors(x, y) <= 8,
    {
        self.lemma_alive_neighbors_sum(x, y);
    }

    /// A step keeps the rectangle: the next generation has the same width
    /// and height, and again one state for each coordinate and no other.
    pub proof fn lemma_step_total(self)
        ensures
            self.step().width == self.width,
            self.step().height == self.height,
            self.step().wf(),
            self.step().cells.dom().finite(),
            self.step().cells.dom().len() == self.width * self.height,
    {
        self.step().lemma_total();
    }

    /// A step reads the generation before it and nothing else: each cell of
    /// the next generation is the rule applied to that cell's state and to
    /// the number of its live neighbours, both taken before the step.
    pub proof fn lemma_step_reads_snapshot(self, x: int, y: int)
        requires
            self.in_bounds(x, y),
        ensures
            self.step().cells[(x, y)] == next_cell(
                self.cells[(x, y)],
                self.alive_neighbors(x, y) as int,
            ),
    {
    }

    /// Whether `(x, y)` is one of the three cells of the bar that lies in row
    /// `my` around column `mx`; the bar may reach over the edge of the grid.
    pub open spec fn in_row_bar(self, mx: int, my: int, x: int, y: int) -> bool {
        &&& y == my
        &&& x == wrap(mx - 1, self.width as int) || x == mx
            || x == wrap(mx + 1, self.width as int)
    }

    /// Whether `(x, y)` is one of the three cells of the bar that stands in
    /// column `mx` around row `my`; the bar may reach over the edge of the
    /// grid.
    pub open spec fn in_column_bar(self, mx: int, my: int, x: int, y: int) -> bool {
        &&& x == mx
        &&& y == wrap(my - 1, self.height as int) || y == my
            || y == wrap(my + 1, self.height as int)
    }

    /// Whether `(x, y)` is one of the four cells of the block of two by two
    /// cells whose upper left cell is `(bx, by)`; the block may reach over
    /// the edge of the grid.
    pub open spec fn in_block(self, bx: int, by: int, x: int, y: int) -> bool {
        &&& x == bx || x == wrap(bx + 1, self.width as int)
        &&& y == by || y == wrap(by + 1, self.height as int)
    }

    /// Whether `(x, y)` lies in the square of four by four cells around that
    /// block: the block and the ring of twelve cells that touch it.
    pub open spec fn around_block(self, bx: int, by: int, x: int, y: int) -> bool {
        &&& x == wrap(bx - 1, self.width as int) || x == bx
            || x == wrap(bx + 1, self.width as int) || x == wrap(bx + 2, self.width as int)
        &&& y == wrap(by - 1, self.height as int) || y == by
            || y == wrap(by + 1, self.height as int) || y == wrap(by + 2, self.height as int)
    }

    /// The eight neighbours of `(x, y)` are alive exactly where `pattern`
    /// says, if every cell of the grid is.
    proof fn lemma_neighbors_follow(self, pattern: spec_fn(int, int) -> bool, x: int, y: int)
        requires
            self.in_bounds(x, y),
            forall|cx: int, cy: int|
                self.in_bounds(cx, cy) ==> (#[trigger] self.is_alive((cx, cy))
                    <==> pattern(cx, cy)),
        ensures
            forall|i: int|
                0 <= i < 8 ==> (self.alive_at(#[trigger] self.neighbors(x, y)[i]) == 1
                    <==> pattern(self.neighbors(x, y)[i].0, self.neighbors(x, y)[i].1)),
    {
        self.lemma_neighbors_in_bounds(x, y);
        let ns = self.neighbors(x, y);
        assert forall|i: int|
            0 <= i < 8
            implies (self.alive_at(#[trigger] ns[i]) == 1 <==> pattern(ns[i].0, ns[i].1)) by {
            assert(self.is_alive((ns[i].0, ns[i].1)) <==> pattern(ns[i].0, ns[i].1));
        }
    }

    /// The blinker: a bar of three live cells in a row, in a grid that is
    /// dead everywhere else, becomes in one step the bar of three live cells
    /// in the column through its middle, and every other cell is dead. The
    /// two ends of the row die, the middle cell lives on, and the cells above
    /// and below the middle are born. This holds wherever the bar lies, when
    /// the grid has at least five columns and five rows.
    pub proof fn lemma_blinker_turns(self, mx: int, my: int)
        requires
            self.wf(),
            self.width >= 5,
            self.height >= 5,
            self.in_bounds(mx, my),
            forall|x: int, y: int|
                self.in_bounds(x, y) ==> (#[trigger] self.is_alive((x, y))
                    <==> self.in_row_bar(mx, my, x, y)),
        ensures
            forall|x: int, y: int|
                self.in_bounds(x, y) ==> (#[trigger] self.step().is_alive((x, y))
                    <==> self.in_column_bar(mx, my, x, y)),
    {
        let w = self.width as int;
        let h = self.height as int;
        lemma_wrap_near(mx - 1, w);
        lemma_wrap_near(mx + 1, w);
        lemma_wrap_near(my - 1, h);
        lemma_wrap_near(my + 1, h);
        assert forall|x: int, y: int|
            self.in_bounds(x, y)
            implies (#[trigger] self.step().is_alive((x, y))
                <==> self.in_column_bar(mx, my, x, y)) by {
            self.lemma_alive_neighbors_sum(x, y);
            self.lemma_neighbors_follow(|cx: int, cy: int| self.in_row_bar(mx, my, cx, cy), x, y);
            lemma_wrap_near(x - 1, w);
            lemma_wrap_near(x + 1, w);
            lemma_wrap_near(y - 1, h);
            lemma_wrap_near(y + 1, h);
            assert(self.is_alive((x, y)) <==> self.in_row_bar(mx, my, x, y));
        }
    }

    /// A block of two by two live cells with a ring of dead cells around it
    /// lives on: each of its four cells has exactly three live neighbours and
    /// is alive after a step, whatever the rest of the grid holds. The grid
    /// has at least four columns and four rows, so that the ring does not
    /// fold back onto the block.
    pub proof fn lemma_block_survives(self, bx: int, by: int)
        requires
            self.wf(),
            self.width >= 4,
            self.height >= 4,
            self.in_bounds(bx, by),
            forall|x: int, y: int|
                self.in_bounds(x, y) && self.around_block(bx, by, x, y)
                    ==> (#[trigger] self.is_alive((x, y)) <==> self.in_block(bx, by, x, y)),
        ensures
            forall|x: int, y: int|
                self.in_bounds(x, y) && self.in_block(bx, by, x, y)
                    ==> #[trigger] self.alive_neighbors(x, y) == 3,
            forall|x: int, y: int|
                self.in_bounds(x, y) && self.in_block(bx, by, x, y)
                    ==> #[trigger] self.step().is_alive((x, y)),
    {
        let w = self.width as int;
        let h = self.height as int;
        lemma_wrap_near(bx - 1, w);
        lemma_wrap_near(bx + 1, w);
        lemma_wrap_near(bx + 2, w);
        lemma_wrap_near(by - 1, h);
        lemma_wrap_near(by + 1, h);
        lemma_wrap_near(by + 2, h);
        assert forall|x: int, y: int|
            self.in_bounds(x, y) && self.in_block(bx, by, x, y)
            implies #[trigger] self.alive_neighbors(x, y) == 3 by {
            self.lemma_alive_neighbors_sum(x, y);
            self.lemma_neighbors_in_bounds(x, y);
            lemma_wrap_near(x - 1, w);
            lemma_wrap_near(x + 1, w);
            lemma_wrap_near(y - 1, h);
            lemma_wrap_near(y + 1, h);
            let ns = self.neighbors(x, y);
            assert forall|i: int| 0 <= i < 8 implies (self.alive_at(#[trigger] ns[i]) == 1
                <==> self.in_block(bx, by, ns[i].0, ns[i].1)) by {
                assert(self.around_block(bx, by, ns[i].0, ns[i].1));
                let (nx, ny) = ns[i];
                assert(self.is_alive((nx, ny)) <==> self.in_block(bx, by, nx, ny));
            }
        }
        assert forall|x: int, y: int|
            self.in_bounds(x, y) && self.in_block(bx, by, x, y)
            implies #[trigger] self.step().is_alive((x, y)) by {
            assert(self.alive_neighbors(x, y) == 3);
        }
    }

    /// The block is a still life: a block of two by two live cells in a grid
    /// that is dead everywhere else stays as it is, wherever it lies, when
    /// the grid has at least four columns and four rows.
    pub proof fn lemma_block_is_stable(self, bx: int, by: int)
        requires
            self.wf(),
            self.width >= 4,
            self.height >= 4,
            self.in_bounds(bx, by),
            forall|x: int, y: int|
                self.in_bounds(x, y) ==> (#[trigger] self.is_alive((x, y))
                    <==> self.in_block(bx, by, x, y)),
        ensures
            self.step() == self,
    {
        let w = self.width as int;
        let h = self.height as int;
        lemma_wrap_near(bx + 1, w);
        lemma_wrap_near(by + 1, h);
        assert forall|c: (int, int)|
            #[trigger] self.cells.dom().contains(c)
            implies self.step().cells[c] == self.cells[c] by {
            let (x, y) = c;
            self.lemma_alive_neighbors_sum(x, y);
            self.lemma_neighbors_follow(|cx: int, cy: int| self.in_block(bx, by, cx, cy), x, y);
            lemma_wrap_near(x - 1, w);
            lemma_wrap_near(x + 1, w);
            lemma_wrap_near(y - 1, h);
            lemma_wrap_near(y + 1, h);
            assert(self.is_alive((x, y)) <==> self.in_block(bx, by, x, y));
        }
        assert(self.step() =~= self);
    }
}

} // verus!
