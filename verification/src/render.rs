//! The text of a frame.

use crate::cell::glyph_of;
use crate::grid::Grid;
use crate::model::GridView;
use vstd::prelude::*;
use vstd::string::StringExecFns;

verus! {

/// The line of instructions under the grid.
pub const FOOTER: &'static str = "Press Ctrl-C to quit.";

/// The time between two frames, in milliseconds.
pub const TICK_MILLIS: u64 = 500;

impl GridView {
    /// The glyphs of the first `count` cells of row `y`, from left to right.
    pub open spec fn row_glyphs(self, y: int, count: nat) -> Seq<char> {
        Seq::new(count, |x: int| glyph_of(self.cells[(x, y)]))
    }

    /// Row `y` as text: the glyph of each of its cells, then a line feed.
    pub open spec fn row_text(self, y: int) -> Seq<char> {
        self.row_glyphs(y, self.width).push('\n')
    }

    /// The grid as text: its rows from the top, one after the other.
    pub open spec fn text(self) -> Seq<char> {
        Seq::new(self.height, |y: int| self.row_text(y)).flatten()
    }
}

/// A frame as text: the grid, then the footer and a line feed.
pub open spec fn frame_text(grid: GridView) -> Seq<char> {
    grid.text() + FOOTER@ + seq!['\n']
}

/// The frame that shows `grid`: its rows from the top, then the footer
/// line.
pub fn frame(grid: &Grid) -> (text: String)
    ensures
        text@ == frame_text(grid@),
{
    let mut text = grid.render();
    text.append(FOOTER);
    proof {
        reveal_strlit("\n");
    }
    text.append("\n");
    text
}

impl Grid {
    /// The grid as text: row after row from the top, each row as one glyph
    /// for each cell from left to right, and a line feed.
    pub fn render(&self) -> (text: String)
        ensures
            text@ == self@.text(),
    {
        let width = self.width();
        let height = self.height();
        let mut text = String::new();
        let ghost rows = Seq::new(self@.height, |y: int| self@.row_text(y));
        let mut y: usize = 0;
        while y < height
            invariant
                width == self@.width,
                height == self@.height,
                0 <= y <= height,
                rows == Seq::new(self@.height, |y: int| self@.row_text(y)),
                text@ == rows.take(y as int).flatten(),
            decreases height - y,
        {
            let ghost above = text@;
            let mut x: usize = 0;
            while x < width
                invariant
                    width == self@.width,
                    height == self@.height,
                    0 <= y < height,
                    0 <= x <= width,
                    text@ == above + self@.row_glyphs(y as int, x as nat),
                decreases width - x,
            {
                let state = self.get(x, y);
                text.append(state.glyph());
                x = x + 1;
                proof {
                    assert(text@ =~= above + self@.row_glyphs(y as int, x as nat));
                }
            }
            proof {
                reveal_strlit("\n");
            }
            text.append("\n");
            proof {
                assert(text@ =~= above + self@.row_text(y as int));
                assert(rows.take(y + 1) =~= rows.take(y as int).push(rows[y as int]));
                rows.take(y as int).lemma_flatten_push(rows[y as int]);
            }
            y = y + 1;
        }
        proof {
            assert(rows.take(height as int) =~= rows);
        }
        text
    }
}

} // verus!
