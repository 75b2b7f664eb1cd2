//! Seeding a grid with coin flips.

use crate::cell::CellState;
use crate::grid::{Grid, HEIGHT, WIDTH};
use crate::model::GridView;
use rand::rngs::ThreadRng;
use rand::Rng;
use vstd::prelude::*;

verus! {

/// `rand::rngs::ThreadRng`, the handle on the thread's random generator.
/// Nothing is known of what it holds.
#[verifier::external_type_specification]
#[verifier::external_body]
pub struct ExThreadRng(rand::rngs::ThreadRng);

/// `rand::thread_rng` hands out the handle on the thread's generator, which
/// the system seeds. Nothing is claimed of the handle. The call takes no
/// argument and panics only where the system cannot seed the generator.
pub assume_specification[ rand::thread_rng ]() -> (rng: ThreadRng)
;

/// `rand::Rng::gen_ratio` on the thread's generator: a flip that comes up
/// `true` with `numerator` chances in `denominator`. The call panics on a
/// ratio above one or with a zero denominator, which `requires` leaves out.
/// Of the result only the two certain cases are claimed: a ratio of one
/// always gives `true`, a ratio of zero always gives `false`.
#[verifier::external_body]
fn draw_ratio(rng: &mut ThreadRng, numerator: u32, denominator: u32) -> (hit: bool)
    requires
        denominator > 0,
        numerator <= denominator,
    ensures
        numerator == denominator ==> hit,
        numerator == 0 ==> !hit,
{
    rng.gen_ratio(numerator, denominator)
}

/// The state that a coin flip gives a cell: alive on `true`, dead on `false`.
pub open spec fn cell_of_draw(draw: bool) -> CellState {
    if draw {
        CellState::ALIVE
    } else {
        CellState::DEAD
    }
}

impl GridView {
    /// The grid of `width` by `height` cells that a run of coin flips gives:
    /// the flips are dealt column after column, each column from the top, and
    /// a cell is alive where its flip is `true`.
    pub open spec fn seeded(width: nat, height: nat, draws: Seq<bool>) -> GridView {
        GridView {
            width,
            height,
            cells: Map::new(
                |c: (int, int)| 0 <= c.0 < width && 0 <= c.1 < height,
                |c: (int, int)| cell_of_draw(draws[c.0 * height + c.1]),
            ),
        }
    }
}

/// The state that a coin flip gives a cell.
pub fn cell_from_draw(draw: bool) -> (state: CellState)
    ensures
        state == cell_of_draw(draw),
{
    if draw {
        CellState::ALIVE
    } else {
        CellState::DEAD
    }
}

/// `count` flips of a fair coin, in the order in which they fell.
fn fair_draws(count: usize) -> (draws: Vec<bool>)
    ensures
        draws.len() == count,
{
    let mut rng = rand::thread_rng();
    let mut draws: Vec<bool> = Vec::new();
    while draws.len() < count
        invariant
            draws.len() <= count,
        decreases count - draws.len(),
    {
        let draw = draw_ratio(&mut rng, 1, 2);
        draws.push(draw);
    }
    draws
}

/// Deals `draws` onto a grid, column after column and each column from the
/// top.
fn deal(width: usize, height: usize, draws: &Vec<bool>) -> (grid: Grid)
    requires
        draws.len() == width * height,
    ensures
        grid@ == GridView::seeded(width as nat, height as nat, draws@),
{
    let mut grid = Grid::new(width, height);
    let mut x: usize = 0;
    while x < width
        invariant
            draws.len() == width * height,
            0 <= x <= width,
            grid@.width == width,
            grid@.height == height,
            grid@.wf(),
            forall|c: (int, int)|
                0 <= c.0 < x && 0 <= c.1 < height
                    ==> #[trigger] grid@.cells[c] == cell_of_draw(draws@[c.0 * height + c.1]),
        decreases width - x,
    {
        let mut y: usize = 0;
        while y < height
            invariant
                draws.len() == width * height,
                0 <= x < width,
                0 <= y <= height,
                grid@.width == width,
                grid@.height == height,
                grid@.wf(),
                forall|c: (int, int)|
                    0 <= c.1 < height && (0 <= c.0 < x || (c.0 == x && c.1 < y))
                        ==> #[trigger] grid@.cells[c] == cell_of_draw(draws@[c.0 * height + c.1]),
            decreases height - y,
        {
            proof {
                lemma_draw_in_range(width as int, height as int, x as int, y as int);
            }
            let state = cell_from_draw(draws[x * height + y]);
            grid.set(x, y, state);
            y = y + 1;
        }
        x = x + 1;
    }
    proof {
        assert(grid@ =~= GridView::seeded(width as nat, height as nat, draws@));
    }
    grid
}

/// The flip for `(x, y)` lies among the `width * height` flips.
proof fn lemma_draw_in_range(width: int, height: int, x: int, y: int)
    requires
        0 <= x < width,
        0 <= y < height,
    ensures
        0 <= x * height <= x * height + y < width * height,
{
    assert(0 <= x * height && x * height + height <= width * height) by (nonlinear_arith)
        requires
            0 <= x < width,
            0 < height,
    {
    }
}

impl Grid {
    /// The grid of `width` by `height` cells that `draws` gives, one flip for
    /// each cell: the flips are dealt column after column, each column from
    /// the top, and a cell is alive where its flip is `true`. There is no
    /// grid where the number of flips is not the number of cells.
    pub fn from_draws(width: usize, height: usize, draws: &Vec<bool>) -> (seeded: Option<Grid>)
        ensures
            match seeded {
                Some(grid) => draws.len() == width * height && grid@ == GridView::seeded(
                    width as nat,
                    height as nat,
                    draws@,
                ),
                None => draws.len() != width * height,
            },
    {
        match width.checked_mul(height) {
            Some(cells) => {
                if cells == draws.len() {
                    Some(deal(width, height, draws))
                } else {
                    None
                }
            },
            None => None,
        }
    }
}

/// A grid of `WIDTH` by `HEIGHT` cells in which every cell is alive or dead
/// on the flip of a fair coin, each cell with a flip of its own. Whatever the
/// flips, the grid holds exactly one state for every coordinate.
pub fn seed_cells() -> (grid: Grid)
    ensures
        grid@.width == WIDTH,
        grid@.height == HEIGHT,
        grid@.wf(),
        grid@.cells.dom().finite(),
        grid@.cells.dom().len() == WIDTH * HEIGHT,
{
    let draws = fair_draws(WIDTH * HEIGHT);
    let grid = deal(WIDTH, HEIGHT, &draws);
    proof {
        grid@.lemma_total();
    }
    grid
}

} // verus!
