//! Cell states and the transition rule.

use vstd::prelude::*;

verus! {

/// The state of one cell.
#[allow(non_camel_case_types)]
#[derive(Clone, Copy, Debug, PartialEq, Eq, Structural)]
pub enum CellState {
    ALIVE,
    DEAD,
}

/// Conway's rule as a function of the current state and the number of live
/// neighbours: birth on three, survival on two or three, death otherwise.
pub open spec fn next_cell(current: CellState, alive_neighbors: int) -> CellState {
    if alive_neighbors == 3 || (current == CellState::ALIVE && alive_neighbors == 2) {
        CellState::ALIVE
    } else {
        CellState::DEAD
    }
}

/// The glyph that stands for a cell on screen: a filled block for a live
/// cell, a blank for a dead one.
pub open spec fn glyph_of(state: CellState) -> char {
    match state {
        CellState::ALIVE => '\u{2589}',
        CellState::DEAD => ' ',
    }
}

impl CellState {
    /// The glyph of this cell, as text of one character.
    pub fn glyph(&self) -> (text: &'static str)
        ensures
            text@ == seq![glyph_of(*self)],
    {
        match self {
            CellState::ALIVE => {
                proof {
                    reveal_strlit("\u{2589}");
                }
                "\u{2589}"
            },
            CellState::DEAD => {
                proof {
                    reveal_strlit(" ");
                }
                " "
            },
        }
    }
}

/// The state of a cell in the next generation, given its current state and
/// the number of its live neighbours.
pub fn next_state(current_state: &CellState, neighbor_count: u8) -> (next: CellState)
    ensures
        next == next_cell(*current_state, neighbor_count as int),
{
    match current_state {
        CellState::ALIVE => if neighbor_count == 2 || neighbor_count == 3 {
            CellState::ALIVE
        } else {
            CellState::DEAD
        },
        CellState::DEAD => if neighbor_count == 3 {
            CellState::ALIVE
        } else {
            CellState::DEAD
        },
    }
}

/// The transition table. A live cell stays alive exactly on two or three
/// live neighbours, a dead cell comes alive exactly on three, and every
/// other combination gives a dead cell.
pub proof fn lemma_transition_table(current: CellState, alive_neighbors: int)
    ensures
        current == CellState::ALIVE ==> (next_cell(current, alive_neighbors) == CellState::ALIVE
            <==> alive_neighbors == 2 || alive_neighbors == 3),
        current == CellState::DEAD ==> (next_cell(current, alive_neighbors) == CellState::ALIVE
            <==> alive_neighbors == 3),
        next_cell(current, alive_neighbors) == CellState::DEAD <==> !((current == CellState::ALIVE
            && (alive_neighbors == 2 || alive_neighbors == 3)) || (current == CellState::DEAD
            && alive_neighbors == 3)),
{
}

} // verus!
