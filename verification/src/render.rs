//! The decisions behind each drawn frame: which style a cell gets and which
//! label it shows. The terminal drawing itself stays outside the library,
//! which makes every frame a pure function of the state handed to it.
use vstd::prelude::*;
use crate::game::Coordinate;
use crate::game::GameState;

verus! {

/// How a single cell of the grid is to be styled.
#[derive(Clone, Copy, Debug, PartialEq, Eq, Structural)]
pub enum CellStyle {
    /// Neither under the cursor nor marked.
    Plain,
    /// Under the cursor only.
    CursorOnly,
    /// Marked only.
    MarkedOnly,
    /// Marked and under the cursor at once.
    MarkedAndCursor,
}

/// The style owed to the cell in grid row `i`, grid column `j`: the cursor
/// highlights the cell it stands on, a mark highlights its cell with the two
/// axes swapped, and a marked cell under the cursor gets a third style.
pub open spec fn spec_cell_style(cur: Coordinate, marks: Set<(int, int)>, i: int, j: int) -> CellStyle {
    let is_cursor = cur.x == i && cur.y == j;
    let is_marked = marks.contains((j, i));
    if is_marked {
        if is_cursor {
            CellStyle::MarkedAndCursor
        } else {
            CellStyle::MarkedOnly
        }
    } else if is_cursor {
        CellStyle::CursorOnly
    } else {
        CellStyle::Plain
    }
}

/// The style of the cell in grid row `i`, grid column `j` for this state.
pub fn cell_style(state: &GameState, i: u32, j: u32) -> (r: CellStyle)
    ensures
        r == spec_cell_style(state.cursor_at(), state.marks(), i as int, j as int),
{
    let cur = state.position();
    let is_cursor = cur.x == i && cur.y == j;
    let is_marked = state.is_marked(j, i);
    if is_marked {
        if is_cursor {
            CellStyle::MarkedAndCursor
        } else {
            CellStyle::MarkedOnly
        }
    } else if is_cursor {
        CellStyle::CursorOnly
    } else {
        CellStyle::Plain
    }
}

/// Which label the cell in grid row `i`, grid column `j` shows: the card is
/// laid out row-major, so the boxes are numbered `i * 5 + j + 1`.
pub fn cell_label_index(i: u32, j: u32) -> (r: usize)
    requires
        i < 5,
        j < 5,
    ensures
        r == i * 5 + j,
{
    (i as usize) * 5 + (j as usize)
}

} // verus!
