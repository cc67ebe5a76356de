//! The flood: what a reveal does to a board, as a function of the board.

use super::DEPTH_CEILING;
use crate::grid::cell::Cell;
use crate::grid::cell_builder::CellBuilder;
use vstd::prelude::*;

verus! {

/// The cell at `(x, y)` of a board that has visited `cells`: the one that a
/// visit left there, or the one that the generator makes.
pub open spec fn cell_in(cells: Map<(int, int), Cell>, builder: CellBuilder, x: int, y: int) -> Cell {
    if cells.contains_key((x, y)) {
        cells[(x, y)]
    } else {
        builder.cell_of(x, y)
    }
}

/// The eight neighbours of a place, in the order in which they are visited:
/// column by column from the left, each from the bottom up.
pub open spec fn neighbour_dx(k: int) -> int {
    if k < 3 {
        -1
    } else if k < 5 {
        0
    } else {
        1
    }
}

pub open spec fn neighbour_dy(k: int) -> int {
    if k == 0 || k == 3 || k == 5 {
        -1
    } else if k == 1 || k == 6 {
        0
    } else {
        1
    }
}

/// Whether `(x1, y1)` is one of the eight neighbours of `(x, y)`.
pub open spec fn adjacent(x1: int, y1: int, x: int, y: int) -> bool {
    &&& -1 <= x1 - x <= 1
    &&& -1 <= y1 - y <= 1
    &&& !(x1 == x && y1 == y)
}

/// Whether `(x1, y1)` is one of the first `k` neighbours of `(x, y)`.
pub open spec fn among_first(k: int, x1: int, y1: int, x: int, y: int) -> bool {
    exists|i: int| 0 <= i < k && i < 8 && x1 == x + #[trigger] neighbour_dx(i) && y1 == y + neighbour_dy(i)
}

/// 1 where the cell at `(x, y)` is a mine, else 0.
pub open spec fn mine_in(cells: Map<(int, int), Cell>, builder: CellBuilder, x: int, y: int) -> int {
    if cell_in(cells, builder, x, y).value is Mine {
        1
    } else {
        0
    }
}

/// The number of mines among the first `k` neighbours of `(x, y)`.
pub open spec fn mines_among(
    cells: Map<(int, int), Cell>,
    builder: CellBuilder,
    x: int,
    y: int,
    k: int,
) -> int
    decreases k,
{
    if k <= 0 {
        0
    } else {
        mines_among(cells, builder, x, y, k - 1) + mine_in(
            cells,
            builder,
            x + neighbour_dx(k - 1),
            y + neighbour_dy(k - 1),
        )
    }
}

/// The number of mines among the eight neighbours of `(x, y)`.
pub open spec fn mines_around(cells: Map<(int, int), Cell>, builder: CellBuilder, x: int, y: int) -> int {
    mines_among(cells, builder, x, y, 8)
}

/// The board after the first `k` neighbours of `(x, y)` have been visited:
/// each of them is on the board now, and every cell is what it was.
pub open spec fn visited_first(
    cells: Map<(int, int), Cell>,
    builder: CellBuilder,
    x: int,
    y: int,
    k: int,
) -> Map<(int, int), Cell> {
    Map::new(
        |p: (int, int)| cells.contains_key(p) || among_first(k, p.0, p.1, x, y),
        |p: (int, int)| cell_in(cells, builder, p.0, p.1),
    )
}

/// The board after the eight neighbours of `(x, y)` have been visited.
pub open spec fn visited_around(cells: Map<(int, int), Cell>, builder: CellBuilder, x: int, y: int) -> Map<
    (int, int),
    Cell,
> {
    visited_first(cells, builder, x, y, 8)
}

/// One more revealed cell; the count stops at the largest number it holds.
pub open spec fn counted_up(count: u32) -> u32 {
    if count < u32::MAX {
        (count + 1) as u32
    } else {
        count
    }
}

/// What a flood works on: the visited cells, the count of revealed cells,
/// whether a mine was revealed, and whether the flood gave up.
pub struct Sweep {
    pub cells: Map<(int, int), Cell>,
    pub revealed: u32,
    pub lost: bool,
    pub aborted: bool,
}

/// The flood from `(x, y)`, entered at the given depth of nesting.
///
/// A revealed cell stops it at once. Any other cell is uncovered (a flagged
/// cell keeps its flag), and the depth grows by one; at the ceiling the
/// flood gives up. A mine loses the game. An empty cell is counted, its
/// eight neighbours are visited, and if none of them is a mine, the flood
/// goes on from each of them in turn.
pub open spec fn flood(sweep: Sweep, builder: CellBuilder, x: int, y: int, depth: int) -> Sweep
    decreases DEPTH_CEILING - depth, 0int,
{
    let cell = cell_in(sweep.cells, builder, x, y);
    if cell.state is Revealed {
        sweep
    } else {
        let uncovered = sweep.cells.insert((x, y), cell.spec_uncover());
        if depth + 1 >= DEPTH_CEILING {
            Sweep { cells: uncovered, aborted: true, ..sweep }
        } else if cell.value is Mine {
            Sweep { cells: uncovered, lost: true, ..sweep }
        } else {
            let counted = Sweep {
                cells: visited_around(uncovered, builder, x, y),
                revealed: counted_up(sweep.revealed),
                ..sweep
            };
            if mines_around(uncovered, builder, x, y) != 0 {
                counted
            } else {
                flood_from(counted, builder, x, y, depth + 1, 0)
            }
        }
    }
}

/// The floods from the neighbours of `(x, y)`, from the `k`-th on, each
/// entered at the given depth. A flood that gives up ends them all.
pub open spec fn flood_from(sweep: Sweep, builder: CellBuilder, x: int, y: int, depth: int, k: int) -> Sweep
    decreases DEPTH_CEILING - depth, 9 - k,
{
    if k < 0 || k >= 8 || sweep.aborted || depth >= DEPTH_CEILING {
        sweep
    } else {
        flood_from(
            flood(sweep, builder, x + neighbour_dx(k), y + neighbour_dy(k), depth),
            builder,
            x,
            y,
            depth,
            k + 1,
        )
    }
}

/// The reveals of the neighbours of `(x, y)` that are not flagged, from the
/// `k`-th on, each a flood of its own. They end when the game is lost or a
/// flood gives up.
pub open spec fn chord_from(sweep: Sweep, builder: CellBuilder, x: int, y: int, k: int) -> Sweep
    decreases 8 - k,
{
    if k < 0 || k >= 8 || sweep.aborted || sweep.lost {
        sweep
    } else {
        let nx = x + neighbour_dx(k);
        let ny = y + neighbour_dy(k);
        let cell = cell_in(sweep.cells, builder, nx, ny);
        let looked = Sweep { cells: sweep.cells.insert((nx, ny), cell), ..sweep };
        let next = if cell.state is Flagged {
            looked
        } else {
            flood(looked, builder, nx, ny, 0)
        };
        chord_from(next, builder, x, y, k + 1)
    }
}

} // verus!
