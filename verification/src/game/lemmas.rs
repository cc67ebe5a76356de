//! What holds of every flood, chord and action.

use super::flood::{
    cell_in, chord_from, counted_up, flood, flood_from, mine_in, mines_among, mines_around,
    neighbour_dx, neighbour_dy, visited_around, Sweep,
};
use super::{
    lemma_chased_is_tethered, lemma_pulled_is_tethered, Action, Direction, Game, GameView,
    DEPTH_CEILING,
};
use crate::fatal::Fatal;
use crate::grid::cell::Cell;
use crate::grid::cell_builder::{clear_at, no_clear_start, value_at, CellBuilder};
use crate::helper::SizeUsize;
use vstd::prelude::*;

verus! {

/// Whether every visited cell holds what the generator gives for its place.
pub open spec fn faithful(cells: Map<(int, int), Cell>, builder: CellBuilder) -> bool {
    forall|x: int, y: int| #[trigger]
        cells.contains_key((x, y)) ==> cells[(x, y)].value == builder.value_of(x, y)
}

/// How play may change a board: no visited cell leaves it, no cell changes
/// what it holds, and a cell's state takes only the steps that the rules
/// allow.
pub open spec fn follows(
    before: Map<(int, int), Cell>,
    after: Map<(int, int), Cell>,
    builder: CellBuilder,
) -> bool {
    &&& forall|x: int, y: int| #[trigger]
        before.contains_key((x, y)) ==> after.contains_key((x, y))
    &&& forall|x: int, y: int|
        (#[trigger] cell_in(after, builder, x, y)).value == cell_in(before, builder, x, y).value
    &&& forall|x: int, y: int|
        cell_in(before, builder, x, y).state.may_become((#[trigger] cell_in(after, builder, x, y)).state)
}

/// How a flood may change a board: as play may, but no flag is set or
/// taken off, so a state changes only from hidden to revealed; the count
/// does not fall, and a loss stays.
pub open spec fn floods_to(before: Sweep, after: Sweep, builder: CellBuilder) -> bool {
    &&& follows(before.cells, after.cells, builder)
    &&& forall|x: int, y: int|
        {
            let was = cell_in(before.cells, builder, x, y).state;
            let is = (#[trigger] cell_in(after.cells, builder, x, y)).state;
            is == was || (was is Hidden && is is Revealed)
        }
    &&& before.revealed <= after.revealed
    &&& before.lost ==> after.lost
    &&& faithful(before.cells, builder) ==> faithful(after.cells, builder)
}

/// Visiting the neighbours of a place changes no cell.
pub proof fn lemma_visit_changes_nothing(
    cells: Map<(int, int), Cell>,
    builder: CellBuilder,
    x: int,
    y: int,
)
    ensures
        forall|x1: int, y1: int|
            cell_in(#[trigger] visited_around(cells, builder, x, y), builder, x1, y1) == cell_in(
                cells,
                builder,
                x1,
                y1,
            ),
        forall|x1: int, y1: int| #[trigger]
            cells.contains_key((x1, y1)) ==> visited_around(cells, builder, x, y).contains_key((x1, y1)),
        faithful(cells, builder) ==> faithful(visited_around(cells, builder, x, y), builder),
{
    let visited = visited_around(cells, builder, x, y);
    assert forall|x1: int, y1: int|
        cell_in(visited, builder, x1, y1) == cell_in(cells, builder, x1, y1) by {}
    if faithful(cells, builder) {
        assert forall|x1: int, y1: int| #[trigger] visited.contains_key((x1, y1)) implies visited[(
            x1,
            y1,
        )].value == builder.value_of(x1, y1) by {
            assert(visited[(x1, y1)] == cell_in(cells, builder, x1, y1));
        }
    }
}

/// The steps of a flood compose.
pub proof fn lemma_floods_to_twice(a: Sweep, b: Sweep, c: Sweep, builder: CellBuilder)
    requires
        floods_to(a, b, builder),
        floods_to(b, c, builder),
    ensures
        floods_to(a, c, builder),
{
    assert forall|x: int, y: int|
        cell_in(a.cells, builder, x, y).state.may_become(
            (#[trigger] cell_in(c.cells, builder, x, y)).state,
        ) by {
        let via = cell_in(b.cells, builder, x, y);
    }
    assert forall|x: int, y: int|
        (#[trigger] cell_in(c.cells, builder, x, y)).value == cell_in(a.cells, builder, x, y).value by {
        let via = cell_in(b.cells, builder, x, y);
    }
    assert forall|x: int, y: int|
        {
            let was = cell_in(a.cells, builder, x, y).state;
            let is = (#[trigger] cell_in(c.cells, builder, x, y)).state;
            is == was || (was is Hidden && is is Revealed)
        } by {
        let via = cell_in(b.cells, builder, x, y);
    }
    assert forall|x: int, y: int| #[trigger] a.cells.contains_key((x, y)) implies c.cells.contains_key(
        (x, y),
    ) by {
        assert(b.cells.contains_key((x, y)));
    }
}

/// A flood changes the board as the rules allow: every cell keeps what it
/// holds, a flagged cell keeps its flag, a revealed cell stays revealed,
/// and a hidden cell stays hidden or is revealed.
pub proof fn lemma_flood(sweep: Sweep, builder: CellBuilder, x: int, y: int, depth: int)
    ensures
        floods_to(sweep, flood(sweep, builder, x, y, depth), builder),
    decreases DEPTH_CEILING - depth, 0int,
{
    let cell = cell_in(sweep.cells, builder, x, y);
    if !(cell.state is Revealed) {
        let uncovered = sweep.cells.insert((x, y), cell.spec_uncover());
        let opened = Sweep { cells: uncovered, ..sweep };
        assert(floods_to(sweep, opened, builder)) by {
            assert forall|x1: int, y1: int|
                {
                    let was = cell_in(sweep.cells, builder, x1, y1);
                    let is = #[trigger] cell_in(uncovered, builder, x1, y1);
                    is.value == was.value && (is.state == was.state || (was.state is Hidden
                        && is.state is Revealed))
                } by {}
            if faithful(sweep.cells, builder) {
                assert forall|x1: int, y1: int| #[trigger]
                    uncovered.contains_key((x1, y1)) implies uncovered[(x1, y1)].value
                    == builder.value_of(x1, y1) by {
                    if !(x1 == x && y1 == y) {
                        assert(sweep.cells.contains_key((x1, y1)));
                    } else if sweep.cells.contains_key((x, y)) {
                    }
                }
            }
        }
        if depth + 1 < DEPTH_CEILING && !(cell.value is Mine) {
            lemma_visit_changes_nothing(uncovered, builder, x, y);
            let counted = Sweep {
                cells: visited_around(uncovered, builder, x, y),
                revealed: counted_up(sweep.revealed),
                ..sweep
            };
            assert(floods_to(opened, counted, builder));
            lemma_floods_to_twice(sweep, opened, counted, builder);
            if mines_around(uncovered, builder, x, y) == 0 {
                lemma_flood_from(counted, builder, x, y, depth + 1, 0);
                lemma_floods_to_twice(
                    sweep,
                    counted,
                    flood_from(counted, builder, x, y, depth + 1, 0),
                    builder,
                );
            }
        } else {
            let ended = flood(sweep, builder, x, y, depth);
            assert(ended.cells == uncovered);
        }
    }
}

/// The floods from the neighbours of a place change the board as the rules
/// allow.
pub proof fn lemma_flood_from(sweep: Sweep, builder: CellBuilder, x: int, y: int, depth: int, k: int)
    ensures
        floods_to(sweep, flood_from(sweep, builder, x, y, depth, k), builder),
    decreases DEPTH_CEILING - depth, 9 - k,
{
    if !(k < 0 || k >= 8 || sweep.aborted || depth >= DEPTH_CEILING) {
        let next = flood(sweep, builder, x + neighbour_dx(k), y + neighbour_dy(k), depth);
        lemma_flood(sweep, builder, x + neighbour_dx(k), y + neighbour_dy(k), depth);
        lemma_flood_from(next, builder, x, y, depth, k + 1);
        lemma_floods_to_twice(sweep, next, flood_from(next, builder, x, y, depth, k + 1), builder);
    }
}

/// A chord changes the board as the rules allow.
pub proof fn lemma_chord_from(sweep: Sweep, builder: CellBuilder, x: int, y: int, k: int)
    ensures
        floods_to(sweep, chord_from(sweep, builder, x, y, k), builder),
    decreases 8 - k,
{
    if !(k < 0 || k >= 8 || sweep.aborted || sweep.lost) {
        let nx = x + neighbour_dx(k);
        let ny = y + neighbour_dy(k);
        let cell = cell_in(sweep.cells, builder, nx, ny);
        let looked = Sweep { cells: sweep.cells.insert((nx, ny), cell), ..sweep };
        lemma_look(sweep, builder, nx, ny);
        let next = if cell.state is Flagged {
            looked
        } else {
            flood(looked, builder, nx, ny, 0)
        };
        if !(cell.state is Flagged) {
            lemma_flood(looked, builder, nx, ny, 0);
            lemma_floods_to_twice(sweep, looked, next, builder);
        }
        lemma_chord_from(next, builder, x, y, k + 1);
        lemma_floods_to_twice(sweep, next, chord_from(next, builder, x, y, k + 1), builder);
    }
}

/// A look at a cell changes no cell.
pub proof fn lemma_look(sweep: Sweep, builder: CellBuilder, x: int, y: int)
    ensures
        floods_to(
            sweep,
            Sweep { cells: sweep.cells.insert((x, y), cell_in(sweep.cells, builder, x, y)), ..sweep },
            builder,
        ),
{
    let cell = cell_in(sweep.cells, builder, x, y);
    let looked = sweep.cells.insert((x, y), cell);
    assert forall|x1: int, y1: int|
        #[trigger] cell_in(looked, builder, x1, y1) == cell_in(sweep.cells, builder, x1, y1) by {}
    if faithful(sweep.cells, builder) {
        assert forall|x1: int, y1: int| #[trigger] looked.contains_key((x1, y1)) implies looked[(
            x1,
            y1,
        )].value == builder.value_of(x1, y1) by {
            if !(x1 == x && y1 == y) {
                assert(sweep.cells.contains_key((x1, y1)));
            } else if sweep.cells.contains_key((x, y)) {
            }
        }
    }
}

/// Revealing a revealed cell changes nothing: not the board, not the count,
/// not the state of the game, at whatever depth the flood is entered.
pub proof fn lemma_reveal_is_idempotent(sweep: Sweep, builder: CellBuilder, x: int, y: int, depth: int)
    requires
        cell_in(sweep.cells, builder, x, y).state is Revealed,
    ensures
        flood(sweep, builder, x, y, depth) == sweep,
{
}

/// A reveal at a revealed cell changes nothing, whatever the state of the
/// game and the window: no cell changes, and the cursor, the camera, the
/// count and the state stay; nor does it give up.
pub proof fn lemma_reveal_action_is_idempotent(view: GameView)
    requires
        cell_in(view.cells, view.builder, view.cursor.x as int, view.cursor.y as int).state is Revealed,
    ensures
        view.after(Action::Reveal) == (view, false),
{
    lemma_reveal_is_idempotent(view.sweep(), view.builder, view.cursor.x as int, view.cursor.y as int, 0);
    if !(view.window_too_small() || view.state is Lost) {
        assert(view.swept(view.sweep()) == view);
    }
}

/// A reveal at a mine that is not revealed, in a game that is underway and
/// whose window is not too small, loses the game: the count stays, no
/// other cell changes, the mine is uncovered unless it is flagged, and the
/// reveal does not give up.
pub proof fn lemma_reveal_action_on_a_mine(view: GameView)
    requires
        view.state is Underway,
        !view.window_too_small(),
        cell_in(view.cells, view.builder, view.cursor.x as int, view.cursor.y as int).value is Mine,
        !(cell_in(view.cells, view.builder, view.cursor.x as int, view.cursor.y as int).state is Revealed),
    ensures
        view.after(Action::Reveal).0.state is Lost,
        !view.after(Action::Reveal).1,
        view.after(Action::Reveal).0.revealed_cell_count == view.revealed_cell_count,
        view.after(Action::Reveal).0.cursor == view.cursor,
        view.after(Action::Reveal).0.origin == view.origin,
        view.after(Action::Reveal).0.cells == view.cells.insert(
            (view.cursor.x as int, view.cursor.y as int),
            cell_in(view.cells, view.builder, view.cursor.x as int, view.cursor.y as int).spec_uncover(),
        ),
{
    lemma_mine_loses(view.sweep(), view.builder, view.cursor.x as int, view.cursor.y as int);
}

/// A reveal leaves a revealed cell behind unless the cell is flagged, and
/// then the cell keeps its flag; so a second reveal of a cell that was not
/// flagged changes nothing.
pub proof fn lemma_reveal_twice(sweep: Sweep, builder: CellBuilder, x: int, y: int, depth: int)
    requires
        !(cell_in(sweep.cells, builder, x, y).state is Flagged),
    ensures
        cell_in(flood(sweep, builder, x, y, depth).cells, builder, x, y).state is Revealed,
        flood(flood(sweep, builder, x, y, depth), builder, x, y, depth) == flood(
            sweep,
            builder,
            x,
            y,
            depth,
        ),
{
    let cell = cell_in(sweep.cells, builder, x, y);
    if !(cell.state is Revealed) {
        let uncovered = sweep.cells.insert((x, y), cell.spec_uncover());
        let opened = Sweep { cells: uncovered, ..sweep };
        assert(cell_in(uncovered, builder, x, y).state is Revealed);
        if depth + 1 < DEPTH_CEILING && !(cell.value is Mine) {
            lemma_visit_changes_nothing(uncovered, builder, x, y);
            let counted = Sweep {
                cells: visited_around(uncovered, builder, x, y),
                revealed: counted_up(sweep.revealed),
                ..sweep
            };
            assert(cell_in(counted.cells, builder, x, y).state is Revealed);
            if mines_around(uncovered, builder, x, y) == 0 {
                lemma_flood_from(counted, builder, x, y, depth + 1, 0);
            }
        }
    }
}

/// A flag is set on a hidden cell and taken off a flagged one; on a
/// revealed cell it changes nothing. No other cell changes.
pub proof fn lemma_flag_toggles(view: GameView, x: int, y: int)
    ensures
        ({
            let was = cell_in(view.cells, view.builder, x, y);
            let is = cell_in(view.flag_toggled(x, y).cells, view.builder, x, y);
            &&& is.value == was.value
            &&& was.state is Hidden ==> is.state is Flagged
            &&& was.state is Flagged ==> is.state is Hidden
            &&& was.state is Revealed ==> is.state is Revealed
        }),
        forall|x1: int, y1: int|
            !(x1 == x && y1 == y) ==> #[trigger] cell_in(
                view.flag_toggled(x, y).cells,
                view.builder,
                x1,
                y1,
            ) == cell_in(view.cells, view.builder, x1, y1),
        follows(view.cells, view.flag_toggled(x, y).cells, view.builder),
        cell_in(view.cells, view.builder, x, y).state is Revealed ==> view.flag_toggled(x, y).cells
            == view.cells,
{
    let toggled = view.flag_toggled(x, y).cells;
    assert forall|x1: int, y1: int|
        !(x1 == x && y1 == y) implies #[trigger] cell_in(toggled, view.builder, x1, y1) == cell_in(
        view.cells,
        view.builder,
        x1,
        y1,
    ) by {}
    if cell_in(view.cells, view.builder, x, y).state is Revealed {
        assert(toggled =~= view.cells);
    }
}

/// A reveal never changes a flagged cell: not the one it is aimed at, and
/// none that the flood comes by.
pub proof fn lemma_reveal_keeps_flags(view: GameView, x: int, y: int, x1: int, y1: int)
    requires
        cell_in(view.cells, view.builder, x1, y1).state is Flagged,
    ensures
        cell_in(view.flooded(x, y).cells, view.builder, x1, y1) == cell_in(
            view.cells,
            view.builder,
            x1,
            y1,
        ),
        cell_in(view.chorded(x, y).cells, view.builder, x1, y1) == cell_in(
            view.cells,
            view.builder,
            x1,
            y1,
        ),
{
    lemma_flood(view.sweep(), view.builder, x, y, 0);
    lemma_chorded(view, x, y);
    let a = cell_in(view.flooded(x, y).cells, view.builder, x1, y1);
    let b = cell_in(view.chorded(x, y).cells, view.builder, x1, y1);
}

/// A chord changes the board as a flood may.
pub proof fn lemma_chorded(view: GameView, x: int, y: int)
    ensures
        floods_to(view.sweep(), view.chorded(x, y), view.builder),
{
    let cell = cell_in(view.cells, view.builder, x, y);
    let looked = Sweep { cells: view.cells.insert((x, y), cell), ..view.sweep() };
    lemma_look(view.sweep(), view.builder, x, y);
    if cell.state is Revealed {
        lemma_chord_from(looked, view.builder, x, y, 0);
        lemma_floods_to_twice(
            view.sweep(),
            looked,
            chord_from(looked, view.builder, x, y, 0),
            view.builder,
        );
    }
}

/// Whatever is done short of a reset, the board changes as the rules
/// allow: every cell keeps what it holds and stays on the board, and its
/// state goes from hidden to flagged, from flagged to hidden, or from
/// hidden to revealed, or stays. A game that is lost stays lost.
pub proof fn lemma_action_follows(view: GameView, action: Action)
    requires
        !(action is Reset),
    ensures
        follows(view.cells, view.after(action).0.cells, view.builder),
        view.after(action).0.builder == view.builder,
        view.state is Lost ==> view.after(action).0.state is Lost,
        view.state is Lost ==> view.after(action).0.cells == view.cells,
        view.state is Lost ==> view.after(action).0.revealed_cell_count == view.revealed_cell_count,
        view.revealed_cell_count <= view.after(action).0.revealed_cell_count,
{
    let after = view.after(action).0;
    match action {
        Action::Flag => {
            lemma_flag_toggles(view, view.cursor.x as int, view.cursor.y as int);
        },
        Action::Reveal => {
            lemma_flood(view.sweep(), view.builder, view.cursor.x as int, view.cursor.y as int, 0);
        },
        Action::RevealAdjacent => {
            lemma_chorded(view, view.cursor.x as int, view.cursor.y as int);
        },
        _ => {},
    }
    assert forall|x: int, y: int|
        cell_in(view.cells, view.builder, x, y).state.may_become(
            (#[trigger] cell_in(after.cells, view.builder, x, y)).state,
        ) by {}
}

/// A mine under a reveal ends the game at once: the cell is uncovered,
/// nothing is counted and no other cell is touched.
pub proof fn lemma_mine_loses(sweep: Sweep, builder: CellBuilder, x: int, y: int)
    requires
        cell_in(sweep.cells, builder, x, y).value is Mine,
        !(cell_in(sweep.cells, builder, x, y).state is Revealed),
    ensures
        flood(sweep, builder, x, y, 0) == (Sweep {
            cells: sweep.cells.insert((x, y), cell_in(sweep.cells, builder, x, y).spec_uncover()),
            lost: true,
            ..sweep
        }),
{
}

/// The number of mines about a place is none exactly when every neighbour
/// is empty.
pub proof fn lemma_no_mines_around(cells: Map<(int, int), Cell>, builder: CellBuilder, x: int, y: int)
    ensures
        0 <= mines_around(cells, builder, x, y) <= 8,
        mines_around(cells, builder, x, y) == 0 <==> forall|k: int|
            0 <= k < 8 ==> (#[trigger] cell_in(
                cells,
                builder,
                x + neighbour_dx(k),
                y + neighbour_dy(k),
            )).value is Empty,
{
    reveal_with_fuel(mines_among, 9);
    if mines_around(cells, builder, x, y) == 0 {
        assert forall|k: int| 0 <= k < 8 implies (#[trigger] cell_in(
            cells,
            builder,
            x + neighbour_dx(k),
            y + neighbour_dy(k),
        )).value is Empty by {
            assert(mine_in(cells, builder, x + neighbour_dx(k), y + neighbour_dy(k)) == 0);
        }
    }
    if forall|k: int|
        0 <= k < 8 ==> (#[trigger] cell_in(
            cells,
            builder,
            x + neighbour_dx(k),
            y + neighbour_dy(k),
        )).value is Empty {
        assert(cell_in(cells, builder, x + neighbour_dx(0), y + neighbour_dy(0)).value is Empty);
        assert(cell_in(cells, builder, x + neighbour_dx(1), y + neighbour_dy(1)).value is Empty);
        assert(cell_in(cells, builder, x + neighbour_dx(2), y + neighbour_dy(2)).value is Empty);
        assert(cell_in(cells, builder, x + neighbour_dx(3), y + neighbour_dy(3)).value is Empty);
        assert(cell_in(cells, builder, x + neighbour_dx(4), y + neighbour_dy(4)).value is Empty);
        assert(cell_in(cells, builder, x + neighbour_dx(5), y + neighbour_dy(5)).value is Empty);
        assert(cell_in(cells, builder, x + neighbour_dx(6), y + neighbour_dy(6)).value is Empty);
        assert(cell_in(cells, builder, x + neighbour_dx(7), y + neighbour_dy(7)).value is Empty);
    }
}

/// A flood that starts on an empty cell never reveals a mine: it goes on
/// only from cells with no mine about them.
pub proof fn lemma_empty_start_is_safe(sweep: Sweep, builder: CellBuilder, x: int, y: int, depth: int)
    requires
        cell_in(sweep.cells, builder, x, y).value is Empty,
    ensures
        flood(sweep, builder, x, y, depth).lost == sweep.lost,
    decreases DEPTH_CEILING - depth, 0int,
{
    let cell = cell_in(sweep.cells, builder, x, y);
    if !(cell.state is Revealed) && depth + 1 < DEPTH_CEILING {
        let uncovered = sweep.cells.insert((x, y), cell.spec_uncover());
        lemma_visit_changes_nothing(uncovered, builder, x, y);
        let counted = Sweep {
            cells: visited_around(uncovered, builder, x, y),
            revealed: counted_up(sweep.revealed),
            ..sweep
        };
        if mines_around(uncovered, builder, x, y) == 0 {
            lemma_no_mines_around(uncovered, builder, x, y);
            assert forall|k: int| 0 <= k < 8 implies (#[trigger] cell_in(
                counted.cells,
                builder,
                x + neighbour_dx(k),
                y + neighbour_dy(k),
            )).value is Empty by {
                assert(cell_in(uncovered, builder, x + neighbour_dx(k), y + neighbour_dy(k)).value is Empty);
            }
            lemma_empty_neighbours_are_safe(counted, builder, x, y, depth + 1, 0);
        }
    }
}

/// The floods from neighbours that are all empty never reveal a mine.
pub proof fn lemma_empty_neighbours_are_safe(
    sweep: Sweep,
    builder: CellBuilder,
    x: int,
    y: int,
    depth: int,
    k: int,
)
    requires
        forall|i: int|
            0 <= i < 8 ==> (#[trigger] cell_in(
                sweep.cells,
                builder,
                x + neighbour_dx(i),
                y + neighbour_dy(i),
            )).value is Empty,
    ensures
        flood_from(sweep, builder, x, y, depth, k).lost == sweep.lost,
    decreases DEPTH_CEILING - depth, 9 - k,
{
    if !(k < 0 || k >= 8 || sweep.aborted || depth >= DEPTH_CEILING) {
        let nx = x + neighbour_dx(k);
        let ny = y + neighbour_dy(k);
        let next = flood(sweep, builder, nx, ny, depth);
        assert(cell_in(sweep.cells, builder, nx, ny).value is Empty);
        lemma_empty_start_is_safe(sweep, builder, nx, ny, depth);
        lemma_flood(sweep, builder, nx, ny, depth);
        assert forall|i: int| 0 <= i < 8 implies (#[trigger] cell_in(
            next.cells,
            builder,
            x + neighbour_dx(i),
            y + neighbour_dy(i),
        )).value is Empty by {
            assert(cell_in(sweep.cells, builder, x + neighbour_dx(i), y + neighbour_dy(i)).value is Empty);
        }
        lemma_empty_neighbours_are_safe(next, builder, x, y, depth, k + 1);
    }
}

/// A reveal of a cell that is empty and not yet revealed counts at least
/// that cell, unless the flood is entered at the ceiling.
pub proof fn lemma_reveal_counts(sweep: Sweep, builder: CellBuilder, x: int, y: int, depth: int)
    requires
        cell_in(sweep.cells, builder, x, y).value is Empty,
        !(cell_in(sweep.cells, builder, x, y).state is Revealed),
        depth + 1 < DEPTH_CEILING,
    ensures
        flood(sweep, builder, x, y, depth).revealed >= counted_up(sweep.revealed),
{
    let cell = cell_in(sweep.cells, builder, x, y);
    let uncovered = sweep.cells.insert((x, y), cell.spec_uncover());
    let counted = Sweep {
        cells: visited_around(uncovered, builder, x, y),
        revealed: counted_up(sweep.revealed),
        ..sweep
    };
    if mines_around(uncovered, builder, x, y) == 0 {
        lemma_flood_from(counted, builder, x, y, depth + 1, 0);
    }
}

/// The first reveal of a game whose start is clear reveals no mine and
/// counts at least the centre.
pub proof fn lemma_clear_start_opens(builder: CellBuilder, window_size: SizeUsize, light_mode: bool)
    requires
        builder.starts_clear(),
    ensures
        !GameView::opening(builder, window_size, light_mode).lost,
        GameView::opening(builder, window_size, light_mode).revealed >= 1,
{
    let fresh = GameView::unopened(builder, window_size, light_mode);
    assert(builder.value_of(0, 0) is Empty);
    lemma_empty_start_is_safe(fresh.sweep(), builder, 0, 0, 0);
    lemma_reveal_counts(fresh.sweep(), builder, 0, 0, 0);
}

/// Without mines a flood does not end by itself: from a cell that is not
/// revealed, on a board whose cells towards the lower left are not revealed
/// either, it reaches the ceiling and gives up.
pub proof fn lemma_no_mines_reach_ceiling(sweep: Sweep, builder: CellBuilder, x: int, y: int, depth: int)
    requires
        builder.mine_concentration == 0,
        faithful(sweep.cells, builder),
        !sweep.aborted,
        0 <= depth < DEPTH_CEILING,
        forall|j: int|
            0 <= j < DEPTH_CEILING - depth ==> !((#[trigger] cell_in(
                sweep.cells,
                builder,
                x - j,
                y - j,
            )).state is Revealed),
    ensures
        flood(sweep, builder, x, y, depth).aborted,
    decreases DEPTH_CEILING - depth,
{
    let cell = cell_in(sweep.cells, builder, x, y);
    assert(!(cell_in(sweep.cells, builder, x - 0, y - 0).state is Revealed));
    if depth + 1 < DEPTH_CEILING {
        lemma_no_mines_all_empty(sweep.cells, builder);
        let uncovered = sweep.cells.insert((x, y), cell.spec_uncover());
        let opened = Sweep { cells: uncovered, ..sweep };
        lemma_flood(sweep, builder, x, y, depth);
        lemma_visit_changes_nothing(uncovered, builder, x, y);
        let counted = Sweep {
            cells: visited_around(uncovered, builder, x, y),
            revealed: counted_up(sweep.revealed),
            ..sweep
        };
        assert(faithful(uncovered, builder)) by {
            assert forall|x1: int, y1: int| #[trigger]
                uncovered.contains_key((x1, y1)) implies uncovered[(x1, y1)].value == builder.value_of(
                x1,
                y1,
            ) by {
                if !(x1 == x && y1 == y) {
                    assert(sweep.cells.contains_key((x1, y1)));
                } else if sweep.cells.contains_key((x, y)) {
                }
            }
        }
        lemma_no_mines_all_empty(uncovered, builder);
        lemma_no_mines_around(uncovered, builder, x, y);
        assert(mines_around(uncovered, builder, x, y) == 0);
        assert forall|j: int| 0 <= j < DEPTH_CEILING - (depth + 1) implies !((#[trigger] cell_in(
            counted.cells,
            builder,
            x - 1 - j,
            y - 1 - j,
        )).state is Revealed) by {
            assert(cell_in(counted.cells, builder, x - 1 - j, y - 1 - j) == cell_in(
                uncovered,
                builder,
                x - 1 - j,
                y - 1 - j,
            ));
            assert(!(cell_in(sweep.cells, builder, x - (j + 1), y - (j + 1)).state is Revealed));
        }
        lemma_no_mines_reach_ceiling(counted, builder, x - 1, y - 1, depth + 1);
        let next = flood(counted, builder, x + neighbour_dx(0), y + neighbour_dy(0), depth + 1);
        assert(next.aborted);
        assert(flood_from(counted, builder, x, y, depth + 1, 0) == flood_from(
            next,
            builder,
            x,
            y,
            depth + 1,
            1,
        ));
        assert(flood_from(next, builder, x, y, depth + 1, 1) == next);
    }
}

/// At concentration 0 every cell is empty.
pub proof fn lemma_no_mines_all_empty(cells: Map<(int, int), Cell>, builder: CellBuilder)
    requires
        builder.mine_concentration == 0,
        faithful(cells, builder),
    ensures
        forall|x: int, y: int| (#[trigger] cell_in(cells, builder, x, y)).value is Empty,
        forall|x: int, y: int| #[trigger] builder.value_of(x, y) is Empty,
{
    assert forall|x: int, y: int| #[trigger] builder.value_of(x, y) is Empty by {}
    assert forall|x: int, y: int| (#[trigger] cell_in(cells, builder, x, y)).value is Empty by {
        assert(builder.value_of(x, y) is Empty);
        if cells.contains_key((x, y)) {
        }
    }
}

/// Without mines no game begins: a start is found at once, and the first
/// reveal floods to the ceiling.
pub proof fn lemma_no_mines_no_game(seed: u64, window_size: SizeUsize, light_mode: bool, r: Result<Game, Fatal>)
    requires
        Game::made_from(0, seed, window_size, light_mode, r),
    ensures
        r matches Err(Fatal::TooManyClearCells),
{
    assert(clear_at(seed, 0, -500, -500)) by {
        assert forall|dx: int, dy: int| -1 <= dx <= 1 && -1 <= dy <= 1 implies #[trigger] value_at(
            seed,
            0,
            -500 + dx,
            -500 + dy,
        ) is Empty by {}
    }
    assert(!no_clear_start(seed, 0));
    match r {
        Ok(game) => {
            let builder = game.model().builder;
            let fresh = GameView::unopened(builder, window_size, light_mode);
            assert(faithful(fresh.cells, builder));
            lemma_no_mines_reach_ceiling(fresh.sweep(), builder, 0, 0, 0);
        },
        _ => {},
    }
}

/// A move leaves the cursor tethered to the camera on both axes, wherever
/// the two were; and where the room has two cells or more on an axis, the
/// cursor is then no further from the camera than half the room.
pub proof fn lemma_move_is_tethered(view: GameView, direction: Direction)
    requires
        view.wf(),
        view.in_world(),
        !view.window_too_small(),
    ensures
        view.moved(direction).cursor_tethered(),
        view.moved(direction).cursor_within_half_the_room(),
        view.moved(direction).wf(),
        view.after(Action::MoveCursor(direction)).0.cursor_tethered(),
        view.after(Action::MoveCursor(direction)).0.cursor_within_half_the_room(),
{
    let moved = view.moved(direction);
    let room = view.max_cursor_displacement();
    lemma_chased_is_tethered(moved.cursor.x as int, view.origin.x as int, room.width as int);
    lemma_chased_is_tethered(moved.cursor.y as int, view.origin.y as int, room.height as int);
}

/// A resize leaves the cursor tethered to the camera on both axes, wherever
/// the two were; and where the new room has two cells or more on an axis,
/// the cursor is then no further from the camera than half the room.
pub proof fn lemma_resize_is_tethered(view: GameView, window_size: SizeUsize)
    requires
        view.wf(),
        view.in_world(),
        crate::view::View::is_window(window_size),
    ensures
        view.resized(window_size).cursor_tethered(),
        view.resized(window_size).cursor_within_half_the_room(),
{
    let room = GameView::room(window_size);
    lemma_pulled_is_tethered(view.cursor.x as int, view.origin.x as int, room.width as int);
    lemma_pulled_is_tethered(view.cursor.y as int, view.origin.y as int, room.height as int);
}

/// Whether a flood has revealed no mine without losing the game.
pub open spec fn mines_kept(sweep: Sweep, builder: CellBuilder) -> bool {
    sweep.lost || forall|x: int, y: int|
        {
            let cell = #[trigger] cell_in(sweep.cells, builder, x, y);
            !(cell.state is Revealed && cell.value is Mine)
        }
}

/// A flood that is entered on an empty cell reveals no mine without losing
/// the game, whether it gives up or not.
pub proof fn lemma_flood_keeps_mines_from_empty(
    sweep: Sweep,
    builder: CellBuilder,
    x: int,
    y: int,
    depth: int,
)
    requires
        mines_kept(sweep, builder),
        cell_in(sweep.cells, builder, x, y).value is Empty,
    ensures
        mines_kept(flood(sweep, builder, x, y, depth), builder),
    decreases DEPTH_CEILING - depth, 0int,
{
    let cell = cell_in(sweep.cells, builder, x, y);
    if !(cell.state is Revealed) {
        let uncovered = sweep.cells.insert((x, y), cell.spec_uncover());
        let opened = Sweep { cells: uncovered, ..sweep };
        assert(mines_kept(opened, builder)) by {
            if !sweep.lost {
                assert forall|x1: int, y1: int|
                    {
                        let c = #[trigger] cell_in(uncovered, builder, x1, y1);
                        !(c.state is Revealed && c.value is Mine)
                    } by {
                    let was = cell_in(sweep.cells, builder, x1, y1);
                }
            }
        }
        if depth + 1 < DEPTH_CEILING {
            lemma_visit_changes_nothing(uncovered, builder, x, y);
            let counted = Sweep {
                cells: visited_around(uncovered, builder, x, y),
                revealed: counted_up(sweep.revealed),
                ..sweep
            };
            assert(mines_kept(counted, builder)) by {
                if !sweep.lost {
                    assert forall|x1: int, y1: int|
                        {
                            let c = #[trigger] cell_in(counted.cells, builder, x1, y1);
                            !(c.state is Revealed && c.value is Mine)
                        } by {
                        let was = cell_in(uncovered, builder, x1, y1);
                    }
                }
            }
            if mines_around(uncovered, builder, x, y) == 0 {
                lemma_no_mines_around(uncovered, builder, x, y);
                assert forall|k: int| 0 <= k < 8 implies (#[trigger] cell_in(
                    counted.cells,
                    builder,
                    x + neighbour_dx(k),
                    y + neighbour_dy(k),
                )).value is Empty by {
                    assert(cell_in(uncovered, builder, x + neighbour_dx(k), y + neighbour_dy(k)).value is Empty);
                }
                lemma_flood_from_keeps_mines(counted, builder, x, y, depth + 1, 0);
            }
        }
    }
}

/// The floods from neighbours that are all empty reveal no mine without
/// losing the game.
pub proof fn lemma_flood_from_keeps_mines(
    sweep: Sweep,
    builder: CellBuilder,
    x: int,
    y: int,
    depth: int,
    k: int,
)
    requires
        mines_kept(sweep, builder),
        forall|i: int|
            0 <= i < 8 ==> (#[trigger] cell_in(
                sweep.cells,
                builder,
                x + neighbour_dx(i),
                y + neighbour_dy(i),
            )).value is Empty,
    ensures
        mines_kept(flood_from(sweep, builder, x, y, depth, k), builder),
    decreases DEPTH_CEILING - depth, 9 - k,
{
    if !(k < 0 || k >= 8 || sweep.aborted || depth >= DEPTH_CEILING) {
        let nx = x + neighbour_dx(k);
        let ny = y + neighbour_dy(k);
        let next = flood(sweep, builder, nx, ny, depth);
        assert(cell_in(sweep.cells, builder, nx, ny).value is Empty);
        lemma_flood_keeps_mines_from_empty(sweep, builder, nx, ny, depth);
        lemma_flood(sweep, builder, nx, ny, depth);
        assert forall|i: int| 0 <= i < 8 implies (#[trigger] cell_in(
            next.cells,
            builder,
            x + neighbour_dx(i),
            y + neighbour_dy(i),
        )).value is Empty by {
            assert(cell_in(sweep.cells, builder, x + neighbour_dx(i), y + neighbour_dy(i)).value is Empty);
        }
        lemma_flood_from_keeps_mines(next, builder, x, y, depth, k + 1);
    }
}

/// A reveal reveals no mine without losing the game.
pub proof fn lemma_reveal_keeps_mines(sweep: Sweep, builder: CellBuilder, x: int, y: int)
    requires
        mines_kept(sweep, builder),
    ensures
        mines_kept(flood(sweep, builder, x, y, 0), builder),
{
    let cell = cell_in(sweep.cells, builder, x, y);
    if cell.value is Empty {
        lemma_flood_keeps_mines_from_empty(sweep, builder, x, y, 0);
    }
}

/// A chord reveals no mine without losing the game.
pub proof fn lemma_chord_keeps_mines(sweep: Sweep, builder: CellBuilder, x: int, y: int, k: int)
    requires
        mines_kept(sweep, builder),
    ensures
        mines_kept(chord_from(sweep, builder, x, y, k), builder),
    decreases 8 - k,
{
    if !(k < 0 || k >= 8 || sweep.aborted || sweep.lost) {
        let nx = x + neighbour_dx(k);
        let ny = y + neighbour_dy(k);
        let cell = cell_in(sweep.cells, builder, nx, ny);
        let looked = Sweep { cells: sweep.cells.insert((nx, ny), cell), ..sweep };
        assert(mines_kept(looked, builder)) by {
            assert forall|x1: int, y1: int|
                {
                    let c = #[trigger] cell_in(looked.cells, builder, x1, y1);
                    !(c.state is Revealed && c.value is Mine)
                } by {
                let was = cell_in(sweep.cells, builder, x1, y1);
            }
        }
        let next = if cell.state is Flagged {
            looked
        } else {
            flood(looked, builder, nx, ny, 0)
        };
        if !(cell.state is Flagged) {
            lemma_reveal_keeps_mines(looked, builder, nx, ny);
        }
        lemma_chord_keeps_mines(next, builder, x, y, k + 1);
    }
}

/// No mine is revealed while a game is underway: a game begins so, and
/// whatever is done, it stays so.
pub proof fn lemma_mines_stay_hidden(view: GameView, action: Action)
    requires
        view.mines_hidden(),
    ensures
        view.after(action).0.mines_hidden(),
        GameView::unopened(view.builder, view.window_size, view.light_mode).mines_hidden(),
{
    let after = view.after(action).0;
    let x = view.cursor.x as int;
    let y = view.cursor.y as int;
    match action {
        Action::Reset => {
            let fresh = GameView::unopened(view.builder, view.window_size, view.light_mode);
            lemma_reveal_keeps_mines(fresh.sweep(), view.builder, 0, 0);
            let sweep = fresh.flooded(0, 0);
            assert(fresh.swept(sweep).mines_hidden());
        },
        Action::Flag => {
            if !(view.window_too_small() || view.state is Lost) {
                assert forall|x1: int, y1: int|
                    {
                        let c = #[trigger] cell_in(after.cells, after.builder, x1, y1);
                        !(c.state is Revealed && c.value is Mine)
                    } by {
                    let was = cell_in(view.cells, view.builder, x1, y1);
                }
            }
        },
        Action::Reveal => {
            if !(view.window_too_small() || view.state is Lost) {
                lemma_reveal_keeps_mines(view.sweep(), view.builder, x, y);
                let sweep = view.flooded(x, y);
                assert(view.swept(sweep).mines_hidden());
            }
        },
        Action::RevealAdjacent => {
            if !(view.window_too_small() || view.state is Lost) {
                let cell = cell_in(view.cells, view.builder, x, y);
                let looked = Sweep { cells: view.cells.insert((x, y), cell), ..view.sweep() };
                assert(mines_kept(looked, view.builder)) by {
                    assert forall|x1: int, y1: int|
                        {
                            let c = #[trigger] cell_in(looked.cells, view.builder, x1, y1);
                            !(c.state is Revealed && c.value is Mine)
                        } by {
                        let was = cell_in(view.cells, view.builder, x1, y1);
                    }
                }
                if cell.state is Revealed {
                    lemma_chord_keeps_mines(looked, view.builder, x, y, 0);
                }
                let sweep = view.chorded(x, y);
                assert(view.swept(sweep).mines_hidden());
            }
        },
        _ => {},
    }
}

/// A new game has no mine revealed unless its first reveal lost it.
pub proof fn lemma_new_game_hides_mines(builder: CellBuilder, window_size: SizeUsize, light_mode: bool)
    ensures
        GameView::unopened(builder, window_size, light_mode).swept(
            GameView::opening(builder, window_size, light_mode),
        ).mines_hidden(),
{
    let fresh = GameView::unopened(builder, window_size, light_mode);
    lemma_reveal_keeps_mines(fresh.sweep(), builder, 0, 0);
}

/// While a game is underway and hides its mines, no cell is shown as a
/// mine.
pub proof fn lemma_underway_shows_no_mine(view: GameView, x: int, y: int)
    requires
        view.mines_hidden(),
        view.state is Underway,
    ensures
        !(crate::view::shown_at(view.cells, view.builder, x, y, false) is Mine),
        !(crate::view::shown_at(view.cells, view.builder, x, y, false) is IncorrectFlag),
{
    let cell = cell_in(view.cells, view.builder, x, y);
}

/// A flood never takes a loss back.
pub proof fn lemma_flood_keeps_lost(sweep: Sweep, builder: CellBuilder, x: int, y: int, depth: int)
    requires
        sweep.lost,
    ensures
        flood(sweep, builder, x, y, depth).lost,
    decreases DEPTH_CEILING - depth, 0int,
{
    let cell = cell_in(sweep.cells, builder, x, y);
    if !(cell.state is Revealed) && depth + 1 < DEPTH_CEILING && !(cell.value is Mine) {
        let uncovered = sweep.cells.insert((x, y), cell.spec_uncover());
        let counted = Sweep {
            cells: visited_around(uncovered, builder, x, y),
            revealed: counted_up(sweep.revealed),
            ..sweep
        };
        if mines_around(uncovered, builder, x, y) == 0 {
            lemma_flood_from_keeps_lost(counted, builder, x, y, depth + 1, 0);
        }
    }
}

/// The floods from the neighbours never take a loss back.
pub proof fn lemma_flood_from_keeps_lost(
    sweep: Sweep,
    builder: CellBuilder,
    x: int,
    y: int,
    depth: int,
    k: int,
)
    requires
        sweep.lost,
    ensures
        flood_from(sweep, builder, x, y, depth, k).lost,
    decreases DEPTH_CEILING - depth, 9 - k,
{
    if !(k < 0 || k >= 8 || sweep.aborted || depth >= DEPTH_CEILING) {
        lemma_flood_keeps_lost(sweep, builder, x + neighbour_dx(k), y + neighbour_dy(k), depth);
        lemma_flood_from_keeps_lost(
            flood(sweep, builder, x + neighbour_dx(k), y + neighbour_dy(k), depth),
            builder,
            x,
            y,
            depth,
            k + 1,
        );
    }
}

} // verus!
