//! What a flood reveals, said without the flood: the hidden cells that the
//! start spreads to, and no others, where no flag lies on a cell from which
//! a flood goes on; and what it counts, where there is no flag at all.

use super::lemmas::{floods_to, lemma_flood, lemma_flood_from, lemma_visit_changes_nothing};
use super::flood::{
    adjacent, cell_in, counted_up, flood, flood_from, mine_in, mines_among, mines_around,
    neighbour_dx, neighbour_dy, visited_around, Sweep,
};
use super::DEPTH_CEILING;
use crate::grid::cell::Cell;
use crate::grid::cell_builder::CellBuilder;
use vstd::prelude::*;
use vstd::set_lib::{lemma_len_subset, lemma_set_disjoint_lens};

verus! {

pub open spec fn revealed_in(cells: Map<(int, int), Cell>, builder: CellBuilder, x: int, y: int) -> bool {
    cell_in(cells, builder, x, y).state is Revealed
}

pub open spec fn hidden_in(cells: Map<(int, int), Cell>, builder: CellBuilder, x: int, y: int) -> bool {
    cell_in(cells, builder, x, y).state is Hidden
}

/// Whether no cell of the board is flagged.
pub open spec fn no_flags(cells: Map<(int, int), Cell>, builder: CellBuilder) -> bool {
    forall|x: int, y: int| !((#[trigger] cell_in(cells, builder, x, y)).state is Flagged)
}

/// Whether the cell at `(x, y)` is empty and has no mine about it: the
/// cells from which a flood goes on.
pub open spec fn clear_about(cells: Map<(int, int), Cell>, builder: CellBuilder, x: int, y: int) -> bool {
    cell_in(cells, builder, x, y).value is Empty && mines_around(cells, builder, x, y) == 0
}

/// Whether no flag lies on a cell that is clear about. A flood passes such
/// a flag by, as it passes every flag by, and goes on from the cell below
/// it; where there is none, flags are where floods end.
pub open spec fn flags_block(cells: Map<(int, int), Cell>, builder: CellBuilder) -> bool {
    forall|x: int, y: int|
        (#[trigger] cell_in(cells, builder, x, y)).state is Flagged ==> !clear_about(cells, builder, x, y)
}

/// Whether a flood can go along `path`, but for its last cell: each cell
/// before the last is hidden, is clear about, and has the next cell as a
/// neighbour.
pub open spec fn leads_along(cells: Map<(int, int), Cell>, builder: CellBuilder, path: Seq<(int, int)>) -> bool {
    &&& path.len() > 0
    &&& forall|i: int|
        0 <= i < path.len() - 1 ==> {
            &&& hidden_in(cells, builder, (#[trigger] path[i]).0, path[i].1)
            &&& clear_about(cells, builder, path[i].0, path[i].1)
            &&& adjacent(path[i + 1].0, path[i + 1].1, path[i].0, path[i].1)
        }
}

/// Whether a flood can go along `path`: it can but for the last cell, and
/// the last cell is hidden as well.
pub open spec fn spreads_along(cells: Map<(int, int), Cell>, builder: CellBuilder, path: Seq<(int, int)>) -> bool {
    &&& leads_along(cells, builder, path)
    &&& hidden_in(cells, builder, path.last().0, path.last().1)
}

/// Whether a flood from `(x0, y0)` spreads to `(x, y)`: some path of hidden
/// cells leads from the one to the other, each cell but the last clear
/// about.
pub open spec fn spreads_to(
    cells: Map<(int, int), Cell>,
    builder: CellBuilder,
    x0: int,
    y0: int,
    x: int,
    y: int,
) -> bool {
    exists|path: Seq<(int, int)>|
        #[trigger] spreads_along(cells, builder, path) && path[0] == (x0, y0) && path.last() == (x, y)
}

/// Whether a board has come from `origin` by floods alone: every cell holds
/// what it held, and its state is what it was or has gone from hidden to
/// revealed.
pub open spec fn grown_from(origin: Map<(int, int), Cell>, cells: Map<(int, int), Cell>, builder: CellBuilder) -> bool {
    forall|x: int, y: int|
        {
            let was = cell_in(origin, builder, x, y);
            let is = #[trigger] cell_in(cells, builder, x, y);
            is.value == was.value && (is.state == was.state || (was.state is Hidden
                && is.state is Revealed))
        }
}

/// Whether every cell revealed between `before` and `after` is one that a
/// flood from `(x0, y0)` on the board `origin` spreads to.
pub open spec fn sound(
    origin: Map<(int, int), Cell>,
    builder: CellBuilder,
    x0: int,
    y0: int,
    before: Map<(int, int), Cell>,
    after: Map<(int, int), Cell>,
) -> bool {
    forall|x: int, y: int|
        #[trigger] revealed_in(after, builder, x, y) && !revealed_in(before, builder, x, y) ==> spreads_to(
            origin,
            builder,
            x0,
            y0,
            x,
            y,
        )
}

/// Whether every cell revealed between `before` and `after` that is clear
/// about has no hidden neighbour in `after`.
pub open spec fn settled(before: Map<(int, int), Cell>, after: Map<(int, int), Cell>, builder: CellBuilder) -> bool {
    forall|x: int, y: int, x1: int, y1: int|
        #![trigger revealed_in(after, builder, x, y), hidden_in(after, builder, x1, y1)]
        revealed_in(after, builder, x, y) && !revealed_in(before, builder, x, y) && clear_about(
            after,
            builder,
            x,
            y,
        ) && adjacent(x1, y1, x, y) ==> !hidden_in(after, builder, x1, y1)
}

/// A neighbour by its place is a neighbour by its number.
pub proof fn lemma_adjacent_is_numbered(x1: int, y1: int, x: int, y: int)
    requires
        adjacent(x1, y1, x, y),
    ensures
        exists|k: int| 0 <= k < 8 && x1 == x + #[trigger] neighbour_dx(k) && y1 == y + neighbour_dy(k),
{
    let dx = x1 - x;
    let dy = y1 - y;
    let k = if dx == -1 {
        dy + 1
    } else if dx == 0 {
        if dy == -1 {
            3int
        } else {
            4int
        }
    } else {
        dy + 6
    };
    assert(0 <= k < 8 && x1 == x + neighbour_dx(k) && y1 == y + neighbour_dy(k));
}

/// The mines about a place are counted from what the cells hold, and that
/// never changes.
pub proof fn lemma_grown_keeps_counts(
    origin: Map<(int, int), Cell>,
    cells: Map<(int, int), Cell>,
    builder: CellBuilder,
    x: int,
    y: int,
)
    requires
        grown_from(origin, cells, builder),
    ensures
        mines_around(cells, builder, x, y) == mines_around(origin, builder, x, y),
        clear_about(cells, builder, x, y) == clear_about(origin, builder, x, y),
{
    reveal_with_fuel(mines_among, 9);
    assert(cell_in(cells, builder, x, y).value == cell_in(origin, builder, x, y).value);
    assert forall|k: int| 0 <= k < 8 implies mine_in(
        cells,
        builder,
        x + neighbour_dx(k),
        y + neighbour_dy(k),
    ) == mine_in(origin, builder, x + neighbour_dx(k), y + neighbour_dy(k)) by {
        assert(cell_in(cells, builder, x + neighbour_dx(k), y + neighbour_dy(k)).value == cell_in(
            origin,
            builder,
            x + neighbour_dx(k),
            y + neighbour_dy(k),
        ).value);
    }
    assert(mine_in(cells, builder, x + neighbour_dx(0), y + neighbour_dy(0)) == mine_in(origin, builder, x + neighbour_dx(0), y + neighbour_dy(0)));
    assert(mine_in(cells, builder, x + neighbour_dx(1), y + neighbour_dy(1)) == mine_in(origin, builder, x + neighbour_dx(1), y + neighbour_dy(1)));
    assert(mine_in(cells, builder, x + neighbour_dx(2), y + neighbour_dy(2)) == mine_in(origin, builder, x + neighbour_dx(2), y + neighbour_dy(2)));
    assert(mine_in(cells, builder, x + neighbour_dx(3), y + neighbour_dy(3)) == mine_in(origin, builder, x + neighbour_dx(3), y + neighbour_dy(3)));
    assert(mine_in(cells, builder, x + neighbour_dx(4), y + neighbour_dy(4)) == mine_in(origin, builder, x + neighbour_dx(4), y + neighbour_dy(4)));
    assert(mine_in(cells, builder, x + neighbour_dx(5), y + neighbour_dy(5)) == mine_in(origin, builder, x + neighbour_dx(5), y + neighbour_dy(5)));
    assert(mine_in(cells, builder, x + neighbour_dx(6), y + neighbour_dy(6)) == mine_in(origin, builder, x + neighbour_dx(6), y + neighbour_dy(6)));
    assert(mine_in(cells, builder, x + neighbour_dx(7), y + neighbour_dy(7)) == mine_in(origin, builder, x + neighbour_dx(7), y + neighbour_dy(7)));
}

/// Growth goes on: what has come from a board by floods and then floods
/// again has come from that board by floods. No flood sets a flag.
pub proof fn lemma_grown_on(
    origin: Map<(int, int), Cell>,
    before: Sweep,
    after: Sweep,
    builder: CellBuilder,
)
    requires
        grown_from(origin, before.cells, builder),
        floods_to(before, after, builder),
    ensures
        grown_from(origin, after.cells, builder),
        grown_from(before.cells, after.cells, builder),
        no_flags(before.cells, builder) ==> no_flags(after.cells, builder),
        flags_block(before.cells, builder) ==> flags_block(after.cells, builder),
{
    if flags_block(before.cells, builder) {
        assert forall|x: int, y: int|
            (#[trigger] cell_in(after.cells, builder, x, y)).state is Flagged implies !clear_about(
            after.cells,
            builder,
            x,
            y,
        ) by {
            let via = cell_in(before.cells, builder, x, y);
            lemma_grown_keeps_counts(before.cells, after.cells, builder, x, y);
        }
    }
    assert forall|x: int, y: int|
        {
            let was = cell_in(origin, builder, x, y);
            let is = #[trigger] cell_in(after.cells, builder, x, y);
            is.value == was.value && (is.state == was.state || (was.state is Hidden
                && is.state is Revealed))
        } by {
        let via = cell_in(before.cells, builder, x, y);
    }
    if no_flags(before.cells, builder) {
        assert forall|x: int, y: int| !((#[trigger] cell_in(after.cells, builder, x, y)).state is Flagged) by {
            let via = cell_in(before.cells, builder, x, y);
        }
    }
}

/// Uncovering a cell and visiting its neighbours changes the cell from
/// hidden to revealed, if it is hidden, and nothing else.
pub proof fn lemma_uncover_and_visit(sweep: Sweep, builder: CellBuilder, x: int, y: int)
    ensures
        ({
            let cell = cell_in(sweep.cells, builder, x, y);
            let uncovered = sweep.cells.insert((x, y), cell.spec_uncover());
            let visited = visited_around(uncovered, builder, x, y);
            &&& grown_from(sweep.cells, uncovered, builder)
            &&& grown_from(sweep.cells, visited, builder)
            &&& grown_from(uncovered, visited, builder)
            &&& forall|x1: int, y1: int|
                !(x1 == x && y1 == y) ==> #[trigger] cell_in(uncovered, builder, x1, y1) == cell_in(
                    sweep.cells,
                    builder,
                    x1,
                    y1,
                )
            &&& forall|x1: int, y1: int|
                #[trigger] cell_in(visited, builder, x1, y1) == cell_in(uncovered, builder, x1, y1)
            &&& cell_in(uncovered, builder, x, y) == cell.spec_uncover()
        }),
{
    let cell = cell_in(sweep.cells, builder, x, y);
    let uncovered = sweep.cells.insert((x, y), cell.spec_uncover());
    let visited = visited_around(uncovered, builder, x, y);
    lemma_visit_changes_nothing(uncovered, builder, x, y);
    assert forall|x1: int, y1: int|
        #[trigger] cell_in(visited, builder, x1, y1) == cell_in(uncovered, builder, x1, y1) by {}
    assert forall|x1: int, y1: int|
        {
            let was = cell_in(sweep.cells, builder, x1, y1);
            let is = #[trigger] cell_in(visited, builder, x1, y1);
            is.value == was.value && (is.state == was.state || (was.state is Hidden
                && is.state is Revealed))
        } by {
        let via = cell_in(uncovered, builder, x1, y1);
    }
}

/// A flood reveals only cells that its start spreads to. The flood is
/// entered at `(x, y)`, to which `path` leads from the start.
pub proof fn lemma_flood_is_sound(
    origin: Map<(int, int), Cell>,
    builder: CellBuilder,
    sweep: Sweep,
    x: int,
    y: int,
    depth: int,
    path: Seq<(int, int)>,
)
    requires
        grown_from(origin, sweep.cells, builder),
        flags_block(sweep.cells, builder),
        leads_along(origin, builder, path),
        path.last() == (x, y),
    ensures
        sound(
            origin,
            builder,
            path[0].0,
            path[0].1,
            sweep.cells,
            flood(sweep, builder, x, y, depth).cells,
        ),
    decreases DEPTH_CEILING - depth, 0int,
{
    let x0 = path[0].0;
    let y0 = path[0].1;
    let cell = cell_in(sweep.cells, builder, x, y);
    let after = flood(sweep, builder, x, y, depth);
    if !(cell.state is Revealed) {
        let uncovered = sweep.cells.insert((x, y), cell.spec_uncover());
        let counted = Sweep {
            cells: visited_around(uncovered, builder, x, y),
            revealed: counted_up(sweep.revealed),
            ..sweep
        };
        lemma_uncover_and_visit(sweep, builder, x, y);
        if cell.state is Hidden {
            assert(hidden_in(origin, builder, x, y)) by {
                assert(cell_in(sweep.cells, builder, x, y).state is Hidden);
            }
            assert(spreads_along(origin, builder, path));
            assert(spreads_to(origin, builder, x0, y0, x, y));
        }
        assert(sound(origin, builder, x0, y0, sweep.cells, uncovered)) by {
            assert forall|x1: int, y1: int|
                #[trigger] revealed_in(uncovered, builder, x1, y1) && !revealed_in(
                    sweep.cells,
                    builder,
                    x1,
                    y1,
                ) implies spreads_to(origin, builder, x0, y0, x1, y1) by {
                assert(x1 == x && y1 == y);
            }
        }
        assert(sound(origin, builder, x0, y0, sweep.cells, counted.cells)) by {
            assert forall|x1: int, y1: int|
                #[trigger] revealed_in(counted.cells, builder, x1, y1) && !revealed_in(
                    sweep.cells,
                    builder,
                    x1,
                    y1,
                ) implies spreads_to(origin, builder, x0, y0, x1, y1) by {
                assert(revealed_in(uncovered, builder, x1, y1));
            }
        }
        if depth + 1 < DEPTH_CEILING && !(cell.value is Mine) {
            if mines_around(uncovered, builder, x, y) == 0 {
                lemma_grown_keeps_counts(sweep.cells, uncovered, builder, x, y);
                assert(clear_about(sweep.cells, builder, x, y));
                assert(cell.state is Hidden);
                lemma_grown_keeps_counts(origin, sweep.cells, builder, x, y);
                lemma_floods_by_uncover(sweep, builder, x, y);
                lemma_grown_on(origin, sweep, counted, builder);
                lemma_flood_from_is_sound(origin, builder, counted, x, y, depth + 1, 0, path);
                let ended = flood_from(counted, builder, x, y, depth + 1, 0);
                assert(after == ended);
                lemma_sound_twice(origin, builder, x0, y0, sweep.cells, counted.cells, ended.cells);
            } else {
                assert(after == counted);
            }
        } else {
            assert(after.cells == uncovered);
        }
    }
}

/// Uncovering a cell and visiting its neighbours is a step of a flood.
pub proof fn lemma_floods_by_uncover(sweep: Sweep, builder: CellBuilder, x: int, y: int)
    ensures
        floods_to(
            sweep,
            Sweep {
                cells: visited_around(
                    sweep.cells.insert((x, y), cell_in(sweep.cells, builder, x, y).spec_uncover()),
                    builder,
                    x,
                    y,
                ),
                revealed: counted_up(sweep.revealed),
                ..sweep
            },
            builder,
        ),
{
    let cell = cell_in(sweep.cells, builder, x, y);
    let uncovered = sweep.cells.insert((x, y), cell.spec_uncover());
    let visited = visited_around(uncovered, builder, x, y);
    lemma_uncover_and_visit(sweep, builder, x, y);
    lemma_visit_changes_nothing(uncovered, builder, x, y);
    assert forall|x1: int, y1: int| #[trigger] sweep.cells.contains_key((x1, y1)) implies visited.contains_key(
        (x1, y1),
    ) by {
        assert(uncovered.contains_key((x1, y1)));
    }
    if super::lemmas::faithful(sweep.cells, builder) {
        assert forall|x1: int, y1: int| #[trigger] uncovered.contains_key((x1, y1)) implies uncovered[(
            x1,
            y1,
        )].value == builder.value_of(x1, y1) by {
            if !(x1 == x && y1 == y) {
                assert(sweep.cells.contains_key((x1, y1)));
            } else if sweep.cells.contains_key((x, y)) {
            }
        }
    }
    assert forall|x1: int, y1: int|
        cell_in(sweep.cells, builder, x1, y1).state.may_become(
            (#[trigger] cell_in(visited, builder, x1, y1)).state,
        ) by {
        let via = cell_in(uncovered, builder, x1, y1);
    }
}

/// The floods from the neighbours of a cell that the start spreads to, and
/// that is clear about, reveal only cells that the start spreads to.
pub proof fn lemma_flood_from_is_sound(
    origin: Map<(int, int), Cell>,
    builder: CellBuilder,
    sweep: Sweep,
    x: int,
    y: int,
    depth: int,
    k: int,
    path: Seq<(int, int)>,
)
    requires
        grown_from(origin, sweep.cells, builder),
        flags_block(sweep.cells, builder),
        spreads_along(origin, builder, path),
        path.last() == (x, y),
        clear_about(origin, builder, x, y),
    ensures
        sound(
            origin,
            builder,
            path[0].0,
            path[0].1,
            sweep.cells,
            flood_from(sweep, builder, x, y, depth, k).cells,
        ),
    decreases DEPTH_CEILING - depth, 9 - k,
{
    let x0 = path[0].0;
    let y0 = path[0].1;
    if !(k < 0 || k >= 8 || sweep.aborted || depth >= DEPTH_CEILING) {
        let nx = x + neighbour_dx(k);
        let ny = y + neighbour_dy(k);
        let longer = path.push((nx, ny));
        assert(leads_along(origin, builder, longer)) by {
            assert forall|i: int| 0 <= i < longer.len() - 1 implies {
                &&& hidden_in(origin, builder, (#[trigger] longer[i]).0, longer[i].1)
                &&& clear_about(origin, builder, longer[i].0, longer[i].1)
                &&& adjacent(longer[i + 1].0, longer[i + 1].1, longer[i].0, longer[i].1)
            } by {
                assert(longer[i] == path[i]);
                if i < path.len() - 1 {
                    assert(longer[i + 1] == path[i + 1]);
                } else {
                    assert(longer[i + 1] == (nx, ny));
                    assert(path[i] == (x, y));
                }
            }
        }
        assert(longer[0] == path[0]);
        assert(longer.last() == (nx, ny));
        lemma_flood_is_sound(origin, builder, sweep, nx, ny, depth, longer);
        let next = flood(sweep, builder, nx, ny, depth);
        lemma_flood(sweep, builder, nx, ny, depth);
        lemma_grown_on(origin, sweep, next, builder);
        lemma_flood_from_is_sound(origin, builder, next, x, y, depth, k + 1, path);
        lemma_sound_twice(
            origin,
            builder,
            x0,
            y0,
            sweep.cells,
            next.cells,
            flood_from(next, builder, x, y, depth, k + 1).cells,
        );
    }
}

/// What is sound up to a board and from it on is sound throughout.
pub proof fn lemma_sound_twice(
    origin: Map<(int, int), Cell>,
    builder: CellBuilder,
    x0: int,
    y0: int,
    a: Map<(int, int), Cell>,
    b: Map<(int, int), Cell>,
    c: Map<(int, int), Cell>,
)
    requires
        sound(origin, builder, x0, y0, a, b),
        sound(origin, builder, x0, y0, b, c),
    ensures
        sound(origin, builder, x0, y0, a, c),
{
    assert forall|x: int, y: int|
        #[trigger] revealed_in(c, builder, x, y) && !revealed_in(a, builder, x, y) implies spreads_to(
        origin,
        builder,
        x0,
        y0,
        x,
        y,
    ) by {
        if revealed_in(b, builder, x, y) {
        }
    }
}

/// What is settled up to a board and from it on is settled throughout,
/// where the second board has come from the first by floods.
pub proof fn lemma_settled_twice(
    builder: CellBuilder,
    a: Map<(int, int), Cell>,
    b: Map<(int, int), Cell>,
    c: Map<(int, int), Cell>,
)
    requires
        settled(a, b, builder),
        settled(b, c, builder),
        grown_from(b, c, builder),
    ensures
        settled(a, c, builder),
{
    assert forall|x: int, y: int, x1: int, y1: int|
        #![trigger revealed_in(c, builder, x, y), hidden_in(c, builder, x1, y1)]
        revealed_in(c, builder, x, y) && !revealed_in(a, builder, x, y) && clear_about(c, builder, x, y)
            && adjacent(x1, y1, x, y) implies !hidden_in(c, builder, x1, y1) by {
        if revealed_in(b, builder, x, y) {
            lemma_grown_keeps_counts(b, c, builder, x, y);
            assert(!hidden_in(b, builder, x1, y1));
            let is = cell_in(c, builder, x1, y1);
        }
    }
}

/// A flood that does not give up leaves its start revealed or flagged, and
/// leaves no hidden cell beside a cell that it revealed and that is clear
/// about.
pub proof fn lemma_flood_settles(sweep: Sweep, builder: CellBuilder, x: int, y: int, depth: int)
    requires
        flags_block(sweep.cells, builder),
        !flood(sweep, builder, x, y, depth).aborted,
    ensures
        settled(sweep.cells, flood(sweep, builder, x, y, depth).cells, builder),
        !hidden_in(flood(sweep, builder, x, y, depth).cells, builder, x, y),
    decreases DEPTH_CEILING - depth, 0int,
{
    let cell = cell_in(sweep.cells, builder, x, y);
    let after = flood(sweep, builder, x, y, depth);
    if !(cell.state is Revealed) {
        let uncovered = sweep.cells.insert((x, y), cell.spec_uncover());
        let counted = Sweep {
            cells: visited_around(uncovered, builder, x, y),
            revealed: counted_up(sweep.revealed),
            ..sweep
        };
        lemma_uncover_and_visit(sweep, builder, x, y);
        lemma_floods_by_uncover(sweep, builder, x, y);
        lemma_grown_on(sweep.cells, sweep, counted, builder);
        lemma_grown_keeps_counts(sweep.cells, uncovered, builder, x, y);
        lemma_grown_keeps_counts(uncovered, counted.cells, builder, x, y);
        assert(!hidden_in(uncovered, builder, x, y));
        assert(!hidden_in(counted.cells, builder, x, y));
        if cell.value is Mine || mines_around(uncovered, builder, x, y) != 0 || cell.state is Flagged {
            assert(after.cells == uncovered || after == counted);
            assert(!clear_about(after.cells, builder, x, y));
            assert forall|x2: int, y2: int, x1: int, y1: int|
                #![trigger revealed_in(after.cells, builder, x2, y2), hidden_in(after.cells, builder, x1, y1)]
                revealed_in(after.cells, builder, x2, y2) && !revealed_in(sweep.cells, builder, x2, y2)
                    && clear_about(after.cells, builder, x2, y2) && adjacent(
                    x1,
                    y1,
                    x2,
                    y2,
                ) implies !hidden_in(after.cells, builder, x1, y1) by {
                assert(revealed_in(uncovered, builder, x2, y2));
                assert(x2 == x && y2 == y);
            }
        } else {
            let ended = flood_from(counted, builder, x, y, depth + 1, 0);
            assert(after == ended);
            lemma_flood_from_settles(counted, builder, x, y, depth + 1, 0);
            lemma_flood_from(counted, builder, x, y, depth + 1, 0);
            lemma_grown_on(counted.cells, counted, ended, builder);
            assert(!hidden_in(ended.cells, builder, x, y)) by {
                let is = cell_in(ended.cells, builder, x, y);
            }
            assert forall|x2: int, y2: int, x1: int, y1: int|
                #![trigger revealed_in(ended.cells, builder, x2, y2), hidden_in(ended.cells, builder, x1, y1)]
                revealed_in(ended.cells, builder, x2, y2) && !revealed_in(sweep.cells, builder, x2, y2)
                    && clear_about(ended.cells, builder, x2, y2) && adjacent(
                    x1,
                    y1,
                    x2,
                    y2,
                ) implies !hidden_in(ended.cells, builder, x1, y1) by {
                if x2 == x && y2 == y {
                    lemma_adjacent_is_numbered(x1, y1, x, y);
                    let k = choose|k: int|
                        0 <= k < 8 && x1 == x + #[trigger] neighbour_dx(k) && y1 == y + neighbour_dy(k);
                    assert(!hidden_in(ended.cells, builder, x + neighbour_dx(k), y + neighbour_dy(k)));
                } else {
                    assert(!revealed_in(counted.cells, builder, x2, y2)) by {
                        assert(cell_in(counted.cells, builder, x2, y2) == cell_in(
                            uncovered,
                            builder,
                            x2,
                            y2,
                        ));
                    }
                }
            }
        }
    } else {
        assert(after == sweep);
    }
}

/// The floods from the neighbours of a cell, from the `k`-th on, where none
/// gives up, leave none of those neighbours hidden, and leave no hidden
/// cell beside a cell that they revealed and that is clear about.
pub proof fn lemma_flood_from_settles(sweep: Sweep, builder: CellBuilder, x: int, y: int, depth: int, k: int)
    requires
        flags_block(sweep.cells, builder),
        0 <= k <= 8,
        depth < DEPTH_CEILING,
        !flood_from(sweep, builder, x, y, depth, k).aborted,
    ensures
        settled(sweep.cells, flood_from(sweep, builder, x, y, depth, k).cells, builder),
        forall|j: int|
            k <= j < 8 ==> !hidden_in(
                flood_from(sweep, builder, x, y, depth, k).cells,
                builder,
                x + #[trigger] neighbour_dx(j),
                y + neighbour_dy(j),
            ),
    decreases DEPTH_CEILING - depth, 9 - k,
{
    if k < 8 {
        let nx = x + neighbour_dx(k);
        let ny = y + neighbour_dy(k);
        let next = flood(sweep, builder, nx, ny, depth);
        let ended = flood_from(next, builder, x, y, depth, k + 1);
        assert(flood_from(sweep, builder, x, y, depth, k) == ended);
        assert(!next.aborted) by {
            if next.aborted {
                assert(ended == next);
            }
        }
        lemma_flood_settles(sweep, builder, nx, ny, depth);
        lemma_flood(sweep, builder, nx, ny, depth);
        lemma_grown_on(sweep.cells, sweep, next, builder);
        lemma_flood_from_settles(next, builder, x, y, depth, k + 1);
        lemma_flood_from(next, builder, x, y, depth, k + 1);
        lemma_grown_on(next.cells, next, ended, builder);
        lemma_settled_twice(builder, sweep.cells, next.cells, ended.cells);
        assert forall|j: int| k <= j < 8 implies !hidden_in(
            ended.cells,
            builder,
            x + #[trigger] neighbour_dx(j),
            y + neighbour_dy(j),
        ) by {
            if j == k {
                let is = cell_in(ended.cells, builder, nx, ny);
                assert(!hidden_in(next.cells, builder, nx, ny));
            }
        }
    }
}

/// On a board that has settled, every cell along a path that a flood
/// spreads along is revealed, if the first is.
pub proof fn lemma_path_is_revealed(
    origin: Map<(int, int), Cell>,
    after: Map<(int, int), Cell>,
    builder: CellBuilder,
    path: Seq<(int, int)>,
    i: int,
)
    requires
        spreads_along(origin, builder, path),
        grown_from(origin, after, builder),
        settled(origin, after, builder),
        !hidden_in(after, builder, path[0].0, path[0].1),
        0 <= i < path.len(),
    ensures
        revealed_in(after, builder, path[i].0, path[i].1),
    decreases i,
{
    let (x1, y1) = path[i];
    assert(hidden_in(origin, builder, x1, y1)) by {
        if i < path.len() - 1 {
            assert(hidden_in(origin, builder, path[i].0, path[i].1));
        } else {
            assert(path[i] == path.last());
        }
    }
    if i > 0 {
        lemma_path_is_revealed(origin, after, builder, path, i - 1);
        let (x, y) = path[i - 1];
        assert(hidden_in(origin, builder, path[i - 1].0, path[i - 1].1));
        assert(clear_about(origin, builder, path[i - 1].0, path[i - 1].1));
        assert(adjacent(path[i].0, path[i].1, path[i - 1].0, path[i - 1].1));
        lemma_grown_keeps_counts(origin, after, builder, x, y);
        assert(revealed_in(after, builder, x, y) && !revealed_in(origin, builder, x, y) && clear_about(
            after,
            builder,
            x,
            y,
        ) && adjacent(x1, y1, x, y));
        assert(!hidden_in(after, builder, x1, y1));
    }
    let is = cell_in(after, builder, x1, y1);
}

/// A flood that does not give up reveals the hidden cells that its start
/// spreads to, and no others, where no flag lies on a cell that is clear
/// about: a cell is revealed afterwards exactly if it was revealed before
/// or a path of hidden cells leads to it from the start, each cell but
/// the last empty and without a mine about it.
pub proof fn lemma_flood_reveals_what_it_spreads_to(
    sweep: Sweep,
    builder: CellBuilder,
    x0: int,
    y0: int,
    x: int,
    y: int,
)
    requires
        flags_block(sweep.cells, builder),
        !flood(sweep, builder, x0, y0, 0).aborted,
    ensures
        revealed_in(flood(sweep, builder, x0, y0, 0).cells, builder, x, y) <==> revealed_in(
            sweep.cells,
            builder,
            x,
            y,
        ) || spreads_to(sweep.cells, builder, x0, y0, x, y),
{
    let after = flood(sweep, builder, x0, y0, 0);
    lemma_flood(sweep, builder, x0, y0, 0);
    assert(grown_from(sweep.cells, sweep.cells, builder));
    lemma_grown_on(sweep.cells, sweep, after, builder);
    lemma_flood_settles(sweep, builder, x0, y0, 0);
    if revealed_in(sweep.cells, builder, x, y) {
        let is = cell_in(after.cells, builder, x, y);
    } else if spreads_to(sweep.cells, builder, x0, y0, x, y) {
        let path = choose|path: Seq<(int, int)>|
            #[trigger] spreads_along(sweep.cells, builder, path) && path[0] == (x0, y0) && path.last() == (
                x,
                y,
            );
        lemma_path_is_revealed(sweep.cells, after.cells, builder, path, path.len() - 1);
    }
    if revealed_in(after.cells, builder, x, y) && !revealed_in(sweep.cells, builder, x, y) {
        let start = seq![(x0, y0)];
        assert(leads_along(sweep.cells, builder, start));
        assert(start.last() == (x0, y0));
        lemma_flood_is_sound(sweep.cells, builder, sweep, x0, y0, 0, start);
        assert(start[0] == (x0, y0));
    }
}

/// The cells that a flood from `(x0, y0)` spreads to.
pub open spec fn region(cells: Map<(int, int), Cell>, builder: CellBuilder, x0: int, y0: int) -> Set<
    (int, int),
> {
    Set::new(|p: (int, int)| spreads_to(cells, builder, x0, y0, p.0, p.1))
}

/// Whether a flood from `(x0, y0)` has room below the ceiling: the cells
/// that it spreads to are fewer than the ceiling, and fewer by one more
/// where the board has a flag, since a flood enters a flagged cell beside
/// the cells that it spreads to.
pub open spec fn fits_below_ceiling(cells: Map<(int, int), Cell>, builder: CellBuilder, x0: int, y0: int) -> bool {
    let spread = region(cells, builder, x0, y0);
    &&& spread.finite()
    &&& spread.len() < DEPTH_CEILING
    &&& no_flags(cells, builder) || spread.len() + 1 < DEPTH_CEILING
}

/// A flood that is entered at `(x, y)`, to which `path` leads from the
/// start, does not give up where the flood from the start has room below
/// the ceiling. The cells in `entered` are those in which the floods that
/// led here were entered: they are as many as the depth, each is one that
/// the start spreads to, and each is revealed by now.
pub proof fn lemma_flood_stays_below(
    origin: Map<(int, int), Cell>,
    builder: CellBuilder,
    sweep: Sweep,
    x: int,
    y: int,
    depth: int,
    path: Seq<(int, int)>,
    entered: Set<(int, int)>,
)
    requires
        grown_from(origin, sweep.cells, builder),
        flags_block(sweep.cells, builder),
        leads_along(origin, builder, path),
        path.last() == (x, y),
        region(origin, builder, path[0].0, path[0].1).finite(),
        region(origin, builder, path[0].0, path[0].1).len() < DEPTH_CEILING,
        no_flags(sweep.cells, builder) || region(origin, builder, path[0].0, path[0].1).len() + 1
            < DEPTH_CEILING,
        entered.subset_of(region(origin, builder, path[0].0, path[0].1)),
        entered.len() == depth,
        forall|p: (int, int)| entered.contains(p) ==> #[trigger] revealed_in(sweep.cells, builder, p.0, p.1),
        !sweep.aborted,
    ensures
        !flood(sweep, builder, x, y, depth).aborted,
    decreases DEPTH_CEILING - depth, 0int,
{
    let x0 = path[0].0;
    let y0 = path[0].1;
    let spread = region(origin, builder, x0, y0);
    let cell = cell_in(sweep.cells, builder, x, y);
    lemma_len_subset(entered, spread);
    if !(cell.state is Revealed) {
        let uncovered = sweep.cells.insert((x, y), cell.spec_uncover());
        let counted = Sweep {
            cells: visited_around(uncovered, builder, x, y),
            revealed: counted_up(sweep.revealed),
            ..sweep
        };
        let deeper = entered.insert((x, y));
        lemma_uncover_and_visit(sweep, builder, x, y);
        lemma_floods_by_uncover(sweep, builder, x, y);
        lemma_grown_on(origin, sweep, counted, builder);
        if cell.state is Hidden {
            assert(hidden_in(origin, builder, x, y)) by {
                assert(cell_in(sweep.cells, builder, x, y).state is Hidden);
            }
            assert(spreads_along(origin, builder, path));
            assert(spreads_to(origin, builder, x0, y0, x, y));
            assert(spread.contains((x, y)));
            assert(!entered.contains((x, y))) by {
                if entered.contains((x, y)) {
                    assert(revealed_in(sweep.cells, builder, x, y));
                }
            }
            assert(deeper.subset_of(spread));
            lemma_len_subset(deeper, spread);
            assert(deeper.len() == depth + 1);
        } else {
            assert(cell.state is Flagged);
            assert(!no_flags(sweep.cells, builder));
        }
        assert(depth + 1 < DEPTH_CEILING);
        if !(cell.value is Mine) && mines_around(uncovered, builder, x, y) == 0 {
            lemma_grown_keeps_counts(sweep.cells, uncovered, builder, x, y);
            assert(clear_about(sweep.cells, builder, x, y));
            assert(cell.state is Hidden);
            lemma_grown_keeps_counts(origin, sweep.cells, builder, x, y);
            assert forall|p: (int, int)| deeper.contains(p) implies #[trigger] revealed_in(
                counted.cells,
                builder,
                p.0,
                p.1,
            ) by {
                if p != (x, y) {
                    assert(revealed_in(sweep.cells, builder, p.0, p.1));
                    assert(cell_in(uncovered, builder, p.0, p.1) == cell_in(
                        sweep.cells,
                        builder,
                        p.0,
                        p.1,
                    ));
                }
                assert(cell_in(counted.cells, builder, p.0, p.1) == cell_in(
                    uncovered,
                    builder,
                    p.0,
                    p.1,
                ));
            }
            lemma_flood_from_stays_below(origin, builder, counted, x, y, depth + 1, 0, path, deeper);
        }
    }
}

/// The floods from the neighbours of a cell that the start spreads to, and
/// that is clear about, do not give up where the flood from the start has
/// room below the ceiling.
pub proof fn lemma_flood_from_stays_below(
    origin: Map<(int, int), Cell>,
    builder: CellBuilder,
    sweep: Sweep,
    x: int,
    y: int,
    depth: int,
    k: int,
    path: Seq<(int, int)>,
    entered: Set<(int, int)>,
)
    requires
        grown_from(origin, sweep.cells, builder),
        flags_block(sweep.cells, builder),
        spreads_along(origin, builder, path),
        path.last() == (x, y),
        clear_about(origin, builder, x, y),
        region(origin, builder, path[0].0, path[0].1).finite(),
        region(origin, builder, path[0].0, path[0].1).len() < DEPTH_CEILING,
        no_flags(sweep.cells, builder) || region(origin, builder, path[0].0, path[0].1).len() + 1
            < DEPTH_CEILING,
        entered.subset_of(region(origin, builder, path[0].0, path[0].1)),
        entered.len() == depth,
        forall|p: (int, int)| entered.contains(p) ==> #[trigger] revealed_in(sweep.cells, builder, p.0, p.1),
        !sweep.aborted,
    ensures
        !flood_from(sweep, builder, x, y, depth, k).aborted,
    decreases DEPTH_CEILING - depth, 9 - k,
{
    if !(k < 0 || k >= 8 || sweep.aborted || depth >= DEPTH_CEILING) {
        let nx = x + neighbour_dx(k);
        let ny = y + neighbour_dy(k);
        let longer = path.push((nx, ny));
        assert(leads_along(origin, builder, longer)) by {
            assert forall|i: int| 0 <= i < longer.len() - 1 implies {
                &&& hidden_in(origin, builder, (#[trigger] longer[i]).0, longer[i].1)
                &&& clear_about(origin, builder, longer[i].0, longer[i].1)
                &&& adjacent(longer[i + 1].0, longer[i + 1].1, longer[i].0, longer[i].1)
            } by {
                assert(longer[i] == path[i]);
                if i < path.len() - 1 {
                    assert(longer[i + 1] == path[i + 1]);
                } else {
                    assert(longer[i + 1] == (nx, ny));
                    assert(path[i] == (x, y));
                }
            }
        }
        assert(longer[0] == path[0]);
        assert(longer.last() == (nx, ny));
        lemma_flood_stays_below(origin, builder, sweep, nx, ny, depth, longer, entered);
        let next = flood(sweep, builder, nx, ny, depth);
        lemma_flood(sweep, builder, nx, ny, depth);
        lemma_grown_on(origin, sweep, next, builder);
        assert forall|p: (int, int)| entered.contains(p) implies #[trigger] revealed_in(
            next.cells,
            builder,
            p.0,
            p.1,
        ) by {
            assert(revealed_in(sweep.cells, builder, p.0, p.1));
            let is = cell_in(next.cells, builder, p.0, p.1);
        }
        lemma_flood_from_stays_below(origin, builder, next, x, y, depth, k + 1, path, entered);
    }
}

/// A flood stays below the ceiling where it has room: where the cells that
/// its start spreads to are fewer than the ceiling (fewer by one more on a
/// board with a flag), and no flag lies on a cell that is clear about, the
/// flood does not give up.
pub proof fn lemma_small_flood_stays_below_ceiling(sweep: Sweep, builder: CellBuilder, x0: int, y0: int)
    requires
        flags_block(sweep.cells, builder),
        fits_below_ceiling(sweep.cells, builder, x0, y0),
        !sweep.aborted,
    ensures
        !flood(sweep, builder, x0, y0, 0).aborted,
{
    let start = seq![(x0, y0)];
    assert(leads_along(sweep.cells, builder, start));
    assert(start.last() == (x0, y0));
    assert(start[0] == (x0, y0));
    assert(grown_from(sweep.cells, sweep.cells, builder));
    let entered = Set::<(int, int)>::empty();
    assert(entered.subset_of(region(sweep.cells, builder, x0, y0)));
    lemma_flood_stays_below(sweep.cells, builder, sweep, x0, y0, 0, start, entered);
}

/// A board without flags has no flag on a cell that is clear about.
pub proof fn lemma_no_flags_block(cells: Map<(int, int), Cell>, builder: CellBuilder)
    requires
        no_flags(cells, builder),
    ensures
        flags_block(cells, builder),
{
}

/// The empty cells revealed between two boards.
pub open spec fn gained(before: Map<(int, int), Cell>, after: Map<(int, int), Cell>, builder: CellBuilder) -> Set<
    (int, int),
> {
    Set::new(
        |p: (int, int)|
            revealed_in(after, builder, p.0, p.1) && !revealed_in(before, builder, p.0, p.1) && cell_in(
                after,
                builder,
                p.0,
                p.1,
            ).value is Empty,
    )
}

/// A count that stops at the largest number it holds.
pub open spec fn capped(count: int) -> u32 {
    if count >= u32::MAX {
        u32::MAX
    } else if count <= 0 {
        0
    } else {
        count as u32
    }
}

/// Whether the count has grown between two sweeps by the number of empty
/// cells revealed between them.
pub open spec fn tallied(before: Sweep, after: Sweep, builder: CellBuilder) -> bool {
    &&& gained(before.cells, after.cells, builder).finite()
    &&& after.revealed == capped(before.revealed + gained(before.cells, after.cells, builder).len())
}

/// What is tallied up to a sweep and from it on is tallied throughout.
pub proof fn lemma_tallied_twice(a: Sweep, b: Sweep, c: Sweep, builder: CellBuilder)
    requires
        tallied(a, b, builder),
        tallied(b, c, builder),
        grown_from(a.cells, b.cells, builder),
        grown_from(b.cells, c.cells, builder),
    ensures
        tallied(a, c, builder),
{
    let first = gained(a.cells, b.cells, builder);
    let second = gained(b.cells, c.cells, builder);
    let both = gained(a.cells, c.cells, builder);
    assert(both =~= first + second) by {
        assert forall|p: (int, int)| both.contains(p) <==> (first + second).contains(p) by {
            let in_a = cell_in(a.cells, builder, p.0, p.1);
            let in_b = cell_in(b.cells, builder, p.0, p.1);
            let in_c = cell_in(c.cells, builder, p.0, p.1);
        }
    }
    assert(first.disjoint(second));
    lemma_set_disjoint_lens(first, second);
}

/// On a board without flags, a flood that does not give up counts each
/// empty cell that it reveals once.
pub proof fn lemma_flood_tallies(sweep: Sweep, builder: CellBuilder, x: int, y: int, depth: int)
    requires
        no_flags(sweep.cells, builder),
        !flood(sweep, builder, x, y, depth).aborted,
    ensures
        tallied(sweep, flood(sweep, builder, x, y, depth), builder),
    decreases DEPTH_CEILING - depth, 0int,
{
    let cell = cell_in(sweep.cells, builder, x, y);
    let after = flood(sweep, builder, x, y, depth);
    if cell.state is Revealed {
        assert(gained(sweep.cells, after.cells, builder) =~= Set::empty());
    } else {
        assert(cell.state is Hidden);
        let uncovered = sweep.cells.insert((x, y), cell.spec_uncover());
        if cell.value is Mine {
            assert(gained(sweep.cells, after.cells, builder) =~= Set::empty());
        } else {
            lemma_visit_changes_nothing(uncovered, builder, x, y);
            let counted = Sweep {
                cells: visited_around(uncovered, builder, x, y),
                revealed: counted_up(sweep.revealed),
                ..sweep
            };
            assert(gained(sweep.cells, counted.cells, builder) =~= set![(x, y)]) by {
                assert forall|p: (int, int)|
                    gained(sweep.cells, counted.cells, builder).contains(p) <==> p == (x, y) by {
                    assert(cell_in(counted.cells, builder, p.0, p.1) == cell_in(
                        uncovered,
                        builder,
                        p.0,
                        p.1,
                    ));
                }
            }
            assert(set![(x, y)].len() == 1) by {
                set![(x, y)].lemma_singleton_size();
            }
            assert(tallied(sweep, counted, builder));
            if mines_around(uncovered, builder, x, y) == 0 {
                let ended = flood_from(counted, builder, x, y, depth + 1, 0);
                assert(after == ended);
                assert(no_flags(counted.cells, builder)) by {
                    assert forall|x1: int, y1: int|
                        !((#[trigger] cell_in(counted.cells, builder, x1, y1)).state is Flagged) by {
                        assert(cell_in(counted.cells, builder, x1, y1) == cell_in(
                            uncovered,
                            builder,
                            x1,
                            y1,
                        ));
                        let via = cell_in(sweep.cells, builder, x1, y1);
                    }
                }
                lemma_flood_from_tallies(counted, builder, x, y, depth + 1, 0);
                lemma_flood_from(counted, builder, x, y, depth + 1, 0);
                assert(grown_from(sweep.cells, counted.cells, builder)) by {
                    assert forall|x1: int, y1: int|
                        {
                            let was = cell_in(sweep.cells, builder, x1, y1);
                            let is = #[trigger] cell_in(counted.cells, builder, x1, y1);
                            is.value == was.value && (is.state == was.state || (was.state is Hidden
                                && is.state is Revealed))
                        } by {
                        assert(cell_in(counted.cells, builder, x1, y1) == cell_in(
                            uncovered,
                            builder,
                            x1,
                            y1,
                        ));
                    }
                }
                lemma_tallied_twice(sweep, counted, ended, builder);
            }
        }
    }
}

/// On a board without flags, the floods from the neighbours of a cell,
/// where none gives up, count each empty cell that they reveal once.
pub proof fn lemma_flood_from_tallies(sweep: Sweep, builder: CellBuilder, x: int, y: int, depth: int, k: int)
    requires
        no_flags(sweep.cells, builder),
        !flood_from(sweep, builder, x, y, depth, k).aborted,
    ensures
        tallied(sweep, flood_from(sweep, builder, x, y, depth, k), builder),
    decreases DEPTH_CEILING - depth, 9 - k,
{
    if !(k < 0 || k >= 8 || sweep.aborted || depth >= DEPTH_CEILING) {
        let nx = x + neighbour_dx(k);
        let ny = y + neighbour_dy(k);
        let next = flood(sweep, builder, nx, ny, depth);
        let ended = flood_from(next, builder, x, y, depth, k + 1);
        assert(!next.aborted) by {
            if next.aborted {
                assert(ended == next);
            }
        }
        lemma_flood_tallies(sweep, builder, nx, ny, depth);
        lemma_flood(sweep, builder, nx, ny, depth);
        lemma_grown_on(sweep.cells, sweep, next, builder);
        lemma_flood_from_tallies(next, builder, x, y, depth, k + 1);
        lemma_flood_from(next, builder, x, y, depth, k + 1);
        lemma_tallied_twice(sweep, next, ended, builder);
    } else {
        assert(gained(sweep.cells, sweep.cells, builder) =~= Set::empty());
    }
}

} // verus!
