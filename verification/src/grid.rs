//! The board: a quadtree of lazily generated cells.

pub mod cell;
pub mod cell_builder;
pub mod tile;

use crate::helper::{Immut, PlaceI32};
use cell::Cell;
use cell_builder::CellBuilder;
use tile::{is_tile_radius, Subtiles, Tile, MAX_RADIUS};
use vstd::prelude::*;

verus! {

/// The board. Its view is the map from the places visited so far to their
/// cells; every other place still holds what the generator will make there.
#[derive(Debug)]
pub struct Grid {
    tile: Subtiles,
}

impl View for Grid {
    type V = Map<(int, int), Cell>;

    closed spec fn view(&self) -> Map<(int, int), Cell> {
        Map::new(
            |p: (int, int)| self.tile.lookup(p.0, p.1) is Some,
            |p: (int, int)| self.tile.lookup(p.0, p.1).unwrap(),
        )
    }
}

/// On a board whose visited cells hold what the generator gives, every
/// cell does, visited or not: what a place holds depends on the generator
/// and the place alone, not on the visits before it nor on how far the tree
/// has grown.
pub proof fn lemma_cells_are_generated(grid: Grid, x: int, y: int)
    requires
        grid.faithful(),
    ensures
        grid.cell_at(x, y).value == grid.builder().value_of(x, y),
{
    if grid@.contains_key((x, y)) {
    }
}

impl Grid {
    /// The tree is sound: it is centred on the board's centre, radii halve
    /// from node to child, and below the root's quadrants no node is without
    /// a cell.
    pub closed spec fn wf(self) -> bool {
        &&& self.tile.wf()
        &&& self.tile.origin == PlaceI32::spec_origin()
        &&& self.tile.compact_below_children()
    }

    /// The generator that makes the cells.
    pub closed spec fn builder(self) -> CellBuilder {
        self.tile.builder
    }

    /// The radius of the root.
    pub closed spec fn radius(self) -> int {
        self.tile.radius as int
    }

    /// The places that the board can hold.
    pub open spec fn in_reach(place: PlaceI32) -> bool {
        -MAX_RADIUS <= place.x < MAX_RADIUS && -MAX_RADIUS <= place.y < MAX_RADIUS
    }

    /// The cell at `(x, y)`: the one that a visit left there, or the one
    /// that the generator makes.
    pub open spec fn cell_at(self, x: int, y: int) -> Cell {
        if self@.contains_key((x, y)) {
            self@[(x, y)]
        } else {
            self.builder().cell_of(x, y)
        }
    }

    /// Whether every visited cell holds what the generator gives for its
    /// place.
    pub open spec fn faithful(self) -> bool {
        forall|x: int, y: int| #[trigger]
            self@.contains_key((x, y)) ==> self@[(x, y)].value == self.builder().value_of(x, y)
    }

    /// The radius that a root of radius `before` has after it has grown to
    /// hold `place`: the first of `before`, `2 * before`, `4 * before`, ...
    /// that is at least the radius of `place`.
    pub open spec fn grown_radius(before: int, place: PlaceI32, after: int) -> bool {
        &&& is_tile_radius(after)
        &&& before <= after
        &&& place.spec_radius() <= after
        &&& after == before || after < 2 * place.spec_radius()
    }

    pub fn new(cell_builder: CellBuilder) -> (grid: Grid)
        requires
            cell_builder.wf(),
        ensures
            grid.wf(),
            grid.faithful(),
            grid@ == Map::<(int, int), Cell>::empty(),
            grid.builder() == cell_builder,
            grid.radius() == 1,
    {
        let grid = Self { tile: Tile::new(1, cell_builder) };
        assert(grid@ =~= Map::<(int, int), Cell>::empty());
        grid
    }

    /// Grows the tree until it holds `place`. No cell changes.
    fn reach(&mut self, place: PlaceI32)
        requires
            old(self).wf(),
            Self::in_reach(place),
        ensures
            final(self).wf(),
            final(self)@ == old(self)@,
            final(self).builder() == old(self).builder(),
            Self::grown_radius(old(self).radius(), place, final(self).radius()),
            final(self).tile.covers(place.x as int, place.y as int),
            forall|x: int, y: int| #[trigger] final(self).tile.lookup(x, y) == old(self).tile.lookup(x, y),
    {
        let target = place.radius();
        while target > self.tile.radius
            invariant
                self.wf(),
                target == place.spec_radius(),
                1 <= target <= MAX_RADIUS,
                self.builder() == old(self).builder(),
                is_tile_radius(self.radius()),
                old(self).radius() <= self.radius(),
                self.radius() == old(self).radius() || self.radius() < 2 * target,
                forall|x: int, y: int| #[trigger] self.tile.lookup(x, y) == old(self).tile.lookup(x, y),
            decreases MAX_RADIUS - self.tile.radius,
        {
            self.tile.expand();
        }
        assert(final(self)@ =~= old(self)@);
    }

    /// The cell at `place`, read. The visit leaves the cell on the board.
    pub fn get(&mut self, place: PlaceI32) -> (cell: Immut<Cell>)
        requires
            old(self).wf(),
            Self::in_reach(place),
        ensures
            cell.inner() == old(self).cell_at(place.x as int, place.y as int),
            final(self).wf(),
            final(self).builder() == old(self).builder(),
            final(self)@ == old(self)@.insert(
                (place.x as int, place.y as int),
                old(self).cell_at(place.x as int, place.y as int),
            ),
            Self::grown_radius(old(self).radius(), place, final(self).radius()),
            old(self).faithful() ==> final(self).faithful(),
    {
        let cell = *self.get_mut(place);
        Immut::new(cell)
    }

    /// The cell at `place`, to change. The visit leaves the cell on the
    /// board, as the caller leaves it.
    pub fn get_mut(&mut self, place: PlaceI32) -> (cell: &mut Cell)
        requires
            old(self).wf(),
            Self::in_reach(place),
        ensures
            *cell == old(self).cell_at(place.x as int, place.y as int),
            final(self).wf(),
            final(self).builder() == old(self).builder(),
            final(self)@ == old(self)@.insert((place.x as int, place.y as int), *final(cell)),
            Self::grown_radius(old(self).radius(), place, final(self).radius()),
            old(self).faithful() && final(cell).value == cell.value ==> final(self).faithful(),
    {
        self.reach(place);
        let ghost before = *old(self);
        let ghost mid = *self;
        let ghost px = place.x as int;
        let ghost py = place.y as int;
        proof {
            assert(mid.cell_at(px, py) == mid.tile.cell_at(px, py));
            assert(before.cell_at(px, py) == mid.cell_at(px, py));
            assert forall|tile: Subtiles, cell: Cell| #[trigger]
                tile.holds_at(mid.tile, px, py, cell) implies {
                let after = Grid { tile };
                &&& after.wf()
                &&& after.builder() == before.builder()
                &&& after@ == before@.insert((px, py), cell)
                &&& after.radius() == mid.radius()
                &&& (before.faithful() && cell.value == before.cell_at(px, py).value
                    ==> after.faithful())
            } by {
                let after = Grid { tile };
                assert(after@ =~= before@.insert((px, py), cell));
                if before.faithful() && cell.value == before.cell_at(px, py).value {
                    assert forall|x: int, y: int| #[trigger]
                        after@.contains_key((x, y)) implies after@[(x, y)].value
                        == after.builder().value_of(x, y) by {
                        if x == px && y == py {
                        } else {
                            assert(before@.contains_key((x, y)));
                        }
                    }
                }
            }
        }
        self.tile.get(place)
    }
}

} // verus!
