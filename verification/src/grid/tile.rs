//! The quadtree. A node covers a square of side `2 * radius` about its
//! origin; each of its four quadrants is empty, one cell (where the radius
//! is 1) or a node of half the radius.

use super::cell::Cell;
use super::cell_builder::CellBuilder;
use crate::helper::PlaceI32;
use vstd::prelude::*;

verus! {

/// The largest radius of a node: the board reaches from `-MAX_RADIUS` up to,
/// but not including, `MAX_RADIUS` on both axes.
pub const MAX_RADIUS: i32 = 0x4000_0000;

#[derive(Debug)]
pub enum Tile {
    Cell(Cell),
    Subtiles(Box<Subtiles>),
    Nothing,
}

#[derive(Debug)]
pub struct Subtiles {
    pub radius: i32,
    pub origin: PlaceI32,
    pub bottom_left: Tile,
    pub bottom_right: Tile,
    pub top_left: Tile,
    pub top_right: Tile,
    pub builder: CellBuilder,
}

#[derive(Clone, Copy, Debug, PartialEq, Eq, Structural)]
pub enum Quadrant {
    BottomLeft,
    BottomRight,
    TopLeft,
    TopRight,
}

/// The radii that nodes have: the powers of two.
pub open spec fn is_tile_radius(r: int) -> bool
    decreases r,
{
    r == 1 || (r > 1 && r % 2 == 0 && is_tile_radius(r / 2))
}

impl Tile {
    /// The cell that this tile holds for the place `(x, y)`, if any.
    pub open spec fn lookup(self, x: int, y: int) -> Option<Cell>
        decreases self,
    {
        match self {
            Tile::Cell(cell) => Some(cell),
            Tile::Subtiles(tile) => tile.lookup(x, y),
            Tile::Nothing => None,
        }
    }

    /// Whether this tile may fill the quadrant centred on `(cx, cy)` of a
    /// node of the given radius.
    pub open spec fn wf_under(self, radius: int, cx: int, cy: int, builder: CellBuilder) -> bool
        decreases self,
    {
        match self {
            Tile::Cell(_) => radius == 1,
            Tile::Subtiles(tile) => {
                &&& radius > 1
                &&& tile.radius * 2 == radius
                &&& tile.origin.x == cx
                &&& tile.origin.y == cy
                &&& tile.builder == builder
                &&& tile.wf()
            },
            Tile::Nothing => true,
        }
    }

    /// Whether every node inside this tile, the tile itself included, holds
    /// a cell somewhere.
    pub open spec fn compact(self) -> bool
        decreases self,
    {
        match self {
            Tile::Subtiles(tile) => tile.populated() && tile.compact(),
            _ => true,
        }
    }

    /// Whether every node strictly inside this tile holds a cell somewhere.
    pub open spec fn compact_inside(self) -> bool {
        match self {
            Tile::Subtiles(tile) => tile.compact(),
            _ => true,
        }
    }

    /// What `or_none` makes of a tile: a node with four empty quadrants
    /// becomes nothing; anything else stays.
    pub open spec fn spec_or_none(self) -> Tile {
        match self {
            Tile::Subtiles(tile) => if tile.bare() {
                Tile::Nothing
            } else {
                self
            },
            _ => self,
        }
    }

    pub fn new(radius: i32, cell_builder: CellBuilder) -> (tile: Subtiles)
        ensures
            tile == Subtiles::empty_at(radius, PlaceI32::origin(), cell_builder),
    {
        Subtiles {
            origin: PlaceI32::origin(),
            radius,
            bottom_left: Tile::Nothing,
            bottom_right: Tile::Nothing,
            top_left: Tile::Nothing,
            top_right: Tile::Nothing,
            builder: cell_builder,
        }
    }

    /// Drops a node that holds nothing.
    pub fn or_none(self) -> (tile: Tile)
        ensures
            tile == self.spec_or_none(),
    {
        let bare = match &self {
            Tile::Subtiles(tile) => tile.is_bare(),
            _ => false,
        };
        if bare {
            Tile::Nothing
        } else {
            self
        }
    }
}

impl Subtiles {
    pub open spec fn empty_at(radius: i32, origin: PlaceI32, builder: CellBuilder) -> Subtiles {
        Subtiles {
            radius,
            origin,
            bottom_left: Tile::Nothing,
            bottom_right: Tile::Nothing,
            top_left: Tile::Nothing,
            top_right: Tile::Nothing,
            builder,
        }
    }

    pub open spec fn slot(self, quadrant: Quadrant) -> Tile {
        match quadrant {
            Quadrant::BottomLeft => self.bottom_left,
            Quadrant::BottomRight => self.bottom_right,
            Quadrant::TopLeft => self.top_left,
            Quadrant::TopRight => self.top_right,
        }
    }

    pub open spec fn with_slot(self, quadrant: Quadrant, tile: Tile) -> Subtiles {
        match quadrant {
            Quadrant::BottomLeft => Subtiles { bottom_left: tile, ..self },
            Quadrant::BottomRight => Subtiles { bottom_right: tile, ..self },
            Quadrant::TopLeft => Subtiles { top_left: tile, ..self },
            Quadrant::TopRight => Subtiles { top_right: tile, ..self },
        }
    }

    /// Whether all four quadrants are empty.
    pub open spec fn bare(self) -> bool {
        &&& self.bottom_left is Nothing
        &&& self.bottom_right is Nothing
        &&& self.top_left is Nothing
        &&& self.top_right is Nothing
    }

    pub open spec fn spec_left(self) -> int {
        self.origin.x - self.radius
    }

    pub open spec fn spec_right(self) -> int {
        self.origin.x + self.radius
    }

    pub open spec fn spec_bottom(self) -> int {
        self.origin.y - self.radius
    }

    pub open spec fn spec_top(self) -> int {
        self.origin.y + self.radius
    }

    /// Whether the node's square holds `(x, y)`: both intervals are
    /// half-open.
    pub open spec fn covers(self, x: int, y: int) -> bool {
        self.spec_left() <= x < self.spec_right() && self.spec_bottom() <= y < self.spec_top()
    }

    /// The quadrant on whose side of the origin `(x, y)` lies.
    pub open spec fn quadrant_of(self, x: int, y: int) -> Quadrant {
        if x < self.origin.x {
            if y < self.origin.y {
                Quadrant::BottomLeft
            } else {
                Quadrant::TopLeft
            }
        } else {
            if y < self.origin.y {
                Quadrant::BottomRight
            } else {
                Quadrant::TopRight
            }
        }
    }

    /// The centre of a quadrant.
    pub open spec fn child_x(self, quadrant: Quadrant) -> int {
        match quadrant {
            Quadrant::BottomLeft | Quadrant::TopLeft => self.origin.x - self.radius / 2,
            Quadrant::BottomRight | Quadrant::TopRight => self.origin.x + self.radius / 2,
        }
    }

    pub open spec fn child_y(self, quadrant: Quadrant) -> int {
        match quadrant {
            Quadrant::BottomLeft | Quadrant::BottomRight => self.origin.y - self.radius / 2,
            Quadrant::TopLeft | Quadrant::TopRight => self.origin.y + self.radius / 2,
        }
    }

    /// The cell that the node holds for `(x, y)`, if any: the descent by
    /// quadrants, which ends at an empty quadrant or at a cell.
    pub open spec fn lookup(self, x: int, y: int) -> Option<Cell>
        decreases self,
    {
        if self.covers(x, y) {
            match self.quadrant_of(x, y) {
                Quadrant::BottomLeft => self.bottom_left.lookup(x, y),
                Quadrant::BottomRight => self.bottom_right.lookup(x, y),
                Quadrant::TopLeft => self.top_left.lookup(x, y),
                Quadrant::TopRight => self.top_right.lookup(x, y),
            }
        } else {
            None
        }
    }

    /// The shape of the tree: radii are powers of two and halve from a node
    /// to its children, each child sits at the centre of its quadrant, cells
    /// stand only in nodes of radius 1, and the whole lies within the board.
    pub open spec fn wf(self) -> bool
        decreases self,
    {
        &&& is_tile_radius(self.radius as int)
        &&& -MAX_RADIUS <= self.spec_left()
        &&& self.spec_right() <= MAX_RADIUS
        &&& -MAX_RADIUS <= self.spec_bottom()
        &&& self.spec_top() <= MAX_RADIUS
        &&& self.builder.wf()
        &&& self.bottom_left.wf_under(
            self.radius as int,
            self.child_x(Quadrant::BottomLeft),
            self.child_y(Quadrant::BottomLeft),
            self.builder,
        )
        &&& self.bottom_right.wf_under(
            self.radius as int,
            self.child_x(Quadrant::BottomRight),
            self.child_y(Quadrant::BottomRight),
            self.builder,
        )
        &&& self.top_left.wf_under(
            self.radius as int,
            self.child_x(Quadrant::TopLeft),
            self.child_y(Quadrant::TopLeft),
            self.builder,
        )
        &&& self.top_right.wf_under(
            self.radius as int,
            self.child_x(Quadrant::TopRight),
            self.child_y(Quadrant::TopRight),
            self.builder,
        )
    }

    /// Whether the node holds a cell somewhere.
    pub open spec fn populated(self) -> bool {
        exists|x: int, y: int| (#[trigger] self.lookup(x, y)) is Some
    }

    /// Whether every node strictly inside this one holds a cell somewhere.
    pub open spec fn compact(self) -> bool
        decreases self,
    {
        &&& self.bottom_left.compact()
        &&& self.bottom_right.compact()
        &&& self.top_left.compact()
        &&& self.top_right.compact()
    }

    /// The same, but for the four nodes directly below this one, which may
    /// be empty: the state of a root after it has grown.
    pub open spec fn compact_below_children(self) -> bool {
        &&& self.bottom_left.compact_inside()
        &&& self.bottom_right.compact_inside()
        &&& self.top_left.compact_inside()
        &&& self.top_right.compact_inside()
    }

    /// Whether this node is `before` with `cell` put at `(x, y)`: the same
    /// square and generator, a sound shape, `cell` at `(x, y)` and every
    /// other place as it was, and as compact as `before`.
    pub open spec fn holds_at(self, before: Subtiles, x: int, y: int, cell: Cell) -> bool {
        &&& self.wf()
        &&& self.radius == before.radius
        &&& self.origin == before.origin
        &&& self.builder == before.builder
        &&& forall|x1: int, y1: int|
            #[trigger] self.lookup(x1, y1) == if x1 == x && y1 == y {
                Some(cell)
            } else {
                before.lookup(x1, y1)
            }
        &&& before.compact() ==> self.compact()
        &&& before.compact_below_children() ==> self.compact_below_children()
    }

    /// The cell that a visit to `(x, y)` finds: the one that is there, or
    /// the one that the generator makes.
    pub open spec fn cell_at(self, x: int, y: int) -> Cell {
        match self.lookup(x, y) {
            Some(cell) => cell,
            None => self.builder.cell_of(x, y),
        }
    }

    /// The root of twice the radius: each quadrant is a new node of the old
    /// radius whose innermost corner holds the old quadrant, or nothing
    /// where that held nothing.
    pub open spec fn expanded(self) -> Subtiles {
        let r = self.radius;
        Subtiles {
            radius: (2 * r) as i32,
            origin: self.origin,
            builder: self.builder,
            bottom_left: Tile::Subtiles(
                Box::new(
                    Subtiles::empty_at(
                        r,
                        PlaceI32 { x: self.spec_left() as i32, y: self.spec_bottom() as i32 },
                        self.builder,
                    ).with_slot(Quadrant::TopRight, self.bottom_left.spec_or_none()),
                ),
            ),
            bottom_right: Tile::Subtiles(
                Box::new(
                    Subtiles::empty_at(
                        r,
                        PlaceI32 { x: self.spec_right() as i32, y: self.spec_bottom() as i32 },
                        self.builder,
                    ).with_slot(Quadrant::TopLeft, self.bottom_right.spec_or_none()),
                ),
            ),
            top_left: Tile::Subtiles(
                Box::new(
                    Subtiles::empty_at(
                        r,
                        PlaceI32 { x: self.spec_left() as i32, y: self.spec_top() as i32 },
                        self.builder,
                    ).with_slot(Quadrant::BottomRight, self.top_left.spec_or_none()),
                ),
            ),
            top_right: Tile::Subtiles(
                Box::new(
                    Subtiles::empty_at(
                        r,
                        PlaceI32 { x: self.spec_right() as i32, y: self.spec_top() as i32 },
                        self.builder,
                    ).with_slot(Quadrant::BottomLeft, self.top_right.spec_or_none()),
                ),
            ),
        }
    }

    pub fn is_bare(&self) -> (bare: bool)
        ensures
            bare == self.bare(),
    {
        matches!(self.bottom_left, Tile::Nothing) && matches!(self.bottom_right, Tile::Nothing) && matches!(
            self.top_left,
            Tile::Nothing
        ) && matches!(self.top_right, Tile::Nothing)
    }

    pub fn left(&self) -> (r: i32)
        requires
            self.wf(),
        ensures
            r == self.spec_left(),
    {
        self.origin.x - self.radius
    }

    pub fn right(&self) -> (r: i32)
        requires
            self.wf(),
        ensures
            r == self.spec_right(),
    {
        self.origin.x + self.radius
    }

    pub fn bottom(&self) -> (r: i32)
        requires
            self.wf(),
        ensures
            r == self.spec_bottom(),
    {
        self.origin.y - self.radius
    }

    pub fn top(&self) -> (r: i32)
        requires
            self.wf(),
        ensures
            r == self.spec_top(),
    {
        self.origin.y + self.radius
    }
    /// The quadrant that holds `place`.
    pub fn quadrant(&self, place: PlaceI32) -> (quadrant: Quadrant)
        requires
            self.covers(place.x as int, place.y as int),
        ensures
            quadrant == self.quadrant_of(place.x as int, place.y as int),
    {
        if place.x < self.origin.x {
            if place.y < self.origin.y {
                Quadrant::BottomLeft
            } else {
                Quadrant::TopLeft
            }
        } else {
            if place.y < self.origin.y {
                Quadrant::BottomRight
            } else {
                Quadrant::TopRight
            }
        }
    }

    /// Whether a quadrant is empty.
    pub fn is_vacant(&self, quadrant: Quadrant) -> (vacant: bool)
        ensures
            vacant == (self.slot(quadrant) is Nothing),
    {
        match quadrant {
            Quadrant::BottomLeft => matches!(self.bottom_left, Tile::Nothing),
            Quadrant::BottomRight => matches!(self.bottom_right, Tile::Nothing),
            Quadrant::TopLeft => matches!(self.top_left, Tile::Nothing),
            Quadrant::TopRight => matches!(self.top_right, Tile::Nothing),
        }
    }

    pub fn subtile(&mut self, quadrant: Quadrant) -> (tile: &mut Tile)
        ensures
            *tile == old(self).slot(quadrant),
            *final(self) == old(self).with_slot(quadrant, *final(tile)),
    {
        match quadrant {
            Quadrant::BottomLeft => &mut self.bottom_left,
            Quadrant::BottomRight => &mut self.bottom_right,
            Quadrant::TopLeft => &mut self.top_left,
            Quadrant::TopRight => &mut self.top_right,
        }
    }

    /// Puts an empty node of half the radius into an empty quadrant.
    pub fn make_tile(&mut self, quadrant: Quadrant)
        requires
            old(self).wf(),
            old(self).radius > 1,
            old(self).slot(quadrant) is Nothing,
        ensures
            *final(self) == old(self).with_slot(
                quadrant,
                Tile::Subtiles(
                    Box::new(
                        Subtiles::empty_at(
                            (old(self).radius / 2) as i32,
                            PlaceI32 {
                                x: old(self).child_x(quadrant) as i32,
                                y: old(self).child_y(quadrant) as i32,
                            },
                            old(self).builder,
                        ),
                    ),
                ),
            ),
            final(self).wf(),
    {
        let half: i32 = self.radius / 2;
        let new_tile = Subtiles {
            radius: half,
            origin: match quadrant {
                Quadrant::BottomLeft => PlaceI32 { x: self.origin.x - half, y: self.origin.y - half },
                Quadrant::BottomRight => PlaceI32 { x: self.origin.x + half, y: self.origin.y - half },
                Quadrant::TopLeft => PlaceI32 { x: self.origin.x - half, y: self.origin.y + half },
                Quadrant::TopRight => PlaceI32 { x: self.origin.x + half, y: self.origin.y + half },
            },
            bottom_left: Tile::Nothing,
            bottom_right: Tile::Nothing,
            top_left: Tile::Nothing,
            top_right: Tile::Nothing,
            builder: self.builder,
        };
        assert(new_tile.wf());
        match quadrant {
            Quadrant::BottomLeft => self.bottom_left = Tile::Subtiles(Box::new(new_tile)),
            Quadrant::BottomRight => self.bottom_right = Tile::Subtiles(Box::new(new_tile)),
            Quadrant::TopLeft => self.top_left = Tile::Subtiles(Box::new(new_tile)),
            Quadrant::TopRight => self.top_right = Tile::Subtiles(Box::new(new_tile)),
        };
    }
    /// Makes the cell at `place`, and the nodes on the way down to it.
    pub fn add(&mut self, place: PlaceI32)
        requires
            old(self).wf(),
            old(self).covers(place.x as int, place.y as int),
            old(self).lookup(place.x as int, place.y as int) is None,
        ensures
            final(self).holds_at(
                *old(self),
                place.x as int,
                place.y as int,
                old(self).builder.cell_of(place.x as int, place.y as int),
            ),
        decreases old(self).radius,
    {
        let radius = self.radius;
        let quadrant = self.quadrant(place);
        let ghost px = place.x as int;
        let ghost py = place.y as int;
        let ghost before = *self;
        proof {
            lemma_replace_slot(before, quadrant);
            lemma_quadrant_geometry(before, quadrant, px, py);
        }
        if radius == 1 {
            let cell = self.builder.cell(place);
            match quadrant {
                Quadrant::BottomLeft => self.bottom_left = Tile::Cell(cell),
                Quadrant::BottomRight => self.bottom_right = Tile::Cell(cell),
                Quadrant::TopLeft => self.top_left = Tile::Cell(cell),
                Quadrant::TopRight => self.top_right = Tile::Cell(cell),
            };
            proof {
                assert(*self == before.with_slot(quadrant, Tile::Cell(cell)));
                lemma_put_cell(before, quadrant, px, py, cell);
            }
        } else {
            if self.is_vacant(quadrant) {
                self.make_tile(quadrant);
            }
            let ghost mid = *self;
            proof {
                lemma_quadrant_geometry(mid, quadrant, px, py);
                lemma_replace_slot(mid, quadrant);
            }
            match self.subtile(quadrant) {
                Tile::Subtiles(subtile) => {
                    subtile.add(place);
                },
                _ => {
                    assert(false);
                },
            }
            proof {
                let child = mid.slot(quadrant)->Subtiles_0;
                let grown = self.slot(quadrant)->Subtiles_0;
                let cell = before.builder.cell_of(px, py);
                assert(*self == before.with_slot(quadrant, Tile::Subtiles(grown)));
                lemma_put_child(before, quadrant, px, py, *child, *grown, cell);
            }
        }
    }

    /// The cell at `place`, made first if it is not there yet.
    pub fn get(&mut self, place: PlaceI32) -> (cell: &mut Cell)
        requires
            old(self).wf(),
            old(self).covers(place.x as int, place.y as int),
        ensures
            *cell == old(self).cell_at(place.x as int, place.y as int),
            final(self).holds_at(*old(self), place.x as int, place.y as int, *final(cell)),
        decreases old(self).radius,
    {
        let quadrant = self.quadrant(place);
        let ghost px = place.x as int;
        let ghost py = place.y as int;
        let ghost before = *self;
        if self.is_vacant(quadrant) {
            self.add(place);
        }
        let ghost mid = *self;
        proof {
            lemma_replace_slot(before, quadrant);
            lemma_replace_slot(mid, quadrant);
            lemma_quadrant_geometry(mid, quadrant, px, py);
            assert(mid.lookup(px, py) == mid.slot(quadrant).lookup(px, py));
            assert(before.lookup(px, py) == before.slot(quadrant).lookup(px, py));
            assert(mid.cell_at(px, py) == before.cell_at(px, py));
            assert(mid.slot(quadrant) matches Tile::Subtiles(child) ==> child.cell_at(px, py)
                == mid.cell_at(px, py));
            assert forall|cell: Cell|
                mid.radius == 1 implies #[trigger] mid.with_slot(quadrant, Tile::Cell(cell)).holds_at(
                before,
                px,
                py,
                cell,
            ) by {
                lemma_put_cell(mid, quadrant, px, py, cell);
                lemma_put_twice(before, mid, mid.with_slot(quadrant, Tile::Cell(cell)), px, py, cell);
            }
            let child = mid.slot(quadrant)->Subtiles_0;
            assert forall|grown: Subtiles, cell: Cell|
                mid.slot(quadrant) is Subtiles && #[trigger] grown.holds_at(
                    *child,
                    px,
                    py,
                    cell,
                ) implies mid.with_slot(quadrant, Tile::Subtiles(Box::new(grown))).holds_at(
                before,
                px,
                py,
                cell,
            ) by {
                lemma_put_child(mid, quadrant, px, py, *child, grown, cell);
                lemma_put_twice(
                    before,
                    mid,
                    mid.with_slot(quadrant, Tile::Subtiles(Box::new(grown))),
                    px,
                    py,
                    cell,
                );
            }
        }
        match self.subtile(quadrant) {
            Tile::Cell(cell) => cell,
            Tile::Subtiles(subtile) => subtile.get(place),
            Tile::Nothing => vstd::pervasive::unreached(),
        }
    }
    /// Doubles the radius about the same origin. Each quadrant becomes a new
    /// node of the old radius that holds the old quadrant in its innermost
    /// corner, or nothing where the old quadrant held nothing.
    pub fn expand(&mut self)
        requires
            old(self).wf(),
            old(self).origin == PlaceI32::origin(),
            old(self).radius < MAX_RADIUS,
        ensures
            *final(self) == old(self).expanded(),
            final(self).wf(),
            final(self).radius == 2 * old(self).radius,
            final(self).origin == old(self).origin,
            final(self).builder == old(self).builder,
            forall|x: int, y: int| #[trigger] final(self).lookup(x, y) == old(self).lookup(x, y),
            old(self).compact_below_children() ==> final(self).compact_below_children(),
    {
        proof {
            lemma_expanded(*self);
        }
        let old_radius = self.radius;
        let old_left = self.left();
        let old_right = self.right();
        let old_bottom = self.bottom();
        let old_top = self.top();
        let builder = self.builder;
        let mut bottom_left = Tile::Nothing;
        let mut bottom_right = Tile::Nothing;
        let mut top_left = Tile::Nothing;
        let mut top_right = Tile::Nothing;
        std::mem::swap(&mut bottom_left, &mut self.bottom_left);
        std::mem::swap(&mut bottom_right, &mut self.bottom_right);
        std::mem::swap(&mut top_left, &mut self.top_left);
        std::mem::swap(&mut top_right, &mut self.top_right);

        self.radius = old_radius * 2;
        self.bottom_left = Tile::Subtiles(
            Box::new(
                Subtiles {
                    radius: old_radius,
                    origin: PlaceI32 { x: old_left, y: old_bottom },
                    bottom_left: Tile::Nothing,
                    bottom_right: Tile::Nothing,
                    top_left: Tile::Nothing,
                    top_right: bottom_left.or_none(),
                    builder,
                },
            ),
        );
        self.bottom_right = Tile::Subtiles(
            Box::new(
                Subtiles {
                    radius: old_radius,
                    origin: PlaceI32 { x: old_right, y: old_bottom },
                    bottom_left: Tile::Nothing,
                    bottom_right: Tile::Nothing,
                    top_left: bottom_right.or_none(),
                    top_right: Tile::Nothing,
                    builder,
                },
            ),
        );
        self.top_left = Tile::Subtiles(
            Box::new(
                Subtiles {
                    radius: old_radius,
                    origin: PlaceI32 { x: old_left, y: old_top },
                    bottom_left: Tile::Nothing,
                    bottom_right: top_left.or_none(),
                    top_left: Tile::Nothing,
                    top_right: Tile::Nothing,
                    builder,
                },
            ),
        );
        self.top_right = Tile::Subtiles(
            Box::new(
                Subtiles {
                    radius: old_radius,
                    origin: PlaceI32 { x: old_right, y: old_top },
                    bottom_left: top_right.or_none(),
                    bottom_right: Tile::Nothing,
                    top_left: Tile::Nothing,
                    top_right: Tile::Nothing,
                    builder,
                },
            ),
        );
    }
}

/// What changes when one quadrant of a node is replaced: lookups that go
/// through that quadrant see the new tile and all others see what they saw;
/// the shape holds if the new tile fits the quadrant; and the node stays
/// compact if the new tile is.
pub proof fn lemma_replace_slot(node: Subtiles, quadrant: Quadrant)
    ensures
        forall|tile: Tile, x: int, y: int| #[trigger]
            node.with_slot(quadrant, tile).lookup(x, y) == if node.covers(x, y) && node.quadrant_of(x, y)
                == quadrant {
                tile.lookup(x, y)
            } else {
                node.lookup(x, y)
            },
        forall|tile: Tile|
            node.wf() && tile.wf_under(
                node.radius as int,
                node.child_x(quadrant),
                node.child_y(quadrant),
                node.builder,
            ) ==> (#[trigger] node.with_slot(quadrant, tile)).wf(),
        forall|tile: Tile|
            node.compact() && tile.compact() ==> (#[trigger] node.with_slot(quadrant, tile)).compact(),
        forall|tile: Tile|
            node.compact_below_children() && tile.compact_inside() ==> (#[trigger] node.with_slot(
                quadrant,
                tile,
            )).compact_below_children(),
        forall|x: int, y: int|
            node.covers(x, y) && node.quadrant_of(x, y) == quadrant ==> #[trigger] node.lookup(x, y)
                == node.slot(quadrant).lookup(x, y),
{
}

/// A child covers exactly its quadrant of the parent, and a node of radius
/// 1 has one place in each quadrant.
pub proof fn lemma_quadrant_geometry(node: Subtiles, quadrant: Quadrant, x: int, y: int)
    requires
        node.wf(),
    ensures
        node.slot(quadrant) matches Tile::Subtiles(child) ==> (child.covers(x, y) <==> node.covers(x, y)
            && node.quadrant_of(x, y) == quadrant),
        node.radius == 1 && node.covers(x, y) && node.quadrant_of(x, y) == quadrant ==> {
            &&& x == (match quadrant {
                Quadrant::BottomLeft | Quadrant::TopLeft => node.origin.x - 1,
                Quadrant::BottomRight | Quadrant::TopRight => node.origin.x as int,
            })
            &&& y == (match quadrant {
                Quadrant::BottomLeft | Quadrant::BottomRight => node.origin.y - 1,
                Quadrant::TopLeft | Quadrant::TopRight => node.origin.y as int,
            })
        },
{
}

/// Putting a cell into a quadrant of a node of radius 1 changes the one
/// place of that quadrant and no other.
pub proof fn lemma_put_cell(node: Subtiles, quadrant: Quadrant, x: int, y: int, cell: Cell)
    requires
        node.wf(),
        node.radius == 1,
        node.covers(x, y),
        node.quadrant_of(x, y) == quadrant,
    ensures
        node.with_slot(quadrant, Tile::Cell(cell)).holds_at(node, x, y, cell),
{
    let after = node.with_slot(quadrant, Tile::Cell(cell));
    lemma_replace_slot(node, quadrant);
    assert forall|x1: int, y1: int|
        #[trigger] after.lookup(x1, y1) == if x1 == x && y1 == y {
            Some(cell)
        } else {
            node.lookup(x1, y1)
        } by {
        lemma_quadrant_geometry(node, quadrant, x1, y1);
        lemma_quadrant_geometry(node, quadrant, x, y);
    }
}

/// Putting a cell somewhere below a quadrant changes that place and no
/// other. The quadrant held `child`, or nothing, in which case `child` is
/// the empty node that fits it; `grown` is `child` with the cell put in.
pub proof fn lemma_put_child(
    node: Subtiles,
    quadrant: Quadrant,
    x: int,
    y: int,
    child: Subtiles,
    grown: Subtiles,
    cell: Cell,
)
    requires
        node.wf(),
        node.radius > 1,
        node.covers(x, y),
        node.quadrant_of(x, y) == quadrant,
        node.slot(quadrant) == Tile::Subtiles(Box::new(child)) || (node.slot(quadrant) is Nothing && child
            == Subtiles::empty_at(
            (node.radius / 2) as i32,
            PlaceI32 { x: node.child_x(quadrant) as i32, y: node.child_y(quadrant) as i32 },
            node.builder,
        )),
        grown.holds_at(child, x, y, cell),
    ensures
        node.with_slot(quadrant, Tile::Subtiles(Box::new(grown))).holds_at(node, x, y, cell),
{
    let after = node.with_slot(quadrant, Tile::Subtiles(Box::new(grown)));
    let linked = node.with_slot(quadrant, Tile::Subtiles(Box::new(child)));
    lemma_replace_slot(node, quadrant);
    if node.slot(quadrant) is Nothing {
        assert(node.radius % 2 == 0 && is_tile_radius(node.radius as int / 2));
        assert(child.radius == node.radius / 2);
        assert(child.wf());
        assert(Tile::Subtiles(Box::new(child)).wf_under(
            node.radius as int,
            node.child_x(quadrant),
            node.child_y(quadrant),
            node.builder,
        ));
    } else {
        assert(linked == node);
    }
    assert(linked.wf());
    assert(after == linked.with_slot(quadrant, Tile::Subtiles(Box::new(grown))));
    lemma_replace_slot(linked, quadrant);
    assert(grown.lookup(x, y) is Some);
    assert(grown.populated());
    assert forall|x1: int, y1: int|
        #[trigger] after.lookup(x1, y1) == if x1 == x && y1 == y {
            Some(cell)
        } else {
            node.lookup(x1, y1)
        } by {
        let through = linked.covers(x1, y1) && linked.quadrant_of(x1, y1) == quadrant;
        assert(Tile::Subtiles(Box::new(grown)).lookup(x1, y1) == grown.lookup(x1, y1));
        assert(Tile::Subtiles(Box::new(child)).lookup(x1, y1) == child.lookup(x1, y1));
        assert(after.lookup(x1, y1) == if through {
            grown.lookup(x1, y1)
        } else {
            linked.lookup(x1, y1)
        });
        assert(through ==> linked.lookup(x1, y1) == child.lookup(x1, y1));
        assert(linked.lookup(x1, y1) == node.lookup(x1, y1)) by {
            if node.slot(quadrant) is Nothing {
                assert(child.lookup(x1, y1) is None);
                assert(Tile::Nothing.lookup(x1, y1) is None);
            }
        }
    }
    assert(child.compact() ==> grown.compact());
    assert(node.compact() ==> child.compact());
    assert(node.compact_below_children() ==> child.compact());
}

/// Two puts at one place amount to the second.
pub proof fn lemma_put_twice(
    before: Subtiles,
    mid: Subtiles,
    after: Subtiles,
    x: int,
    y: int,
    cell: Cell,
)
    requires
        mid == before || exists|first: Cell| mid.holds_at(before, x, y, first),
        after.holds_at(mid, x, y, cell),
    ensures
        after.holds_at(before, x, y, cell),
{
    if mid != before {
        let first = choose|first: Cell| mid.holds_at(before, x, y, first);
        assert forall|x1: int, y1: int|
            #[trigger] after.lookup(x1, y1) == if x1 == x && y1 == y {
                Some(cell)
            } else {
                before.lookup(x1, y1)
            } by {
            assert(mid.lookup(x1, y1) == if x1 == x && y1 == y {
                Some(first)
            } else {
                before.lookup(x1, y1)
            });
        }
    }
}

/// Between two radii there is at least a factor of two.
pub proof fn lemma_radius_gap(r: int, m: int)
    requires
        is_tile_radius(r),
        is_tile_radius(m),
        r < m,
    ensures
        2 * r <= m,
        is_tile_radius(2 * r),
    decreases m,
{
    if r > 1 {
        lemma_radius_gap(r / 2, m / 2);
    }
}

/// The board's limit is a radius.
pub proof fn lemma_max_radius()
    ensures
        is_tile_radius(MAX_RADIUS as int),
{
    reveal_with_fuel(is_tile_radius, 32);
}

/// A node that is compact inside and has a quadrant that is not empty holds
/// a cell somewhere.
pub proof fn lemma_not_bare_populated(node: Subtiles)
    requires
        node.wf(),
        node.compact(),
        !node.bare(),
    ensures
        node.populated(),
{
    let quadrant = if !(node.bottom_left is Nothing) {
        Quadrant::BottomLeft
    } else if !(node.bottom_right is Nothing) {
        Quadrant::BottomRight
    } else if !(node.top_left is Nothing) {
        Quadrant::TopLeft
    } else {
        Quadrant::TopRight
    };
    lemma_replace_slot(node, quadrant);
    match node.slot(quadrant) {
        Tile::Cell(cell) => {
            let x = match quadrant {
                Quadrant::BottomLeft | Quadrant::TopLeft => node.origin.x - 1,
                Quadrant::BottomRight | Quadrant::TopRight => node.origin.x as int,
            };
            let y = match quadrant {
                Quadrant::BottomLeft | Quadrant::BottomRight => node.origin.y - 1,
                Quadrant::TopLeft | Quadrant::TopRight => node.origin.y as int,
            };
            assert(node.covers(x, y) && node.quadrant_of(x, y) == quadrant);
            assert(node.lookup(x, y) is Some);
        },
        Tile::Subtiles(child) => {
            assert(child.populated());
            let (x, y) = choose|x: int, y: int| (#[trigger] child.lookup(x, y)) is Some;
            assert(child.covers(x, y));
            lemma_quadrant_geometry(node, quadrant, x, y);
            assert(node.lookup(x, y) is Some);
        },
        Tile::Nothing => {},
    }
}

/// What `or_none` keeps: the same cells, the same fit, and a tile that is
/// compact through and through.
pub proof fn lemma_or_none(tile: Tile, radius: int, cx: int, cy: int, builder: CellBuilder)
    requires
        tile.wf_under(radius, cx, cy, builder),
    ensures
        tile.spec_or_none().wf_under(radius, cx, cy, builder),
        tile.compact_inside() ==> tile.spec_or_none().compact(),
        forall|x: int, y: int| #[trigger] tile.spec_or_none().lookup(x, y) == tile.lookup(x, y),
{
    match tile {
        Tile::Subtiles(node) => {
            if !node.bare() && node.compact() {
                lemma_not_bare_populated(*node);
            }
        },
        _ => {},
    }
}

/// A quadrant without a cell becomes nothing when the root grows: it does
/// not stay as an empty node.
pub proof fn lemma_or_none_drops_empty(tile: Tile, radius: int, cx: int, cy: int, builder: CellBuilder)
    requires
        tile.wf_under(radius, cx, cy, builder),
        tile.compact_inside(),
        forall|x: int, y: int| (#[trigger] tile.lookup(x, y)) is None,
    ensures
        tile.spec_or_none() is Nothing,
{
    match tile {
        Tile::Subtiles(node) => {
            if !node.bare() {
                lemma_not_bare_populated(*node);
                let (x, y) = choose|x: int, y: int| (#[trigger] node.lookup(x, y)) is Some;
                assert(tile.lookup(x, y) is Some);
            }
        },
        Tile::Cell(cell) => {
            assert(tile.lookup(0, 0) is Some);
        },
        Tile::Nothing => {},
    }
}

/// Growing keeps every cell at its place, keeps the shape, and leaves the
/// tree compact: a quadrant that held no cell has become nothing.
pub proof fn lemma_expanded(node: Subtiles)
    requires
        node.wf(),
        node.origin == PlaceI32::spec_origin(),
        node.radius < MAX_RADIUS,
    ensures
        2 * node.radius <= MAX_RADIUS,
        node.expanded().wf(),
        node.compact_below_children() ==> node.expanded().compact_below_children(),
        forall|x: int, y: int| #[trigger] node.expanded().lookup(x, y) == node.lookup(x, y),
{
    lemma_max_radius();
    lemma_radius_gap(node.radius as int, MAX_RADIUS as int);
    let r = node.radius as int;
    let grown = node.expanded();
    lemma_or_none(
        node.bottom_left,
        r,
        node.child_x(Quadrant::BottomLeft),
        node.child_y(Quadrant::BottomLeft),
        node.builder,
    );
    lemma_or_none(
        node.bottom_right,
        r,
        node.child_x(Quadrant::BottomRight),
        node.child_y(Quadrant::BottomRight),
        node.builder,
    );
    lemma_or_none(
        node.top_left,
        r,
        node.child_x(Quadrant::TopLeft),
        node.child_y(Quadrant::TopLeft),
        node.builder,
    );
    lemma_or_none(
        node.top_right,
        r,
        node.child_x(Quadrant::TopRight),
        node.child_y(Quadrant::TopRight),
        node.builder,
    );
    let bl = grown.bottom_left->Subtiles_0;
    let br = grown.bottom_right->Subtiles_0;
    let tl = grown.top_left->Subtiles_0;
    let tr = grown.top_right->Subtiles_0;
    assert(bl.wf());
    assert(br.wf());
    assert(tl.wf());
    assert(tr.wf());
    assert(grown.wf());
    if node.compact_below_children() {
        lemma_shell_populated(*bl);
        lemma_shell_populated(*br);
        lemma_shell_populated(*tl);
        lemma_shell_populated(*tr);
        assert(grown.compact_below_children());
    }
    assert forall|x: int, y: int| #[trigger] grown.lookup(x, y) == node.lookup(x, y) by {
        if grown.covers(x, y) {
            let quadrant = grown.quadrant_of(x, y);
            assert(node.quadrant_of(x, y) == quadrant);
            let shell = grown.slot(quadrant)->Subtiles_0;
            assert(shell.covers(x, y));
            assert(grown.lookup(x, y) == Tile::Subtiles(shell).lookup(x, y));
            assert(grown.lookup(x, y) == shell.lookup(x, y));
            if node.covers(x, y) {
                match quadrant {
                    Quadrant::BottomLeft => {
                        assert(shell.quadrant_of(x, y) == Quadrant::TopRight);
                        assert(shell.lookup(x, y) == node.bottom_left.spec_or_none().lookup(x, y));
                    },
                    Quadrant::BottomRight => {
                        assert(shell.quadrant_of(x, y) == Quadrant::TopLeft);
                        assert(shell.lookup(x, y) == node.bottom_right.spec_or_none().lookup(x, y));
                    },
                    Quadrant::TopLeft => {
                        assert(shell.quadrant_of(x, y) == Quadrant::BottomRight);
                        assert(shell.lookup(x, y) == node.top_left.spec_or_none().lookup(x, y));
                    },
                    Quadrant::TopRight => {
                        assert(shell.quadrant_of(x, y) == Quadrant::BottomLeft);
                        assert(shell.lookup(x, y) == node.top_right.spec_or_none().lookup(x, y));
                    },
                }
            } else {
                assert(shell.slot(shell.quadrant_of(x, y)) is Nothing);
                assert(Tile::Nothing.lookup(x, y) is None);
                assert(shell.lookup(x, y) is None);
            }
        }
    }
}

/// A quadrant of a grown root holds a cell wherever its one filled corner
/// does.
proof fn lemma_shell_populated(shell: Subtiles)
    requires
        shell.wf(),
        shell.bottom_left.compact(),
        shell.bottom_right.compact(),
        shell.top_left.compact(),
        shell.top_right.compact(),
    ensures
        shell.compact(),
        !shell.bare() ==> shell.populated(),
{
    if !shell.bare() {
        lemma_not_bare_populated(shell);
    }
}

} // verus!
