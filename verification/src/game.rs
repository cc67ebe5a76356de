//! The game: the board, the cursor, the camera, and the actions that change
//! them.

pub mod flood;
pub mod io;
pub mod lemmas;
pub mod spread;

use crate::fatal::Fatal;
use crate::grid::cell::{Cell, CellState, CellValue};
use crate::grid::cell_builder::CellBuilder;
use crate::grid::tile::MAX_RADIUS;
use crate::grid::Grid;
use crate::helper::{half, PlaceI32, PlaceUsize, SizeI32, SizeUsize};
use crate::view;
use flood::{
    cell_in, chord_from, counted_up, flood, flood_from, mines_among, mines_around, neighbour_dx,
    neighbour_dy, visited_around, visited_first, among_first, Sweep,
};
use lemmas::lemma_flood_keeps_lost;
use std::time::Instant;
use vstd::prelude::*;

verus! {

/// The cells that the cursor keeps from each edge of the window.
pub const CURSOR_PADDING: i32 = 3;

/// The number of nested reveals at which a flood gives up.
pub const DEPTH_CEILING: u32 = 10000;

/// How far the cursor may be from the board's centre when an action is
/// taken: the board's reach less the room that a window and a flood need.
pub const WORLD_RADIUS: i32 = 0x3ffe_0000;

/// No window lets the cursor further from the camera than this.
pub const MAX_DRIFT: i32 = 0x8000;

#[derive(Clone, Copy, Debug, PartialEq, Eq, Structural)]
pub enum Action {
    MoveCursor(Direction),
    Reveal,
    Flag,
    RevealAdjacent,
    Reset,
    Resize(SizeUsize),
}

#[derive(Clone, Copy, Debug, PartialEq, Eq, Structural)]
pub enum Direction {
    Left,
    Right,
    Down,
    Up,
}

#[derive(Clone, Copy, Debug, PartialEq, Eq, Structural)]
pub enum MineCount {
    Zero,
    One,
    Two,
    Three,
    Four,
    Five,
    Six,
    Seven,
    Eight,
}

#[derive(Clone, Copy, Debug, PartialEq, Eq, Structural)]
pub enum GameState {
    Underway,
    Lost,
}

/// The monotonic clock's `Instant`, carried but never read here.
#[verifier::external_type_specification]
#[verifier::external_body]
pub struct ExInstant(Instant);

/// Reads the monotonic clock (`Instant::now`). Nothing is claimed of the
/// result.
#[verifier::external_body]
fn now() -> (instant: Instant) {
    Instant::now()
}

impl MineCount {
    pub open spec fn number(self) -> int {
        match self {
            MineCount::Zero => 0,
            MineCount::One => 1,
            MineCount::Two => 2,
            MineCount::Three => 3,
            MineCount::Four => 4,
            MineCount::Five => 5,
            MineCount::Six => 6,
            MineCount::Seven => 7,
            MineCount::Eight => 8,
        }
    }
}

/// How far left of the camera, or below it, the cursor may be: the lower
/// edge of the room, as a displacement from the camera.
pub open spec fn lower_edge(extent: int) -> int {
    -half(extent)
}

/// How far right of the camera, or above it, the cursor may be: the upper
/// edge of the room, as a displacement from the camera. The room is
/// half-open, so this is one less than half the extent.
pub open spec fn upper_edge(extent: int) -> int {
    half(extent) - 1
}

/// Where the camera goes, on one axis, when the cursor has moved: it stays
/// while the cursor is within the room about it, and else goes as far as
/// puts the cursor exactly on the edge that it crossed.
pub open spec fn chased(cursor: int, origin: int, extent: int) -> int {
    let displacement = cursor - origin;
    if displacement < lower_edge(extent) {
        cursor - lower_edge(extent)
    } else if displacement > upper_edge(extent) {
        cursor - upper_edge(extent)
    } else {
        origin
    }
}

/// Where the cursor goes, on one axis, when the window has changed: it
/// stays while it is within the room about the camera, and else goes to
/// the edge that it lies beyond.
pub open spec fn pulled(cursor: int, origin: int, extent: int) -> int {
    let displacement = cursor - origin;
    if displacement < lower_edge(extent) {
        origin + lower_edge(extent)
    } else if displacement > upper_edge(extent) {
        origin + upper_edge(extent)
    } else {
        cursor
    }
}

/// Whether the cursor is tethered to the camera, on one axis: its
/// displacement lies on an edge of the room or between the two. In a room
/// of less than two cells the upper edge lies below the lower one.
pub open spec fn tethered(cursor: int, origin: int, extent: int) -> bool {
    let displacement = cursor - origin;
    ||| lower_edge(extent) <= displacement <= upper_edge(extent)
    ||| upper_edge(extent) <= displacement <= lower_edge(extent)
}

/// After the camera has chased the cursor, the cursor is tethered to it,
/// whatever the two were before. A cursor that had crossed an edge sits
/// exactly on that edge, and the camera has stayed if it had crossed none.
pub proof fn lemma_chased_is_tethered(cursor: int, origin: int, extent: int)
    ensures
        tethered(cursor, chased(cursor, origin, extent), extent),
        cursor - origin < lower_edge(extent) ==> cursor - chased(cursor, origin, extent) == lower_edge(
            extent,
        ),
        lower_edge(extent) <= cursor - origin && cursor - origin > upper_edge(extent) ==> cursor - chased(
            cursor,
            origin,
            extent,
        ) == upper_edge(extent),
        lower_edge(extent) <= cursor - origin <= upper_edge(extent) ==> chased(cursor, origin, extent)
            == origin,
{
}

/// After the cursor has been pulled back, it is tethered to the camera,
/// whatever the two were before. A cursor that lay beyond an edge sits
/// exactly on that edge, and one that lay beyond none has stayed.
pub proof fn lemma_pulled_is_tethered(cursor: int, origin: int, extent: int)
    ensures
        tethered(pulled(cursor, origin, extent), origin, extent),
        cursor - origin < lower_edge(extent) ==> pulled(cursor, origin, extent) - origin == lower_edge(
            extent,
        ),
        lower_edge(extent) <= cursor - origin && cursor - origin > upper_edge(extent) ==> pulled(
            cursor,
            origin,
            extent,
        ) - origin == upper_edge(extent),
        lower_edge(extent) <= cursor - origin <= upper_edge(extent) ==> pulled(cursor, origin, extent)
            == cursor,
{
}

/// In a room of two cells or more the tether is a bound on the distance:
/// the cursor is at most half the extent from the camera.
pub proof fn lemma_tethered_distance(cursor: int, origin: int, extent: int)
    requires
        tethered(cursor, origin, extent),
        extent >= 2,
    ensures
        lower_edge(extent) <= cursor - origin <= upper_edge(extent),
        cursor - origin <= half(extent),
        origin - cursor <= half(extent),
{
}

/// The game as a value: what its functions are stated over.
pub struct GameView {
    pub state: GameState,
    /// The cells visited so far.
    pub cells: Map<(int, int), Cell>,
    pub builder: CellBuilder,
    pub cursor: PlaceI32,
    /// The centre of the camera.
    pub origin: PlaceI32,
    pub revealed_cell_count: u32,
    pub window_size: SizeUsize,
    pub light_mode: bool,
}

impl GameView {
    /// The room that a window leaves the cursor: the cells it shows, less
    /// the padding on both sides.
    pub open spec fn room(window_size: SizeUsize) -> SizeI32 {
        let matrix = view::View::spec_matrix_size(window_size);
        SizeI32 {
            width: (matrix.width - CURSOR_PADDING * 2) as i32,
            height: (matrix.height - CURSOR_PADDING * 2) as i32,
        }
    }

    pub open spec fn max_cursor_displacement(self) -> SizeI32 {
        Self::room(self.window_size)
    }

    /// A window is too small when it leaves the cursor less than no room.
    pub open spec fn window_too_small(self) -> bool {
        self.max_cursor_displacement().width < 0 || self.max_cursor_displacement().height < 0
    }

    /// Whether the cursor is tethered to the camera on both axes.
    pub open spec fn cursor_tethered(self) -> bool {
        &&& tethered(self.cursor.x as int, self.origin.x as int, self.max_cursor_displacement().width as int)
        &&& tethered(
            self.cursor.y as int,
            self.origin.y as int,
            self.max_cursor_displacement().height as int,
        )
    }

    /// Whether the cursor is no further from the camera than half the room,
    /// on each axis on which the room has two cells or more.
    pub open spec fn cursor_within_half_the_room(self) -> bool {
        let room = self.max_cursor_displacement();
        &&& room.width >= 2 ==> -half(room.width as int) <= self.cursor.x - self.origin.x <= half(
            room.width as int,
        )
        &&& room.height >= 2 ==> -half(room.height as int) <= self.cursor.y - self.origin.y <= half(
            room.height as int,
        )
    }

    /// What holds of every game: the window can be drawn, and the cursor is
    /// near the camera and tethered to it.
    pub open spec fn wf(self) -> bool {
        &&& view::View::is_window(self.window_size)
        &&& self.builder.wf()
        &&& -MAX_DRIFT <= self.cursor.x - self.origin.x <= MAX_DRIFT
        &&& -MAX_DRIFT <= self.cursor.y - self.origin.y <= MAX_DRIFT
        &&& self.cursor_tethered()
    }

    /// Whether no mine is revealed while the game is underway.
    pub open spec fn mines_hidden(self) -> bool {
        self.state is Underway ==> forall|x: int, y: int|
            {
                let cell = #[trigger] cell_in(self.cells, self.builder, x, y);
                !(cell.state is Revealed && cell.value is Mine)
            }
    }

    /// Whether the cursor is where actions can be taken.
    pub open spec fn in_world(self) -> bool {
        &&& -WORLD_RADIUS <= self.cursor.x <= WORLD_RADIUS
        &&& -WORLD_RADIUS <= self.cursor.y <= WORLD_RADIUS
    }

    /// A game before its first reveal.
    pub open spec fn unopened(builder: CellBuilder, window_size: SizeUsize, light_mode: bool) -> GameView {
        GameView {
            state: GameState::Underway,
            cells: Map::empty(),
            builder,
            cursor: PlaceI32::spec_origin(),
            origin: PlaceI32::spec_origin(),
            revealed_cell_count: 0,
            window_size,
            light_mode,
        }
    }

    pub open spec fn sweep(self) -> Sweep {
        Sweep {
            cells: self.cells,
            revealed: self.revealed_cell_count,
            lost: self.state is Lost,
            aborted: false,
        }
    }

    /// The game with what a flood or a chord has made of the board.
    pub open spec fn swept(self, sweep: Sweep) -> GameView {
        GameView {
            cells: sweep.cells,
            revealed_cell_count: sweep.revealed,
            state: if sweep.lost {
                GameState::Lost
            } else {
                GameState::Underway
            },
            ..self
        }
    }

    /// The cursor one step on, and the camera after it.
    pub open spec fn moved(self, direction: Direction) -> GameView {
        let cursor = match direction {
            Direction::Left => PlaceI32 { x: (self.cursor.x - 1) as i32, y: self.cursor.y },
            Direction::Right => PlaceI32 { x: (self.cursor.x + 1) as i32, y: self.cursor.y },
            Direction::Down => PlaceI32 { x: self.cursor.x, y: (self.cursor.y - 1) as i32 },
            Direction::Up => PlaceI32 { x: self.cursor.x, y: (self.cursor.y + 1) as i32 },
        };
        let room = self.max_cursor_displacement();
        GameView {
            cursor,
            origin: PlaceI32 {
                x: chased(cursor.x as int, self.origin.x as int, room.width as int) as i32,
                y: chased(cursor.y as int, self.origin.y as int, room.height as int) as i32,
            },
            ..self
        }
    }

    /// The new window, and the cursor pulled into the room it leaves.
    pub open spec fn resized(self, window_size: SizeUsize) -> GameView {
        let room = Self::room(window_size);
        GameView {
            window_size,
            cursor: PlaceI32 {
                x: pulled(self.cursor.x as int, self.origin.x as int, room.width as int) as i32,
                y: pulled(self.cursor.y as int, self.origin.y as int, room.height as int) as i32,
            },
            ..self
        }
    }

    /// The flag at `(x, y)` set on a hidden cell and taken off a flagged
    /// one; a revealed cell stays as it is.
    pub open spec fn flag_toggled(self, x: int, y: int) -> GameView {
        let cell = cell_in(self.cells, self.builder, x, y);
        let toggled = match cell.state {
            CellState::Hidden => cell.spec_flag(),
            CellState::Flagged => cell.spec_unflag(),
            CellState::Revealed => cell,
        };
        GameView { cells: self.cells.insert((x, y), toggled), ..self }
    }

    /// The flood from `(x, y)`.
    pub open spec fn flooded(self, x: int, y: int) -> Sweep {
        flood(self.sweep(), self.builder, x, y, 0)
    }

    /// The chord at `(x, y)`: nothing unless the cell is revealed, else a
    /// reveal of each neighbour that is not flagged.
    pub open spec fn chorded(self, x: int, y: int) -> Sweep {
        let cell = cell_in(self.cells, self.builder, x, y);
        let looked = Sweep { cells: self.cells.insert((x, y), cell), ..self.sweep() };
        if cell.state is Revealed {
            chord_from(looked, self.builder, x, y, 0)
        } else {
            looked
        }
    }

    /// The first reveal of a new game, at the board's centre.
    pub open spec fn opening(builder: CellBuilder, window_size: SizeUsize, light_mode: bool) -> Sweep {
        Self::unopened(builder, window_size, light_mode).flooded(0, 0)
    }

    /// The game after an action, and whether a flood gave up on the way.
    ///
    /// A resize and a reset are always taken. While the window is too small
    /// nothing else is. A move is taken in any state of the game; a flag, a
    /// reveal and a chord only while the game is underway.
    pub open spec fn after(self, action: Action) -> (GameView, bool) {
        match action {
            Action::Resize(window_size) => (self.resized(window_size), false),
            Action::Reset => {
                let fresh = Self::unopened(self.builder, self.window_size, self.light_mode);
                let sweep = fresh.flooded(0, 0);
                (fresh.swept(sweep), sweep.aborted)
            },
            Action::MoveCursor(direction) => if self.window_too_small() {
                (self, false)
            } else {
                (self.moved(direction), false)
            },
            Action::Flag => if self.window_too_small() || self.state is Lost {
                (self, false)
            } else {
                (self.flag_toggled(self.cursor.x as int, self.cursor.y as int), false)
            },
            Action::Reveal => if self.window_too_small() || self.state is Lost {
                (self, false)
            } else {
                let sweep = self.flooded(self.cursor.x as int, self.cursor.y as int);
                (self.swept(sweep), sweep.aborted)
            },
            Action::RevealAdjacent => if self.window_too_small() || self.state is Lost {
                (self, false)
            } else {
                let sweep = self.chorded(self.cursor.x as int, self.cursor.y as int);
                (self.swept(sweep), sweep.aborted)
            },
        }
    }
}

#[derive(Debug)]
pub struct Game {
    state: GameState,
    grid: Grid,
    cursor: PlaceI32,
    origin: PlaceI32,
    revealed_cell_count: u32,
    start_instant: Instant,
    end_instant: Option<Instant>,
    cell_builder: CellBuilder,
    window_size: SizeUsize,
    light_mode: bool,
    max_cursor_displacement: SizeI32,
}

impl Game {
    /// The game as a value.
    pub closed spec fn model(&self) -> GameView {
        GameView {
            state: self.state,
            cells: self.grid@,
            builder: self.cell_builder,
            cursor: self.cursor,
            origin: self.origin,
            revealed_cell_count: self.revealed_cell_count,
            window_size: self.window_size,
            light_mode: self.light_mode,
        }
    }

    /// What holds of every game: its view is sound, the board is sound and
    /// every cell on it holds what the generator gives for its place, and
    /// the end is recorded exactly when the game is lost.
    pub closed spec fn wf(self) -> bool {
        &&& self.model().wf()
        &&& self.grid.wf()
        &&& self.grid.faithful()
        &&& self.grid.builder() == self.cell_builder
        &&& self.max_cursor_displacement == self.model().max_cursor_displacement()
        &&& self.end_instant is Some <==> self.state is Lost
    }

    /// When the game began.
    pub closed spec fn started(self) -> Instant {
        self.start_instant
    }

    /// When the game was lost, if it was.
    pub closed spec fn ended(self) -> Option<Instant> {
        self.end_instant
    }

    /// The end of a game is recorded exactly when the game is lost, and
    /// every cell on its board holds what the generator gives for its
    /// place.
    pub proof fn lemma_end_is_recorded(self)
        requires
            self.wf(),
        ensures
            self.ended() is Some <==> self.model().state is Lost,
            self.model().wf(),
            lemmas::faithful(self.model().cells, self.model().builder),
    {
        assert forall|x: int, y: int| #[trigger]
            self.model().cells.contains_key((x, y)) implies self.model().cells[(x, y)].value
            == self.model().builder.value_of(x, y) by {
            assert(self.grid@.contains_key((x, y)));
        }
    }

    /// The places from which a flood entered at depth `revealed` stays on
    /// the board, however deep it goes.
    pub open spec fn flood_room(place: PlaceI32, revealed: u32) -> bool {
        let margin = 2 + DEPTH_CEILING - revealed;
        &&& -MAX_RADIUS + margin <= place.x <= MAX_RADIUS - margin
        &&& -MAX_RADIUS + margin <= place.y <= MAX_RADIUS - margin
    }

    /// Where the cursor must be for actions to be taken: `WORLD_RADIUS` is
    /// far enough from the board's limits for a window and a flood.
    pub proof fn lemma_world_has_room(self)
        requires
            self.model().in_world(),
        ensures
            Self::flood_room(self.model().cursor, 0),
            Self::chord_room(self.model().cursor),
    {
    }

    /// The places at which a chord stays on the board.
    pub open spec fn chord_room(place: PlaceI32) -> bool {
        let margin = 3 + DEPTH_CEILING;
        &&& -MAX_RADIUS + margin <= place.x <= MAX_RADIUS - margin
        &&& -MAX_RADIUS + margin <= place.y <= MAX_RADIUS - margin
    }

    /// What a flood or a chord reports: the failure if it gave up.
    pub open spec fn verdict(sweep: Sweep) -> Result<(), Fatal> {
        if sweep.aborted {
            Err(Fatal::TooManyClearCells)
        } else {
            Ok(())
        }
    }

    /// Whether `r` is what a new game from `seed` is: the failure to find a
    /// start; else the failure of the first reveal; else the game that the
    /// first reveal leaves.
    pub open spec fn made_from(
        mine_concentration: u64,
        seed: u64,
        window_size: SizeUsize,
        light_mode: bool,
        r: Result<Game, Fatal>,
    ) -> bool {
        match r {
            Err(Fatal::CannotFindStart) => CellBuilder::built_from(
                mine_concentration,
                seed,
                Err(Fatal::CannotFindStart),
            ),
            Err(Fatal::TooManyClearCells) => exists|builder: CellBuilder|
                {
                    &&& CellBuilder::built_from(mine_concentration, seed, Ok(builder))
                    &&& (#[trigger] GameView::opening(builder, window_size, light_mode)).aborted
                },
            Err(Fatal::NoEntropy) => false,
            Ok(game) => {
                let opening = GameView::opening(game.model().builder, window_size, light_mode);
                &&& CellBuilder::built_from(mine_concentration, seed, Ok(game.model().builder))
                &&& game.model().builder.starts_clear()
                &&& !opening.aborted
                &&& game.model() == GameView::unopened(game.model().builder, window_size, light_mode).swept(opening)
                &&& game.wf()
            },
        }
    }

    /// The `k`-th neighbour of `place`.
    pub fn neighbour(place: PlaceI32, k: u8) -> (neighbour: PlaceI32)
        requires
            k < 8,
            i32::MIN < place.x < i32::MAX,
            i32::MIN < place.y < i32::MAX,
        ensures
            neighbour.x == place.x + neighbour_dx(k as int),
            neighbour.y == place.y + neighbour_dy(k as int),
    {
        let dx: i32 = if k < 3 {
            -1
        } else if k < 5 {
            0
        } else {
            1
        };
        let dy: i32 = if k == 0 || k == 3 || k == 5 {
            -1
        } else if k == 1 || k == 6 {
            0
        } else {
            1
        };
        PlaceI32 { x: place.x + dx, y: place.y + dy }
    }

    /// The room that a window leaves the cursor.
    pub fn max_cursor_displacement(window_size: SizeUsize) -> (room: SizeI32)
        requires
            view::View::is_window(window_size),
        ensures
            room == GameView::room(window_size),
            -2 * CURSOR_PADDING <= room.width < 2 * MAX_DRIFT,
            -2 * CURSOR_PADDING <= room.height < 2 * MAX_DRIFT,
    {
        let matrix_size = view::View::matrix_size(window_size);
        SizeI32 {
            width: matrix_size.width as i32 - CURSOR_PADDING * 2,
            height: matrix_size.height as i32 - CURSOR_PADDING * 2,
        }
    }

    /// Whether a window shows fewer cells than the cursor has room for. For
    /// the game's own window that is so when the room is less than nothing.
    pub fn window_too_small(&self, window_size: SizeUsize) -> (too_small: bool)
        requires
            self.wf(),
            view::View::is_window(window_size),
        ensures
            too_small == {
                let matrix = view::View::spec_matrix_size(window_size);
                let room = self.model().max_cursor_displacement();
                room.width < 0 || room.height < 0 || matrix.width < room.width || matrix.height
                    < room.height
            },
            window_size == self.model().window_size ==> too_small == self.model().window_too_small(),
    {
        let matrix_size = view::View::matrix_size(window_size);
        let room = self.max_cursor_displacement;
        room.width < 0 || room.height < 0 || matrix_size.width < room.width as usize
            || matrix_size.height < room.height as usize
    }

    /// A game before its first reveal.
    pub fn unopened(cell_builder: CellBuilder, window_size: SizeUsize, light_mode: bool) -> (game: Game)
        requires
            cell_builder.wf(),
            view::View::is_window(window_size),
        ensures
            game.wf(),
            game.model() == GameView::unopened(cell_builder, window_size, light_mode),
            game.ended() is None,
    {
        let max_cursor_displacement = Self::max_cursor_displacement(window_size);
        let grid = Grid::new(cell_builder);
        Game {
            state: GameState::Underway,
            grid,
            cursor: PlaceI32 { x: 0, y: 0 },
            origin: PlaceI32 { x: 0, y: 0 },
            revealed_cell_count: 0,
            start_instant: now(),
            end_instant: None,
            cell_builder,
            window_size,
            light_mode,
            max_cursor_displacement,
        }
    }

    /// Ends the game. The end is recorded once.
    fn lose(&mut self)
        requires
            old(self).wf(),
        ensures
            final(self).wf(),
            final(self).model() == (GameView { state: GameState::Lost, ..old(self).model() }),
            final(self).started() == old(self).started(),
            old(self).model().state is Lost ==> final(self).ended() == old(self).ended(),
    {
        if let GameState::Underway = self.state {
            self.end_instant = Some(now());
        }
        self.state = GameState::Lost;
    }

    /// Where the camera goes on one axis when the cursor has moved.
    fn chase(cursor: i32, origin: i32, extent: i32) -> (chased_origin: i32)
        requires
            -2 * CURSOR_PADDING <= extent < 2 * MAX_DRIFT,
            -MAX_RADIUS <= cursor <= MAX_RADIUS,
            -MAX_DRIFT - 1 <= cursor - origin <= MAX_DRIFT + 1,
        ensures
            chased_origin == chased(cursor as int, origin as int, extent as int),
    {
        let displacement: i32 = cursor - origin;
        let mut chased_origin = origin;
        if displacement > extent / 2 - 1 {
            chased_origin = cursor - (extent / 2 - 1);
        }
        if displacement < -extent / 2 {
            chased_origin = cursor + extent / 2;
        }
        chased_origin
    }

    /// Where the cursor goes on one axis when the window has changed.
    fn pull(cursor: i32, origin: i32, extent: i32) -> (pulled_cursor: i32)
        requires
            -2 * CURSOR_PADDING <= extent < 2 * MAX_DRIFT,
            -MAX_RADIUS <= cursor <= MAX_RADIUS,
            -MAX_DRIFT - 1 <= cursor - origin <= MAX_DRIFT + 1,
        ensures
            pulled_cursor == pulled(cursor as int, origin as int, extent as int),
    {
        let displacement: i32 = cursor - origin;
        let mut pulled_cursor = cursor;
        if displacement > extent / 2 - 1 {
            pulled_cursor = origin + (extent / 2 - 1);
        }
        if displacement < -extent / 2 {
            pulled_cursor = origin - extent / 2;
        }
        pulled_cursor
    }

    /// Whether the camera and the cursor are where the tether can be
    /// computed.
    spec fn tether_fits(self) -> bool {
        &&& -2 * CURSOR_PADDING <= self.max_cursor_displacement.width < 2 * MAX_DRIFT
        &&& -2 * CURSOR_PADDING <= self.max_cursor_displacement.height < 2 * MAX_DRIFT
        &&& -MAX_RADIUS <= self.cursor.x <= MAX_RADIUS
        &&& -MAX_RADIUS <= self.cursor.y <= MAX_RADIUS
        &&& -MAX_DRIFT - 1 <= self.cursor.x - self.origin.x <= MAX_DRIFT + 1
        &&& -MAX_DRIFT - 1 <= self.cursor.y - self.origin.y <= MAX_DRIFT + 1
    }

    /// Moves the camera after the cursor.
    fn tether_origin(&mut self)
        requires
            old(self).tether_fits(),
        ensures
            *final(self) == (Game {
                origin: PlaceI32 {
                    x: chased(
                        old(self).cursor.x as int,
                        old(self).origin.x as int,
                        old(self).max_cursor_displacement.width as int,
                    ) as i32,
                    y: chased(
                        old(self).cursor.y as int,
                        old(self).origin.y as int,
                        old(self).max_cursor_displacement.height as int,
                    ) as i32,
                },
                ..*old(self)
            }),
    {
        self.origin.x = Self::chase(self.cursor.x, self.origin.x, self.max_cursor_displacement.width);
        self.origin.y = Self::chase(self.cursor.y, self.origin.y, self.max_cursor_displacement.height);
    }

    /// Pulls the cursor into the room about the camera.
    fn tether_cursor(&mut self)
        requires
            old(self).tether_fits(),
        ensures
            *final(self) == (Game {
                cursor: PlaceI32 {
                    x: pulled(
                        old(self).cursor.x as int,
                        old(self).origin.x as int,
                        old(self).max_cursor_displacement.width as int,
                    ) as i32,
                    y: pulled(
                        old(self).cursor.y as int,
                        old(self).origin.y as int,
                        old(self).max_cursor_displacement.height as int,
                    ) as i32,
                },
                ..*old(self)
            }),
    {
        self.cursor.x = Self::pull(self.cursor.x, self.origin.x, self.max_cursor_displacement.width);
        self.cursor.y = Self::pull(self.cursor.y, self.origin.y, self.max_cursor_displacement.height);
    }

    /// Moves the cursor one step, and the camera after it.
    fn move_cursor(&mut self, direction: Direction)
        requires
            old(self).wf(),
            old(self).model().in_world(),
            !old(self).model().window_too_small(),
        ensures
            final(self).wf(),
            final(self).model() == old(self).model().moved(direction),
            final(self).model().cursor_tethered(),
            final(self).started() == old(self).started(),
            final(self).ended() == old(self).ended(),
    {
        match direction {
            Direction::Left => self.cursor.x -= 1,
            Direction::Right => self.cursor.x += 1,
            Direction::Down => self.cursor.y -= 1,
            Direction::Up => self.cursor.y += 1,
        };
        proof {
            let room = self.max_cursor_displacement;
            lemma_chased_is_tethered(self.cursor.x as int, self.origin.x as int, room.width as int);
            lemma_chased_is_tethered(self.cursor.y as int, self.origin.y as int, room.height as int);
        }
        self.tether_origin();
    }

    /// Takes the new window, and pulls the cursor into the room it leaves.
    fn resize(&mut self, new_size: SizeUsize)
        requires
            old(self).wf(),
            old(self).model().in_world(),
            view::View::is_window(new_size),
        ensures
            final(self).wf(),
            final(self).model() == old(self).model().resized(new_size),
            final(self).started() == old(self).started(),
            final(self).ended() == old(self).ended(),
    {
        self.window_size = new_size;
        let new_max_cursor_displacement = Self::max_cursor_displacement(new_size);
        self.max_cursor_displacement = new_max_cursor_displacement;
        proof {
            let room = self.max_cursor_displacement;
            lemma_pulled_is_tethered(self.cursor.x as int, self.origin.x as int, room.width as int);
            lemma_pulled_is_tethered(self.cursor.y as int, self.origin.y as int, room.height as int);
        }
        self.tether_cursor();
    }

    /// Sets the flag on a hidden cell and takes it off a flagged one.
    fn toggle_flag(&mut self, place: PlaceI32)
        requires
            old(self).wf(),
            Grid::in_reach(place),
        ensures
            final(self).wf(),
            final(self).model() == old(self).model().flag_toggled(place.x as int, place.y as int),
            final(self).started() == old(self).started(),
            final(self).ended() == old(self).ended(),
    {
        let cell = self.grid.get_mut(place);
        match cell.state {
            CellState::Hidden => cell.flag(),
            CellState::Flagged => cell.unflag(),
            _ => (),
        }
    }

    /// The number of mines among the eight neighbours of `place`. The visit
    /// leaves all eight on the board.
    pub fn mine_count(grid: &mut Grid, place: PlaceI32) -> (count: MineCount)
        requires
            old(grid).wf(),
            -MAX_RADIUS < place.x < MAX_RADIUS - 1,
            -MAX_RADIUS < place.y < MAX_RADIUS - 1,
        ensures
            count.number() == mines_around(
                old(grid)@,
                old(grid).builder(),
                place.x as int,
                place.y as int,
            ),
            final(grid)@ == visited_around(old(grid)@, old(grid).builder(), place.x as int, place.y as int),
            final(grid).wf(),
            final(grid).builder() == old(grid).builder(),
            old(grid).faithful() ==> final(grid).faithful(),
    {
        let ghost before = old(grid)@;
        let ghost builder = old(grid).builder();
        let ghost x = place.x as int;
        let ghost y = place.y as int;
        let mut count: u8 = 0;
        let mut k: u8 = 0;
        assert(grid@ =~= visited_first(before, builder, x, y, 0));
        while k < 8
            invariant
                0 <= k <= 8,
                count <= k,
                x == place.x,
                y == place.y,
                -MAX_RADIUS < place.x < MAX_RADIUS - 1,
                -MAX_RADIUS < place.y < MAX_RADIUS - 1,
                grid.wf(),
                grid.builder() == builder,
                old(grid).faithful() ==> grid.faithful(),
                grid@ == visited_first(before, builder, x, y, k as int),
                count == mines_among(before, builder, x, y, k as int),
            decreases 8 - k,
        {
            let neighbour = Self::neighbour(place, k);
            let ghost visited = grid@;
            let cell = grid.get(neighbour);
            proof {
                let nx = x + neighbour_dx(k as int);
                let ny = y + neighbour_dy(k as int);
                assert(cell_in(visited, builder, nx, ny) == cell_in(before, builder, nx, ny));
                assert(among_first(k + 1, nx, ny, x, y));
                assert forall|x1: int, y1: int|
                    among_first(k + 1, x1, y1, x, y) <==> among_first(k as int, x1, y1, x, y) || (x1 == nx
                        && y1 == ny) by {
                    if among_first(k + 1, x1, y1, x, y) {
                        let i = choose|i: int|
                            0 <= i < k + 1 && i < 8 && x1 == x + #[trigger] neighbour_dx(i) && y1 == y
                                + neighbour_dy(i);
                        if i < k {
                            assert(among_first(k as int, x1, y1, x, y));
                        }
                    }
                    if among_first(k as int, x1, y1, x, y) {
                        let i = choose|i: int|
                            0 <= i < k && i < 8 && x1 == x + #[trigger] neighbour_dx(i) && y1 == y
                                + neighbour_dy(i);
                        assert(0 <= i < k + 1);
                    }
                }
                assert(grid@ =~= visited_first(before, builder, x, y, k + 1));
            }
            if let CellValue::Mine = (*cell).value {
                count = count + 1;
            }
            k = k + 1;
        }
        if count == 0 {
            MineCount::Zero
        } else if count == 1 {
            MineCount::One
        } else if count == 2 {
            MineCount::Two
        } else if count == 3 {
            MineCount::Three
        } else if count == 4 {
            MineCount::Four
        } else if count == 5 {
            MineCount::Five
        } else if count == 6 {
            MineCount::Six
        } else if count == 7 {
            MineCount::Seven
        } else {
            MineCount::Eight
        }
    }

    /// Reveals the cell at `place` and, where it is empty and has no mine
    /// about it, floods on from its neighbours.
    pub fn uncover(&mut self, place: PlaceI32) -> (r: Result<(), Fatal>)
        requires
            old(self).wf(),
            Self::flood_room(place, 0),
        ensures
            final(self).wf(),
            final(self).model() == old(self).model().swept(old(self).model().flooded(place.x as int, place.y as int)),
            r == Self::verdict(old(self).model().flooded(place.x as int, place.y as int)),
            final(self).started() == old(self).started(),
            old(self).model().state is Lost ==> final(self).ended() == old(self).ended(),
    {
        self.reveal_tracked(place, 0)
    }

    /// The flood from `place`, entered after `revealed` nested reveals.
    pub fn reveal_tracked(&mut self, place: PlaceI32, revealed: u32) -> (r: Result<(), Fatal>)
        requires
            old(self).wf(),
            revealed < DEPTH_CEILING,
            Self::flood_room(place, revealed),
        ensures
            final(self).wf(),
            final(self).model() == old(self).model().swept(
                flood(
                    old(self).model().sweep(),
                    old(self).model().builder,
                    place.x as int,
                    place.y as int,
                    revealed as int,
                ),
            ),
            r == Self::verdict(
                flood(
                    old(self).model().sweep(),
                    old(self).model().builder,
                    place.x as int,
                    place.y as int,
                    revealed as int,
                ),
            ),
            final(self).started() == old(self).started(),
            old(self).model().state is Lost ==> final(self).ended() == old(self).ended(),
        decreases DEPTH_CEILING - revealed,
    {
        let ghost before = self.model();
        let ghost builder = self.model().builder;
        let ghost x = place.x as int;
        let ghost y = place.y as int;
        let ghost cell = cell_in(before.cells, builder, x, y);
        if let CellState::Revealed = self.grid.get(place).state {
            assert(self.model().cells =~= before.cells);
            return Ok(());
        }
        self.grid.get_mut(place).uncover();
        let ghost uncovered = before.cells.insert((x, y), cell.spec_uncover());
        assert(self.model().cells =~= uncovered);

        let depth = revealed + 1;
        if depth >= DEPTH_CEILING {
            return Err(Fatal::TooManyClearCells);
        }
        if let CellValue::Mine = self.grid.get(place).value {
            assert(self.model().cells =~= uncovered);
            self.lose();
            return Ok(());
        }
        assert(self.model().cells =~= uncovered);
        if self.revealed_cell_count < u32::MAX {
            self.revealed_cell_count += 1;
        }
        let count = Self::mine_count(&mut self.grid, place);
        let ghost counted = Sweep {
            cells: visited_around(uncovered, builder, x, y),
            revealed: counted_up(before.revealed_cell_count),
            ..before.sweep()
        };
        assert(self.model() == before.swept(counted));
        if !matches!(count, MineCount::Zero) {
            return Ok(());
        }
        let ghost target = flood_from(counted, builder, x, y, depth as int, 0);
        let mut k: u8 = 0;
        while k < 8
            invariant
                0 <= k <= 8,
                self.wf(),
                depth == revealed + 1,
                depth < DEPTH_CEILING,
                Self::flood_room(place, revealed),
                x == place.x,
                y == place.y,
                builder == before.builder,
                before == old(self).model(),
                target == flood(before.sweep(), builder, x, y, revealed as int),
                self.model() == before.swept(self.model().sweep()),
                flood_from(self.model().sweep(), builder, x, y, depth as int, k as int) == target,
                self.started() == old(self).started(),
                before.state is Lost ==> self.ended() == old(self).ended(),
                before.state is Lost ==> self.model().state is Lost,
            decreases 8 - k,
        {
            let neighbour = Self::neighbour(place, k);
            let ghost mid = self.model();
            proof {
                if mid.sweep().lost {
                    lemma_flood_keeps_lost(
                        mid.sweep(),
                        builder,
                        x + neighbour_dx(k as int),
                        y + neighbour_dy(k as int),
                        depth as int,
                    );
                }
            }
            let ghost next = flood(
                mid.sweep(),
                builder,
                x + neighbour_dx(k as int),
                y + neighbour_dy(k as int),
                depth as int,
            );
            assert(flood_from(mid.sweep(), builder, x, y, depth as int, k as int) == flood_from(
                next,
                builder,
                x,
                y,
                depth as int,
                k + 1,
            ));
            match self.reveal_tracked(neighbour, depth) {
                Err(e) => {
                    assert(next.aborted);
                    assert(flood_from(next, builder, x, y, depth as int, k + 1) == next);
                    assert(self.model() == before.swept(target));
                    return Err(e);
                },
                Ok(()) => {},
            }
            assert(self.model().sweep() == next);
            k = k + 1;
        }
        Ok(())
    }
    /// Reveals every neighbour of `place` that is not flagged, if `place`
    /// itself is revealed. In the classic game a chord needs as many flags
    /// as the cell shows mines; here it needs none.
    pub fn reveal_adjacent(&mut self, place: PlaceI32) -> (r: Result<(), Fatal>)
        requires
            old(self).wf(),
            Self::chord_room(place),
        ensures
            final(self).wf(),
            final(self).model() == old(self).model().swept(old(self).model().chorded(place.x as int, place.y as int)),
            r == Self::verdict(old(self).model().chorded(place.x as int, place.y as int)),
            final(self).started() == old(self).started(),
            old(self).model().state is Lost ==> final(self).ended() == old(self).ended(),
    {
        let ghost before = self.model();
        let ghost builder = self.model().builder;
        let ghost x = place.x as int;
        let ghost y = place.y as int;
        let ghost cell = cell_in(before.cells, builder, x, y);
        let ghost looked = Sweep { cells: before.cells.insert((x, y), cell), ..before.sweep() };
        let state = self.grid.get(place).state;
        assert(self.model() == before.swept(looked));
        if !matches!(state, CellState::Revealed) {
            return Ok(());
        }
        let ghost target = chord_from(looked, builder, x, y, 0);
        let mut k: u8 = 0;
        while k < 8
            invariant
                0 <= k <= 8,
                self.wf(),
                Self::chord_room(place),
                x == place.x,
                y == place.y,
                builder == before.builder,
                before == old(self).model(),
                target == before.chorded(x, y),
                self.model() == before.swept(self.model().sweep()),
                chord_from(self.model().sweep(), builder, x, y, k as int) == target,
                self.started() == old(self).started(),
                before.state is Lost ==> self.ended() == old(self).ended(),
                before.state is Lost ==> self.model().state is Lost,
            decreases 8 - k,
        {
            if let GameState::Lost = self.state {
                return Ok(());
            }
            let neighbour = Self::neighbour(place, k);
            let ghost mid = self.model();
            let ghost nx = x + neighbour_dx(k as int);
            let ghost ny = y + neighbour_dy(k as int);
            let ghost seen = cell_in(mid.cells, builder, nx, ny);
            let ghost peeked = Sweep { cells: mid.cells.insert((nx, ny), seen), ..mid.sweep() };
            let ghost next = if seen.state is Flagged {
                peeked
            } else {
                flood(peeked, builder, nx, ny, 0)
            };
            assert(chord_from(mid.sweep(), builder, x, y, k as int) == chord_from(
                next,
                builder,
                x,
                y,
                k + 1,
            ));
            let flagged = matches!(self.grid.get(neighbour).state, CellState::Flagged);
            assert(self.model() == mid.swept(peeked));
            if !flagged {
                match self.uncover(neighbour) {
                    Err(e) => {
                        assert(next.aborted);
                        assert(chord_from(next, builder, x, y, k + 1) == next);
                        assert(self.model() == before.swept(target));
                        return Err(e);
                    },
                    Ok(()) => {},
                }
            }
            assert(self.model().sweep() == next);
            k = k + 1;
        }
        Ok(())
    }

    /// Starts over: the same generator and window, a new board, the cursor
    /// and the camera at the centre, and the centre revealed.
    pub fn reset(&mut self) -> (r: Result<(), Fatal>)
        requires
            old(self).wf(),
        ensures
            final(self).wf(),
            (final(self).model(), r is Err) == old(self).model().after(Action::Reset),
            r == Self::verdict(
                GameView::opening(old(self).model().builder, old(self).model().window_size, old(self).model().light_mode),
            ),
    {
        *self = Game::unopened(self.cell_builder, self.window_size, self.light_mode);
        self.uncover(PlaceI32::origin())
    }

    /// A new game, with its centre revealed. Without a seed one is drawn
    /// from the operating system.
    pub fn new(mine_concentration: u64, seed: Option<u64>, window_size: SizeUsize, light_mode: bool) -> (r:
        Result<Game, Fatal>)
        requires
            view::View::is_window(window_size),
        ensures
            seed matches Some(s) ==> Self::made_from(mine_concentration, s, window_size, light_mode, r),
            seed is None ==> r matches Err(Fatal::NoEntropy) || exists|s: u64|
                Self::made_from(mine_concentration, s, window_size, light_mode, r),
    {
        let built = CellBuilder::new(mine_concentration, seed);
        let ghost drawn: u64 = match seed {
            Some(s) => s,
            None => choose|s: u64| CellBuilder::built_from(mine_concentration, s, built),
        };
        let cell_builder = match built {
            Ok(cell_builder) => cell_builder,
            Err(e) => {
                let r = Err(e);
                assert(e is NoEntropy || Self::made_from(
                    mine_concentration,
                    drawn,
                    window_size,
                    light_mode,
                    r,
                ));
                return r;
            },
        };
        let mut game = Self::unopened(cell_builder, window_size, light_mode);
        let r = match game.uncover(PlaceI32::origin()) {
            Ok(()) => Ok(game),
            Err(e) => Err(e),
        };
        assert(Self::made_from(mine_concentration, drawn, window_size, light_mode, r)) by {
            assert(CellBuilder::built_from(mine_concentration, drawn, Ok(cell_builder)));
            let opening = GameView::opening(cell_builder, window_size, light_mode);
            if r is Err {
                assert(opening.aborted);
            }
        }
        r
    }

    /// Takes an action.
    ///
    /// A resize and a reset are always taken. While the window is too small
    /// nothing else is. A move is taken in any state of the game; a flag, a
    /// reveal and a chord only while the game is underway.
    pub fn action(&mut self, action: Action) -> (r: Result<(), Fatal>)
        requires
            old(self).wf(),
            old(self).model().in_world(),
            action matches Action::Resize(window_size) ==> view::View::is_window(window_size),
        ensures
            final(self).wf(),
            (final(self).model(), r is Err) == old(self).model().after(action),
            r matches Err(e) ==> e is TooManyClearCells,
            !(action is Reset) ==> final(self).started() == old(self).started(),
            !(action is Reset) && old(self).model().state is Lost ==> final(self).model().state is Lost,
            !(action is Reset) && old(self).model().state is Lost ==> final(self).ended() == old(self).ended(),
            final(self).model().cursor_tethered(),
            final(self).model().cursor_within_half_the_room(),
    {
        proof {
            self.lemma_world_has_room();
        }
        let too_small = self.window_too_small(self.window_size);
        match action {
            Action::Resize(new_size) => {
                self.resize(new_size);
                Ok(())
            },
            Action::Reset => self.reset(),
            Action::MoveCursor(direction) => {
                if !too_small {
                    self.move_cursor(direction);
                }
                Ok(())
            },
            Action::Flag => {
                if !too_small && matches!(self.state, GameState::Underway) {
                    self.toggle_flag(self.cursor);
                }
                Ok(())
            },
            Action::Reveal => {
                if !too_small && matches!(self.state, GameState::Underway) {
                    self.uncover(self.cursor)
                } else {
                    Ok(())
                }
            },
            Action::RevealAdjacent => {
                if !too_small && matches!(self.state, GameState::Underway) {
                    self.reveal_adjacent(self.cursor)
                } else {
                    Ok(())
                }
            },
        }
    }
    /// What the player is shown now. The look leaves the cells of the
    /// window on the board; it changes none.
    pub fn view(&mut self) -> (shown: view::View)
        requires
            old(self).wf(),
            old(self).model().in_world(),
        ensures
            final(self).wf(),
            final(self).started() == old(self).started(),
            final(self).ended() == old(self).ended(),
            shown.wf(),
            shown.window_size() == old(self).model().window_size,
            shown.window_too_small() == old(self).model().window_too_small(),
            shown.game_cursor() == old(self).model().cursor,
            shown.revealed_cell_count() == old(self).model().revealed_cell_count,
            shown.game_state() == old(self).model().state,
            shown.seed() == old(self).model().builder.seed,
            shown.light_mode() == old(self).model().light_mode,
            old(self).model().window_too_small() ==> {
                &&& final(self).model() == old(self).model()
                &&& shown.matrix().size() == (SizeUsize { width: 0, height: 0 })
                &&& shown.matrix_cursor() == (PlaceUsize { x: 0, y: 0 })
            },
            !old(self).model().window_too_small() ==> {
                let size = view::View::spec_matrix_size(old(self).model().window_size);
                let left = view::View::left_of(old(self).model().window_size, old(self).model().origin);
                let bottom = view::View::bottom_of(old(self).model().window_size, old(self).model().origin);
                &&& shown.matrix().size() == size
                &&& forall|x: int, y: int|
                    0 <= x < size.width && 0 <= y < size.height ==> #[trigger] shown.matrix().at(x, y)
                        == view::shown_at(
                        old(self).model().cells,
                        old(self).model().builder,
                        left + x,
                        bottom + y,
                        old(self).model().state is Lost,
                    )
                &&& final(self).model() == (GameView {
                    cells: view::looked_columns(
                        old(self).model().cells,
                        old(self).model().builder,
                        left,
                        bottom,
                        size.height as int,
                        size.width as int,
                    ),
                    ..old(self).model()
                })
                &&& shown.matrix_cursor().x == old(self).model().cursor.x - left
                &&& shown.matrix_cursor().y == old(self).model().cursor.y - bottom
                &&& shown.matrix_cursor().x < size.width
                &&& shown.matrix_cursor().y < size.height
            },
    {
        let window_too_small = self.window_too_small(self.window_size);
        let show_mines = matches!(self.state, GameState::Lost);
        let latest_game_instant = match self.end_instant {
            Some(instant) => instant,
            None => now(),
        };
        view::View::new(
            &mut self.grid,
            self.window_size,
            window_too_small,
            self.origin,
            self.cursor,
            show_mines,
            self.revealed_cell_count,
            self.start_instant,
            latest_game_instant,
            self.state,
            self.cell_builder.seed,
            self.light_mode,
        )
    }

    /// The time from a moment that is `subsec_nanos` nanoseconds into a
    /// second until the next full second, in nanoseconds.
    pub fn nanos_until_timer_update(subsec_nanos: u32) -> (nanos: u64)
        requires
            subsec_nanos < 1_000_000_000,
        ensures
            nanos == 1_000_000_000 - subsec_nanos,
    {
        let second: u64 = 1_000_000_000;
        second - subsec_nanos as u64
    }

    #[verifier::when_used_as_spec(spec_state)]
    pub fn state(&self) -> (state: GameState)
        ensures
            state == self.model().state,
    {
        self.state
    }

    pub open spec fn spec_state(&self) -> GameState {
        self.model().state
    }

    #[verifier::when_used_as_spec(spec_cursor)]
    pub fn cursor(&self) -> (cursor: PlaceI32)
        ensures
            cursor == self.model().cursor,
    {
        self.cursor
    }

    pub open spec fn spec_cursor(&self) -> PlaceI32 {
        self.model().cursor
    }

    #[verifier::when_used_as_spec(spec_origin)]
    pub fn origin(&self) -> (origin: PlaceI32)
        ensures
            origin == self.model().origin,
    {
        self.origin
    }

    pub open spec fn spec_origin(&self) -> PlaceI32 {
        self.model().origin
    }

    #[verifier::when_used_as_spec(spec_revealed_cell_count)]
    pub fn revealed_cell_count(&self) -> (count: u32)
        ensures
            count == self.model().revealed_cell_count,
    {
        self.revealed_cell_count
    }

    pub open spec fn spec_revealed_cell_count(&self) -> u32 {
        self.model().revealed_cell_count
    }

    #[verifier::when_used_as_spec(spec_window_size)]
    pub fn window_size(&self) -> (window_size: SizeUsize)
        ensures
            window_size == self.model().window_size,
    {
        self.window_size
    }

    pub open spec fn spec_window_size(&self) -> SizeUsize {
        self.model().window_size
    }

    #[verifier::when_used_as_spec(spec_cell_builder)]
    pub fn cell_builder(&self) -> (cell_builder: CellBuilder)
        ensures
            cell_builder == self.model().builder,
    {
        self.cell_builder
    }

    pub open spec fn spec_cell_builder(&self) -> CellBuilder {
        self.model().builder
    }

    /// Whether the cursor is where actions can be taken.
    #[verifier::when_used_as_spec(spec_in_world)]
    pub fn in_world(&self) -> (in_world: bool)
        ensures
            in_world == self.model().in_world(),
    {
        -WORLD_RADIUS <= self.cursor.x && self.cursor.x <= WORLD_RADIUS && -WORLD_RADIUS
            <= self.cursor.y && self.cursor.y <= WORLD_RADIUS
    }

    pub open spec fn spec_in_world(&self) -> bool {
        self.model().in_world()
    }

    /// The cell at `place`, as the board holds it or as the generator
    /// makes it. The look leaves the cell on the board.
    pub fn cell(&mut self, place: PlaceI32) -> (cell: Cell)
        requires
            old(self).wf(),
            Grid::in_reach(place),
        ensures
            final(self).wf(),
            cell == cell_in(old(self).model().cells, old(self).model().builder, place.x as int, place.y as int),
            final(self).model() == (GameView {
                cells: old(self).model().cells.insert((place.x as int, place.y as int), cell),
                ..old(self).model()
            }),
            final(self).started() == old(self).started(),
            final(self).ended() == old(self).ended(),
    {
        *self.grid.get(place)
    }
}

} // verus!
