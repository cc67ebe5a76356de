//! What the player is shown: for each cell of the window its display
//! category, and beside that the cursor, the score and the state of the
//! game.

pub mod matrix;

use crate::game::flood::{cell_in, mines_among, mines_around, neighbour_dx, neighbour_dy, visited_around};
use crate::game::{Game, GameState, MineCount};
use crate::grid::cell::{Cell, CellState, CellValue};
use crate::grid::cell_builder::CellBuilder;
use crate::grid::tile::MAX_RADIUS;
use crate::grid::Grid;
use crate::helper::{PlaceI32, PlaceUsize, SizeUsize};
use matrix::{lemma_index_in_bounds, Matrix};
use std::time::{Duration, Instant};
use vstd::prelude::*;
use vstd::view::View as _;

verus! {

/// The largest width and height of a window, in characters.
pub const MAX_WINDOW: usize = 0xffff;

/// The columns that the frame takes from a window.
pub const FRAME_WIDTH: usize = 2;

/// The rows that the frame, the score and the cursor's place take from a
/// window.
pub const FRAME_HEIGHT: usize = 5;

/// How a cell is shown.
#[derive(Clone, Copy, Debug, PartialEq, Eq, Structural)]
pub enum ViewCell {
    Unrevealed,
    Flagged,
    Clear,
    Mine,
    IncorrectFlag,
    One,
    Two,
    Three,
    Four,
    Five,
    Six,
    Seven,
    Eight,
}

/// A colour, by its red, green and blue parts.
#[derive(Clone, Copy, Debug, PartialEq, Eq, Structural)]
pub struct Rgb {
    pub r: u8,
    pub g: u8,
    pub b: u8,
}

/// The time from one instant to a later one (`Instant::duration_since`,
/// which gives zero where the second is the earlier). Nothing is claimed of
/// the result.
#[verifier::external_body]
fn time_between(start: Instant, latest: Instant) -> (duration: Duration) {
    latest.duration_since(start)
}

/// How a revealed empty cell with `mines` mines about it is shown.
pub open spec fn numbered(mines: int) -> ViewCell {
    if mines <= 0 {
        ViewCell::Clear
    } else if mines == 1 {
        ViewCell::One
    } else if mines == 2 {
        ViewCell::Two
    } else if mines == 3 {
        ViewCell::Three
    } else if mines == 4 {
        ViewCell::Four
    } else if mines == 5 {
        ViewCell::Five
    } else if mines == 6 {
        ViewCell::Six
    } else if mines == 7 {
        ViewCell::Seven
    } else {
        ViewCell::Eight
    }
}

/// How a cell with `mines` mines about it is shown. While the game is
/// underway a hidden cell and a flagged cell do not tell what they hold;
/// once it is lost, a hidden mine is shown and a flag on an empty cell is
/// marked as wrong.
pub open spec fn shown(cell: Cell, mines: int, show_mines: bool) -> ViewCell {
    match (cell.state, cell.value) {
        (CellState::Hidden, CellValue::Mine) => if show_mines {
            ViewCell::Mine
        } else {
            ViewCell::Unrevealed
        },
        (CellState::Hidden, CellValue::Empty) => ViewCell::Unrevealed,
        (CellState::Flagged, CellValue::Empty) => if show_mines {
            ViewCell::IncorrectFlag
        } else {
            ViewCell::Flagged
        },
        (CellState::Flagged, CellValue::Mine) => ViewCell::Flagged,
        (CellState::Revealed, CellValue::Mine) => ViewCell::Mine,
        (CellState::Revealed, CellValue::Empty) => numbered(mines),
    }
}

/// How the cell at `(x, y)` of a board is shown.
pub open spec fn shown_at(
    cells: Map<(int, int), Cell>,
    builder: CellBuilder,
    x: int,
    y: int,
    show_mines: bool,
) -> ViewCell {
    shown(cell_in(cells, builder, x, y), mines_around(cells, builder, x, y), show_mines)
}

/// The board after a look at `(x, y)`: the cell is on the board, and so
/// are its neighbours if it shows their mines. No cell has changed.
pub open spec fn looked_at(cells: Map<(int, int), Cell>, builder: CellBuilder, x: int, y: int) -> Map<
    (int, int),
    Cell,
> {
    let cell = cell_in(cells, builder, x, y);
    let seen = cells.insert((x, y), cell);
    if cell.state is Revealed && cell.value is Empty {
        visited_around(seen, builder, x, y)
    } else {
        seen
    }
}

/// The board after looks at the first `n` cells of column `x`, from row
/// `bottom` up.
pub open spec fn looked_column(
    cells: Map<(int, int), Cell>,
    builder: CellBuilder,
    x: int,
    bottom: int,
    n: int,
) -> Map<(int, int), Cell>
    decreases n,
{
    if n <= 0 {
        cells
    } else {
        looked_at(looked_column(cells, builder, x, bottom, n - 1), builder, x, bottom + n - 1)
    }
}

/// The board after looks at the first `n` columns of a window, from column
/// `left` on, each of `height` cells from row `bottom` up.
pub open spec fn looked_columns(
    cells: Map<(int, int), Cell>,
    builder: CellBuilder,
    left: int,
    bottom: int,
    height: int,
    n: int,
) -> Map<(int, int), Cell>
    decreases n,
{
    if n <= 0 {
        cells
    } else {
        looked_column(
            looked_columns(cells, builder, left, bottom, height, n - 1),
            builder,
            left + n - 1,
            bottom,
            height,
        )
    }
}

/// Whether two boards hold the same cell at every place, visited or not.
pub open spec fn same_cells(a: Map<(int, int), Cell>, b: Map<(int, int), Cell>, builder: CellBuilder) -> bool {
    forall|x: int, y: int| #[trigger] cell_in(a, builder, x, y) == cell_in(b, builder, x, y)
}

/// Boards that hold the same cells show the same.
pub proof fn lemma_same_cells_show_same(
    a: Map<(int, int), Cell>,
    b: Map<(int, int), Cell>,
    builder: CellBuilder,
    x: int,
    y: int,
    show_mines: bool,
)
    requires
        same_cells(a, b, builder),
    ensures
        mines_around(a, builder, x, y) == mines_around(b, builder, x, y),
        shown_at(a, builder, x, y, show_mines) == shown_at(b, builder, x, y, show_mines),
{
    reveal_with_fuel(mines_among, 9);
    assert(cell_in(a, builder, x, y) == cell_in(b, builder, x, y));
    assert(cell_in(a, builder, x + neighbour_dx(0), y + neighbour_dy(0)) == cell_in(
        b,
        builder,
        x + neighbour_dx(0),
        y + neighbour_dy(0),
    ));
    assert(cell_in(a, builder, x + neighbour_dx(1), y + neighbour_dy(1)) == cell_in(
        b,
        builder,
        x + neighbour_dx(1),
        y + neighbour_dy(1),
    ));
    assert(cell_in(a, builder, x + neighbour_dx(2), y + neighbour_dy(2)) == cell_in(
        b,
        builder,
        x + neighbour_dx(2),
        y + neighbour_dy(2),
    ));
    assert(cell_in(a, builder, x + neighbour_dx(3), y + neighbour_dy(3)) == cell_in(
        b,
        builder,
        x + neighbour_dx(3),
        y + neighbour_dy(3),
    ));
    assert(cell_in(a, builder, x + neighbour_dx(4), y + neighbour_dy(4)) == cell_in(
        b,
        builder,
        x + neighbour_dx(4),
        y + neighbour_dy(4),
    ));
    assert(cell_in(a, builder, x + neighbour_dx(5), y + neighbour_dy(5)) == cell_in(
        b,
        builder,
        x + neighbour_dx(5),
        y + neighbour_dy(5),
    ));
    assert(cell_in(a, builder, x + neighbour_dx(6), y + neighbour_dy(6)) == cell_in(
        b,
        builder,
        x + neighbour_dx(6),
        y + neighbour_dy(6),
    ));
    assert(cell_in(a, builder, x + neighbour_dx(7), y + neighbour_dy(7)) == cell_in(
        b,
        builder,
        x + neighbour_dx(7),
        y + neighbour_dy(7),
    ));
}

/// A look changes no cell, and takes no cell off the board.
pub proof fn lemma_look_changes_nothing(cells: Map<(int, int), Cell>, builder: CellBuilder, x: int, y: int)
    ensures
        same_cells(looked_at(cells, builder, x, y), cells, builder),
        cells.dom().subset_of(looked_at(cells, builder, x, y).dom()),
{
    let cell = cell_in(cells, builder, x, y);
    let seen = cells.insert((x, y), cell);
    assert(same_cells(seen, cells, builder));
    assert(same_cells(visited_around(seen, builder, x, y), seen, builder));
}

/// Looks at a column change no cell, and take no cell off the board.
pub proof fn lemma_column_changes_nothing(
    cells: Map<(int, int), Cell>,
    builder: CellBuilder,
    x: int,
    bottom: int,
    n: int,
)
    ensures
        same_cells(looked_column(cells, builder, x, bottom, n), cells, builder),
        cells.dom().subset_of(looked_column(cells, builder, x, bottom, n).dom()),
    decreases n,
{
    if n > 0 {
        lemma_column_changes_nothing(cells, builder, x, bottom, n - 1);
        lemma_look_changes_nothing(
            looked_column(cells, builder, x, bottom, n - 1),
            builder,
            x,
            bottom + n - 1,
        );
    }
}

/// Looks at a window change no cell, and take no cell off the board: what
/// is shown depends on the board alone, not on what was shown before.
pub proof fn lemma_window_changes_nothing(
    cells: Map<(int, int), Cell>,
    builder: CellBuilder,
    left: int,
    bottom: int,
    height: int,
    n: int,
)
    ensures
        same_cells(looked_columns(cells, builder, left, bottom, height, n), cells, builder),
        cells.dom().subset_of(looked_columns(cells, builder, left, bottom, height, n).dom()),
    decreases n,
{
    if n > 0 {
        lemma_window_changes_nothing(cells, builder, left, bottom, height, n - 1);
        lemma_column_changes_nothing(
            looked_columns(cells, builder, left, bottom, height, n - 1),
            builder,
            left + n - 1,
            bottom,
            height,
        );
    }
}

impl ViewCell {
    /// The character that stands for the cell.
    pub open spec fn glyph(self) -> Seq<char> {
        match self {
            ViewCell::Unrevealed => " "@,
            ViewCell::Flagged => "+"@,
            ViewCell::Clear => "0"@,
            ViewCell::Mine => "*"@,
            ViewCell::IncorrectFlag => "X"@,
            ViewCell::One => "1"@,
            ViewCell::Two => "2"@,
            ViewCell::Three => "3"@,
            ViewCell::Four => "4"@,
            ViewCell::Five => "5"@,
            ViewCell::Six => "6"@,
            ViewCell::Seven => "7"@,
            ViewCell::Eight => "8"@,
        }
    }

    /// The colour of the character, on a dark ground or on a light one.
    pub open spec fn spec_color(self, light_mode: bool) -> Rgb {
        match self {
            ViewCell::Flagged | ViewCell::Clear | ViewCell::Mine => if light_mode {
                Rgb { r: 0x00, g: 0x00, b: 0x00 }
            } else {
                Rgb { r: 0xbd, g: 0xbd, b: 0xbd }
            },
            ViewCell::Unrevealed => Rgb { r: 0x00, g: 0x00, b: 0x00 },
            ViewCell::IncorrectFlag => Rgb { r: 0xff, g: 0x00, b: 0x00 },
            ViewCell::One => Rgb { r: 0x00, g: 0x00, b: 0xff },
            ViewCell::Two => Rgb { r: 0x00, g: 0x7b, b: 0x00 },
            ViewCell::Three => Rgb { r: 0xff, g: 0x00, b: 0x00 },
            ViewCell::Four => Rgb { r: 0x00, g: 0x00, b: 0x7b },
            ViewCell::Five => Rgb { r: 0x7b, g: 0x00, b: 0x00 },
            ViewCell::Six => Rgb { r: 0x00, g: 0x7b, b: 0x7b },
            ViewCell::Seven => Rgb { r: 0x00, g: 0x00, b: 0x00 },
            ViewCell::Eight => Rgb { r: 0x7b, g: 0x7b, b: 0x7b },
        }
    }

    /// How a revealed empty cell with the given count of mines about it is
    /// shown.
    pub fn of_count(count: MineCount) -> (cell: ViewCell)
        ensures
            cell == numbered(count.number()),
    {
        match count {
            MineCount::Zero => ViewCell::Clear,
            MineCount::One => ViewCell::One,
            MineCount::Two => ViewCell::Two,
            MineCount::Three => ViewCell::Three,
            MineCount::Four => ViewCell::Four,
            MineCount::Five => ViewCell::Five,
            MineCount::Six => ViewCell::Six,
            MineCount::Seven => ViewCell::Seven,
            MineCount::Eight => ViewCell::Eight,
        }
    }

    pub fn char(&self) -> (text: &'static str)
        ensures
            text@ == self.glyph(),
    {
        match self {
            ViewCell::Unrevealed => " ",
            ViewCell::Flagged => "+",
            ViewCell::Clear => "0",
            ViewCell::Mine => "*",
            ViewCell::IncorrectFlag => "X",
            ViewCell::One => "1",
            ViewCell::Two => "2",
            ViewCell::Three => "3",
            ViewCell::Four => "4",
            ViewCell::Five => "5",
            ViewCell::Six => "6",
            ViewCell::Seven => "7",
            ViewCell::Eight => "8",
        }
    }

    pub fn color(&self, light_mode: bool) -> (color: Rgb)
        ensures
            color == self.spec_color(light_mode),
    {
        match *self {
            ViewCell::Flagged | ViewCell::Clear | ViewCell::Mine => if light_mode {
                Rgb { r: 0x00, g: 0x00, b: 0x00 }
            } else {
                Rgb { r: 0xbd, g: 0xbd, b: 0xbd }
            },
            ViewCell::Unrevealed => Rgb { r: 0x00, g: 0x00, b: 0x00 },
            ViewCell::IncorrectFlag => Rgb { r: 0xff, g: 0x00, b: 0x00 },
            ViewCell::One => Rgb { r: 0x00, g: 0x00, b: 0xff },
            ViewCell::Two => Rgb { r: 0x00, g: 0x7b, b: 0x00 },
            ViewCell::Three => Rgb { r: 0xff, g: 0x00, b: 0x00 },
            ViewCell::Four => Rgb { r: 0x00, g: 0x00, b: 0x7b },
            ViewCell::Five => Rgb { r: 0x7b, g: 0x00, b: 0x00 },
            ViewCell::Six => Rgb { r: 0x00, g: 0x7b, b: 0x7b },
            ViewCell::Seven => Rgb { r: 0x00, g: 0x00, b: 0x00 },
            ViewCell::Eight => Rgb { r: 0x7b, g: 0x7b, b: 0x7b },
        }
    }
}

#[derive(Debug)]
pub struct View {
    matrix: Matrix<ViewCell>,
    window_size: SizeUsize,
    window_too_small: bool,
    matrix_cursor: PlaceUsize,
    game_cursor: PlaceI32,
    revealed_cell_count: u32,
    game_duration: Duration,
    game_state: GameState,
    seed: u64,
    light_mode: bool,
}

impl View {
    /// The windows that can be drawn: wide and high enough for the frame,
    /// and no larger than a terminal reports.
    pub open spec fn is_window(window_size: SizeUsize) -> bool {
        &&& FRAME_WIDTH <= window_size.width <= MAX_WINDOW
        &&& FRAME_HEIGHT <= window_size.height <= MAX_WINDOW
    }

    /// The cells that a window shows: a cell takes two columns, and the
    /// frame takes two columns and five rows.
    pub open spec fn spec_matrix_size(window_size: SizeUsize) -> SizeUsize {
        SizeUsize {
            width: ((window_size.width - FRAME_WIDTH) / 2) as usize,
            height: (window_size.height - FRAME_HEIGHT) as usize,
        }
    }

    /// The column of the board that the window's first column shows.
    pub open spec fn left_of(window_size: SizeUsize, origin: PlaceI32) -> int {
        origin.x - Self::spec_matrix_size(window_size).width / 2
    }

    /// The row of the board that the window's first row shows.
    pub open spec fn bottom_of(window_size: SizeUsize, origin: PlaceI32) -> int {
        origin.y - Self::spec_matrix_size(window_size).height / 2
    }

    /// Whether a camera at `origin` shows only places of the board whose
    /// neighbours are on the board too.
    pub open spec fn in_sight(origin: PlaceI32) -> bool {
        &&& -MAX_RADIUS + MAX_WINDOW < origin.x < MAX_RADIUS - MAX_WINDOW
        &&& -MAX_RADIUS + MAX_WINDOW < origin.y < MAX_RADIUS - MAX_WINDOW
    }

    /// Whether the cursor is not left of or below the window.
    pub open spec fn cursor_in_sight(window_size: SizeUsize, origin: PlaceI32, cursor: PlaceI32) -> bool {
        &&& Self::left_of(window_size, origin) <= cursor.x <= Self::left_of(window_size, origin)
            + MAX_WINDOW
        &&& Self::bottom_of(window_size, origin) <= cursor.y <= Self::bottom_of(window_size, origin)
            + MAX_WINDOW
    }

    /// The window can be drawn, and the matrix holds one cell for each
    /// place that the window shows: none where the window is too small.
    pub closed spec fn wf(self) -> bool {
        &&& self.matrix.wf()
        &&& Self::is_window(self.window_size)
        &&& self.matrix_cursor.x <= MAX_WINDOW
        &&& self.matrix_cursor.y <= MAX_WINDOW
        &&& self.matrix.size() == if self.window_too_small {
            SizeUsize { width: 0, height: 0 }
        } else {
            Self::spec_matrix_size(self.window_size)
        }
    }

    pub closed spec fn spec_matrix(&self) -> &Matrix<ViewCell> {
        &self.matrix
    }

    pub closed spec fn spec_window_size(&self) -> SizeUsize {
        self.window_size
    }

    pub closed spec fn spec_window_too_small(&self) -> bool {
        self.window_too_small
    }

    pub closed spec fn spec_matrix_cursor(&self) -> PlaceUsize {
        self.matrix_cursor
    }

    pub closed spec fn spec_game_cursor(&self) -> PlaceI32 {
        self.game_cursor
    }

    pub closed spec fn spec_revealed_cell_count(&self) -> u32 {
        self.revealed_cell_count
    }

    pub closed spec fn spec_game_state(&self) -> GameState {
        self.game_state
    }

    pub closed spec fn spec_seed(&self) -> u64 {
        self.seed
    }

    pub closed spec fn spec_light_mode(&self) -> bool {
        self.light_mode
    }

    #[verifier::when_used_as_spec(spec_matrix)]
    pub fn matrix(&self) -> (matrix: &Matrix<ViewCell>)
        ensures
            *matrix == self.spec_matrix(),
    {
        &self.matrix
    }

    #[verifier::when_used_as_spec(spec_window_size)]
    pub fn window_size(&self) -> (window_size: SizeUsize)
        ensures
            window_size == self.spec_window_size(),
    {
        self.window_size
    }

    #[verifier::when_used_as_spec(spec_window_too_small)]
    pub fn window_too_small(&self) -> (window_too_small: bool)
        ensures
            window_too_small == self.spec_window_too_small(),
    {
        self.window_too_small
    }

    #[verifier::when_used_as_spec(spec_matrix_cursor)]
    pub fn matrix_cursor(&self) -> (matrix_cursor: PlaceUsize)
        ensures
            matrix_cursor == self.spec_matrix_cursor(),
    {
        self.matrix_cursor
    }

    #[verifier::when_used_as_spec(spec_game_cursor)]
    pub fn game_cursor(&self) -> (game_cursor: PlaceI32)
        ensures
            game_cursor == self.spec_game_cursor(),
    {
        self.game_cursor
    }

    #[verifier::when_used_as_spec(spec_revealed_cell_count)]
    pub fn revealed_cell_count(&self) -> (revealed_cell_count: u32)
        ensures
            revealed_cell_count == self.spec_revealed_cell_count(),
    {
        self.revealed_cell_count
    }

    #[verifier::when_used_as_spec(spec_game_state)]
    pub fn game_state(&self) -> (game_state: GameState)
        ensures
            game_state == self.spec_game_state(),
    {
        self.game_state
    }

    #[verifier::when_used_as_spec(spec_seed)]
    pub fn seed(&self) -> (seed: u64)
        ensures
            seed == self.spec_seed(),
    {
        self.seed
    }

    #[verifier::when_used_as_spec(spec_light_mode)]
    pub fn light_mode(&self) -> (light_mode: bool)
        ensures
            light_mode == self.spec_light_mode(),
    {
        self.light_mode
    }

    /// How long the game has lasted: from its start to its end or, while
    /// it is underway, to the moment of the look.
    pub closed spec fn spec_game_duration(&self) -> Duration {
        self.game_duration
    }

    #[verifier::when_used_as_spec(spec_game_duration)]
    pub fn game_duration(&self) -> (game_duration: Duration)
        ensures
            game_duration == self.spec_game_duration(),
    {
        self.game_duration
    }

    pub fn matrix_size(window_size: SizeUsize) -> (size: SizeUsize)
        requires
            FRAME_WIDTH <= window_size.width,
            FRAME_HEIGHT <= window_size.height,
        ensures
            size == Self::spec_matrix_size(window_size),
    {
        SizeUsize { width: (window_size.width - 2) / 2, height: window_size.height - 5 }
    }

    /// How the cell at `place` is shown. The look leaves the cell on the
    /// board, and its neighbours too if it shows their mines.
    pub fn get_view_cell(grid: &mut Grid, place: PlaceI32, show_mines: bool) -> (cell: ViewCell)
        requires
            old(grid).wf(),
            -MAX_RADIUS < place.x < MAX_RADIUS - 1,
            -MAX_RADIUS < place.y < MAX_RADIUS - 1,
        ensures
            cell == shown_at(old(grid)@, old(grid).builder(), place.x as int, place.y as int, show_mines),
            final(grid)@ == looked_at(old(grid)@, old(grid).builder(), place.x as int, place.y as int),
            final(grid).wf(),
            final(grid).builder() == old(grid).builder(),
            old(grid).faithful() ==> final(grid).faithful(),
    {
        let ghost before = grid@;
        let ghost builder = grid.builder();
        let cell = grid.get(place);
        proof {
            assert(same_cells(grid@, before, builder));
            lemma_same_cells_show_same(grid@, before, builder, place.x as int, place.y as int, show_mines);
        }
        match ((*cell).state, (*cell).value) {
            (CellState::Hidden, CellValue::Mine) => if show_mines {
                ViewCell::Mine
            } else {
                ViewCell::Unrevealed
            },
            (CellState::Hidden, CellValue::Empty) => ViewCell::Unrevealed,
            (CellState::Flagged, CellValue::Empty) => if show_mines {
                ViewCell::IncorrectFlag
            } else {
                ViewCell::Flagged
            },
            (CellState::Flagged, CellValue::Mine) => ViewCell::Flagged,
            (CellState::Revealed, CellValue::Mine) => ViewCell::Mine,
            (CellState::Revealed, CellValue::Empty) => ViewCell::of_count(Game::mine_count(grid, place)),
        }
    }

    /// The view of a board through a window centred on `origin`. The cells
    /// are looked at column by column, each from the bottom row up. A
    /// window that is too small shows no cell.
    pub fn new(
        grid: &mut Grid,
        window_size: SizeUsize,
        window_too_small: bool,
        origin: PlaceI32,
        game_cursor: PlaceI32,
        show_mines: bool,
        revealed_cell_count: u32,
        start_instant: Instant,
        latest_game_instant: Instant,
        game_state: GameState,
        seed: u64,
        light_mode: bool,
    ) -> (view: View)
        requires
            old(grid).wf(),
            Self::is_window(window_size),
            !window_too_small ==> Self::in_sight(origin) && Self::cursor_in_sight(
                window_size,
                origin,
                game_cursor,
            ),
        ensures
            view.wf(),
            view.window_size() == window_size,
            view.window_too_small() == window_too_small,
            view.game_cursor() == game_cursor,
            view.revealed_cell_count() == revealed_cell_count,
            view.game_state() == game_state,
            view.seed() == seed,
            view.light_mode() == light_mode,
            final(grid).wf(),
            final(grid).builder() == old(grid).builder(),
            old(grid).faithful() ==> final(grid).faithful(),
            window_too_small ==> {
                &&& final(grid)@ == old(grid)@
                &&& view.matrix().size() == (SizeUsize { width: 0, height: 0 })
                &&& view.matrix_cursor() == (PlaceUsize { x: 0, y: 0 })
            },
            !window_too_small ==> {
                let size = Self::spec_matrix_size(window_size);
                let left = Self::left_of(window_size, origin);
                let bottom = Self::bottom_of(window_size, origin);
                &&& view.matrix().size() == size
                &&& forall|x: int, y: int|
                    0 <= x < size.width && 0 <= y < size.height ==> #[trigger] view.matrix().at(x, y)
                        == shown_at(old(grid)@, old(grid).builder(), left + x, bottom + y, show_mines)
                &&& final(grid)@ == looked_columns(
                    old(grid)@,
                    old(grid).builder(),
                    left,
                    bottom,
                    size.height as int,
                    size.width as int,
                )
                &&& view.matrix_cursor().x == game_cursor.x - left
                &&& view.matrix_cursor().y == game_cursor.y - bottom
            },
    {
        let game_duration = time_between(start_instant, latest_game_instant);
        if window_too_small {
            let matrix = Matrix::from_columns(SizeUsize { width: 0, height: 0 }, Vec::new());
            return View {
                matrix,
                window_size,
                window_too_small,
                matrix_cursor: PlaceUsize { x: 0, y: 0 },
                game_cursor,
                revealed_cell_count,
                game_duration,
                game_state,
                seed,
                light_mode,
            };
        }
        let matrix_size = Self::matrix_size(window_size);
        let left: i32 = origin.x - matrix_size.width as i32 / 2;
        let bottom: i32 = origin.y - matrix_size.height as i32 / 2;
        let ghost before = grid@;
        let ghost builder = grid.builder();
        let mut data: Vec<ViewCell> = Vec::new();
        let mut x: usize = 0;
        while x < matrix_size.width
            invariant
                0 <= x <= matrix_size.width,
                matrix_size.width <= MAX_WINDOW,
                matrix_size.height <= MAX_WINDOW,
                -MAX_RADIUS < left,
                left + MAX_WINDOW < MAX_RADIUS,
                -MAX_RADIUS < bottom,
                bottom + MAX_WINDOW < MAX_RADIUS,
                grid.wf(),
                grid.builder() == builder,
                old(grid).faithful() ==> grid.faithful(),
                before == old(grid)@,
                grid@ == looked_columns(
                    before,
                    builder,
                    left as int,
                    bottom as int,
                    matrix_size.height as int,
                    x as int,
                ),
                data@.len() == x * matrix_size.height,
                forall|i: int, j: int|
                    0 <= i < x && 0 <= j < matrix_size.height ==> #[trigger] data@[i * matrix_size.height
                        + j] == shown_at(before, builder, left + i, bottom + j, show_mines),
            decreases matrix_size.width - x,
        {
            let ghost column_start = grid@;
            let mut y: usize = 0;
            while y < matrix_size.height
                invariant
                    0 <= x < matrix_size.width,
                    0 <= y <= matrix_size.height,
                    matrix_size.width <= MAX_WINDOW,
                    matrix_size.height <= MAX_WINDOW,
                    -MAX_RADIUS < left,
                    left + MAX_WINDOW < MAX_RADIUS,
                    -MAX_RADIUS < bottom,
                    bottom + MAX_WINDOW < MAX_RADIUS,
                    grid.wf(),
                    grid.builder() == builder,
                    old(grid).faithful() ==> grid.faithful(),
                    column_start == looked_columns(
                        before,
                        builder,
                        left as int,
                        bottom as int,
                        matrix_size.height as int,
                        x as int,
                    ),
                    grid@ == looked_column(column_start, builder, left + x, bottom as int, y as int),
                    data@.len() == x * matrix_size.height + y,
                    forall|i: int, j: int|
                        0 <= i < matrix_size.width && 0 <= j < matrix_size.height && (i < x || (i == x
                            && j < y)) ==> #[trigger] data@[i * matrix_size.height + j] == shown_at(
                            before,
                            builder,
                            left + i,
                            bottom + j,
                            show_mines,
                        ),
                decreases matrix_size.height - y,
            {
                let cell_position = PlaceI32 { x: left + x as i32, y: bottom + y as i32 };
                let ghost looked = grid@;
                let cell = Self::get_view_cell(grid, cell_position, show_mines);
                let ghost stored = data@;
                data.push(cell);
                proof {
                    lemma_window_changes_nothing(
                        before,
                        builder,
                        left as int,
                        bottom as int,
                        matrix_size.height as int,
                        x as int,
                    );
                    lemma_column_changes_nothing(column_start, builder, left + x, bottom as int, y as int);
                    assert(same_cells(looked, before, builder)) by {
                        assert forall|x1: int, y1: int|
                            #[trigger] cell_in(looked, builder, x1, y1) == cell_in(
                                before,
                                builder,
                                x1,
                                y1,
                            ) by {
                            assert(cell_in(looked, builder, x1, y1) == cell_in(
                                column_start,
                                builder,
                                x1,
                                y1,
                            ));
                        }
                    }
                    lemma_same_cells_show_same(looked, before, builder, left + x, bottom + y, show_mines);
                    assert forall|i: int, j: int|
                        0 <= i < matrix_size.width && 0 <= j < matrix_size.height && (i < x || (i == x
                            && j < y + 1)) implies #[trigger] data@[i * matrix_size.height + j]
                        == shown_at(before, builder, left + i, bottom + j, show_mines) by {
                        if i < x {
                            lemma_index_in_bounds(i, j, x as int, matrix_size.height as int);
                            assert(data@[i * matrix_size.height + j] == stored[i * matrix_size.height
                                + j]);
                        } else if j < y {
                            assert(data@[i * matrix_size.height + j] == stored[i * matrix_size.height
                                + j]);
                        } else {
                            assert(i * matrix_size.height + j == stored.len());
                        }
                    }
                }
                y = y + 1;
            }
            proof {
                assert((x + 1) * matrix_size.height == x * matrix_size.height + matrix_size.height)
                    by (nonlinear_arith);
            }
            x = x + 1;
        }
        let matrix = Matrix::from_columns(matrix_size, data);
        let matrix_cursor = PlaceUsize {
            x: (game_cursor.x - left) as usize,
            y: (game_cursor.y - bottom) as usize,
        };
        View {
            matrix,
            window_size,
            window_too_small,
            matrix_cursor,
            game_cursor,
            revealed_cell_count,
            game_duration,
            game_state,
            seed,
            light_mode,
        }
    }
    /// What stands at a place of the picture of the cells, and the cell
    /// whose colour it has, if it has one.
    ///
    /// A cell of the matrix takes two columns of the picture: the odd
    /// column holds its character and the even column before it a space.
    /// The columns to the left and right of the cursor's character hold
    /// brackets instead.
    pub open spec fn spec_character_at(self, place: PlaceUsize) -> (Seq<char>, Option<ViewCell>) {
        let cursor_x = self.spec_matrix_cursor().x * 2 + 1;
        let cursor_y = self.spec_matrix_cursor().y;
        if place.y == cursor_y && place.x - cursor_x == -1 {
            ("["@, None)
        } else if place.y == cursor_y && place.x - cursor_x == 1 {
            ("]"@, None)
        } else if place.x % 2 != 1 {
            (" "@, None)
        } else {
            let cell = self.spec_matrix().at((place.x - 1) / 2, place.y as int);
            (cell.glyph(), Some(cell))
        }
    }

    /// The places of the picture of the cells: the window without its
    /// frame. There are none where the window is too small.
    pub open spec fn in_picture(self, place: PlaceUsize) -> bool {
        &&& !self.spec_window_too_small()
        &&& place.x < self.spec_window_size().width - FRAME_WIDTH
        &&& place.y < self.spec_window_size().height - FRAME_HEIGHT
    }

    /// The character at a place of the picture of the cells, and its
    /// colour if it is a cell's.
    pub fn get_character_and_color(&self, place: PlaceUsize) -> (shown: (&'static str, Option<Rgb>))
        requires
            self.wf(),
            self.in_picture(place),
        ensures
            shown.0@ == self.spec_character_at(place).0,
            shown.1 == match self.spec_character_at(place).1 {
                Some(cell) => Some(cell.spec_color(self.light_mode())),
                None => None,
            },
    {
        let cursor = PlaceUsize { x: self.matrix_cursor.x * 2 + 1, y: self.matrix_cursor.y };
        let dist_x: i32 = place.x as i32 - cursor.x as i32;
        let dist_y: i32 = place.y as i32 - cursor.y as i32;
        if dist_x == -1 && dist_y == 0 {
            return ("[", None);
        }
        if dist_x == 1 && dist_y == 0 {
            return ("]", None);
        }
        if place.x % 2 != 1 {
            return (" ", None);
        }
        let matrix_place = PlaceUsize { x: (place.x - 1) / 2, y: place.y };
        let view_cell = self.matrix.get(matrix_place);
        (view_cell.char(), Some(view_cell.color(self.light_mode)))
    }
}

} // verus!
