use infinite_minesweeper::game::{Action, Direction, Game, GameState, MineCount};
use infinite_minesweeper::grid::cell::{CellState, CellValue};
use infinite_minesweeper::grid::cell_builder::{CellBuilder, CERTAIN};
use infinite_minesweeper::grid::Grid;
use infinite_minesweeper::helper::{PlaceI32, PlaceUsize, SizeUsize};
use infinite_minesweeper::view::matrix::Matrix;
use infinite_minesweeper::view::{Rgb, View, ViewCell, FRAME_HEIGHT, FRAME_WIDTH, MAX_WINDOW};
use std::time::{Duration, Instant};

const TERMINAL: SizeUsize = SizeUsize { width: 80, height: 24 };

fn xy(x: i32, y: i32) -> PlaceI32 {
    PlaceI32 { x, y }
}

fn cell_at(x: usize, y: usize) -> PlaceUsize {
    PlaceUsize { x, y }
}

fn a_fifth() -> u64 {
    CellBuilder::concentration_of(0.2f64.to_bits())
}

fn game_of(seed: u64) -> Game {
    Game::new(a_fifth(), Some(seed), TERMINAL, false).ok().expect("a game")
}

fn ring(place: PlaceI32) -> [PlaceI32; 8] {
    [
        xy(place.x - 1, place.y - 1),
        xy(place.x - 1, place.y),
        xy(place.x - 1, place.y + 1),
        xy(place.x, place.y - 1),
        xy(place.x, place.y + 1),
        xy(place.x + 1, place.y - 1),
        xy(place.x + 1, place.y),
        xy(place.x + 1, place.y + 1),
    ]
}

fn numbered(mines: usize) -> ViewCell {
    [
        ViewCell::Clear,
        ViewCell::One,
        ViewCell::Two,
        ViewCell::Three,
        ViewCell::Four,
        ViewCell::Five,
        ViewCell::Six,
        ViewCell::Seven,
        ViewCell::Eight,
    ][mines]
}

fn expected_cell(game: &mut Game, place: PlaceI32, show_mines: bool) -> ViewCell {
    let builder = game.cell_builder();
    let cell = game.cell(place);
    match (cell.state, cell.value) {
        (CellState::Hidden, CellValue::Mine) if show_mines => ViewCell::Mine,
        (CellState::Flagged, CellValue::Empty) if show_mines => ViewCell::IncorrectFlag,
        (CellState::Hidden, _) => ViewCell::Unrevealed,
        (CellState::Flagged, _) => ViewCell::Flagged,
        (CellState::Revealed, CellValue::Mine) => ViewCell::Mine,
        (CellState::Revealed, CellValue::Empty) => {
            numbered(ring(place).iter().filter(|&&p| builder.cell(p).value == CellValue::Mine).count())
        }
    }
}

#[test]
fn the_frame_takes_two_columns_and_five_rows() {
    assert_eq!((FRAME_WIDTH, FRAME_HEIGHT, MAX_WINDOW), (2, 5, 65535));
    assert_eq!(View::matrix_size(TERMINAL), SizeUsize { width: 39, height: 19 });
    assert_eq!(View::matrix_size(SizeUsize { width: 2, height: 5 }), SizeUsize { width: 0, height: 0 });
    assert_eq!(View::matrix_size(SizeUsize { width: 3, height: 6 }), SizeUsize { width: 0, height: 1 });
    assert_eq!(View::matrix_size(SizeUsize { width: 4, height: 6 }), SizeUsize { width: 1, height: 1 });
    assert_eq!(
        View::matrix_size(SizeUsize { width: 65535, height: 65535 }),
        SizeUsize { width: 32766, height: 65530 }
    );
}

#[test]
fn each_view_cell_has_its_character() {
    let table = [
        (ViewCell::Unrevealed, " "),
        (ViewCell::Flagged, "+"),
        (ViewCell::Clear, "0"),
        (ViewCell::Mine, "*"),
        (ViewCell::IncorrectFlag, "X"),
        (ViewCell::One, "1"),
        (ViewCell::Two, "2"),
        (ViewCell::Three, "3"),
        (ViewCell::Four, "4"),
        (ViewCell::Five, "5"),
        (ViewCell::Six, "6"),
        (ViewCell::Seven, "7"),
        (ViewCell::Eight, "8"),
    ];
    for (cell, text) in table {
        assert_eq!(cell.char(), text);
    }
}

#[test]
fn each_view_cell_has_its_colour() {
    let black = Rgb { r: 0, g: 0, b: 0 };
    let grey = Rgb { r: 0xbd, g: 0xbd, b: 0xbd };
    for cell in [ViewCell::Flagged, ViewCell::Clear, ViewCell::Mine] {
        assert_eq!(cell.color(true), black);
        assert_eq!(cell.color(false), grey);
    }
    let table = [
        (ViewCell::Unrevealed, black),
        (ViewCell::IncorrectFlag, Rgb { r: 0xff, g: 0, b: 0 }),
        (ViewCell::One, Rgb { r: 0, g: 0, b: 0xff }),
        (ViewCell::Two, Rgb { r: 0, g: 0x7b, b: 0 }),
        (ViewCell::Three, Rgb { r: 0xff, g: 0, b: 0 }),
        (ViewCell::Four, Rgb { r: 0, g: 0, b: 0x7b }),
        (ViewCell::Five, Rgb { r: 0x7b, g: 0, b: 0 }),
        (ViewCell::Six, Rgb { r: 0, g: 0x7b, b: 0x7b }),
        (ViewCell::Seven, black),
        (ViewCell::Eight, Rgb { r: 0x7b, g: 0x7b, b: 0x7b }),
    ];
    for (cell, colour) in table {
        assert_eq!(cell.color(true), colour);
        assert_eq!(cell.color(false), colour);
    }
}

#[test]
fn a_count_is_shown_as_its_digit() {
    assert_eq!(ViewCell::of_count(MineCount::Zero), ViewCell::Clear);
    assert_eq!(ViewCell::of_count(MineCount::One), ViewCell::One);
    assert_eq!(ViewCell::of_count(MineCount::Two), ViewCell::Two);
    assert_eq!(ViewCell::of_count(MineCount::Three), ViewCell::Three);
    assert_eq!(ViewCell::of_count(MineCount::Four), ViewCell::Four);
    assert_eq!(ViewCell::of_count(MineCount::Five), ViewCell::Five);
    assert_eq!(ViewCell::of_count(MineCount::Six), ViewCell::Six);
    assert_eq!(ViewCell::of_count(MineCount::Seven), ViewCell::Seven);
    assert_eq!(ViewCell::of_count(MineCount::Eight), ViewCell::Eight);
}

#[test]
fn a_matrix_holds_what_its_builder_gives() {
    let size = SizeUsize { width: 5, height: 3 };
    let matrix = Matrix::new(size, |place: PlaceUsize| place.x * 10 + place.y);
    assert_eq!(matrix.size(), size);
    for x in 0..5 {
        for y in 0..3 {
            assert_eq!(*matrix.get(cell_at(x, y)), x * 10 + y);
        }
    }
}

#[test]
fn a_matrix_is_stored_column_by_column() {
    let size = SizeUsize { width: 2, height: 3 };
    let matrix = Matrix::from_columns(size, vec!['a', 'b', 'c', 'd', 'e', 'f']);
    assert_eq!(*matrix.get(cell_at(0, 0)), 'a');
    assert_eq!(*matrix.get(cell_at(0, 2)), 'c');
    assert_eq!(*matrix.get(cell_at(1, 0)), 'd');
    assert_eq!(*matrix.get(cell_at(1, 2)), 'f');
}

#[test]
fn a_matrix_may_be_empty() {
    let matrix = Matrix::new(SizeUsize { width: 0, height: 7 }, |_: PlaceUsize| 1u8);
    assert_eq!(matrix.size(), SizeUsize { width: 0, height: 7 });
    let flat = Matrix::new(SizeUsize { width: 7, height: 0 }, |_: PlaceUsize| 1u8);
    assert_eq!(flat.size(), SizeUsize { width: 7, height: 0 });
}

#[test]
fn the_view_of_a_new_game() {
    let mut game = game_of(0xDEADBEEF);
    let count = game.revealed_cell_count();
    let view = game.view();
    assert_eq!(view.window_size(), TERMINAL);
    assert!(!view.window_too_small());
    assert_eq!(view.matrix().size(), SizeUsize { width: 39, height: 19 });
    assert_eq!(view.matrix_cursor(), cell_at(19, 9));
    assert_eq!(view.game_cursor(), xy(0, 0));
    assert_eq!(view.revealed_cell_count(), count);
    assert_eq!(view.game_state(), GameState::Underway);
    assert_eq!(view.seed(), 0xDEADBEEF);
    assert!(!view.light_mode());
    assert!(view.game_duration() < Duration::from_secs(600));
    assert_eq!(*view.matrix().get(cell_at(19, 9)), ViewCell::Clear);
}

#[test]
fn the_view_shows_each_cell_of_the_window() {
    let mut game = game_of(5);
    let view = game.view();
    let mut kinds = [false; 3];
    for x in 0..39usize {
        for y in 0..19usize {
            let place = xy(x as i32 - 19, y as i32 - 9);
            let expected = expected_cell(&mut game, place, false);
            assert_eq!(*view.matrix().get(cell_at(x, y)), expected);
            match expected {
                ViewCell::Unrevealed => kinds[0] = true,
                ViewCell::Clear => kinds[1] = true,
                _ => kinds[2] = true,
            }
        }
    }
    assert!(kinds[0] && kinds[1] && kinds[2]);
}

#[test]
fn the_view_follows_the_camera() {
    let mut game = game_of(5);
    for _ in 0..30 {
        assert_eq!(game.action(Action::MoveCursor(Direction::Right)), Ok(()));
        assert_eq!(game.action(Action::MoveCursor(Direction::Down)), Ok(()));
    }
    assert_eq!(game.cursor(), xy(30, -30));
    assert_eq!(game.origin(), xy(15, -24));
    let view = game.view();
    assert_eq!(view.game_cursor(), xy(30, -30));
    assert_eq!(view.matrix_cursor(), cell_at(34, 3));
    for x in 0..39usize {
        for y in 0..19usize {
            let place = xy(15 - 19 + x as i32, -24 - 9 + y as i32);
            assert_eq!(*view.matrix().get(cell_at(x, y)), expected_cell(&mut game, place, false));
        }
    }
}

#[test]
fn flags_are_shown_and_mines_are_not_while_the_game_is_underway() {
    let mut game = game_of(9);
    let builder = game.cell_builder();
    let hidden: Vec<PlaceI32> = (-19..20)
        .flat_map(|x| (-9..10).map(move |y| xy(x, y)))
        .filter(|&p| game.cell(p).state == CellState::Hidden)
        .collect();
    let mine = *hidden.iter().find(|&&p| builder.cell(p).value == CellValue::Mine).expect("a mine");
    let empty = *hidden.iter().find(|&&p| builder.cell(p).value == CellValue::Empty).expect("an empty cell");
    for target in [mine, empty] {
        while game.cursor().x < target.x {
            assert_eq!(game.action(Action::MoveCursor(Direction::Right)), Ok(()));
        }
        while game.cursor().x > target.x {
            assert_eq!(game.action(Action::MoveCursor(Direction::Left)), Ok(()));
        }
        while game.cursor().y < target.y {
            assert_eq!(game.action(Action::MoveCursor(Direction::Up)), Ok(()));
        }
        while game.cursor().y > target.y {
            assert_eq!(game.action(Action::MoveCursor(Direction::Down)), Ok(()));
        }
        assert_eq!(game.action(Action::Flag), Ok(()));
    }
    let origin = game.origin();
    let in_matrix = |p: PlaceI32| cell_at((p.x - origin.x + 19) as usize, (p.y - origin.y + 9) as usize);
    let view = game.view();
    assert_eq!(*view.matrix().get(in_matrix(mine)), ViewCell::Flagged);
    assert_eq!(*view.matrix().get(in_matrix(empty)), ViewCell::Flagged);
    for &place in &hidden {
        if place != mine && place != empty && (place.x - origin.x).abs() <= 19 && (place.y - origin.y).abs() <= 9 {
            assert_eq!(*view.matrix().get(in_matrix(place)), ViewCell::Unrevealed);
        }
    }
}

#[test]
fn a_lost_game_shows_its_mines_and_its_wrong_flags() {
    let builder = CellBuilder::new(a_fifth(), Some(9)).expect("a start");
    let mut grid = Grid::new(builder);
    let places: Vec<PlaceI32> = (-19..20).flat_map(|x| (-9..10).map(move |y| xy(x, y))).collect();
    let mine = *places.iter().find(|&&p| builder.cell(p).value == CellValue::Mine).expect("a mine");
    let other_mine = *places
        .iter()
        .find(|&&p| p != mine && builder.cell(p).value == CellValue::Mine)
        .expect("a second mine");
    let third_mine = *places
        .iter()
        .find(|&&p| p != mine && p != other_mine && builder.cell(p).value == CellValue::Mine)
        .expect("a third mine");
    grid.get_mut(mine).flag();
    grid.get_mut(xy(1, 1)).flag();
    grid.get_mut(xy(0, 0)).uncover();
    grid.get_mut(other_mine).uncover();
    let now = Instant::now();
    let view = View::new(
        &mut grid,
        TERMINAL,
        false,
        xy(0, 0),
        xy(0, 0),
        true,
        3,
        now,
        now,
        GameState::Lost,
        9,
        true,
    );
    let in_matrix = |p: PlaceI32| cell_at((p.x + 19) as usize, (p.y + 9) as usize);
    assert_eq!(*view.matrix().get(in_matrix(mine)), ViewCell::Flagged);
    assert_eq!(*view.matrix().get(in_matrix(xy(1, 1))), ViewCell::IncorrectFlag);
    assert_eq!(*view.matrix().get(in_matrix(xy(0, 0))), ViewCell::Clear);
    assert_eq!(*view.matrix().get(in_matrix(other_mine)), ViewCell::Mine);
    assert_eq!(*view.matrix().get(in_matrix(third_mine)), ViewCell::Mine);
    assert_eq!(view.game_state(), GameState::Lost);
    assert_eq!(view.revealed_cell_count(), 3);
    assert!(view.light_mode());
    assert_eq!(view.game_duration(), Duration::ZERO);
}

#[test]
fn the_view_of_a_lost_game_discloses_the_mines() {
    let builder = CellBuilder { mine_concentration: CERTAIN, seed: 2, origin: xy(0, 0) };
    let mut game = Game::unopened(builder, TERMINAL, false);
    let before = game.view();
    for x in 0..39 {
        for y in 0..19 {
            assert_eq!(*before.matrix().get(cell_at(x, y)), ViewCell::Unrevealed);
        }
    }
    assert_eq!(game.action(Action::Reveal), Ok(()));
    let after = game.view();
    assert_eq!(after.game_state(), GameState::Lost);
    for x in 0..39 {
        for y in 0..19 {
            assert_eq!(*after.matrix().get(cell_at(x, y)), ViewCell::Mine);
        }
    }
}

#[test]
fn a_revealed_cell_shows_the_mines_about_it() {
    let builder = CellBuilder::new(CellBuilder::concentration_of(0.4f64.to_bits()), Some(3)).expect("a start");
    for x in -8..8 {
        for y in -8..8 {
            let place = xy(x, y);
            if builder.cell(place).value == CellValue::Mine {
                continue;
            }
            let mut grid = Grid::new(builder);
            grid.get_mut(place).uncover();
            let mines = ring(place).iter().filter(|&&p| builder.cell(p).value == CellValue::Mine).count();
            assert_eq!(View::get_view_cell(&mut grid, place, false), numbered(mines));
            assert_eq!(View::get_view_cell(&mut grid, place, true), numbered(mines));
        }
    }
}

#[test]
fn a_hidden_cell_tells_nothing_until_the_game_is_lost() {
    let builder = CellBuilder { mine_concentration: CERTAIN, seed: 2, origin: xy(0, 0) };
    let mut grid = Grid::new(builder);
    assert_eq!(View::get_view_cell(&mut grid, xy(3, 3), false), ViewCell::Unrevealed);
    assert_eq!(View::get_view_cell(&mut grid, xy(3, 3), true), ViewCell::Mine);
    grid.get_mut(xy(3, 3)).flag();
    assert_eq!(View::get_view_cell(&mut grid, xy(3, 3), false), ViewCell::Flagged);
    assert_eq!(View::get_view_cell(&mut grid, xy(3, 3), true), ViewCell::Flagged);
    let mut empty = Grid::new(CellBuilder::dummy());
    assert_eq!(View::get_view_cell(&mut empty, xy(3, 3), false), ViewCell::Unrevealed);
    assert_eq!(View::get_view_cell(&mut empty, xy(3, 3), true), ViewCell::Unrevealed);
    empty.get_mut(xy(3, 3)).flag();
    assert_eq!(View::get_view_cell(&mut empty, xy(3, 3), false), ViewCell::Flagged);
    assert_eq!(View::get_view_cell(&mut empty, xy(3, 3), true), ViewCell::IncorrectFlag);
}

#[test]
fn the_view_of_a_window_that_is_too_small_shows_no_cell() {
    let mut game = game_of(5);
    let small = SizeUsize { width: 10, height: 8 };
    assert_eq!(game.action(Action::Resize(small)), Ok(()));
    let view = game.view();
    assert!(view.window_too_small());
    assert_eq!(view.window_size(), small);
    assert_eq!(view.matrix().size(), SizeUsize { width: 0, height: 0 });
    assert_eq!(view.matrix_cursor(), cell_at(0, 0));
}

#[test]
fn the_picture_has_a_cell_in_every_other_column() {
    let mut game = game_of(0xDEADBEEF);
    let view = game.view();
    let black = Rgb { r: 0, g: 0, b: 0 };
    for x in 0..78usize {
        for y in 0..19usize {
            let shown = view.get_character_and_color(cell_at(x, y));
            if y == 9 && x == 38 {
                assert_eq!(shown, ("[", None));
            } else if y == 9 && x == 40 {
                assert_eq!(shown, ("]", None));
            } else if x % 2 == 0 {
                assert_eq!(shown, (" ", None));
            } else {
                let cell = *view.matrix().get(cell_at((x - 1) / 2, y));
                assert_eq!(shown, (cell.char(), Some(cell.color(false))));
            }
        }
    }
    assert_eq!(
        view.get_character_and_color(cell_at(39, 9)),
        ("0", Some(Rgb { r: 0xbd, g: 0xbd, b: 0xbd }))
    );
    assert_ne!(view.get_character_and_color(cell_at(39, 9)).1, Some(black));
}

#[test]
fn looking_changes_no_cell() {
    let mut game = game_of(14);
    let before: Vec<_> = (-30..30).flat_map(|x| (-20..20).map(move |y| xy(x, y))).collect();
    let cells: Vec<_> = before.iter().map(|&p| game.cell(p)).collect();
    let count = game.revealed_cell_count();
    let first = game.view();
    let second = game.view();
    for x in 0..39 {
        for y in 0..19 {
            assert_eq!(first.matrix().get(cell_at(x, y)), second.matrix().get(cell_at(x, y)));
        }
    }
    let again: Vec<_> = before.iter().map(|&p| game.cell(p)).collect();
    assert_eq!(cells, again);
    assert_eq!(game.revealed_cell_count(), count);
    assert_eq!(game.state(), GameState::Underway);
}
