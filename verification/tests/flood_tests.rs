use infinite_minesweeper::fatal::Fatal;
use infinite_minesweeper::game::{Action, Game, GameState};
use infinite_minesweeper::grid::cell_builder::CellBuilder;
use infinite_minesweeper::grid::cell::{CellState, CellValue};
use infinite_minesweeper::helper::{PlaceI32, SizeUsize};
use std::collections::HashSet;

const WINDOW: SizeUsize = SizeUsize { width: 80, height: 24 };

#[test]
fn a_board_without_mines_floods_to_the_ceiling() {
    let builder = CellBuilder::new(0, Some(0xDEADBEEF)).expect("a start");
    assert_eq!(builder.origin, PlaceI32 { x: -500, y: -500 });
    let mut game = Game::unopened(builder, WINDOW, false);
    assert_eq!(game.revealed_cell_count(), 0);
    let outcome = game.action(Action::Reveal);
    assert_eq!(outcome, Err(Fatal::TooManyClearCells));
    assert_eq!(game.state(), GameState::Underway);
    assert_eq!(game.revealed_cell_count(), 9999);
}

#[test]
fn a_game_without_mines_does_not_begin() {
    let outcome = Game::new(0, Some(7), WINDOW, false);
    assert!(matches!(outcome, Err(Fatal::TooManyClearCells)));
}

#[test]
fn a_tenth_of_mines_keeps_the_first_flood_below_the_ceiling() {
    let tenth = CellBuilder::concentration_of(0.1f64.to_bits());
    for seed in [0u64, 1, 2, 3, 5] {
        let game = Game::new(tenth, Some(seed), WINDOW, false);
        assert!(matches!(game, Ok(_)));
    }
}

#[test]
fn a_fifth_of_mines_keeps_floods_below_the_ceiling() {
    let fifth = CellBuilder::concentration_of(0.2f64.to_bits());
    for seed in 100..160u64 {
        let mut game = match Game::new(fifth, Some(seed), WINDOW, false) {
            Ok(game) => game,
            Err(e) => panic!("seed {}: {}", seed, e.message()),
        };
        let builder = game.cell_builder();
        for x in -12..12 {
            for y in -12..12 {
                let place = PlaceI32 { x, y };
                if builder.cell(place).value == CellValue::Empty {
                    assert_eq!(game.uncover(place), Ok(()));
                }
            }
        }
        assert_eq!(game.state(), GameState::Underway);
    }
}

fn beside(x: i32, y: i32) -> [(i32, i32); 8] {
    [
        (x - 1, y - 1),
        (x - 1, y),
        (x - 1, y + 1),
        (x, y - 1),
        (x, y + 1),
        (x + 1, y - 1),
        (x + 1, y),
        (x + 1, y + 1),
    ]
}

fn clear_about(builder: &CellBuilder, x: i32, y: i32) -> bool {
    builder.cell(PlaceI32 { x, y }).value == CellValue::Empty
        && beside(x, y)
            .iter()
            .all(|&(nx, ny)| builder.cell(PlaceI32 { x: nx, y: ny }).value == CellValue::Empty)
}

/// The cells that a flood from `(x, y)` spreads to on a board on which the
/// cells in `revealed` are revealed and no cell is flagged.
fn spread(builder: &CellBuilder, revealed: &HashSet<(i32, i32)>, x: i32, y: i32) -> HashSet<(i32, i32)> {
    let mut reached = HashSet::new();
    let mut pending = vec![(x, y)];
    while let Some((px, py)) = pending.pop() {
        if revealed.contains(&(px, py)) || !reached.insert((px, py)) {
            continue;
        }
        if clear_about(builder, px, py) {
            pending.extend(beside(px, py));
        }
    }
    reached
}

#[test]
fn the_first_flood_reveals_what_the_start_spreads_to() {
    let fifth = CellBuilder::concentration_of(0.2f64.to_bits());
    for seed in [3u64, 12, 99, 0xDEADBEEF] {
        let mut game = Game::new(fifth, Some(seed), WINDOW, false).ok().expect("a game");
        let builder = game.cell_builder();
        let reached = spread(&builder, &HashSet::new(), 0, 0);
        assert!(reached.len() >= 9);
        assert_eq!(game.revealed_cell_count() as usize, reached.len());
        let reach = reached.iter().map(|&(x, y)| x.abs().max(y.abs())).max().unwrap() + 2;
        for x in -reach..=reach {
            for y in -reach..=reach {
                let state = game.cell(PlaceI32 { x, y }).state;
                if reached.contains(&(x, y)) {
                    assert_eq!(state, CellState::Revealed);
                } else {
                    assert_eq!(state, CellState::Hidden);
                }
            }
        }
    }
}

#[test]
fn a_later_flood_reveals_what_its_start_spreads_to() {
    let fifth = CellBuilder::concentration_of(0.2f64.to_bits());
    let mut game = Game::new(fifth, Some(41), WINDOW, false).ok().expect("a game");
    let builder = game.cell_builder();
    let mut revealed = spread(&builder, &HashSet::new(), 0, 0);
    let mut floods = 0;
    for x in -25..25 {
        for y in -25..25 {
            if builder.cell(PlaceI32 { x, y }).value == CellValue::Mine || revealed.contains(&(x, y)) {
                continue;
            }
            let gained = spread(&builder, &revealed, x, y);
            let count = game.revealed_cell_count() as usize;
            assert_eq!(game.uncover(PlaceI32 { x, y }), Ok(()));
            assert_eq!(game.revealed_cell_count() as usize, count + gained.len());
            revealed.extend(gained);
            floods += 1;
        }
    }
    assert!(floods > 100);
    let reach = revealed.iter().map(|&(x, y)| x.abs().max(y.abs())).max().unwrap() + 2;
    for x in -reach..=reach {
        for y in -reach..=reach {
            let state = game.cell(PlaceI32 { x, y }).state;
            assert_eq!(state == CellState::Revealed, revealed.contains(&(x, y)));
        }
    }
    assert_eq!(game.state(), GameState::Underway);
}

#[test]
fn a_flag_on_a_numbered_cell_ends_the_flood_there() {
    let fifth = CellBuilder::concentration_of(0.2f64.to_bits());
    let builder = CellBuilder::new(fifth, Some(3)).expect("a start");
    let reached = spread(&builder, &HashSet::new(), 0, 0);
    let &(fx, fy) = reached
        .iter()
        .find(|&&(x, y)| !clear_about(&builder, x, y))
        .expect("a numbered cell at the rim");
    let mut game = Game::unopened(builder, WINDOW, false);
    while game.cursor().x < fx {
        assert_eq!(game.action(Action::MoveCursor(infinite_minesweeper::game::Direction::Right)), Ok(()));
    }
    while game.cursor().x > fx {
        assert_eq!(game.action(Action::MoveCursor(infinite_minesweeper::game::Direction::Left)), Ok(()));
    }
    while game.cursor().y < fy {
        assert_eq!(game.action(Action::MoveCursor(infinite_minesweeper::game::Direction::Up)), Ok(()));
    }
    while game.cursor().y > fy {
        assert_eq!(game.action(Action::MoveCursor(infinite_minesweeper::game::Direction::Down)), Ok(()));
    }
    assert_eq!(game.action(Action::Flag), Ok(()));
    assert_eq!(game.uncover(PlaceI32 { x: 0, y: 0 }), Ok(()));
    for &(x, y) in &reached {
        let state = game.cell(PlaceI32 { x, y }).state;
        if (x, y) == (fx, fy) {
            assert_eq!(state, CellState::Flagged);
        } else {
            assert_eq!(state, CellState::Revealed);
        }
    }
}
