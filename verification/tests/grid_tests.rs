use infinite_minesweeper::grid::cell::{Cell, CellState, CellValue};
use infinite_minesweeper::grid::cell_builder::CellBuilder;
use infinite_minesweeper::grid::tile::{Quadrant, Subtiles, Tile, MAX_RADIUS};
use infinite_minesweeper::grid::Grid;
use infinite_minesweeper::helper::PlaceI32;

fn spot(x: i32, y: i32) -> PlaceI32 {
    PlaceI32 { x, y }
}

fn sample_builder() -> CellBuilder {
    CellBuilder {
        mine_concentration: CellBuilder::concentration_of(0.3f64.to_bits()),
        seed: 2024,
        origin: spot(17, -4),
    }
}

fn is_nothing(tile: &Tile) -> bool {
    matches!(tile, Tile::Nothing)
}

fn node(tile: &Tile) -> &Subtiles {
    match tile {
        Tile::Subtiles(node) => node,
        _ => panic!("a node was expected"),
    }
}

fn count_cells(tile: &Tile) -> usize {
    match tile {
        Tile::Nothing => 0,
        Tile::Cell(_) => 1,
        Tile::Subtiles(node) => count_in(node),
    }
}

fn count_in(node: &Subtiles) -> usize {
    count_cells(&node.bottom_left)
        + count_cells(&node.bottom_right)
        + count_cells(&node.top_left)
        + count_cells(&node.top_right)
}

fn empty_nodes_below(tile: &Tile) -> usize {
    match tile {
        Tile::Subtiles(node) => {
            let here = if count_in(node) == 0 { 1 } else { 0 };
            here + empty_nodes_below(&node.bottom_left)
                + empty_nodes_below(&node.bottom_right)
                + empty_nodes_below(&node.top_left)
                + empty_nodes_below(&node.top_right)
        }
        _ => 0,
    }
}

#[test]
fn a_new_root_is_empty() {
    let root = Tile::new(1, sample_builder());
    assert_eq!(root.radius, 1);
    assert_eq!(root.origin, spot(0, 0));
    assert!(root.is_bare());
    assert_eq!(root.builder, sample_builder());
    assert_eq!((root.left(), root.right(), root.bottom(), root.top()), (-1, 1, -1, 1));
}

#[test]
fn quadrants_are_half_open_about_the_origin() {
    let mut root = Tile::new(1, sample_builder());
    root.expand();
    root.expand();
    assert_eq!(root.radius, 4);
    assert_eq!(root.quadrant(spot(-1, -1)), Quadrant::BottomLeft);
    assert_eq!(root.quadrant(spot(-4, -4)), Quadrant::BottomLeft);
    assert_eq!(root.quadrant(spot(0, -1)), Quadrant::BottomRight);
    assert_eq!(root.quadrant(spot(3, -4)), Quadrant::BottomRight);
    assert_eq!(root.quadrant(spot(-1, 0)), Quadrant::TopLeft);
    assert_eq!(root.quadrant(spot(-4, 3)), Quadrant::TopLeft);
    assert_eq!(root.quadrant(spot(0, 0)), Quadrant::TopRight);
    assert_eq!(root.quadrant(spot(3, 3)), Quadrant::TopRight);
}

#[test]
fn a_root_of_radius_one_holds_four_cells() {
    let builder = sample_builder();
    let mut root = Tile::new(1, builder);
    for &(x, y) in &[(-1, -1), (0, -1), (-1, 0), (0, 0)] {
        assert_eq!(*root.get(spot(x, y)), builder.cell(spot(x, y)));
    }
    assert!(matches!(root.bottom_left, Tile::Cell(_)));
    assert!(matches!(root.bottom_right, Tile::Cell(_)));
    assert!(matches!(root.top_left, Tile::Cell(_)));
    assert!(matches!(root.top_right, Tile::Cell(_)));
}

#[test]
fn add_makes_the_cell_and_the_nodes_above_it() {
    let builder = sample_builder();
    let mut root = Tile::new(1, builder);
    root.expand();
    root.expand();
    root.add(spot(-3, 2));
    let quadrant = node(&root.top_left);
    assert_eq!((quadrant.radius, quadrant.origin), (2, spot(-2, 2)));
    let inner = node(&quadrant.top_left);
    assert_eq!((inner.radius, inner.origin), (1, spot(-3, 3)));
    match inner.bottom_right {
        Tile::Cell(cell) => assert_eq!(cell, builder.cell(spot(-3, 2))),
        _ => panic!("a cell was expected"),
    }
    assert!(is_nothing(&inner.bottom_left) && is_nothing(&inner.top_left) && is_nothing(&inner.top_right));
    assert_eq!(count_in(&root), 1);
}

#[test]
fn make_tile_puts_a_child_at_the_centre_of_the_quadrant() {
    let mut root = Tile::new(1, sample_builder());
    root.expand();
    root.expand();
    root.expand();
    assert_eq!(root.radius, 8);
    let quadrant = match &mut root.bottom_right {
        Tile::Subtiles(node) => node,
        _ => panic!("a node was expected"),
    };
    assert!(quadrant.is_vacant(Quadrant::BottomRight));
    quadrant.make_tile(Quadrant::BottomRight);
    assert!(!quadrant.is_vacant(Quadrant::BottomRight));
    let child = node(&quadrant.bottom_right);
    assert_eq!((child.radius, child.origin), (2, spot(6, -6)));
    assert!(child.is_bare());
}

#[test]
fn expanding_an_empty_root_leaves_four_empty_quadrants() {
    let mut root = Tile::new(1, sample_builder());
    root.expand();
    assert_eq!(root.radius, 2);
    assert_eq!(root.origin, spot(0, 0));
    let corners = [
        (&root.bottom_left, spot(-1, -1)),
        (&root.bottom_right, spot(1, -1)),
        (&root.top_left, spot(-1, 1)),
        (&root.top_right, spot(1, 1)),
    ];
    for (tile, origin) in corners {
        let quadrant = node(tile);
        assert_eq!((quadrant.radius, quadrant.origin), (1, origin));
        assert!(quadrant.is_bare());
    }
}

#[test]
fn expanding_twice_drops_the_empty_quadrants() {
    let mut root = Tile::new(1, sample_builder());
    root.expand();
    root.expand();
    assert_eq!(root.radius, 4);
    for tile in [&root.bottom_left, &root.bottom_right, &root.top_left, &root.top_right] {
        assert!(node(tile).is_bare());
    }
}

#[test]
fn expanding_moves_each_quadrant_to_the_innermost_corner() {
    let builder = sample_builder();
    let mut root = Tile::new(1, builder);
    let _ = root.get(spot(-1, -1));
    let _ = root.get(spot(0, 0));
    root.expand();
    let bottom_left = node(&root.bottom_left);
    assert!(matches!(bottom_left.top_right, Tile::Cell(_)));
    assert!(is_nothing(&bottom_left.bottom_left));
    assert!(node(&root.bottom_right).is_bare());
    assert!(node(&root.top_left).is_bare());
    let top_right = node(&root.top_right);
    assert!(matches!(top_right.bottom_left, Tile::Cell(_)));
    root.expand();
    assert!(is_nothing(&node(&root.bottom_right).top_left));
    assert!(is_nothing(&node(&root.top_left).bottom_right));
    let kept = node(&node(&root.bottom_left).top_right);
    assert_eq!((kept.radius, kept.origin), (1, spot(-1, -1)));
    assert!(matches!(kept.top_right, Tile::Cell(_)));
    assert_eq!(count_in(&root), 2);
    assert_eq!(*root.get(spot(-1, -1)), builder.cell(spot(-1, -1)));
    assert_eq!(*root.get(spot(0, 0)), builder.cell(spot(0, 0)));
}

#[test]
fn or_none_drops_only_a_node_without_quadrants() {
    let builder = sample_builder();
    assert!(is_nothing(&Tile::Nothing.or_none()));
    assert!(is_nothing(&Tile::Subtiles(Box::new(Tile::new(4, builder))).or_none()));
    let cell = Cell::new(CellValue::Mine);
    assert!(matches!(Tile::Cell(cell).or_none(), Tile::Cell(kept) if kept == cell));
    let mut filled = Tile::new(1, builder);
    let _ = filled.get(spot(0, 0));
    assert!(matches!(Tile::Subtiles(Box::new(filled)).or_none(), Tile::Subtiles(_)));
}

#[test]
fn below_the_roots_quadrants_no_node_is_empty() {
    let builder = sample_builder();
    let mut root = Tile::new(1, builder);
    let visits = [(0, 0), (5, 5), (-9, 3), (100, -100), (-1, -1), (63, 63), (-64, -64), (2, -31)];
    for &(x, y) in &visits {
        while spot(x, y).radius() > root.radius {
            root.expand();
        }
        let _ = root.get(spot(x, y));
        for tile in [&root.bottom_left, &root.bottom_right, &root.top_left, &root.top_right] {
            if let Tile::Subtiles(quadrant) = tile {
                for inner in [
                    &quadrant.bottom_left,
                    &quadrant.bottom_right,
                    &quadrant.top_left,
                    &quadrant.top_right,
                ] {
                    assert_eq!(empty_nodes_below(inner), 0);
                }
            }
        }
    }
    assert_eq!(count_in(&root), visits.len());
}

#[test]
fn a_new_grid_gives_what_the_builder_makes() {
    let builder = sample_builder();
    let mut grid = Grid::new(builder);
    for x in -12..12 {
        for y in -12..12 {
            assert_eq!(*grid.get(spot(x, y)), builder.cell(spot(x, y)));
        }
    }
}

#[test]
fn a_change_through_get_mut_stays() {
    let builder = sample_builder();
    let mut grid = Grid::new(builder);
    grid.get_mut(spot(3, 4)).flag();
    grid.get_mut(spot(-3, 4)).uncover();
    assert_eq!(grid.get(spot(3, 4)).state, CellState::Flagged);
    assert_eq!(grid.get(spot(-3, 4)).state, CellState::Revealed);
    assert_eq!(grid.get(spot(3, -4)).state, CellState::Hidden);
    grid.get_mut(spot(3, 4)).unflag();
    assert_eq!(*grid.get(spot(3, 4)), builder.cell(spot(3, 4)));
}

#[test]
fn get_mut_hands_out_the_cell_that_is_there() {
    let builder = sample_builder();
    let mut grid = Grid::new(builder);
    {
        let cell = grid.get_mut(spot(40, -40));
        assert_eq!(*cell, builder.cell(spot(40, -40)));
        cell.flag();
    }
    let cell = grid.get_mut(spot(40, -40));
    assert_eq!(cell.state, CellState::Flagged);
    assert_eq!(cell.value, builder.cell(spot(40, -40)).value);
}

#[test]
fn cells_keep_their_place_while_the_tree_grows() {
    let builder = sample_builder();
    let mut grid = Grid::new(builder);
    let mut visited: Vec<(PlaceI32, CellState)> = Vec::new();
    let mut step: i64 = 1;
    for round in 0..200i64 {
        step = (step * 6364136223846793005i64.wrapping_rem(1 << 20) + 1442695040888963407i64.wrapping_rem(1 << 20))
            .rem_euclid(1 << 20);
        let reach = 1i64 << (1 + round % 29);
        let x = ((step * 7919) % (2 * reach) - reach) as i32;
        let y = ((step * 104729) % (2 * reach) - reach) as i32;
        let at = spot(x, y);
        let state = match round % 3 {
            0 => CellState::Hidden,
            1 => CellState::Flagged,
            _ => CellState::Revealed,
        };
        if visited.iter().any(|&(seen, _)| seen == at) {
            continue;
        }
        {
            let cell = grid.get_mut(at);
            assert_eq!(*cell, builder.cell(at));
            match state {
                CellState::Flagged => cell.flag(),
                CellState::Revealed => cell.uncover(),
                CellState::Hidden => (),
            }
        }
        visited.push((at, state));
        for &(seen, kept) in &visited {
            let cell = *grid.get(seen);
            assert_eq!(cell.state, kept);
            assert_eq!(cell.value, builder.cell(seen).value);
        }
    }
    assert!(visited.len() > 150);
}

#[test]
fn the_corners_of_the_board_can_be_reached() {
    let builder = sample_builder();
    let mut grid = Grid::new(builder);
    grid.get_mut(spot(0, 0)).uncover();
    let low = spot(-MAX_RADIUS, -MAX_RADIUS);
    let high = spot(MAX_RADIUS - 1, MAX_RADIUS - 1);
    assert_eq!(*grid.get(low), builder.cell(low));
    assert_eq!(*grid.get(high), builder.cell(high));
    grid.get_mut(high).flag();
    assert_eq!(grid.get(high).state, CellState::Flagged);
    assert_eq!(grid.get(low).state, CellState::Hidden);
    assert_eq!(grid.get(spot(0, 0)).state, CellState::Revealed);
}

#[test]
fn a_visit_in_any_order_finds_the_same_cells() {
    let builder = sample_builder();
    let places: Vec<PlaceI32> = (-6..6).flat_map(|x| (-6..6).map(move |y| spot(x * 1000, y * 3))).collect();
    let mut forward = Grid::new(builder);
    let mut backward = Grid::new(builder);
    let first: Vec<Cell> = places.iter().map(|&p| *forward.get(p)).collect();
    let mut second: Vec<Cell> = places.iter().rev().map(|&p| *backward.get(p)).collect();
    second.reverse();
    assert_eq!(first, second);
}
