use infinite_minesweeper::fatal::Fatal;
use infinite_minesweeper::grid::cell::{Cell, CellState, CellValue};

#[test]
fn a_new_cell_is_hidden() {
    assert_eq!(Cell::new(CellValue::Mine), Cell { value: CellValue::Mine, state: CellState::Hidden });
    assert_eq!(Cell::new(CellValue::Empty), Cell { value: CellValue::Empty, state: CellState::Hidden });
}

#[test]
fn uncover_reveals_a_hidden_cell() {
    let mut cell = Cell::new(CellValue::Empty);
    cell.uncover();
    assert_eq!(cell, Cell { value: CellValue::Empty, state: CellState::Revealed });
}

#[test]
fn uncover_leaves_a_flagged_cell_flagged() {
    let mut cell = Cell::new(CellValue::Mine);
    cell.flag();
    cell.uncover();
    assert_eq!(cell, Cell { value: CellValue::Mine, state: CellState::Flagged });
}

#[test]
fn uncover_leaves_a_revealed_cell_revealed() {
    let mut cell = Cell::new(CellValue::Mine);
    cell.uncover();
    cell.uncover();
    assert_eq!(cell.state, CellState::Revealed);
}

#[test]
fn flag_marks_a_hidden_cell() {
    let mut cell = Cell::new(CellValue::Empty);
    cell.flag();
    assert_eq!(cell, Cell { value: CellValue::Empty, state: CellState::Flagged });
    cell.flag();
    assert_eq!(cell.state, CellState::Flagged);
}

#[test]
fn flag_leaves_a_revealed_cell_revealed() {
    let mut cell = Cell::new(CellValue::Empty);
    cell.uncover();
    cell.flag();
    assert_eq!(cell.state, CellState::Revealed);
}

#[test]
fn unflag_hides_a_flagged_cell() {
    let mut cell = Cell::new(CellValue::Mine);
    cell.flag();
    cell.unflag();
    assert_eq!(cell, Cell { value: CellValue::Mine, state: CellState::Hidden });
}

#[test]
fn unflag_leaves_other_cells_alone() {
    let mut hidden = Cell::new(CellValue::Empty);
    hidden.unflag();
    assert_eq!(hidden.state, CellState::Hidden);
    let mut revealed = Cell::new(CellValue::Empty);
    revealed.uncover();
    revealed.unflag();
    assert_eq!(revealed.state, CellState::Revealed);
}

#[test]
fn no_step_changes_what_a_cell_holds() {
    for value in [CellValue::Mine, CellValue::Empty] {
        let mut cell = Cell::new(value);
        cell.flag();
        assert_eq!(cell.value, value);
        cell.unflag();
        assert_eq!(cell.value, value);
        cell.uncover();
        assert_eq!(cell.value, value);
        cell.flag();
        cell.unflag();
        assert_eq!(cell.value, value);
    }
}

#[test]
fn each_failure_has_its_message() {
    assert_eq!(
        Fatal::CannotFindStart.message(),
        "cannot find valid start; mine concentration is too high"
    );
    assert_eq!(
        Fatal::TooManyClearCells.message(),
        "too many adjacent clear cells; mine concentration is too low"
    );
    assert_eq!(Fatal::NoEntropy.message(), "cannot draw a random seed");
}
