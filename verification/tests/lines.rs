use tetris::grid::{Board, Cell, HEIGHT, WIDTH};
use tetris::lines::{check_line_complete, remove_row, row_complete};

fn blank() -> [[Cell; WIDTH]; HEIGHT] {
    [[Cell::new(false, 0); WIDTH]; HEIGHT]
}

fn full_row(color: u8) -> [Cell; WIDTH] {
    [Cell::new(true, color); WIDTH]
}

/// A row that is not complete and tells its number by its colours.
fn marked_row(mark: u8) -> [Cell; WIDTH] {
    let mut row = [Cell::new(true, mark); WIDTH];
    row[(mark as usize) % WIDTH] = Cell::new(false, mark);
    row
}

fn rows_of(board: &Board) -> [[Cell; WIDTH]; HEIGHT] {
    let mut rows = blank();
    for row in 0..HEIGHT {
        rows[row] = board.row(row);
    }
    rows
}

#[test]
fn a_row_is_complete_when_all_ten_cells_are_active() {
    let mut rows = blank();
    rows[19] = full_row(1);
    rows[18] = full_row(1);
    rows[18][9] = Cell::new(false, 1);
    rows[17][0] = Cell::new(true, 1);
    let board = Board::from_rows(rows);
    assert!(row_complete(&board, 19));
    assert!(!row_complete(&board, 18));
    assert!(!row_complete(&board, 17));
    assert!(!row_complete(&board, 0));
}

#[test]
fn nothing_is_cleared_without_a_complete_row() {
    let mut rows = blank();
    for row in 0..HEIGHT {
        rows[row] = marked_row(row as u8 + 1);
    }
    let mut board = Board::from_rows(rows);
    assert_eq!(check_line_complete(&mut board), 0);
    assert_eq!(rows_of(&board), rows);
    let mut board = Board::new();
    assert_eq!(check_line_complete(&mut board), 0);
    assert_eq!(rows_of(&board), blank());
}

#[test]
fn one_complete_row_is_cleared() {
    let mut rows = blank();
    for row in 0..HEIGHT {
        rows[row] = marked_row(row as u8 + 1);
    }
    rows[12] = full_row(99);
    let mut board = Board::from_rows(rows);
    assert_eq!(check_line_complete(&mut board), 1);
    let after = rows_of(&board);
    // the top row is switched off and keeps the colours it had
    for col in 0..WIDTH {
        assert_eq!(after[0][col], Cell::new(false, 1));
    }
    // every row above the cleared one has moved down by exactly one
    for row in 1..=12 {
        assert_eq!(after[row], rows[row - 1]);
    }
    // the rows below it are as they were
    for row in 13..HEIGHT {
        assert_eq!(after[row], rows[row]);
    }
    // what the cleared row held is gone
    for row in 0..HEIGHT {
        assert_ne!(after[row], full_row(99));
    }
}

#[test]
fn the_bottom_row_is_cleared_on_an_otherwise_empty_board() {
    let mut rows = blank();
    rows[19] = full_row(4);
    rows[18][2] = Cell::new(true, 6);
    let mut board = Board::from_rows(rows);
    assert_eq!(check_line_complete(&mut board), 1);
    let mut expected = blank();
    expected[19][2] = Cell::new(true, 6);
    assert_eq!(rows_of(&board), expected);
}

#[test]
fn two_rows_that_are_not_adjacent_are_both_cleared() {
    let mut rows = blank();
    for row in 0..HEIGHT {
        rows[row] = marked_row(row as u8 + 1);
    }
    rows[19] = full_row(50);
    rows[16] = full_row(60);
    let mut board = Board::from_rows(rows);
    assert_eq!(check_line_complete(&mut board), 2);
    let after = rows_of(&board);
    let mut expected = blank();
    expected[0] = [Cell::new(false, 1); WIDTH];
    expected[1] = [Cell::new(false, 1); WIDTH];
    // rows 0..16 sink by two, rows 17 and 18 by one
    for row in 0..16 {
        expected[row + 2] = rows[row];
    }
    expected[18] = rows[17];
    expected[19] = rows[18];
    assert_eq!(after, expected);
}

#[test]
fn four_rows_in_a_block_are_cleared() {
    let mut rows = blank();
    for row in 10..16 {
        rows[row] = marked_row(row as u8);
    }
    for row in 16..HEIGHT {
        rows[row] = full_row(3);
    }
    let mut board = Board::from_rows(rows);
    assert_eq!(check_line_complete(&mut board), 4);
    let mut expected = blank();
    for row in 10..16 {
        expected[row + 4] = rows[row];
    }
    assert_eq!(rows_of(&board), expected);
}

#[test]
fn every_row_complete_leaves_an_empty_board() {
    let mut board = Board::from_rows([full_row(2); HEIGHT]);
    assert_eq!(check_line_complete(&mut board), 20);
    assert_eq!(rows_of(&board), [[Cell::new(false, 2); WIDTH]; HEIGHT]);
}

#[test]
fn a_complete_top_row_is_cleared_too() {
    let mut rows = blank();
    rows[0] = full_row(8);
    rows[1] = marked_row(5);
    let mut board = Board::from_rows(rows);
    assert_eq!(check_line_complete(&mut board), 1);
    let mut expected = rows;
    expected[0] = [Cell::new(false, 8); WIDTH];
    assert_eq!(rows_of(&board), expected);
}

#[test]
fn a_complete_top_row_and_another_are_both_cleared() {
    let mut rows = blank();
    rows[0] = full_row(8);
    rows[1] = marked_row(5);
    rows[2] = full_row(9);
    rows[3] = marked_row(6);
    let mut board = Board::from_rows(rows);
    assert_eq!(check_line_complete(&mut board), 2);
    let mut expected = blank();
    expected[0] = [Cell::new(false, 8); WIDTH];
    expected[1] = [Cell::new(false, 8); WIDTH];
    expected[2] = marked_row(5);
    expected[3] = marked_row(6);
    assert_eq!(rows_of(&board), expected);
}

#[test]
fn removing_a_row_shifts_the_rows_above_it() {
    let mut rows = blank();
    for row in 0..HEIGHT {
        rows[row] = marked_row(row as u8 + 1);
    }
    let mut board = Board::from_rows(rows);
    remove_row(&mut board, 5);
    let after = rows_of(&board);
    assert_eq!(after[0], {
        let mut top = rows[0];
        for cell in top.iter_mut() {
            cell.set_active(false);
        }
        top
    });
    for row in 1..=5 {
        assert_eq!(after[row], rows[row - 1]);
    }
    for row in 6..HEIGHT {
        assert_eq!(after[row], rows[row]);
    }
    // taking out the top row only switches it off
    let mut board = Board::from_rows(rows);
    remove_row(&mut board, 0);
    let after = rows_of(&board);
    assert_eq!(after[0], [Cell::new(false, 1); WIDTH]);
    for row in 1..HEIGHT {
        assert_eq!(after[row], rows[row]);
    }
}
