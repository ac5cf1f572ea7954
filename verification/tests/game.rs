use tetris::game::{score_for, Game, Outcome, SPAWN_COLUMN};
use tetris::grid::{Board, Cell, HEIGHT, WIDTH};
use tetris::input::Command;
use tetris::piece::Piece;

fn blank() -> [[Cell; WIDTH]; HEIGHT] {
    [[Cell::new(false, 0); WIDTH]; HEIGHT]
}

fn rows_of(board: &Board) -> [[Cell; WIDTH]; HEIGHT] {
    let mut rows = blank();
    for row in 0..HEIGHT {
        rows[row] = board.row(row);
    }
    rows
}

/// The cells that are active, row first, with their colours.
fn active_cells(board: &Board) -> Vec<(usize, usize, u8)> {
    let mut cells = Vec::new();
    for row in 0..HEIGHT {
        for col in 0..WIDTH {
            let cell = board.cell(row, col);
            if cell.active() {
                cells.push((row, col, cell.color()));
            }
        }
    }
    cells
}

/// Rows `from..HEIGHT` complete but for the columns of `gap`.
fn walls(from: usize, gap: &[usize]) -> [[Cell; WIDTH]; HEIGHT] {
    let mut rows = blank();
    for row in from..HEIGHT {
        for col in 0..WIDTH {
            if !gap.contains(&col) {
                rows[row][col] = Cell::new(true, 9);
            }
        }
    }
    rows
}

fn bar() -> Piece {
    Piece::new(vec![vec![true, true, true, true]], 1)
}

fn upright_bar() -> Piece {
    Piece::new(vec![vec![true], vec![true], vec![true], vec![true]], 1)
}

fn square() -> Piece {
    Piece::new(vec![vec![true, true], vec![true, true]], 3)
}

fn tee() -> Piece {
    Piece::new(vec![vec![false, true, false], vec![true, true, true]], 2)
}

fn place(game: &Game) -> (usize, usize) {
    let active = game.active().unwrap();
    (active.x(), active.y())
}

/// Ticks without a command until the piece has come to rest.
fn settle(game: &mut Game) -> Outcome {
    loop {
        assert!(game.can_tick());
        let outcome = game.tick(Command::Idle);
        if outcome != Outcome::Falling {
            return outcome;
        }
    }
}

#[test]
fn the_scoring_table() {
    assert_eq!(score_for(0), 0);
    assert_eq!(score_for(1), 40);
    assert_eq!(score_for(2), 100);
    assert_eq!(score_for(3), 300);
    assert_eq!(score_for(4), 1200);
    assert_eq!(score_for(5), 1200);
    assert_eq!(score_for(20), 1200);
    assert_eq!(score_for(u32::MAX), 1200);
}

#[test]
fn a_new_game_is_empty() {
    let game = Game::new();
    assert_eq!(rows_of(game.board()), blank());
    assert_eq!(game.score(), 0);
    assert!(!game.is_over());
    assert!(game.active().is_none());
    assert!(!game.awaits_input());
    assert!(!game.can_tick());
    assert!(game.can_spawn(&bar()));
}

#[test]
fn a_resumed_game_keeps_board_and_score() {
    let rows = walls(15, &[3]);
    let game = Game::resume(Board::from_rows(rows), 740);
    assert_eq!(rows_of(game.board()), rows);
    assert_eq!(game.score(), 740);
    assert!(!game.is_over());
    assert!(game.active().is_none());
}

#[test]
fn a_piece_enters_at_the_spawn_column_in_the_top_row() {
    assert_eq!(SPAWN_COLUMN, 4);
    let mut game = Game::new();
    game.spawn(tee());
    let active = game.active().unwrap();
    assert_eq!((active.x(), active.y()), (4, 0));
    assert_eq!(active.piece().blocks(), tee().blocks());
    assert_eq!(active.piece().color(), 2);
    assert!(!active.fast_drop());
    assert!(game.awaits_input());
    assert!(game.can_tick());
    assert!(!game.can_spawn(&bar()));
    // it is not drawn before the first tick
    assert_eq!(rows_of(game.board()), blank());
}

#[test]
fn a_piece_that_is_too_large_may_not_enter() {
    let game = Game::new();
    assert!(game.can_spawn(&Piece::new(vec![vec![true; 10]; 10], 1)));
    assert!(!game.can_spawn(&Piece::new(vec![vec![true; 11]], 1)));
    assert!(!game.can_spawn(&Piece::new(vec![vec![true]; 11], 1)));
}

#[test]
fn a_tick_draws_the_piece_and_lets_it_fall() {
    let mut game = Game::new();
    game.spawn(tee());
    assert_eq!(game.tick(Command::Idle), Outcome::Falling);
    assert_eq!(active_cells(game.board()), vec![(0, 5, 2), (1, 4, 2), (1, 5, 2), (1, 6, 2)]);
    assert_eq!(place(&game), (4, 1));
    assert_eq!(game.tick(Command::Idle), Outcome::Falling);
    assert_eq!(active_cells(game.board()), vec![(1, 5, 2), (2, 4, 2), (2, 5, 2), (2, 6, 2)]);
    assert_eq!(place(&game), (4, 2));
    assert_eq!(game.score(), 0);
}

#[test]
fn left_shifts_stop_at_column_zero() {
    let mut game = Game::new();
    game.spawn(tee());
    for expected in [3, 2, 1, 0, 0, 0] {
        assert_eq!(game.tick(Command::Left), Outcome::Falling);
        assert_eq!(game.active().unwrap().x(), expected);
    }
    assert_eq!(place(&game), (0, 6));
    assert_eq!(active_cells(game.board()), vec![(5, 1, 2), (6, 0, 2), (6, 1, 2), (6, 2, 2)]);
}

#[test]
fn right_shifts_stop_at_the_right_wall() {
    let mut game = Game::new();
    game.spawn(tee());
    for expected in [5, 6, 7, 7, 7] {
        assert_eq!(game.tick(Command::Right), Outcome::Falling);
        assert_eq!(game.active().unwrap().x(), expected);
    }
    assert_eq!(place(&game), (7, 5));
    assert_eq!(active_cells(game.board()), vec![(4, 8, 2), (5, 7, 2), (5, 8, 2), (5, 9, 2)]);
}

#[test]
fn a_turn_changes_the_matrix_in_flight() {
    let mut game = Game::new();
    game.spawn(tee());
    assert_eq!(game.tick(Command::Rotate), Outcome::Falling);
    let turned = vec![vec![true, false], vec![true, true], vec![true, false]];
    assert_eq!(game.active().unwrap().piece().blocks(), &turned);
    assert_eq!(place(&game), (4, 1));
    assert_eq!(active_cells(game.board()), vec![(0, 4, 2), (1, 4, 2), (1, 5, 2), (2, 4, 2)]);
}

#[test]
fn a_turn_at_the_right_wall_is_clamped() {
    let mut game = Game::new();
    game.spawn(upright_bar());
    for _ in 0..5 {
        game.tick(Command::Right);
    }
    assert_eq!(place(&game), (9, 5));
    assert_eq!(game.tick(Command::Rotate), Outcome::Falling);
    assert_eq!(game.active().unwrap().piece().blocks(), bar().blocks());
    assert_eq!(place(&game), (6, 6));
    assert_eq!(active_cells(game.board()), vec![(5, 6, 1), (5, 7, 1), (5, 8, 1), (5, 9, 1)]);
}

#[test]
fn a_blocked_turn_leaves_the_piece_as_it_was() {
    // in its second tick the turned tee would fill row 3 of column 4
    let mut rows = blank();
    rows[3][4] = Cell::new(true, 9);
    let mut game = Game::resume(Board::from_rows(rows), 0);
    game.spawn(tee());
    assert_eq!(game.tick(Command::Idle), Outcome::Falling);
    assert_eq!(game.tick(Command::Rotate), Outcome::Locked { lines: 0 });
    // drawn unturned; it came to rest on the block
    assert_eq!(
        active_cells(game.board()),
        vec![(1, 5, 2), (2, 4, 2), (2, 5, 2), (2, 6, 2), (3, 4, 9)]
    );
}

#[test]
fn a_turn_beside_a_block_is_made() {
    // row 3 of column 5 lies under an empty sub-cell of the turned tee
    let mut rows = blank();
    rows[3][5] = Cell::new(true, 9);
    let mut game = Game::resume(Board::from_rows(rows), 0);
    game.spawn(tee());
    assert_eq!(game.tick(Command::Idle), Outcome::Falling);
    assert_eq!(game.tick(Command::Rotate), Outcome::Locked { lines: 0 });
    assert_eq!(
        active_cells(game.board()),
        vec![(1, 4, 2), (2, 4, 2), (2, 5, 2), (3, 4, 2), (3, 5, 9)]
    );
}

#[test]
fn a_piece_does_not_block_its_own_turn() {
    let mut game = Game::new();
    game.spawn(tee());
    game.tick(Command::Idle);
    // the piece stands drawn in rows 0 and 1, where the turned piece will be
    assert_eq!(game.tick(Command::Rotate), Outcome::Falling);
    assert_eq!(
        game.active().unwrap().piece().blocks(),
        &vec![vec![true, false], vec![true, true], vec![true, false]]
    );
    assert_eq!(active_cells(game.board()), vec![(1, 4, 2), (2, 4, 2), (2, 5, 2), (3, 4, 2)]);
}

#[test]
fn a_dropping_piece_takes_no_command() {
    let mut game = Game::new();
    game.spawn(tee());
    assert_eq!(game.tick(Command::Drop), Outcome::Falling);
    assert!(game.active().unwrap().fast_drop());
    assert!(!game.awaits_input());
    assert_eq!(game.tick(Command::Left), Outcome::Falling);
    assert_eq!(game.tick(Command::Right), Outcome::Falling);
    assert_eq!(game.tick(Command::Rotate), Outcome::Falling);
    assert_eq!(place(&game), (4, 4));
    assert_eq!(game.active().unwrap().piece().blocks(), tee().blocks());
    assert_eq!(active_cells(game.board()), vec![(3, 5, 2), (4, 4, 2), (4, 5, 2), (4, 6, 2)]);
}

#[test]
fn a_dropped_bar_comes_to_rest_on_the_floor() {
    let mut game = Game::new();
    game.spawn(bar());
    assert_eq!(game.tick(Command::Drop), Outcome::Falling);
    for fallen in 1..19 {
        assert_eq!(place(&game), (4, fallen));
        assert!(!game.awaits_input());
        assert_eq!(game.tick(Command::Idle), Outcome::Falling);
        let drawn: Vec<_> = (4..8).map(|col| (fallen, col, 1)).collect();
        assert_eq!(active_cells(game.board()), drawn);
    }
    // the bar has reached the bottom row; the next tick locks it
    assert_eq!(place(&game), (4, 19));
    assert_eq!(game.tick(Command::Idle), Outcome::Locked { lines: 0 });
    assert_eq!(
        active_cells(game.board()),
        vec![(19, 4, 1), (19, 5, 1), (19, 6, 1), (19, 7, 1)]
    );
    assert_eq!(game.score(), 0);
    assert!(!game.is_over());
    assert!(game.active().is_none());
    assert!(!game.can_tick());
    assert!(game.can_spawn(&bar()));
}

#[test]
fn a_piece_comes_to_rest_on_another() {
    let mut game = Game::new();
    game.spawn(square());
    assert_eq!(settle(&mut game), Outcome::Locked { lines: 0 });
    game.spawn(tee());
    assert_eq!(settle(&mut game), Outcome::Locked { lines: 0 });
    assert_eq!(
        active_cells(game.board()),
        vec![
            (16, 5, 2),
            (17, 4, 2),
            (17, 5, 2),
            (17, 6, 2),
            (18, 4, 3),
            (18, 5, 3),
            (19, 4, 3),
            (19, 5, 3)
        ]
    );
    assert_eq!(game.score(), 0);
}

#[test]
fn one_cleared_row_scores_forty() {
    let mut game = Game::resume(Board::from_rows(walls(19, &[4, 5, 6, 7])), 10);
    game.spawn(bar());
    assert_eq!(settle(&mut game), Outcome::Locked { lines: 1 });
    assert_eq!(game.score(), 50);
    assert_eq!(active_cells(game.board()), vec![]);
}

#[test]
fn two_cleared_rows_score_a_hundred() {
    let mut game = Game::resume(Board::from_rows(walls(18, &[4, 5])), 0);
    game.spawn(square());
    assert_eq!(settle(&mut game), Outcome::Locked { lines: 2 });
    assert_eq!(game.score(), 100);
    assert_eq!(active_cells(game.board()), vec![]);
}

#[test]
fn three_cleared_rows_score_three_hundred() {
    let mut game = Game::resume(Board::from_rows(walls(17, &[4])), 5);
    game.spawn(upright_bar());
    assert_eq!(settle(&mut game), Outcome::Locked { lines: 3 });
    assert_eq!(game.score(), 305);
    // the top of the bar is left and has sunk to the floor
    assert_eq!(active_cells(game.board()), vec![(19, 4, 1)]);
}

#[test]
fn four_cleared_rows_score_twelve_hundred() {
    let mut game = Game::resume(Board::from_rows(walls(16, &[4])), 0);
    game.spawn(upright_bar());
    assert_eq!(settle(&mut game), Outcome::Locked { lines: 4 });
    assert_eq!(game.score(), 1200);
    assert_eq!(active_cells(game.board()), vec![]);
}

#[test]
fn the_score_adds_up_over_several_locks() {
    let mut game = Game::resume(Board::from_rows(walls(18, &[4, 5])), 0);
    game.spawn(square());
    assert_eq!(settle(&mut game), Outcome::Locked { lines: 2 });
    game.spawn(square());
    assert_eq!(settle(&mut game), Outcome::Locked { lines: 0 });
    assert_eq!(game.score(), 100);
}

#[test]
fn a_piece_blocked_in_the_top_row_ends_the_game() {
    let mut rows = blank();
    rows[2][4] = Cell::new(true, 9);
    let mut game = Game::resume(Board::from_rows(rows), 77);
    game.spawn(square());
    assert_eq!(game.tick(Command::Idle), Outcome::GameOver { lines: 0 });
    assert!(game.is_over());
    assert!(game.active().is_none());
    assert!(!game.can_tick());
    assert!(!game.can_spawn(&square()));
    assert!(!game.awaits_input());
    assert_eq!(game.score(), 77);
    // the piece was drawn where it entered and did not fall
    assert_eq!(
        active_cells(game.board()),
        vec![(0, 4, 3), (0, 5, 3), (1, 4, 3), (1, 5, 3), (2, 4, 9)]
    );
}

#[test]
fn a_piece_that_enters_onto_a_block_ends_the_game() {
    let mut rows = blank();
    rows[1][7] = Cell::new(true, 9);
    let mut game = Game::resume(Board::from_rows(rows), 0);
    game.spawn(bar());
    assert_eq!(game.tick(Command::Drop), Outcome::GameOver { lines: 0 });
    assert!(game.is_over());
}

#[test]
fn a_command_can_save_a_blocked_piece() {
    let mut rows = blank();
    rows[2][4] = Cell::new(true, 9);
    let mut game = Game::resume(Board::from_rows(rows), 0);
    game.spawn(square());
    assert_eq!(game.tick(Command::Right), Outcome::Falling);
    assert!(!game.is_over());
    assert_eq!(place(&game), (5, 1));
}

#[test]
fn a_lock_below_the_top_row_does_not_end_the_game() {
    let mut rows = blank();
    rows[3][4] = Cell::new(true, 9);
    let mut game = Game::resume(Board::from_rows(rows), 0);
    game.spawn(square());
    assert_eq!(game.tick(Command::Idle), Outcome::Falling);
    assert_eq!(game.tick(Command::Idle), Outcome::Locked { lines: 0 });
    assert!(!game.is_over());
    assert!(game.can_spawn(&square()));
}

#[test]
fn rows_cleared_in_the_last_tick_are_still_scored() {
    // the bar completes row 0 and stands on row 1
    let mut rows = blank();
    for col in 0..WIDTH {
        rows[1][col] = Cell::new(true, 9);
        rows[0][col] = Cell::new(!(4..8).contains(&col), 9);
    }
    rows[1][0] = Cell::new(false, 9);
    let mut game = Game::resume(Board::from_rows(rows), 0);
    game.spawn(bar());
    assert_eq!(game.tick(Command::Idle), Outcome::GameOver { lines: 1 });
    assert_eq!(game.score(), 40);
    assert!(game.is_over());
    let after = rows_of(game.board());
    assert_eq!(after[0], [Cell::new(false, 9), Cell::new(false, 9), Cell::new(false, 9),
        Cell::new(false, 9), Cell::new(false, 1), Cell::new(false, 1), Cell::new(false, 1),
        Cell::new(false, 1), Cell::new(false, 9), Cell::new(false, 9)]);
    assert_eq!(after[1], rows[1]);
}

#[test]
fn a_shift_into_a_landed_block_is_not_refused() {
    // a block stands beside the falling square, in the column to its left
    let mut rows = blank();
    rows[3][3] = Cell::new(true, 9);
    let mut game = Game::resume(Board::from_rows(rows), 0);
    game.spawn(square());
    for _ in 0..3 {
        assert_eq!(game.tick(Command::Idle), Outcome::Falling);
    }
    assert_eq!(place(&game), (4, 3));
    // only the walls stop a shift: the square moves onto the block
    assert_eq!(game.tick(Command::Left), Outcome::Falling);
    assert_eq!(place(&game), (3, 4));
    assert_eq!(
        active_cells(game.board()),
        vec![(3, 3, 3), (3, 4, 3), (4, 3, 3), (4, 4, 3)]
    );
    // and takes the block with it when it falls on
    assert_eq!(game.tick(Command::Idle), Outcome::Falling);
    assert_eq!(
        active_cells(game.board()),
        vec![(4, 3, 3), (4, 4, 3), (5, 3, 3), (5, 4, 3)]
    );
}

#[test]
fn a_turn_that_would_pass_the_floor_is_refused() {
    let mut game = Game::new();
    game.spawn(bar());
    for _ in 0..18 {
        assert_eq!(game.tick(Command::Idle), Outcome::Falling);
    }
    assert_eq!(place(&game), (4, 18));
    // upright the bar would reach from row 18 to row 21; row 19 is the floor
    assert_eq!(game.tick(Command::Rotate), Outcome::Falling);
    assert_eq!(game.active().unwrap().piece().blocks(), bar().blocks());
    assert_eq!(
        active_cells(game.board()),
        vec![(18, 4, 1), (18, 5, 1), (18, 6, 1), (18, 7, 1)]
    );
    assert_eq!(game.tick(Command::Rotate), Outcome::Locked { lines: 0 });
    assert_eq!(
        active_cells(game.board()),
        vec![(19, 4, 1), (19, 5, 1), (19, 6, 1), (19, 7, 1)]
    );
}

#[test]
fn a_turn_just_above_the_floor_is_made() {
    let mut game = Game::new();
    game.spawn(bar());
    for _ in 0..16 {
        assert_eq!(game.tick(Command::Idle), Outcome::Falling);
    }
    assert_eq!(place(&game), (4, 16));
    // upright the bar reaches from row 16 to the bottom row
    assert_eq!(game.tick(Command::Rotate), Outcome::Locked { lines: 0 });
    assert_eq!(
        active_cells(game.board()),
        vec![(16, 4, 1), (17, 4, 1), (18, 4, 1), (19, 4, 1)]
    );
}

#[test]
fn a_tick_is_not_taken_without_a_piece() {
    let mut game = Game::resume(Board::from_rows(walls(18, &[4, 5])), 12);
    assert_eq!(game.try_tick(Command::Left), None);
    assert_eq!(rows_of(game.board()), walls(18, &[4, 5]));
    assert_eq!(game.score(), 12);
    assert!(game.active().is_none());
    assert!(!game.is_over());
}

#[test]
fn a_tick_is_taken_as_long_as_the_score_can_be_counted() {
    // one row will be cleared: 40 points
    let mut game = Game::resume(Board::from_rows(walls(19, &[4, 5, 6, 7])), u32::MAX - 40);
    game.spawn(bar());
    assert!(!game.can_tick());
    for fallen in 0..19 {
        assert_eq!(game.try_tick(Command::Idle), Some(Outcome::Falling));
        assert_eq!(place(&game), (4, fallen + 1));
    }
    assert_eq!(game.try_tick(Command::Idle), Some(Outcome::Locked { lines: 1 }));
    assert_eq!(game.score(), u32::MAX);
    // a lock that clears nothing is still taken
    game.spawn(bar());
    loop {
        match game.try_tick(Command::Idle) {
            Some(Outcome::Falling) => {}
            outcome => {
                assert_eq!(outcome, Some(Outcome::Locked { lines: 0 }));
                break;
            }
        }
    }
    assert_eq!(game.score(), u32::MAX);
}

#[test]
fn a_tick_that_the_score_cannot_count_leaves_the_game_as_it_was() {
    let mut game = Game::resume(Board::from_rows(walls(19, &[4, 5, 6, 7])), u32::MAX - 39);
    game.spawn(bar());
    for _ in 0..19 {
        assert_eq!(game.try_tick(Command::Idle), Some(Outcome::Falling));
    }
    let before = rows_of(game.board());
    // the lock would clear a row and pass the last number
    assert_eq!(game.try_tick(Command::Idle), None);
    assert_eq!(rows_of(game.board()), before);
    assert_eq!(game.score(), u32::MAX - 39);
    assert_eq!(place(&game), (4, 19));
    assert!(!game.is_over());
    // a shift out of the gap clears nothing, and that tick is taken
    assert_eq!(game.try_tick(Command::Left), Some(Outcome::Locked { lines: 0 }));
    assert_eq!(game.score(), u32::MAX - 39);
}
