use tetris::grid::{Board, Cell, HEIGHT, WIDTH};
use tetris::render::render;

fn header(score: &str) -> String {
    format!("\x1B[2J\x1B[1;1H{}Score: {}\n", " ".repeat(26), score)
}

fn border() -> String {
    format!("{}\n", "\u{203e}".repeat(24))
}

#[test]
fn an_empty_board_is_drawn_blank() {
    let mut expected = header("0");
    for _ in 0..20 {
        expected.push_str("||                    ||\n");
    }
    expected.push_str(&border());
    assert_eq!(render(&Board::new(), 0), expected);
}

#[test]
fn the_frame_has_a_header_twenty_rows_and_a_border() {
    let frame = render(&Board::new(), 40);
    let lines: Vec<&str> = frame.split('\n').collect();
    assert_eq!(lines.len(), 23);
    assert_eq!(lines[0], "\x1B[2J\x1B[1;1H                          Score: 40");
    for row in 1..=20 {
        assert_eq!(lines[row].chars().count(), 2 + 2 * 10 + 2);
    }
    assert_eq!(lines[21], "\u{203e}".repeat(24));
    assert_eq!(lines[22], "");
}

#[test]
fn active_cells_are_drawn_in_their_color() {
    let mut rows = [[Cell::new(false, 0); WIDTH]; HEIGHT];
    rows[0][0] = Cell::new(true, 1);
    rows[0][9] = Cell::new(true, 7);
    rows[19][4] = Cell::new(true, 3);
    // an inactive cell is blank whatever its colour
    rows[19][5] = Cell::new(false, 3);
    let mut expected = header("300");
    expected.push_str("||\x1B[41m  \x1B[0m                \x1B[47m  \x1B[0m||\n");
    for _ in 1..19 {
        expected.push_str("||                    ||\n");
    }
    expected.push_str("||        \x1B[43m  \x1B[0m          ||\n");
    expected.push_str(&border());
    assert_eq!(render(&Board::from_rows(rows), 300), expected);
}

#[test]
fn numbers_are_written_in_decimal() {
    let blank = Board::new();
    for score in [0u32, 7, 10, 99, 100, 1200, 12345, 1000000, u32::MAX] {
        let frame = render(&blank, score);
        assert!(frame.starts_with(&header(&format!("{}", score))));
    }
    assert!(render(&blank, u32::MAX).starts_with(&header("4294967295")));
    let mut rows = [[Cell::new(false, 0); WIDTH]; HEIGHT];
    rows[0][0] = Cell::new(true, 0);
    rows[0][1] = Cell::new(true, 60);
    rows[0][2] = Cell::new(true, 255);
    let frame = render(&Board::from_rows(rows), 0);
    let first_row = frame.split('\n').nth(1).unwrap();
    assert_eq!(
        first_row,
        "||\x1B[40m  \x1B[0m\x1B[100m  \x1B[0m\x1B[295m  \x1B[0m              ||"
    );
}
