//! The text of one frame: the board and the score as they are shown on a
//! terminal.

use vstd::prelude::*;
use vstd::string::StringExecFns;
use crate::grid::{is_grid, Board, Cell, HEIGHT, WIDTH};

verus! {

/// The character of a decimal digit.
pub open spec fn digit(d: nat) -> char {
    if d == 0 {
        '0'
    } else if d == 1 {
        '1'
    } else if d == 2 {
        '2'
    } else if d == 3 {
        '3'
    } else if d == 4 {
        '4'
    } else if d == 5 {
        '5'
    } else if d == 6 {
        '6'
    } else if d == 7 {
        '7'
    } else if d == 8 {
        '8'
    } else {
        '9'
    }
}

/// The number in decimal digits, without leading zeros.
pub open spec fn decimal(n: nat) -> Seq<char>
    decreases n,
{
    if n < 10 {
        seq![digit(n)]
    } else {
        decimal(n / 10).push(digit(n % 10))
    }
}

/// The text `times` times in a row.
pub open spec fn repeated(text: Seq<char>, times: nat) -> Seq<char>
    decreases times,
{
    if times == 0 {
        Seq::empty()
    } else {
        repeated(text, (times - 1) as nat) + text
    }
}

/// One cell: two blanks, on a background of the cell's colour if the cell
/// is active. The background is the terminal colour 40 plus the tag.
pub open spec fn cell_text(cell: Cell) -> Seq<char> {
    if cell.active {
        "\x1B["@ + decimal(40 + cell.color as nat) + "m  \x1B[0m"@
    } else {
        "  "@
    }
}

/// The first `n` cells of a row, one after the other.
pub open spec fn cells_text(row: Seq<Cell>, n: nat) -> Seq<char>
    decreases n,
{
    if n == 0 {
        Seq::empty()
    } else {
        cells_text(row, (n - 1) as nat) + cell_text(row[n - 1])
    }
}

/// One row of the board between its two borders, as a line.
pub open spec fn row_text(row: Seq<Cell>) -> Seq<char> {
    "||"@ + cells_text(row, row.len()) + "||\n"@
}

/// The first `n` rows of the board, one line each.
pub open spec fn rows_text(g: Seq<Seq<Cell>>, n: nat) -> Seq<char>
    decreases n,
{
    if n == 0 {
        Seq::empty()
    } else {
        rows_text(g, (n - 1) as nat) + row_text(g[n - 1])
    }
}

/// The header line: the score, indented by twice the width of the board
/// and six.
pub open spec fn header_text(score: nat) -> Seq<char> {
    repeated(" "@, (2 * WIDTH + 6) as nat) + "Score: "@ + decimal(score) + "\n"@
}

/// The bottom border, as wide as a row with its borders.
pub open spec fn border_text() -> Seq<char> {
    repeated("\u{203e}\u{203e}"@, (WIDTH + 2) as nat) + "\n"@
}

/// One frame: the screen is cleared and the cursor sent home, then come the
/// header line, the rows of the board from the top, and the bottom border.
pub open spec fn frame_text(g: Seq<Seq<Cell>>, score: nat) -> Seq<char> {
    "\x1B[2J\x1B[1;1H"@ + header_text(score) + rows_text(g, g.len()) + border_text()
}

/// The text of a decimal digit.
fn digit_str(d: u32) -> (text: &'static str)
    requires
        d < 10,
    ensures
        text@ == seq![digit(d as nat)],
{
    proof {
        reveal_strlit("0");
        reveal_strlit("1");
        reveal_strlit("2");
        reveal_strlit("3");
        reveal_strlit("4");
        reveal_strlit("5");
        reveal_strlit("6");
        reveal_strlit("7");
        reveal_strlit("8");
        reveal_strlit("9");
    }
    let text = if d == 0 {
        "0"
    } else if d == 1 {
        "1"
    } else if d == 2 {
        "2"
    } else if d == 3 {
        "3"
    } else if d == 4 {
        "4"
    } else if d == 5 {
        "5"
    } else if d == 6 {
        "6"
    } else if d == 7 {
        "7"
    } else if d == 8 {
        "8"
    } else {
        "9"
    };
    assert(text@ =~= seq![digit(d as nat)]);
    text
}

/// Appends the number in decimal digits.
fn push_decimal(out: &mut String, n: u32)
    ensures
        final(out)@ == old(out)@ + decimal(n as nat),
    decreases n,
{
    if n >= 10 {
        push_decimal(out, n / 10);
    }
    out.append(digit_str(n % 10));
    assert(out@ =~= old(out)@ + decimal(n as nat));
}

/// Appends the text `times` times.
fn push_repeated(out: &mut String, text: &str, times: usize)
    ensures
        final(out)@ == old(out)@ + repeated(text@, times as nat),
{
    let mut done: usize = 0;
    assert(out@ =~= old(out)@ + repeated(text@, 0));
    while done < times
        invariant
            done <= times,
            out@ == old(out)@ + repeated(text@, done as nat),
        decreases times - done,
    {
        out.append(text);
        done += 1;
        assert(out@ =~= old(out)@ + repeated(text@, done as nat));
    }
}

/// Appends one row of the board between its borders.
fn push_row(out: &mut String, row: &[Cell; WIDTH])
    ensures
        final(out)@ == old(out)@ + row_text(row@),
{
    out.append("||");
    let ghost start = out@;
    let mut col: usize = 0;
    assert(out@ =~= start + cells_text(row@, 0));
    while col < WIDTH
        invariant
            col <= WIDTH,
            out@ == start + cells_text(row@, col as nat),
        decreases WIDTH - col,
    {
        let cell = row[col];
        let ghost before = out@;
        if cell.active() {
            out.append("\x1B[");
            push_decimal(out, 40 + cell.color() as u32);
            out.append("m  \x1B[0m");
        } else {
            out.append("  ");
        }
        assert(out@ =~= before + cell_text(cell));
        col += 1;
        assert(out@ =~= start + cells_text(row@, col as nat));
    }
    out.append("||\n");
    assert(out@ =~= old(out)@ + row_text(row@));
}

/// The text of one frame.
pub fn render(board: &Board, score: u32) -> (frame: String)
    ensures
        frame@ == frame_text(board@, score as nat),
{
    broadcast use Board::lemma_is_grid;

    let mut frame = String::new();
    frame.append("\x1B[2J\x1B[1;1H");
    push_repeated(&mut frame, " ", 2 * WIDTH + 6);
    frame.append("Score: ");
    push_decimal(&mut frame, score);
    frame.append("\n");
    let ghost top = frame@;
    assert(top =~= "\x1B[2J\x1B[1;1H"@ + header_text(score as nat));
    let mut row: usize = 0;
    assert(frame@ =~= top + rows_text(board@, 0));
    while row < HEIGHT
        invariant
            row <= HEIGHT,
            is_grid(board@),
            frame@ == top + rows_text(board@, row as nat),
        decreases HEIGHT - row,
    {
        let cells = board.row(row);
        push_row(&mut frame, &cells);
        row += 1;
        assert(frame@ =~= top + rows_text(board@, row as nat));
    }
    push_repeated(&mut frame, "\u{203e}\u{203e}", WIDTH + 2);
    frame.append("\n");
    assert(frame@ =~= frame_text(board@, score as nat));
    frame
}

} // verus!
