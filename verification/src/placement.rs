//! Placement: where a piece may go, whether it has come to rest, and how it
//! is written into and taken out of the board. Every access to the board is
//! preceded by a bounds check, so these functions take any position, also
//! one at which part of the piece is off the board.

use vstd::prelude::*;
use crate::grid::{Board, Cell, HEIGHT, WIDTH};
use crate::piece::{height, width, Piece};

verus! {

/// With the top-left corner of `m` at column `x` and row `y`, a filled
/// sub-cell of `m` lies on row `r` and column `c`.
pub open spec fn covers(m: Seq<Seq<bool>>, x: int, y: int, r: int, c: int) -> bool {
    &&& 0 <= r - y < height(m)
    &&& 0 <= c - x < width(m)
    &&& m[r - y][c - x]
}

/// The grid in which every cell that `m` covers at (`x`, `y`) has become
/// `Cell { active: true, color }` if `on` holds, and inactive with its colour
/// kept otherwise.
pub open spec fn painted(
    g: Seq<Seq<Cell>>,
    m: Seq<Seq<bool>>,
    x: int,
    y: int,
    on: bool,
    color: u8,
) -> Seq<Seq<Cell>> {
    Seq::new(
        HEIGHT as nat,
        |r: int|
            Seq::new(
                WIDTH as nat,
                |c: int|
                    if covers(m, x, y, r, c) {
                        if on {
                            Cell { active: true, color }
                        } else {
                            Cell { active: false, color: g[r][c].color }
                        }
                    } else {
                        g[r][c]
                    },
            ),
    )
}

/// The grid with the piece taken out: every cell that `m` covers at
/// (`x`, `y`) is inactive and keeps its colour; the others are unchanged.
pub open spec fn erased(g: Seq<Seq<Cell>>, m: Seq<Seq<bool>>, x: int, y: int) -> Seq<Seq<Cell>> {
    painted(g, m, x, y, false, 0)
}

/// The grid with the piece written in: every cell that `m` covers at
/// (`x`, `y`) is active and carries `color`; the others are unchanged.
pub open spec fn merged(g: Seq<Seq<Cell>>, m: Seq<Seq<bool>>, color: u8, x: int, y: int) -> Seq<
    Seq<Cell>,
> {
    painted(g, m, x, y, true, color)
}

/// Sub-cell (`i`, `j`) of `m` is filled and stands on the bottom row.
pub open spec fn hits_floor(m: Seq<Seq<bool>>, y: int, i: int, j: int) -> bool {
    &&& 0 <= i < height(m)
    &&& 0 <= j < width(m)
    &&& m[i][j]
    &&& y + i == HEIGHT - 1
}

/// Sub-cell (`i`, `j`) of `m` is filled and the cell right below it is on the
/// board and active.
pub open spec fn hits_block(
    g: Seq<Seq<Cell>>,
    m: Seq<Seq<bool>>,
    x: int,
    y: int,
    i: int,
    j: int,
) -> bool {
    &&& 0 <= i < height(m)
    &&& 0 <= j < width(m)
    &&& m[i][j]
    &&& 0 <= y + i + 1 < HEIGHT
    &&& 0 <= x + j < WIDTH
    &&& g[y + i + 1][x + j].active
}

/// Some filled sub-cell stands on the bottom row of the board.
pub open spec fn on_floor(m: Seq<Seq<bool>>, y: int) -> bool {
    exists|i: int, j: int| hits_floor(m, y, i, j)
}

/// Some filled sub-cell has an active cell right below it.
pub open spec fn blocked_below(g: Seq<Seq<Cell>>, m: Seq<Seq<bool>>, x: int, y: int) -> bool {
    exists|i: int, j: int| hits_block(g, m, x, y, i, j)
}

/// The piece has come to rest: it stands on the floor or on an active cell.
pub open spec fn lands(g: Seq<Seq<Cell>>, m: Seq<Seq<bool>>, x: int, y: int) -> bool {
    on_floor(m, y) || blocked_below(g, m, x, y)
}

/// Sub-cell (`i`, `j`) of `m` is filled and lies on an active cell of the
/// board.
pub open spec fn hits_cell(
    g: Seq<Seq<Cell>>,
    m: Seq<Seq<bool>>,
    x: int,
    y: int,
    i: int,
    j: int,
) -> bool {
    &&& 0 <= i < height(m)
    &&& 0 <= j < width(m)
    &&& m[i][j]
    &&& 0 <= y + i < HEIGHT
    &&& 0 <= x + j < WIDTH
    &&& g[y + i][x + j].active
}

/// With its top-left corner at column `x` and row `y`, the matrix has a
/// filled sub-cell on an active cell of the board. Empty sub-cells and
/// sub-cells off the board count for nothing.
pub open spec fn overlaps(g: Seq<Seq<Cell>>, m: Seq<Seq<bool>>, x: int, y: int) -> bool {
    exists|i: int, j: int| hits_cell(g, m, x, y, i, j)
}

/// One column to the left, stopping at column 0.
pub open spec fn shifted_left(x: int) -> int {
    if x > 0 {
        x - 1
    } else {
        0
    }
}

/// The column clamped so that `cols` columns from it end within the board.
pub open spec fn clamped(x: int, cols: int) -> int {
    if x <= WIDTH - cols {
        x
    } else {
        WIDTH - cols
    }
}

/// One column to the right, stopping where the piece touches the right wall.
pub open spec fn shifted_right(x: int, cols: int) -> int {
    clamped(x + 1, cols)
}

/// The column one to the left of `x`, or column 0 at the left wall.
pub fn shift_left(x: usize) -> (moved: usize)
    ensures
        moved == shifted_left(x as int),
{
    if x > 0 {
        x - 1
    } else {
        0
    }
}

/// The column `x`, or the last column from which a piece of `cols` columns
/// still ends within the board, whichever is further left.
pub fn clamp_column(x: usize, cols: usize) -> (clamp: usize)
    requires
        cols <= WIDTH,
    ensures
        clamp == clamped(x as int, cols as int),
{
    if x <= WIDTH - cols {
        x
    } else {
        WIDTH - cols
    }
}

/// The column one to the right of `x`, or the last column from which a
/// piece of `cols` columns still ends within the board, whichever is
/// further left.
pub fn shift_right(x: usize, cols: usize) -> (moved: usize)
    requires
        cols <= WIDTH,
    ensures
        moved == shifted_right(x as int, cols as int),
{
    if x < WIDTH - cols {
        x + 1
    } else {
        WIDTH - cols
    }
}

/// Which of the two ways of coming to rest holds of a piece.
#[derive(Copy, Clone, Debug, PartialEq, Eq, Structural)]
pub struct Contact {
    /// A filled sub-cell stands on the bottom row.
    pub floor: bool,
    /// A filled sub-cell has an active cell right below it.
    pub block: bool,
}

/// Sub-cell (`a`, `b`) comes before sub-cell (`i`, `j`) when the matrix is
/// read row by row.
spec fn earlier(a: int, b: int, i: int, j: int) -> bool {
    a < i || (a == i && b < j)
}

/// Writes `on` into every cell that the piece covers at (`x`, `y`): the cell
/// becomes active with the colour of the piece, or inactive with its colour
/// kept.
#[verifier::loop_isolation(false)]
fn paint(board: &mut Board, piece: &Piece, x: usize, y: usize, on: bool)
    requires
        piece.wf(),
    ensures
        final(board)@ == painted(old(board)@, piece.shape(), x as int, y as int, on, piece.tag()),
{
    broadcast use Board::lemma_is_grid;

    let blocks = piece.blocks();
    let color = piece.color();
    let n = blocks.len();
    let w = piece.cols();
    let ghost m = piece.shape();
    let ghost g0 = board@;
    let ghost goal = painted(g0, m, x as int, y as int, on, color);
    let mut i: usize = 0;
    while i < n
        invariant
            i <= n,
            forall|r: int, c: int|
                0 <= r < HEIGHT && 0 <= c < WIDTH ==> #[trigger] board@[r][c] == if covers(
                    m,
                    x as int,
                    y as int,
                    r,
                    c,
                ) && earlier(r - y, c - x, i as int, 0) {
                    goal[r][c]
                } else {
                    g0[r][c]
                },
        decreases n - i,
    {
        let mut j: usize = 0;
        while j < w
            invariant
                i < n,
                j <= w,
                forall|r: int, c: int|
                    0 <= r < HEIGHT && 0 <= c < WIDTH ==> #[trigger] board@[r][c] == if covers(
                        m,
                        x as int,
                        y as int,
                        r,
                        c,
                    ) && earlier(r - y, c - x, i as int, j as int) {
                        goal[r][c]
                    } else {
                        g0[r][c]
                    },
            decreases w - j,
        {
            assert(m[i as int].len() == w);
            if blocks[i][j] && y < HEIGHT && i < HEIGHT - y && x < WIDTH && j < WIDTH - x {
                let row = y + i;
                let col = x + j;
                let cell = if on {
                    Cell::new(true, color)
                } else {
                    Cell::new(false, board.cell(row, col).color())
                };
                board.put(row, col, cell);
            }
            j += 1;
        }
        i += 1;
    }
    assert(board@ =~~= goal);
}

/// Takes the piece out of the board at (`x`, `y`): the cells it covers
/// become inactive and keep their colour.
pub fn clear_piece(board: &mut Board, piece: &Piece, x: usize, y: usize)
    requires
        piece.wf(),
    ensures
        final(board)@ == erased(old(board)@, piece.shape(), x as int, y as int),
{
    paint(board, piece, x, y, false);
    assert(painted(old(board)@, piece.shape(), x as int, y as int, false, piece.tag()) =~~= erased(
        old(board)@,
        piece.shape(),
        x as int,
        y as int,
    ));
}

/// Writes the piece into the board at (`x`, `y`): the cells it covers
/// become active and take its colour.
pub fn merge_piece(board: &mut Board, piece: &Piece, x: usize, y: usize)
    requires
        piece.wf(),
    ensures
        final(board)@ == merged(old(board)@, piece.shape(), piece.tag(), x as int, y as int),
{
    paint(board, piece, x, y, true);
}

/// Whether the piece at (`x`, `y`) has a filled sub-cell on an active cell
/// of the board.
#[verifier::loop_isolation(false)]
pub fn overlap_check(board: &Board, piece: &Piece, x: usize, y: usize) -> (hit: bool)
    requires
        piece.wf(),
    ensures
        hit == overlaps(board@, piece.shape(), x as int, y as int),
{
    broadcast use Board::lemma_is_grid;

    let blocks = piece.blocks();
    let n = blocks.len();
    let w = piece.cols();
    let ghost m = piece.shape();
    let ghost g = board@;
    let ghost (xi, yi) = (x as int, y as int);
    let mut hit = false;
    let mut i: usize = 0;
    while i < n
        invariant
            i <= n,
            hit <==> exists|a: int, b: int|
                earlier(a, b, i as int, 0) && #[trigger] hits_cell(g, m, xi, yi, a, b),
        decreases n - i,
    {
        let mut j: usize = 0;
        while j < w
            invariant
                i < n,
                j <= w,
                hit <==> exists|a: int, b: int|
                    earlier(a, b, i as int, j as int) && #[trigger] hits_cell(g, m, xi, yi, a, b),
            decreases w - j,
        {
            assert(m[i as int].len() == w);
            if blocks[i][j] && y < HEIGHT && i < HEIGHT - y && x < WIDTH && j < WIDTH - x {
                if board.cell(y + i, x + j).active() {
                    assert(hits_cell(g, m, xi, yi, i as int, j as int));
                    hit = true;
                }
            }
            j += 1;
        }
        i += 1;
    }
    hit
}

/// Whether the piece at (`x`, `y`) stands on the floor, and whether it
/// stands on an active cell of the board.
#[verifier::loop_isolation(false)]
pub fn lock_check(board: &Board, piece: &Piece, x: usize, y: usize) -> (contact: Contact)
    requires
        piece.wf(),
    ensures
        contact.floor == on_floor(piece.shape(), y as int),
        contact.block == blocked_below(board@, piece.shape(), x as int, y as int),
{
    broadcast use Board::lemma_is_grid;

    let blocks = piece.blocks();
    let n = blocks.len();
    let w = piece.cols();
    let ghost m = piece.shape();
    let ghost g = board@;
    let ghost (xi, yi) = (x as int, y as int);
    let mut floor = false;
    let mut block = false;
    let mut i: usize = 0;
    while i < n
        invariant
            i <= n,
            floor <==> exists|a: int, b: int|
                earlier(a, b, i as int, 0) && #[trigger] hits_floor(m, yi, a, b),
            block <==> exists|a: int, b: int|
                earlier(a, b, i as int, 0) && #[trigger] hits_block(g, m, xi, yi, a, b),
        decreases n - i,
    {
        let mut j: usize = 0;
        while j < w
            invariant
                i < n,
                j <= w,
                floor <==> exists|a: int, b: int|
                    earlier(a, b, i as int, j as int) && #[trigger] hits_floor(m, yi, a, b),
                block <==> exists|a: int, b: int|
                    earlier(a, b, i as int, j as int) && #[trigger] hits_block(g, m, xi, yi, a, b),
            decreases w - j,
        {
            assert(m[i as int].len() == w);
            if blocks[i][j] {
                if y < HEIGHT && i == HEIGHT - 1 - y {
                    assert(hits_floor(m, yi, i as int, j as int));
                    floor = true;
                }
                if y < HEIGHT - 1 && i < HEIGHT - 1 - y && x < WIDTH && j < WIDTH - x {
                    if board.cell(y + i + 1, x + j).active() {
                        assert(hits_block(g, m, xi, yi, i as int, j as int));
                        block = true;
                    }
                }
            }
            j += 1;
        }
        i += 1;
    }
    Contact { floor, block }
}

} // verus!
