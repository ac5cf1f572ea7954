//! Pieces: a rectangular matrix of filled and empty sub-cells with a colour
//! tag, and the quarter turn that rotates it.

use vstd::prelude::*;
use crate::grid::{Board, Cell, HEIGHT, WIDTH};
use crate::placement::{clamp_column, clamped, overlap_check, overlaps};

verus! {

/// The rows of a nested vector as a matrix of booleans.
pub open spec fn matrix(blocks: Seq<Vec<bool>>) -> Seq<Seq<bool>> {
    Seq::new(blocks.len(), |i: int| blocks[i]@)
}

/// A rectangular matrix with at least one row and one column.
pub open spec fn is_matrix(m: Seq<Seq<bool>>) -> bool {
    &&& m.len() > 0
    &&& m[0].len() > 0
    &&& forall|i: int| 0 <= i < m.len() ==> (#[trigger] m[i]).len() == m[0].len()
}

/// Number of rows of a matrix.
pub open spec fn height(m: Seq<Seq<bool>>) -> int {
    m.len() as int
}

/// Number of columns of a matrix.
pub open spec fn width(m: Seq<Seq<bool>>) -> int {
    m[0].len() as int
}

/// A matrix that a piece may carry: rectangular, with a filled sub-cell.
pub open spec fn is_shape(m: Seq<Seq<bool>>) -> bool {
    &&& is_matrix(m)
    &&& exists|i: int, j: int| 0 <= i < height(m) && 0 <= j < width(m) && #[trigger] m[i][j]
}

/// The matrix turned a quarter clockwise: the sub-cell at row `i` and column
/// `j` of an `n`-row matrix moves to row `j` and column `n - 1 - i`.
pub open spec fn rotated(m: Seq<Seq<bool>>) -> Seq<Seq<bool>> {
    Seq::new(
        width(m) as nat,
        |j: int| Seq::new(height(m) as nat, |k: int| m[height(m) - 1 - k][j]),
    )
}

/// A quarter turn of an `n` by `m` matrix is an `m` by `n` matrix.
pub proof fn lemma_rotated_is_matrix(m: Seq<Seq<bool>>)
    requires
        is_matrix(m),
    ensures
        is_matrix(rotated(m)),
        height(rotated(m)) == width(m),
        width(rotated(m)) == height(m),
        forall|i: int, j: int|
            0 <= i < height(m) && 0 <= j < width(m) ==> rotated(m)[j][height(m) - 1 - i]
                == #[trigger] m[i][j],
{
}

/// A quarter turn keeps every filled sub-cell, so it turns shapes into shapes.
pub proof fn lemma_rotated_is_shape(m: Seq<Seq<bool>>)
    requires
        is_shape(m),
    ensures
        is_shape(rotated(m)),
{
    lemma_rotated_is_matrix(m);
    let (i, j) = choose|i: int, j: int|
        0 <= i < height(m) && 0 <= j < width(m) && #[trigger] m[i][j];
    assert(rotated(m)[j][height(m) - 1 - i]);
}

/// Four quarter turns give back the matrix they started from, in content and
/// in dimensions.
pub proof fn lemma_four_rotations(m: Seq<Seq<bool>>)
    requires
        is_matrix(m),
    ensures
        rotated(rotated(rotated(rotated(m)))) == m,
{
    let r1 = rotated(m);
    lemma_rotated_is_matrix(m);
    let r2 = rotated(r1);
    lemma_rotated_is_matrix(r1);
    let r3 = rotated(r2);
    lemma_rotated_is_matrix(r2);
    let r4 = rotated(r3);
    lemma_rotated_is_matrix(r3);
    assert(r4.len() == m.len());
    assert forall|i: int| 0 <= i < m.len() implies #[trigger] r4[i] =~= m[i] by {
        assert(r4[i].len() == m[i].len());
    }
    assert(r4 =~= m);
}

/// A quarter turn of `m` at column `x` and row `y` is refused. That is so
/// where the turned matrix is wider than the board, or would reach below
/// the bottom row, or would have a filled sub-cell on an active cell of the
/// board. The overlap is looked for where the turned matrix will stand:
/// at column `x`, or as far to the left of it as the right wall asks.
pub open spec fn rotation_blocked(g: Seq<Seq<Cell>>, m: Seq<Seq<bool>>, x: int, y: int) -> bool {
    let turned = rotated(m);
    ||| width(turned) > WIDTH
    ||| y + height(turned) > HEIGHT
    ||| overlaps(g, turned, clamped(x, width(turned)), y)
}

/// Whether the rows form a matrix that a piece may carry: at least one row
/// and one column, every row as long as the first, and a filled sub-cell
/// somewhere.
#[verifier::loop_isolation(false)]
pub fn check_blocks(blocks: &Vec<Vec<bool>>) -> (ok: bool)
    ensures
        ok == is_shape(matrix(blocks@)),
{
    let ghost m = matrix(blocks@);
    let n = blocks.len();
    if n == 0 {
        return false;
    }
    let w = blocks[0].len();
    if w == 0 {
        return false;
    }
    let mut filled = false;
    let mut i: usize = 0;
    while i < n
        invariant
            i <= n,
            forall|a: int| 0 <= a < i ==> (#[trigger] m[a]).len() == w,
            filled <==> exists|a: int, b: int| 0 <= a < i && 0 <= b < w && #[trigger] m[a][b],
        decreases n - i,
    {
        if blocks[i].len() != w {
            assert(m[i as int].len() != m[0].len());
            return false;
        }
        let mut j: usize = 0;
        while j < w
            invariant
                i < n,
                j <= w,
                m[i as int].len() == w,
                filled <==> exists|a: int, b: int|
                    (0 <= a < i && 0 <= b < w || a == i && 0 <= b < j) && #[trigger] m[a][b],
            decreases w - j,
        {
            if blocks[i][j] {
                assert(m[i as int][j as int]);
                filled = true;
            }
            j += 1;
        }
        i += 1;
    }
    filled
}

/// A polyomino: its matrix of sub-cells and the colour it paints cells with.
#[derive(Clone, Debug)]
pub struct Piece {
    blocks: Vec<Vec<bool>>,
    color: u8,
}

impl Piece {
    /// The matrix of sub-cells, row by row.
    pub closed spec fn shape(&self) -> Seq<Seq<bool>> {
        matrix(self.blocks@)
    }

    /// The colour tag.
    pub closed spec fn tag(&self) -> u8 {
        self.color
    }

    /// The piece carries a shape.
    pub open spec fn wf(&self) -> bool {
        is_shape(self.shape())
    }

    /// The piece with this matrix, given row by row, and this colour tag.
    /// [`check_blocks`] tells whether the rows may be handed in.
    pub fn new(blocks: Vec<Vec<bool>>, color: u8) -> (piece: Piece)
        requires
            is_shape(matrix(blocks@)),
        ensures
            piece.wf(),
            piece.shape() == matrix(blocks@),
            piece.tag() == color,
    {
        Piece { blocks, color }
    }

    /// The matrix of sub-cells, row by row.
    pub fn blocks(&self) -> (blocks: &Vec<Vec<bool>>)
        ensures
            matrix(blocks@) == self.shape(),
    {
        &self.blocks
    }

    /// The colour tag.
    pub fn color(&self) -> (color: u8)
        ensures
            color == self.tag(),
    {
        self.color
    }

    /// Number of rows of the matrix.
    pub fn rows(&self) -> (n: usize)
        ensures
            n == height(self.shape()),
    {
        self.blocks.len()
    }

    /// Number of columns of the matrix.
    pub fn cols(&self) -> (n: usize)
        requires
            self.wf(),
        ensures
            n == width(self.shape()),
    {
        self.blocks[0].len()
    }

    /// The matrix turned a quarter clockwise. The piece itself is unchanged.
    pub fn rotated(&self) -> (turned: Vec<Vec<bool>>)
        requires
            self.wf(),
        ensures
            matrix(turned@) == rotated(self.shape()),
    {
        let n = self.blocks.len();
        let m = self.blocks[0].len();
        let mut turned: Vec<Vec<bool>> = Vec::new();
        let mut j: usize = 0;
        while j < m
            invariant
                self.wf(),
                n == height(self.shape()),
                m == width(self.shape()),
                j <= m,
                turned@.len() == j,
                forall|a: int| 0 <= a < j ==> (#[trigger] turned@[a])@ == rotated(self.shape())[a],
            decreases m - j,
        {
            let mut row: Vec<bool> = Vec::new();
            let mut k: usize = 0;
            while k < n
                invariant
                    self.wf(),
                    n == height(self.shape()),
                    m == width(self.shape()),
                    j < m,
                    k <= n,
                    row@.len() == k,
                    forall|b: int|
                        0 <= b < k ==> #[trigger] row@[b] == self.shape()[n - 1 - b][j as int],
                decreases n - k,
            {
                assert(self.shape()[n - 1 - k].len() == m);
                row.push(self.blocks[n - 1 - k][j]);
                k += 1;
            }
            assert(row@ =~= rotated(self.shape())[j as int]);
            turned.push(row);
            j += 1;
        }
        assert(matrix(turned@) =~= rotated(self.shape()));
        turned
    }

    /// The piece turned a quarter clockwise where it stands, at column `x`
    /// and row `y` of the board, or nothing if the turn is refused. It is
    /// refused if the turned piece would be wider than the board, reach
    /// below the bottom row, or have a filled sub-cell on an active cell. A
    /// piece that would reach over the right wall is not refused for that:
    /// it is tried at the column to which the wall pushes it, and the
    /// caller moves it there.
    pub fn turned(&self, board: &Board, x: usize, y: usize) -> (turned: Option<Piece>)
        requires
            self.wf(),
        ensures
            turned is None <==> rotation_blocked(board@, self.shape(), x as int, y as int),
            turned matches Some(piece) ==> piece.wf() && piece.shape() == rotated(self.shape())
                && piece.tag() == self.tag(),
    {
        proof {
            lemma_rotated_is_shape(self.shape());
            lemma_rotated_is_matrix(self.shape());
        }
        let turned = Piece { blocks: self.rotated(), color: self.color };
        let rows = turned.rows();
        let cols = turned.cols();
        if cols > WIDTH || y > HEIGHT || rows > HEIGHT - y {
            return None;
        }
        if overlap_check(board, &turned, clamp_column(x, cols), y) {
            return None;
        }
        Some(turned)
    }

    /// Turns the piece a quarter clockwise where it stands, at column `x` and
    /// row `y` of the board. A turn that is refused leaves the piece as it
    /// was; [`Piece::turned`] says when that is.
    pub fn rotate(&mut self, board: &Board, x: usize, y: usize)
        requires
            old(self).wf(),
        ensures
            final(self).wf(),
            final(self).tag() == old(self).tag(),
            final(self).shape() == if rotation_blocked(
                board@,
                old(self).shape(),
                x as int,
                y as int,
            ) {
                old(self).shape()
            } else {
                rotated(old(self).shape())
            },
    {
        match self.turned(board, x, y) {
            Some(turned) => {
                *self = turned;
            },
            None => {},
        }
    }
}

} // verus!
