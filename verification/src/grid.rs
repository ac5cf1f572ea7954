//! The playing field: a fixed matrix of cells.

use vstd::prelude::*;

verus! {

/// Number of columns of the playing field.
pub const WIDTH: usize = 10;

/// Number of rows of the playing field. Row 0 is the top row.
pub const HEIGHT: usize = 20;

/// One position of the playing field: whether a block sits there, and the
/// colour tag it was last painted with.
#[derive(Copy, Clone, Debug, PartialEq, Eq, Structural)]
pub struct Cell {
    pub active: bool,
    pub color: u8,
}

impl Cell {
    /// The cell with this flag and this colour tag.
    pub fn new(active: bool, color: u8) -> (cell: Cell)
        ensures
            cell == (Cell { active, color }),
    {
        Cell { active, color }
    }

    /// Whether a block sits in the cell.
    pub fn active(&self) -> (value: bool)
        ensures
            value == self.active,
    {
        self.active
    }

    /// Sets the flag; the colour tag stays.
    pub fn set_active(&mut self, value: bool)
        ensures
            *final(self) == (Cell { active: value, color: old(self).color }),
    {
        self.active = value;
    }

    /// The colour tag.
    pub fn color(&self) -> (value: u8)
        ensures
            value == self.color,
    {
        self.color
    }

    /// Sets the colour tag; the flag stays.
    pub fn set_color(&mut self, value: u8)
        ensures
            *final(self) == (Cell { active: old(self).active, color: value }),
    {
        self.color = value;
    }
}

/// A matrix of cells with exactly `HEIGHT` rows of `WIDTH` cells each.
pub open spec fn is_grid(g: Seq<Seq<Cell>>) -> bool {
    &&& g.len() == HEIGHT
    &&& forall|r: int| 0 <= r < HEIGHT ==> (#[trigger] g[r]).len() == WIDTH
}

/// The grid in which no cell is active and every colour tag is 0.
pub open spec fn blank_grid() -> Seq<Seq<Cell>> {
    Seq::new(
        HEIGHT as nat,
        |r: int| Seq::new(WIDTH as nat, |c: int| Cell { active: false, color: 0 }),
    )
}

/// The playing field. Its size is fixed by its type; its contents are read
/// with [`Board::cell`] and changed only by the placement and line-clearing
/// functions of this crate.
#[derive(Copy, Clone, Debug)]
pub struct Board {
    rows: [[Cell; WIDTH]; HEIGHT],
}

impl View for Board {
    type V = Seq<Seq<Cell>>;

    /// The rows of the board from top to bottom, each from left to right.
    closed spec fn view(&self) -> Seq<Seq<Cell>> {
        Seq::new(HEIGHT as nat, |r: int| self.rows@[r]@)
    }
}

impl Board {
    /// Every board is a `HEIGHT` by `WIDTH` grid.
    pub broadcast proof fn lemma_is_grid(&self)
        ensures
            is_grid(#[trigger] self@),
    {
    }

    /// An empty board.
    pub fn new() -> (board: Board)
        ensures
            board@ == blank_grid(),
    {
        let board = Board { rows: [[Cell { active: false, color: 0 }; WIDTH]; HEIGHT] };
        assert(board@ =~~= blank_grid());
        board
    }

    /// The board whose rows are `rows`, top row first.
    pub fn from_rows(rows: [[Cell; WIDTH]; HEIGHT]) -> (board: Board)
        ensures
            board@ == Seq::new(HEIGHT as nat, |r: int| rows@[r]@),
    {
        Board { rows }
    }

    /// The cell at `row` and `col`.
    pub fn cell(&self, row: usize, col: usize) -> (cell: Cell)
        requires
            row < HEIGHT,
            col < WIDTH,
        ensures
            cell == self@[row as int][col as int],
    {
        self.rows[row][col]
    }

    /// A copy of row `row`.
    pub fn row(&self, row: usize) -> (cells: [Cell; WIDTH])
        requires
            row < HEIGHT,
        ensures
            cells@ == self@[row as int],
    {
        self.rows[row]
    }

    /// Overwrites the cell at `row` and `col`.
    pub(crate) fn put(&mut self, row: usize, col: usize, cell: Cell)
        requires
            row < HEIGHT,
            col < WIDTH,
        ensures
            final(self)@ == old(self)@.update(
                row as int,
                old(self)@[row as int].update(col as int, cell),
            ),
    {
        self.rows[row][col] = cell;
    }

    /// Overwrites row `row`.
    pub(crate) fn put_row(&mut self, row: usize, cells: [Cell; WIDTH])
        requires
            row < HEIGHT,
        ensures
            final(self)@ == old(self)@.update(row as int, cells@),
    {
        self.rows[row] = cells;
    }
}

} // verus!
