//! Line clearing: complete rows are taken out of the board, the rows above
//! them move down, and empty rows come in at the top.

use vstd::prelude::*;
use crate::grid::{is_grid, Board, Cell, HEIGHT, WIDTH};

verus! {

/// Every cell of the row is active.
pub open spec fn row_full(row: Seq<Cell>) -> bool {
    forall|c: int| 0 <= c < row.len() ==> (#[trigger] row[c]).active
}

/// The row with every cell switched off; colours stay.
pub open spec fn emptied(row: Seq<Cell>) -> Seq<Cell> {
    Seq::new(row.len(), |c: int| Cell { active: false, color: row[c].color })
}

/// The rows that are not complete, in their order.
pub open spec fn kept_rows(g: Seq<Seq<Cell>>) -> Seq<Seq<Cell>> {
    g.filter(|row: Seq<Cell>| !row_full(row))
}

/// The number of complete rows.
pub open spec fn full_rows(g: Seq<Seq<Cell>>) -> nat {
    (g.len() - kept_rows(g).len()) as nat
}

/// The grid after row `k` has been taken out: the rows above it have moved
/// down by one, and the top row has been switched off.
pub open spec fn collapsed(g: Seq<Seq<Cell>>, k: int) -> Seq<Seq<Cell>> {
    seq![emptied(g[0])] + g.subrange(0, k) + g.subrange(k + 1, g.len() as int)
}

/// The grid after every complete row has been taken out: the other rows
/// keep their order and sink to the bottom, and as many rows as were taken
/// out come in at the top, switched off, with the colours of the old top row.
pub open spec fn compacted(g: Seq<Seq<Cell>>) -> Seq<Seq<Cell>> {
    Seq::new(full_rows(g), |i: int| emptied(g[0])) + kept_rows(g)
}

/// The kept rows of two grids set one on the other are the kept rows of
/// the upper one followed by those of the lower one.
proof fn lemma_kept_concat(a: Seq<Seq<Cell>>, b: Seq<Seq<Cell>>)
    ensures
        kept_rows(a + b) == kept_rows(a) + kept_rows(b),
{
    Seq::filter_distributes_over_add(a, b, |row: Seq<Cell>| !row_full(row));
}

/// A single row is kept unless it is complete.
proof fn lemma_kept_single(row: Seq<Cell>)
    ensures
        kept_rows(seq![row]) == if row_full(row) {
            Seq::<Seq<Cell>>::empty()
        } else {
            seq![row]
        },
{
    reveal_with_fuel(Seq::filter, 2);
    let s = seq![row];
    assert(s.drop_last() =~= Seq::<Seq<Cell>>::empty());
    assert(s.last() == row);
    assert(kept_rows(s) =~= if row_full(row) {
        Seq::<Seq<Cell>>::empty()
    } else {
        seq![row]
    });
}

/// Where no row is complete, every row is kept.
proof fn lemma_kept_all(g: Seq<Seq<Cell>>)
    requires
        forall|r: int| 0 <= r < g.len() ==> !row_full(#[trigger] g[r]),
    ensures
        kept_rows(g) == g,
    decreases g.len(),
{
    reveal_with_fuel(Seq::filter, 1);
    if g.len() > 0 {
        lemma_kept_all(g.drop_last());
        assert(g.drop_last().push(g.last()) =~= g);
    } else {
        assert(kept_rows(g) =~= g);
    }
}

/// The number of kept rows never exceeds the number of rows.
proof fn lemma_kept_len(g: Seq<Seq<Cell>>)
    ensures
        kept_rows(g).len() <= g.len(),
{
    g.lemma_filter_len(|row: Seq<Cell>| !row_full(row));
}

/// Taking a complete row out of a grid leaves one more row that is kept:
/// the switched-off row that came in at the top.
proof fn lemma_kept_collapsed(g: Seq<Seq<Cell>>, k: int)
    requires
        is_grid(g),
        0 <= k < HEIGHT,
        row_full(g[k]),
    ensures
        is_grid(collapsed(g, k)),
        kept_rows(collapsed(g, k)) == seq![emptied(g[0])] + kept_rows(g),
        emptied(collapsed(g, k)[0]) == emptied(g[0]),
{
    let top = emptied(g[0]);
    let above = g.subrange(0, k);
    let below = g.subrange(k + 1, HEIGHT as int);
    assert(!top[0].active);
    lemma_kept_single(top);
    lemma_kept_single(g[k]);
    lemma_kept_concat(seq![top], above);
    lemma_kept_concat(seq![top] + above, below);
    assert(g =~= above + seq![g[k]] + below);
    lemma_kept_concat(above, seq![g[k]]);
    lemma_kept_concat(above + seq![g[k]], below);
    assert(kept_rows(collapsed(g, k)) =~= seq![top] + kept_rows(g));
    assert(emptied(top) =~= top);
    assert(collapsed(g, k)[0] == top);
}

/// Taking one row out: the result is a grid whose top row is switched off,
/// whose rows 1 to `k` hold what the rows above them held, and whose rows
/// below `k` are untouched. What row `k` held is in no row any more.
pub proof fn lemma_collapsed(g: Seq<Seq<Cell>>, k: int)
    requires
        is_grid(g),
        0 <= k < HEIGHT,
    ensures
        is_grid(collapsed(g, k)),
        forall|c: int| 0 <= c < WIDTH ==> !(#[trigger] collapsed(g, k)[0][c]).active,
        forall|r: int| 1 <= r <= k ==> #[trigger] collapsed(g, k)[r] == g[r - 1],
        forall|r: int| k < r < HEIGHT ==> #[trigger] collapsed(g, k)[r] == g[r],
{
}

/// A complete row is always found: it makes the count at least one.
pub proof fn lemma_full_row_detected(g: Seq<Seq<Cell>>, k: int)
    requires
        is_grid(g),
        0 <= k < HEIGHT,
        row_full(g[k]),
    ensures
        full_rows(g) >= 1,
{
    let above = g.subrange(0, k);
    let below = g.subrange(k + 1, HEIGHT as int);
    assert(g =~= above + seq![g[k]] + below);
    lemma_kept_single(g[k]);
    lemma_kept_concat(above, seq![g[k]]);
    lemma_kept_concat(above + seq![g[k]], below);
    lemma_kept_len(above);
    lemma_kept_len(below);
}

/// Where no row is complete, none is counted and the grid stays as it is.
pub proof fn lemma_nothing_to_clear(g: Seq<Seq<Cell>>)
    requires
        is_grid(g),
        forall|r: int| 0 <= r < HEIGHT ==> !row_full(#[trigger] g[r]),
    ensures
        full_rows(g) == 0,
        compacted(g) == g,
{
    lemma_kept_all(g);
    assert(compacted(g) =~= g);
}

/// After clearing, the board is a grid without a complete row.
pub proof fn lemma_compacted_has_no_full_row(g: Seq<Seq<Cell>>)
    requires
        is_grid(g),
    ensures
        is_grid(compacted(g)),
        forall|r: int| 0 <= r < HEIGHT ==> !row_full(#[trigger] compacted(g)[r]),
{
    let pred = |row: Seq<Cell>| !row_full(row);
    lemma_kept_len(g);
    let top = emptied(g[0]);
    assert(!top[0].active);
    let after = compacted(g);
    assert forall|r: int| 0 <= r < HEIGHT implies !row_full(#[trigger] after[r]) && after[r].len()
        == WIDTH by {
        if r >= full_rows(g) {
            let i = r - full_rows(g);
            g.lemma_filter_pred(pred, i);
            g.lemma_filter_contains_rev(pred, kept_rows(g)[i]);
        }
    }
}

/// Where row `k` is the only complete row, it is counted once and taken
/// out: the top row ends switched off, every row above `k` has moved down by
/// exactly one, and the rows below `k` are as they were.
pub proof fn lemma_single_clear(g: Seq<Seq<Cell>>, k: int)
    requires
        is_grid(g),
        0 <= k < HEIGHT,
        row_full(g[k]),
        forall|r: int| 0 <= r < HEIGHT && r != k ==> !row_full(#[trigger] g[r]),
    ensures
        full_rows(g) == 1,
        compacted(g) == collapsed(g, k),
        forall|c: int| 0 <= c < WIDTH ==> !(#[trigger] compacted(g)[0][c]).active,
        forall|r: int| 1 <= r <= k ==> #[trigger] compacted(g)[r] == g[r - 1],
        forall|r: int| k < r < HEIGHT ==> #[trigger] compacted(g)[r] == g[r],
{
    let above = g.subrange(0, k);
    let below = g.subrange(k + 1, HEIGHT as int);
    assert(g =~= above + seq![g[k]] + below);
    lemma_kept_single(g[k]);
    lemma_kept_concat(above, seq![g[k]]);
    lemma_kept_concat(above + seq![g[k]], below);
    lemma_kept_all(above);
    lemma_kept_all(below);
    assert(kept_rows(g) =~= above + below);
    assert(compacted(g) =~= collapsed(g, k));
    lemma_collapsed(g, k);
}

/// Where rows `a` and `b` are the two complete rows, adjacent or not, both
/// are counted and taken out: two switched-off rows come in at the top and
/// all other rows keep their order.
pub proof fn lemma_double_clear(g: Seq<Seq<Cell>>, a: int, b: int)
    requires
        is_grid(g),
        0 <= a < b < HEIGHT,
        row_full(g[a]),
        row_full(g[b]),
        forall|r: int| 0 <= r < HEIGHT && r != a && r != b ==> !row_full(#[trigger] g[r]),
    ensures
        full_rows(g) == 2,
        compacted(g) == seq![emptied(g[0]), emptied(g[0])] + g.subrange(0, a) + g.subrange(
            a + 1,
            b,
        ) + g.subrange(b + 1, HEIGHT as int),
{
    let above = g.subrange(0, a);
    let between = g.subrange(a + 1, b);
    let below = g.subrange(b + 1, HEIGHT as int);
    assert(g =~= above + seq![g[a]] + between + seq![g[b]] + below);
    lemma_kept_single(g[a]);
    lemma_kept_single(g[b]);
    lemma_kept_concat(above, seq![g[a]]);
    lemma_kept_concat(above + seq![g[a]], between);
    lemma_kept_concat(above + seq![g[a]] + between, seq![g[b]]);
    lemma_kept_concat(above + seq![g[a]] + between + seq![g[b]], below);
    lemma_kept_all(above);
    lemma_kept_all(between);
    lemma_kept_all(below);
    assert(kept_rows(g) =~= above + between + below);
    assert(compacted(g) =~= seq![emptied(g[0]), emptied(g[0])] + above + between + below);
}

/// Whether every cell of row `row` is active.
pub fn row_complete(board: &Board, row: usize) -> (full: bool)
    requires
        row < HEIGHT,
    ensures
        full == row_full(board@[row as int]),
{
    broadcast use Board::lemma_is_grid;

    let mut active: usize = 0;
    let mut col: usize = 0;
    while col < WIDTH
        invariant
            col <= WIDTH,
            active <= col,
            row < HEIGHT,
            is_grid(board@),
            active == col <==> forall|c: int|
                0 <= c < col ==> (#[trigger] board@[row as int][c]).active,
        decreases WIDTH - col,
    {
        if board.cell(row, col).active() {
            active += 1;
        }
        col += 1;
    }
    active == WIDTH
}

/// Takes row `row` out of the board: every row above it moves down by one,
/// flag and colour alike, and the top row is switched off.
pub fn remove_row(board: &mut Board, row: usize)
    requires
        row < HEIGHT,
    ensures
        final(board)@ == collapsed(old(board)@, row as int),
{
    broadcast use Board::lemma_is_grid;

    let ghost g0 = board@;
    let mut r: usize = row;
    while r > 0
        invariant
            r <= row < HEIGHT,
            is_grid(g0),
            is_grid(board@),
            forall|a: int| 0 <= a <= r ==> #[trigger] board@[a] == g0[a],
            forall|a: int| r < a <= row ==> #[trigger] board@[a] == g0[a - 1],
            forall|a: int| row < a < HEIGHT ==> #[trigger] board@[a] == g0[a],
        decreases r,
    {
        let above = board.row(r - 1);
        board.put_row(r, above);
        r -= 1;
    }
    let mut col: usize = 0;
    while col < WIDTH
        invariant
            col <= WIDTH,
            row < HEIGHT,
            is_grid(g0),
            is_grid(board@),
            forall|c: int| 0 <= c < col ==> #[trigger] board@[0][c] == emptied(g0[0])[c],
            forall|c: int| col <= c < WIDTH ==> #[trigger] board@[0][c] == g0[0][c],
            forall|a: int| 0 < a <= row ==> #[trigger] board@[a] == g0[a - 1],
            forall|a: int| row < a < HEIGHT ==> #[trigger] board@[a] == g0[a],
        decreases WIDTH - col,
    {
        let cell = board.cell(0, col);
        board.put(0, col, Cell::new(false, cell.color()));
        col += 1;
    }
    assert(board@[0] =~= emptied(g0[0]));
    assert(board@ =~= collapsed(g0, row as int));
}

/// Takes every complete row out of the board and returns how many there
/// were. The board is scanned from the bottom row upwards; after a row has
/// been taken out the scan starts again at the bottom.
pub fn check_line_complete(board: &mut Board) -> (lines: u32)
    ensures
        final(board)@ == compacted(old(board)@),
        lines == full_rows(old(board)@),
{
    broadcast use Board::lemma_is_grid;

    let ghost g0 = board@;
    let ghost top = emptied(g0[0]);
    let mut lines: u32 = 0;
    let mut remaining: usize = HEIGHT;
    proof {
        lemma_kept_len(g0);
        assert(kept_rows(board@) =~= Seq::new(0, |i: int| top) + kept_rows(g0));
    }
    while remaining > 0
        invariant
            remaining <= HEIGHT,
            is_grid(g0),
            is_grid(board@),
            top == emptied(g0[0]),
            emptied(board@[0]) == top,
            forall|r: int| remaining <= r < HEIGHT ==> !row_full(#[trigger] board@[r]),
            kept_rows(board@) == Seq::new(lines as nat, |i: int| top) + kept_rows(g0),
            lines + kept_rows(g0).len() <= HEIGHT,
        decreases HEIGHT - lines, remaining,
    {
        let row = remaining - 1;
        if row_complete(board, row) {
            proof {
                lemma_kept_collapsed(board@, row as int);
                lemma_kept_len(collapsed(board@, row as int));
                assert(seq![top] + (Seq::new(lines as nat, |i: int| top) + kept_rows(g0))
                    =~= Seq::new((lines + 1) as nat, |i: int| top) + kept_rows(g0));
            }
            remove_row(board, row);
            lines += 1;
            remaining = HEIGHT;
        } else {
            remaining -= 1;
        }
    }
    proof {
        lemma_kept_all(board@);
        assert(board@.len() == lines + kept_rows(g0).len());
    }
    lines
}

} // verus!
