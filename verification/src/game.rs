//! A game session: the board, the score and the piece in flight, and the
//! rules by which one tick takes the session from one state to the next.
//! The caller writes the frames out, reads the input and hands in the next
//! piece; every decision is made here.

use vstd::prelude::*;
use crate::grid::{blank_grid, is_grid, Board, Cell, HEIGHT, WIDTH};
use crate::input::Command;
use crate::lines::{check_line_complete, compacted, full_rows, lemma_compacted_has_no_full_row};
use crate::piece::{
    height, is_shape, lemma_rotated_is_matrix, lemma_rotated_is_shape, rotated, rotation_blocked,
    width, Piece,
};
use crate::placement::{
    blocked_below, clamp_column, clamped, clear_piece, erased, lands, lock_check, merge_piece,
    merged, overlaps, shift_left, shift_right, shifted_left, shifted_right,
};

verus! {

/// The column at which a piece enters the board. It enters at row 0.
pub const SPAWN_COLUMN: usize = 4;

/// The most that one lock can add to the score.
pub const TOP_AWARD: u32 = 1200;

/// The points that clearing `lines` rows in one lock is worth.
pub open spec fn points(lines: nat) -> nat {
    if lines == 0 {
        0
    } else if lines == 1 {
        40
    } else if lines == 2 {
        100
    } else if lines == 3 {
        300
    } else {
        1200
    }
}

/// The points that clearing `lines` rows in one lock is worth.
pub fn score_for(lines: u32) -> (award: u32)
    ensures
        award == points(lines as nat),
        award <= TOP_AWARD,
{
    if lines == 0 {
        0
    } else if lines == 1 {
        40
    } else if lines == 2 {
        100
    } else if lines == 3 {
        300
    } else {
        1200
    }
}

/// The piece in flight, as a mathematical value.
pub struct ActiveView {
    /// Its matrix.
    pub shape: Seq<Seq<bool>>,
    /// Its colour tag.
    pub color: u8,
    /// The column of its left edge.
    pub x: int,
    /// The row of its top edge.
    pub y: int,
    /// Where it stands drawn in the board, column first, if it has been
    /// drawn at all.
    pub drawn: Option<(int, int)>,
    /// A drop has been asked for: the piece falls without further commands.
    pub fast_drop: bool,
}

/// A session, as a mathematical value.
pub struct GameView {
    pub board: Seq<Seq<Cell>>,
    pub score: nat,
    /// The game has ended.
    pub over: bool,
    /// The piece in flight, if there is one.
    pub active: Option<ActiveView>,
}

/// What a tick did to the piece in flight.
#[derive(Copy, Clone, Debug, PartialEq, Eq, Structural)]
pub enum Outcome {
    /// The piece fell by one row and is still in flight.
    Falling,
    /// The piece came to rest and `lines` rows were cleared.
    Locked { lines: u32 },
    /// The piece came to rest in the top row on an active cell: `lines`
    /// rows were cleared and the game has ended.
    GameOver { lines: u32 },
}

/// A piece in flight that the rules can handle: a shape that is neither
/// wider nor taller than the board is wide, at a position that is not
/// negative.
pub open spec fn valid_active(a: ActiveView) -> bool {
    &&& is_shape(a.shape)
    &&& width(a.shape) <= WIDTH
    &&& height(a.shape) <= WIDTH
    &&& 0 <= a.x
    &&& 0 <= a.y
    &&& a.drawn matches Some(at) ==> 0 <= at.0 && 0 <= at.1
}

/// A session that the rules can handle: its board is a grid, its piece, if
/// any, is valid, and no piece is in flight once the game has ended.
pub open spec fn valid(s: GameView) -> bool {
    &&& is_grid(s.board)
    &&& s.active matches Some(a) ==> valid_active(a) && !s.over
}

/// The board without the piece in flight: the cells where the piece stands
/// drawn are switched off. A piece that was never drawn leaves the board as
/// it is.
pub open spec fn lifted(s: GameView) -> Seq<Seq<Cell>> {
    let a = s.active->0;
    match a.drawn {
        Some(at) => erased(s.board, a.shape, at.0, at.1),
        None => s.board,
    }
}

/// The piece in flight after the command has been carried out, before it
/// is drawn and before it falls. A left or right shift stops at the walls,
/// and at nothing else: active cells beside the piece do not hold it back.
/// A quarter turn is made unless it is refused, and whether or not it was
/// made the column is clamped to the width the piece then has. A piece that
/// is dropping takes no command.
pub open spec fn commanded(s: GameView, cmd: Command) -> ActiveView {
    let a = s.active->0;
    if a.fast_drop {
        a
    } else {
        match cmd {
            Command::Left => ActiveView { x: shifted_left(a.x), ..a },
            Command::Right => ActiveView { x: shifted_right(a.x, width(a.shape)), ..a },
            Command::Rotate => {
                let shape = if rotation_blocked(lifted(s), a.shape, a.x, a.y) {
                    a.shape
                } else {
                    rotated(a.shape)
                };
                ActiveView { shape, x: clamped(a.x, width(shape)), ..a }
            },
            Command::Drop => ActiveView { fast_drop: true, ..a },
            Command::Idle => a,
        }
    }
}

/// The piece comes to rest in this tick.
pub open spec fn locks(s: GameView, cmd: Command) -> bool {
    let a = commanded(s, cmd);
    lands(lifted(s), a.shape, a.x, a.y)
}

/// The game ends in this tick: the piece stands in the top row and on an
/// active cell.
pub open spec fn ends(s: GameView, cmd: Command) -> bool {
    let a = commanded(s, cmd);
    a.y == 0 && blocked_below(lifted(s), a.shape, a.x, a.y)
}

/// The board with the piece drawn where the command has put it.
pub open spec fn drawn_board(s: GameView, cmd: Command) -> Seq<Seq<Cell>> {
    let a = commanded(s, cmd);
    merged(lifted(s), a.shape, a.color, a.x, a.y)
}

/// The number of rows that this tick clears: none while the piece is in
/// flight, and the complete rows of the board once it has come to rest.
pub open spec fn lines_cleared(s: GameView, cmd: Command) -> nat {
    if locks(s, cmd) {
        full_rows(drawn_board(s, cmd))
    } else {
        0
    }
}

/// The session after one tick.
///
/// The piece is taken out of the board where it was drawn, the command is
/// carried out, and the piece is drawn at its new place. If it has come to
/// rest there it stays in the board, the complete rows are cleared and
/// scored, and the session is left without a piece; the game has ended if
/// the piece stood in the top row on an active cell. Otherwise the piece
/// falls by one row.
pub open spec fn step(s: GameView, cmd: Command) -> GameView {
    let a = commanded(s, cmd);
    if locks(s, cmd) {
        GameView {
            board: compacted(drawn_board(s, cmd)),
            score: s.score + points(lines_cleared(s, cmd)),
            over: ends(s, cmd),
            active: None,
        }
    } else {
        GameView {
            board: drawn_board(s, cmd),
            score: s.score,
            over: false,
            active: Some(ActiveView { y: a.y + 1, drawn: Some((a.x, a.y)), ..a }),
        }
    }
}

/// What the tick reports to the caller.
pub open spec fn outcome_of(s: GameView, cmd: Command) -> Outcome {
    if !locks(s, cmd) {
        Outcome::Falling
    } else if ends(s, cmd) {
        Outcome::GameOver { lines: lines_cleared(s, cmd) as u32 }
    } else {
        Outcome::Locked { lines: lines_cleared(s, cmd) as u32 }
    }
}

/// The session after a piece has entered: it stands at the spawn column in
/// the top row, not yet drawn, and is not dropping.
pub open spec fn spawned(s: GameView, shape: Seq<Seq<bool>>, color: u8) -> GameView {
    GameView {
        active: Some(
            ActiveView {
                shape,
                color,
                x: SPAWN_COLUMN as int,
                y: 0,
                drawn: None,
                fast_drop: false,
            },
        ),
        ..s
    }
}

/// The piece in flight.
#[derive(Debug)]
pub struct ActivePiece {
    piece: Piece,
    x: usize,
    y: usize,
    drawn: Option<(usize, usize)>,
    fast_drop: bool,
}

impl View for ActivePiece {
    type V = ActiveView;

    closed spec fn view(&self) -> ActiveView {
        ActiveView {
            shape: self.piece.shape(),
            color: self.piece.tag(),
            x: self.x as int,
            y: self.y as int,
            drawn: match self.drawn {
                Some(at) => Some((at.0 as int, at.1 as int)),
                None => None,
            },
            fast_drop: self.fast_drop,
        }
    }
}

impl ActivePiece {
    /// The piece itself.
    pub fn piece(&self) -> (piece: &Piece)
        ensures
            piece.shape() == self@.shape,
            piece.tag() == self@.color,
    {
        &self.piece
    }

    /// The column of its left edge.
    pub fn x(&self) -> (x: usize)
        ensures
            x == self@.x,
    {
        self.x
    }

    /// The row of its top edge.
    pub fn y(&self) -> (y: usize)
        ensures
            y == self@.y,
    {
        self.y
    }

    /// Whether a drop has been asked for.
    pub fn fast_drop(&self) -> (dropping: bool)
        ensures
            dropping == self@.fast_drop,
    {
        self.fast_drop
    }
}

/// A game session.
#[derive(Debug)]
pub struct Game {
    board: Board,
    score: u32,
    over: bool,
    active: Option<ActivePiece>,
}

impl View for Game {
    type V = GameView;

    closed spec fn view(&self) -> GameView {
        GameView {
            board: self.board@,
            score: self.score as nat,
            over: self.over,
            active: match self.active {
                Some(a) => Some(a@),
                None => None,
            },
        }
    }
}

impl Game {
    /// The session is one that the rules can handle.
    pub open spec fn wf(&self) -> bool {
        valid(self@)
    }

    /// A new session: an empty board, no points, no piece yet.
    pub fn new() -> (game: Game)
        ensures
            game.wf(),
            game@ == (GameView { board: blank_grid(), score: 0, over: false, active: None }),
    {
        let game = Game { board: Board::new(), score: 0, over: false, active: None };
        proof {
            game.board.lemma_is_grid();
        }
        game
    }

    /// A session that takes up a given board and score, with no piece yet.
    pub fn resume(board: Board, score: u32) -> (game: Game)
        ensures
            game.wf(),
            game@ == (GameView { board: board@, score: score as nat, over: false, active: None }),
    {
        proof {
            board.lemma_is_grid();
        }
        Game { board, score, over: false, active: None }
    }

    /// The board, with the piece in flight drawn where the last tick put it.
    pub fn board(&self) -> (board: &Board)
        ensures
            board@ == self@.board,
    {
        &self.board
    }

    /// The points scored so far.
    pub fn score(&self) -> (score: u32)
        ensures
            score == self@.score,
    {
        self.score
    }

    /// Whether the game has ended.
    pub fn is_over(&self) -> (over: bool)
        ensures
            over == self@.over,
    {
        self.over
    }

    /// The piece in flight, if there is one.
    pub fn active(&self) -> (active: Option<&ActivePiece>)
        ensures
            active is Some <==> self@.active is Some,
            active matches Some(a) ==> a@ == self@.active->0,
    {
        self.active.as_ref()
    }

    /// Whether the next tick takes a command from the player: a piece is in
    /// flight and no drop has been asked for.
    pub fn awaits_input(&self) -> (waits: bool)
        ensures
            waits == (self@.active matches Some(a) && !a.fast_drop),
    {
        match &self.active {
            Some(a) => !a.fast_drop,
            None => false,
        }
    }

    /// Whether [`Game::tick`] may be called with any command: a piece is in
    /// flight, its row can still be counted up, and the score has room for
    /// the top award. [`Game::try_tick`] makes the test for one command, and
    /// makes it exactly.
    pub fn can_tick(&self) -> (ok: bool)
        ensures
            ok == tickable(self@),
            ok ==> forall|cmd: Command| may_tick(self@, cmd),
    {
        match &self.active {
            Some(a) => a.y < usize::MAX && self.score <= u32::MAX - TOP_AWARD,
            None => false,
        }
    }

    /// Whether [`Game::spawn`] may be called with this piece.
    pub fn can_spawn(&self, piece: &Piece) -> (ok: bool)
        requires
            piece.wf(),
        ensures
            ok == (admits(self@) && enters(piece.shape())),
    {
        !self.over && self.active.is_none() && piece.rows() <= WIDTH && piece.cols() <= WIDTH
    }

    /// Lets a piece enter at the spawn column in the top row.
    pub fn spawn(&mut self, piece: Piece)
        requires
            old(self).wf(),
            admits(old(self)@),
            piece.wf(),
            enters(piece.shape()),
        ensures
            final(self).wf(),
            final(self)@ == spawned(old(self)@, piece.shape(), piece.tag()),
    {
        self.active = Some(
            ActivePiece { piece, x: SPAWN_COLUMN, y: 0, drawn: None, fast_drop: false },
        );
    }

    /// One tick of the game. The piece in flight is taken out of the board
    /// where it stands drawn, the command is carried out, and the piece is
    /// drawn at its new place; then it either falls by one row or, having
    /// come to rest, stays in the board, and the complete rows are cleared
    /// and scored. [`step`] says what the session is afterwards.
    pub fn tick(&mut self, cmd: Command) -> (outcome: Outcome)
        requires
            old(self).wf(),
            may_tick(old(self)@, cmd),
        ensures
            final(self).wf(),
            final(self)@ == step(old(self)@, cmd),
            outcome == outcome_of(old(self)@, cmd),
    {
        self.try_tick(cmd).unwrap()
    }

    /// One tick of the game, where it can be taken. Where no piece is in
    /// flight, or the score or the row of the piece would pass what the
    /// machine can count, nothing is returned and the session stays as it
    /// was.
    pub fn try_tick(&mut self, cmd: Command) -> (outcome: Option<Outcome>)
        requires
            old(self).wf(),
        ensures
            final(self).wf(),
            may_tick(old(self)@, cmd) ==> final(self)@ == step(old(self)@, cmd) && outcome == Some(
                outcome_of(old(self)@, cmd),
            ),
            !may_tick(old(self)@, cmd) ==> final(self)@ == old(self)@ && outcome is None,
    {
        broadcast use Board::lemma_is_grid;

        let a = match self.active.take() {
            Some(a) => a,
            None => {
                return None;
            },
        };
        let mut board = self.board;
        match a.drawn {
            Some(at) => {
                clear_piece(&mut board, &a.piece, at.0, at.1);
            },
            None => {},
        }
        let live = !a.fast_drop;
        let turned = if live && cmd == Command::Rotate {
            proof {
                lemma_rotated_is_matrix(a.piece.shape());
            }
            a.piece.turned(&board, a.x, a.y)
        } else {
            None
        };
        let piece = match &turned {
            Some(piece) => piece,
            None => &a.piece,
        };
        let x = if !live {
            a.x
        } else {
            match cmd {
                Command::Left => shift_left(a.x),
                Command::Right => shift_right(a.x, piece.cols()),
                Command::Rotate => clamp_column(a.x, piece.cols()),
                Command::Drop => a.x,
                Command::Idle => a.x,
            }
        };
        let fast_drop = a.fast_drop || cmd == Command::Drop;
        let contact = lock_check(&board, piece, x, a.y);
        merge_piece(&mut board, piece, x, a.y);
        if contact.floor || contact.block {
            let lines = check_line_complete(&mut board);
            match self.score.checked_add(score_for(lines)) {
                Some(score) => {
                    self.board = board;
                    self.score = score;
                    if contact.block && a.y == 0 {
                        self.over = true;
                        Some(Outcome::GameOver { lines })
                    } else {
                        Some(Outcome::Locked { lines })
                    }
                },
                None => {
                    self.active = Some(a);
                    None
                },
            }
        } else if a.y == usize::MAX {
            self.active = Some(a);
            None
        } else {
            let y = a.y;
            let piece = match turned {
                Some(piece) => piece,
                None => a.piece,
            };
            self.board = board;
            self.active = Some(ActivePiece { piece, x, y: y + 1, drawn: Some((x, y)), fast_drop });
            Some(Outcome::Falling)
        }
    }
}

/// No piece is in flight and the game has not ended: a piece may enter.
pub open spec fn admits(s: GameView) -> bool {
    s.active is None && !s.over
}

/// The shape is neither wider nor taller than the board is wide, so that
/// it can be clamped to the board however it is turned.
pub open spec fn enters(shape: Seq<Seq<bool>>) -> bool {
    width(shape) <= WIDTH && height(shape) <= WIDTH
}

/// A tick with this command can be taken: a piece is in flight, and the
/// session after the tick can be held in memory, its score in 32 bits and
/// the row of its piece in a machine word.
pub open spec fn may_tick(s: GameView, cmd: Command) -> bool {
    &&& s.active is Some
    &&& step(s, cmd).score <= u32::MAX
    &&& step(s, cmd).active matches Some(a) ==> a.y <= usize::MAX
}

/// A tick can be taken whatever the command: a piece is in flight, its row
/// can still be counted up, and the score has room for the top award.
pub open spec fn tickable(s: GameView) -> bool {
    &&& s.active matches Some(a) && a.y < usize::MAX
    &&& s.score + TOP_AWARD <= u32::MAX
}

/// A tick takes a valid session to a valid session: the board stays a
/// grid and the piece, if it is still in flight, stays a valid piece.
pub proof fn lemma_step_keeps_valid(s: GameView, cmd: Command)
    requires
        valid(s),
        s.active is Some,
    ensures
        valid(step(s, cmd)),
{
    let a = s.active->0;
    lemma_rotated_is_matrix(a.shape);
    lemma_rotated_is_shape(a.shape);
    let b = commanded(s, cmd);
    assert(valid_active(b));
    assert(is_grid(drawn_board(s, cmd)));
    lemma_compacted_has_no_full_row(drawn_board(s, cmd));
}

/// The scoring table. A tick that clears no row leaves the score as it
/// is; one that clears 1, 2 or 3 rows adds 40, 100 or 300 points; one
/// that clears 4 rows or more adds 1200. The score never goes down.
pub proof fn lemma_score_table(s: GameView, cmd: Command)
    requires
        valid(s),
        s.active is Some,
    ensures
        step(s, cmd).score >= s.score,
        lines_cleared(s, cmd) == 0 ==> step(s, cmd).score == s.score,
        lines_cleared(s, cmd) == 1 ==> step(s, cmd).score == s.score + 40,
        lines_cleared(s, cmd) == 2 ==> step(s, cmd).score == s.score + 100,
        lines_cleared(s, cmd) == 3 ==> step(s, cmd).score == s.score + 300,
        lines_cleared(s, cmd) >= 4 ==> step(s, cmd).score == s.score + 1200,
{
}

/// A left shift at column 0 leaves the piece at column 0: there it is
/// drawn, and there it is after the tick if it is still in flight.
pub proof fn lemma_left_at_wall(s: GameView)
    requires
        valid(s),
        s.active matches Some(a) && a.x == 0,
    ensures
        commanded(s, Command::Left).x == 0,
        step(s, Command::Left).active matches Some(a) ==> a.x == 0,
{
}

/// A right shift of a piece that touches the right wall leaves it in its
/// column: there it is drawn, and there it is after the tick if it is
/// still in flight.
pub proof fn lemma_right_at_wall(s: GameView)
    requires
        valid(s),
        s.active matches Some(a) && a.x + width(a.shape) == WIDTH,
    ensures
        commanded(s, Command::Right).x == s.active->0.x,
        step(s, Command::Right).active matches Some(a) ==> a.x == s.active->0.x,
{
}

/// A quarter turn that is refused leaves the matrix of the piece as it is.
/// One that is made puts the piece where it lies within the board, above
/// the floor and between the walls, with no filled sub-cell on an active
/// cell.
pub proof fn lemma_turn(s: GameView)
    requires
        valid(s),
        s.active matches Some(a) && !a.fast_drop,
    ensures
        rotation_blocked(lifted(s), s.active->0.shape, s.active->0.x, s.active->0.y) ==> commanded(
            s,
            Command::Rotate,
        ).shape == s.active->0.shape,
        !rotation_blocked(lifted(s), s.active->0.shape, s.active->0.x, s.active->0.y) ==> ({
            let a = commanded(s, Command::Rotate);
            &&& a.shape == rotated(s.active->0.shape)
            &&& 0 <= a.x
            &&& a.x + width(a.shape) <= WIDTH
            &&& a.y + height(a.shape) <= HEIGHT
            &&& !overlaps(lifted(s), a.shape, a.x, a.y)
        }),
{
    lemma_rotated_is_matrix(s.active->0.shape);
}

/// A piece that lies between the walls stays between them, whatever the
/// command.
pub proof fn lemma_stays_between_walls(s: GameView, cmd: Command)
    requires
        valid(s),
        s.active matches Some(a) && a.x + width(a.shape) <= WIDTH,
    ensures
        0 <= commanded(s, cmd).x,
        commanded(s, cmd).x + width(commanded(s, cmd).shape) <= WIDTH,
{
    lemma_rotated_is_matrix(s.active->0.shape);
}

/// The game ends exactly in a tick in which the piece, after the command,
/// stands in the top row with an active cell right below one of its filled
/// sub-cells. In that tick the piece comes to rest and does not fall
/// again: the session is left without a piece.
pub proof fn lemma_game_over_in_top_row(s: GameView, cmd: Command)
    requires
        valid(s),
        s.active is Some,
    ensures
        step(s, cmd).over <==> s.active->0.y == 0 && blocked_below(
            lifted(s),
            commanded(s, cmd).shape,
            commanded(s, cmd).x,
            0,
        ),
        step(s, cmd).over ==> step(s, cmd).active is None && outcome_of(s, cmd) is GameOver,
{
}

/// A piece that enters on top of an active cell ends the game in its first
/// tick, if no command moves it away: it is drawn where it entered and
/// never falls.
pub proof fn lemma_blocked_spawn_ends_game(s: GameView, shape: Seq<Seq<bool>>, color: u8)
    requires
        valid(s),
        admits(s),
        is_shape(shape),
        enters(shape),
        blocked_below(s.board, shape, SPAWN_COLUMN as int, 0),
    ensures
        step(spawned(s, shape, color), Command::Idle).over,
        step(spawned(s, shape, color), Command::Idle).active is None,
        step(spawned(s, shape, color), Command::Idle).board == compacted(
            merged(s.board, shape, color, SPAWN_COLUMN as int, 0),
        ),
{
}

} // verus!
