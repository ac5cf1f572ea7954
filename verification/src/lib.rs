//! A falling-block puzzle on a fixed grid: the board, the pieces and their
//! rotation, placement and locking, line clearing, the draw of the next
//! piece, the rules of one tick of a game session, and the text of a frame.
//! Writing the frame out and reading the input are left to the caller.

pub mod grid;
pub mod piece;
pub mod placement;
pub mod lines;
pub mod bag;
pub mod input;
pub mod game;
pub mod render;
