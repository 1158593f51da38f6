//! A terminal Kakuro puzzle engine.
//!
//! The library holds the verified core of the game: the cell and board data
//! model, cursor navigation with wraparound, the run-based validator that
//! recomputes every clue cell's correctness flags, the pure rendering pass
//! that turns a board into positioned draw operations, and the key dispatch
//! of the play and menu loops. Terminal I/O lives outside the library.

pub mod board;
pub mod cell;
pub mod game;
pub mod laws;
pub mod levels;
pub mod render;
pub mod text;
pub mod validate;

pub use board::Board;
pub use cell::Cell;
pub use game::Key;
pub use game::MenuAction;
pub use game::menu_action;
pub use levels::levels;
pub use render::DrawOp;
pub use render::Style;
