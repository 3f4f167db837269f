//! A decision engine for two disc-dropping board games played on a grid of
//! six rows and seven columns: the classic four-in-a-row game, and the
//! letter game in which the players drop `T` and `O` discs to spell a word.
//!
//! The engine is pure: it holds no canvas, no clock and no random source.
//! A caller hands it boards, moves and uniform draws as plain values and gets
//! plain values back.
//!
//! - [`board`]: the grid, the ply count and the rule by which a disc is dropped;
//! - [`moves`]: the legal moves of a position;
//! - [`eval`]: wins, draws and the positional score;
//! - [`search`]: minimax with alpha-beta pruning, and the proof that pruning
//!   changes neither the score nor the best moves;
//! - [`select`]: the tie-break among the best moves and the fallback;
//! - [`difficulty`]: the levels and their search depths;
//! - [`record`] and [`scores`]: the record of a finished game and the figures
//!   of the score pages;
//! - [`site`]: where the files of the web page lie.

pub mod board;
pub mod difficulty;
pub mod eval;
pub mod moves;
pub mod record;
pub mod scores;
pub mod search;
pub mod select;
pub mod site;
