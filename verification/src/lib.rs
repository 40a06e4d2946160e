//! Rules engine for bughouse, the two-board chess variant in which a piece
//! captured on one board goes to a pool on the other board, from which it
//! may later be deployed instead of a move.
//!
//! The code is verified against a mathematical model of the game: `rules`
//! holds the model of a single position (squares, move lists, the attack
//! oracle), `movegen` the generator and the oracle themselves, `game` the
//! game on one board (turns, clocks, pools, outcome), `logic` the table of
//! two boards, and `laws` what follows for every game. `info_courier` and
//! `info_reader` write a table down as text and read it back. Two calls
//! into the standard library are taken on trust; each says so where it
//! stands.

pub mod aux;
pub mod board;
pub mod chessboard;
pub mod game;
pub mod info_courier;
pub mod info_reader;
pub mod laws;
pub mod logic;
pub mod movegen;
pub mod parser;
pub mod rules;
pub mod util;
