//! A UCI-oriented chess engine core: bitboard position representation,
//! pseudo-legal move generation, incremental make/unmake with Zobrist
//! hashing, draw detection, and alpha-beta search with iterative
//! deepening support.
//!
//! The crate holds the verified game logic; the surrounding process
//! (command loop, threads, clocks) lives outside and talks to it in
//! plain values.

pub mod attacks;
pub mod bitboard;
pub mod bits;
pub mod checks;
pub mod clock;
pub mod constants;
pub mod game;
pub mod laws;
pub mod draw;
pub mod evaluate;
pub mod board;
pub mod chess_move;
pub mod movegen;
pub mod perft;
pub mod piece;
pub mod make;
pub mod player;
pub mod position;
pub mod unmake;
pub mod utility;
pub mod zobrist;
