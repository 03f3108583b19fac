//! A falling-block puzzle engine: the board and the pieces, rotation with wall kicks,
//! the seven-bag randomizer, the lock delay, and the event core that drives them.
//!
//! Time never comes from a clock in here. Every operation that depends on it takes the
//! current time as a number, counted in whatever unit the caller's intervals use.

pub mod bag;
pub mod board;
pub mod control;
pub mod engine;
pub mod game;
pub mod mino;
pub mod shape;
