//! A primer in small pieces: the rules of a number-guessing game, a
//! Fibonacci function on big integers, a rectangle and its area, and a few
//! functions that pass strings and integers in and out.
//!
//! Every function carries a contract. Verus proves each of them but those
//! of the few functions that call into `num_bigint`, `num_traits` and
//! `rand`: these are marked, and their comments say what is taken on trust.

pub mod fibonacci;
pub mod functions;
pub mod game;
pub mod laws;
pub mod ownership;
pub mod rectangle;
pub mod text;
