//! A bitboard chess engine: move generation with legality filtering,
//! check and checkmate detection, a static evaluator and an alpha-beta
//! search over positions.
//!
//! Positions are values: every move application yields a fresh `Board`,
//! and `Board::wf` is the invariant each produced position satisfies.
pub mod bit_functions;
pub mod board;
pub mod constants;
pub mod engine;
pub mod render;
