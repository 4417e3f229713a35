//! A verified core for a minimal chess engine front-end.
//!
//! The library models an 8x8 chess board, the pieces standing on it, and the
//! generation of pseudo-legal destination squares for each piece kind. Move
//! application re-validates the requested destination against the generated
//! move set, so a board can only evolve through moves the rules allow.

pub mod board;
pub mod piece;
pub mod position;
