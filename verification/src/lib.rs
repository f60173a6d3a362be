//! Coordinates and square sets for an 8x8 board.
//!
//! [`square::Square`] names one of the 64 cells of the board, and
//! [`bitboard::Bitboard`] is a set of such cells held in one 64-bit word.

pub mod bitboard;
pub mod bits;
pub mod square;
pub mod text;
