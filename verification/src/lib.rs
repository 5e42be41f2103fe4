//! Zobrist fingerprints for shogi positions.
//!
//! A position is identified by a 64-bit key: the exclusive or of one constant
//! for every piece on a square, of constants for the pieces held in hand, and
//! of one bit for the side to move. The constants are drawn once from a
//! seeded generator, so every table holds the same ones.
pub mod fingerprint;
pub mod key;
pub mod pieces;
pub mod position;
pub mod random;
pub mod table;

pub use fingerprint::Fingerprint;
pub use key::Key;
pub use pieces::{Color, Piece, PieceType, Square};
pub use position::{Move, Position};
pub use table::ZobristTable;
