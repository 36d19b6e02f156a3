//! A checkers rules engine on bitboards: legal-move generation, move validation and a
//! board that advances and rewinds turn by turn.

pub mod bitboard;
pub mod board;
pub mod notation;
pub mod position;
pub mod square;
pub mod tables;
pub mod turn;
