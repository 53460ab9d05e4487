//! A verified chess position core: bitboard square sets, precomputed attack
//! tables with magic-multiply sliding-piece lookups, FEN parsing and
//! serialization, and move application.
pub mod attack_tables;
pub mod bitboard;
mod bits;
pub mod board_slice;
pub mod enums;
pub mod errors;
pub mod fen;
pub mod fen_round_trip;
pub mod move_performing;
pub mod table_generators;
