//! The error taxonomy: FEN parse errors, magic-number search errors, and
//! move-application errors. Every error is a reportable value; no routine
//! in this crate panics on malformed input.
use vstd::prelude::*;

verus! {

/// Why a FEN string was rejected. Each malformed field yields its own
/// variant so a caller can report exactly which field was invalid.
#[derive(Clone, Copy, Debug, PartialEq, Eq)]
pub enum FENParseError {
    /// The string does not have exactly 6 whitespace-separated fields;
    /// carries the count found.
    IncorrectPartsCount(usize),
    /// The board field does not have exactly 8 ranks; carries the count
    /// found.
    IncorrectBoardLength(usize),
    /// A rank describes more or fewer than 8 squares; carries the rank
    /// number counted from rank 1.
    IncorrectBoardRowLength(usize),
    /// An unrecognized character in the board field; carries the character.
    IncorrectBoard(char),
    /// The side-to-move field is neither `w` nor `b`.
    IncorrectToMove,
    /// An unrecognized character in the castling-rights field.
    IncorrectCastlingRights,
    /// The en-passant field is neither `-` nor a board square.
    IncorrectEnPassantSquare,
    /// The half-move clock is not a non-negative integer.
    IncorrectHalfMoveClock,
    /// The full-move counter is not a non-negative integer.
    IncorrectFullMoveClock,
}

/// Why the offline magic-number search failed.
#[derive(Clone, Copy, Debug, PartialEq, Eq)]
pub enum MagicNumberError {
    /// Magic numbers exist only for the sliding pieces, bishop and rook.
    IncorrectPiece,
    /// No collision-free multiplier was found within the attempt budget.
    MagicNumberNotFound,
}

/// Why a move could not be applied.
#[derive(Clone, Copy, Debug, PartialEq, Eq)]
pub enum PerformMoveError {
    /// An en-passant capture was requested with no en-passant target square
    /// recorded behind the destination.
    EnPassantImpossible,
    /// A double push whose midpoint square would lie off the board.
    ImpossibleDoublePush,
}

} // verus!
