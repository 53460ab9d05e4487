//! Core enumerations of the chess domain: colors, piece kinds, castling
//! rights, squares, files and ranks, together with their integer encodings.
use vstd::prelude::*;

use crate::board_slice::BoardSlice;

verus! {

/// The two sides of a chess game.
#[derive(Clone, Copy, Debug, PartialEq, Eq, Structural)]
pub enum Color {
    White,
    Black,
}

impl Color {
    /// Index of the color in the piece-set array layout: White = 0, Black = 1.
    pub open spec fn idx(self) -> int {
        match self {
            Color::White => 0,
            Color::Black => 1,
        }
    }

    pub open spec fn opposite_spec(self) -> Color {
        match self {
            Color::White => Color::Black,
            Color::Black => Color::White,
        }
    }

    /// The other side.
    pub fn opposite(&self) -> (c: Color)
        ensures
            c == self.opposite_spec(),
    {
        match self {
            Color::White => Color::Black,
            Color::Black => Color::White,
        }
    }

    pub fn index(&self) -> (i: usize)
        ensures
            i as int == self.idx(),
    {
        match self {
            Color::White => 0,
            Color::Black => 1,
        }
    }
}

/// The six piece kinds, in the fixed enumeration order used throughout.
#[derive(Clone, Copy, Debug, PartialEq, Eq, Structural)]
pub enum Piece {
    Pawn,
    Knight,
    Bishop,
    Rook,
    Queen,
    King,
}

impl Piece {
    /// Index of the piece kind in the piece-set array layout.
    pub open spec fn idx(self) -> int {
        match self {
            Piece::Pawn => 0,
            Piece::Knight => 1,
            Piece::Bishop => 2,
            Piece::Rook => 3,
            Piece::Queen => 4,
            Piece::King => 5,
        }
    }

    pub fn index(&self) -> (i: usize)
        ensures
            i as int == self.idx(),
    {
        match self {
            Piece::Pawn => 0,
            Piece::Knight => 1,
            Piece::Bishop => 2,
            Piece::Rook => 3,
            Piece::Queen => 4,
            Piece::King => 5,
        }
    }

    /// The piece kind with the given array index, if any.
    pub fn from_index(i: usize) -> (p: Option<Piece>)
        ensures
            i < 6 <==> p is Some,
            p matches Some(q) ==> q.idx() == i as int,
    {
        match i {
            0 => Some(Piece::Pawn),
            1 => Some(Piece::Knight),
            2 => Some(Piece::Bishop),
            3 => Some(Piece::Rook),
            4 => Some(Piece::Queen),
            5 => Some(Piece::King),
            _ => None,
        }
    }
}

/// The four castling moves; each owns one bit of the castling-rights mask.
#[derive(Clone, Copy, Debug, PartialEq, Eq, Structural)]
pub enum CastleMoves {
    WhiteKingsideCastle,
    WhiteQueensideCastle,
    BlackKingsideCastle,
    BlackQueensideCastle,
}

impl CastleMoves {
    /// The bit this right occupies in the 4-bit castling-rights mask.
    pub open spec fn mask_spec(self) -> u8 {
        match self {
            CastleMoves::WhiteKingsideCastle => 0x1,
            CastleMoves::WhiteQueensideCastle => 0x2,
            CastleMoves::BlackKingsideCastle => 0x4,
            CastleMoves::BlackQueensideCastle => 0x8,
        }
    }

    pub fn mask(&self) -> (m: u8)
        ensures
            m == self.mask_spec(),
    {
        match self {
            CastleMoves::WhiteKingsideCastle => 0x1,
            CastleMoves::WhiteQueensideCastle => 0x2,
            CastleMoves::BlackKingsideCastle => 0x4,
            CastleMoves::BlackQueensideCastle => 0x8,
        }
    }
}

/// The 64 board squares in rank-major order: index = rank * 8 + file,
/// with square 0 = A1, square 7 = H1, square 63 = H8.
#[derive(Clone, Copy, Debug, PartialEq, Eq, Structural)]
pub enum Square {
    A1,
    B1,
    C1,
    D1,
    E1,
    F1,
    G1,
    H1,
    A2,
    B2,
    C2,
    D2,
    E2,
    F2,
    G2,
    H2,
    A3,
    B3,
    C3,
    D3,
    E3,
    F3,
    G3,
    H3,
    A4,
    B4,
    C4,
    D4,
    E4,
    F4,
    G4,
    H4,
    A5,
    B5,
    C5,
    D5,
    E5,
    F5,
    G5,
    H5,
    A6,
    B6,
    C6,
    D6,
    E6,
    F6,
    G6,
    H6,
    A7,
    B7,
    C7,
    D7,
    E7,
    F7,
    G7,
    H7,
    A8,
    B8,
    C8,
    D8,
    E8,
    F8,
    G8,
    H8,
}

impl Square {
    /// The square's index in rank-major order.
    pub open spec fn idx(self) -> int {
        match self {
            Square::A1 => 0,
            Square::B1 => 1,
            Square::C1 => 2,
            Square::D1 => 3,
            Square::E1 => 4,
            Square::F1 => 5,
            Square::G1 => 6,
            Square::H1 => 7,
            Square::A2 => 8,
            Square::B2 => 9,
            Square::C2 => 10,
            Square::D2 => 11,
            Square::E2 => 12,
            Square::F2 => 13,
            Square::G2 => 14,
            Square::H2 => 15,
            Square::A3 => 16,
            Square::B3 => 17,
            Square::C3 => 18,
            Square::D3 => 19,
            Square::E3 => 20,
            Square::F3 => 21,
            Square::G3 => 22,
            Square::H3 => 23,
            Square::A4 => 24,
            Square::B4 => 25,
            Square::C4 => 26,
            Square::D4 => 27,
            Square::E4 => 28,
            Square::F4 => 29,
            Square::G4 => 30,
            Square::H4 => 31,
            Square::A5 => 32,
            Square::B5 => 33,
            Square::C5 => 34,
            Square::D5 => 35,
            Square::E5 => 36,
            Square::F5 => 37,
            Square::G5 => 38,
            Square::H5 => 39,
            Square::A6 => 40,
            Square::B6 => 41,
            Square::C6 => 42,
            Square::D6 => 43,
            Square::E6 => 44,
            Square::F6 => 45,
            Square::G6 => 46,
            Square::H6 => 47,
            Square::A7 => 48,
            Square::B7 => 49,
            Square::C7 => 50,
            Square::D7 => 51,
            Square::E7 => 52,
            Square::F7 => 53,
            Square::G7 => 54,
            Square::H7 => 55,
            Square::A8 => 56,
            Square::B8 => 57,
            Square::C8 => 58,
            Square::D8 => 59,
            Square::E8 => 60,
            Square::F8 => 61,
            Square::G8 => 62,
            Square::H8 => 63,
        }
    }

    pub fn index(&self) -> (i: usize)
        ensures
            i as int == self.idx(),
            i < 64,
    {
        match self {
            Square::A1 => 0,
            Square::B1 => 1,
            Square::C1 => 2,
            Square::D1 => 3,
            Square::E1 => 4,
            Square::F1 => 5,
            Square::G1 => 6,
            Square::H1 => 7,
            Square::A2 => 8,
            Square::B2 => 9,
            Square::C2 => 10,
            Square::D2 => 11,
            Square::E2 => 12,
            Square::F2 => 13,
            Square::G2 => 14,
            Square::H2 => 15,
            Square::A3 => 16,
            Square::B3 => 17,
            Square::C3 => 18,
            Square::D3 => 19,
            Square::E3 => 20,
            Square::F3 => 21,
            Square::G3 => 22,
            Square::H3 => 23,
            Square::A4 => 24,
            Square::B4 => 25,
            Square::C4 => 26,
            Square::D4 => 27,
            Square::E4 => 28,
            Square::F4 => 29,
            Square::G4 => 30,
            Square::H4 => 31,
            Square::A5 => 32,
            Square::B5 => 33,
            Square::C5 => 34,
            Square::D5 => 35,
            Square::E5 => 36,
            Square::F5 => 37,
            Square::G5 => 38,
            Square::H5 => 39,
            Square::A6 => 40,
            Square::B6 => 41,
            Square::C6 => 42,
            Square::D6 => 43,
            Square::E6 => 44,
            Square::F6 => 45,
            Square::G6 => 46,
            Square::H6 => 47,
            Square::A7 => 48,
            Square::B7 => 49,
            Square::C7 => 50,
            Square::D7 => 51,
            Square::E7 => 52,
            Square::F7 => 53,
            Square::G7 => 54,
            Square::H7 => 55,
            Square::A8 => 56,
            Square::B8 => 57,
            Square::C8 => 58,
            Square::D8 => 59,
            Square::E8 => 60,
            Square::F8 => 61,
            Square::G8 => 62,
            Square::H8 => 63,
        }
    }

    /// The square with the given rank-major index, if it is on the board.
    pub fn from_index(i: usize) -> (s: Option<Square>)
        ensures
            i < 64 <==> s is Some,
            s matches Some(q) ==> q.idx() == i as int,
    {
        match i {
            0 => Some(Square::A1),
            1 => Some(Square::B1),
            2 => Some(Square::C1),
            3 => Some(Square::D1),
            4 => Some(Square::E1),
            5 => Some(Square::F1),
            6 => Some(Square::G1),
            7 => Some(Square::H1),
            8 => Some(Square::A2),
            9 => Some(Square::B2),
            10 => Some(Square::C2),
            11 => Some(Square::D2),
            12 => Some(Square::E2),
            13 => Some(Square::F2),
            14 => Some(Square::G2),
            15 => Some(Square::H2),
            16 => Some(Square::A3),
            17 => Some(Square::B3),
            18 => Some(Square::C3),
            19 => Some(Square::D3),
            20 => Some(Square::E3),
            21 => Some(Square::F3),
            22 => Some(Square::G3),
            23 => Some(Square::H3),
            24 => Some(Square::A4),
            25 => Some(Square::B4),
            26 => Some(Square::C4),
            27 => Some(Square::D4),
            28 => Some(Square::E4),
            29 => Some(Square::F4),
            30 => Some(Square::G4),
            31 => Some(Square::H4),
            32 => Some(Square::A5),
            33 => Some(Square::B5),
            34 => Some(Square::C5),
            35 => Some(Square::D5),
            36 => Some(Square::E5),
            37 => Some(Square::F5),
            38 => Some(Square::G5),
            39 => Some(Square::H5),
            40 => Some(Square::A6),
            41 => Some(Square::B6),
            42 => Some(Square::C6),
            43 => Some(Square::D6),
            44 => Some(Square::E6),
            45 => Some(Square::F6),
            46 => Some(Square::G6),
            47 => Some(Square::H6),
            48 => Some(Square::A7),
            49 => Some(Square::B7),
            50 => Some(Square::C7),
            51 => Some(Square::D7),
            52 => Some(Square::E7),
            53 => Some(Square::F7),
            54 => Some(Square::G7),
            55 => Some(Square::H7),
            56 => Some(Square::A8),
            57 => Some(Square::B8),
            58 => Some(Square::C8),
            59 => Some(Square::D8),
            60 => Some(Square::E8),
            61 => Some(Square::F8),
            62 => Some(Square::G8),
            63 => Some(Square::H8),
            _ => None,
        }
    }
}

/// The eight files, A through H.
#[derive(Clone, Copy, Debug, PartialEq, Eq, Structural)]
pub enum File {
    AFile,
    BFile,
    CFile,
    DFile,
    EFile,
    FFile,
    GFile,
    HFile,
}

impl File {
    pub open spec fn idx(self) -> int {
        match self {
            File::AFile => 0,
            File::BFile => 1,
            File::CFile => 2,
            File::DFile => 3,
            File::EFile => 4,
            File::FFile => 5,
            File::GFile => 6,
            File::HFile => 7,
        }
    }

    pub fn index(&self) -> (i: usize)
        ensures
            i as int == self.idx(),
            i < 8,
    {
        match self {
            File::AFile => 0,
            File::BFile => 1,
            File::CFile => 2,
            File::DFile => 3,
            File::EFile => 4,
            File::FFile => 5,
            File::GFile => 6,
            File::HFile => 7,
        }
    }
}

/// The eight ranks, 1 through 8.
#[derive(Clone, Copy, Debug, PartialEq, Eq, Structural)]
pub enum Rank {
    Rank1,
    Rank2,
    Rank3,
    Rank4,
    Rank5,
    Rank6,
    Rank7,
    Rank8,
}

impl Rank {
    pub open spec fn idx(self) -> int {
        match self {
            Rank::Rank1 => 0,
            Rank::Rank2 => 1,
            Rank::Rank3 => 2,
            Rank::Rank4 => 3,
            Rank::Rank5 => 4,
            Rank::Rank6 => 5,
            Rank::Rank7 => 6,
            Rank::Rank8 => 7,
        }
    }

    pub fn index(&self) -> (i: usize)
        ensures
            i as int == self.idx(),
            i < 8,
    {
        match self {
            Rank::Rank1 => 0,
            Rank::Rank2 => 1,
            Rank::Rank3 => 2,
            Rank::Rank4 => 3,
            Rank::Rank5 => 4,
            Rank::Rank6 => 5,
            Rank::Rank7 => 6,
            Rank::Rank8 => 7,
        }
    }
}

/// Two squares with the same index are the same square.
pub proof fn lemma_square_idx_injective(a: Square, b: Square)
    requires
        a.idx() == b.idx(),
    ensures
        a == b,
{
}

/// The set of all squares of `file`.
pub fn file_mask(file: File) -> (r: BoardSlice)
    ensures
        r.0 == (0x0101010101010101u64 << file.idx() as u64),
{
    BoardSlice(0x0101010101010101u64 << (file.index() as u64))
}

/// The set of all squares of `rank`.
pub fn rank_mask(rank: Rank) -> (r: BoardSlice)
    ensures
        r.0 == (0xFFu64 << ((8 * rank.idx()) as u64)),
{
    BoardSlice(0xFFu64 << ((8 * rank.index()) as u64))
}

} // verus!
