//! Move application: from a position and a move (origin, destination,
//! optional promotion), the successor position. The moved piece's color and
//! kind and any captured piece are derived from the position, never
//! supplied by the caller, and no legality checking is performed.
use vstd::prelude::*;

use crate::bitboard::{piece_index, Bitboard};
use crate::bits::bit64;
use crate::board_slice::BoardSlice;
use crate::enums::{CastleMoves, Color, Piece, Square};
use crate::errors::PerformMoveError;

verus! {

/// A chess move: origin and destination square, and the piece a promoting
/// pawn becomes, if any. Everything else is derived at application time.
#[derive(Clone, Copy, Debug, PartialEq, Eq, Structural)]
pub struct Move {
    /// The origin square.
    pub orig: Square,
    /// The destination square.
    pub dest: Square,
    /// The promotion piece, if the move promotes.
    pub promotion: Option<Piece>,
}

/// The color of the moved piece: White when White occupies the origin
/// square, Black otherwise.
pub open spec fn move_color_spec(bb: Bitboard, m: Move) -> Color {
    if bit64(bb.color_pieces_spec(Color::White), m.orig.idx() as u64) {
        Color::White
    } else {
        Color::Black
    }
}

/// The kind of the moved piece: the first of the mover's square sets, in
/// enumeration order, holding the origin square.
pub open spec fn moved_piece_spec(bb: Bitboard, m: Move) -> Piece {
    let c = move_color_spec(bb, m);
    let o = m.orig.idx() as u64;
    if bit64(bb.piece_set(c, Piece::Pawn), o) {
        Piece::Pawn
    } else if bit64(bb.piece_set(c, Piece::Knight), o) {
        Piece::Knight
    } else if bit64(bb.piece_set(c, Piece::Bishop), o) {
        Piece::Bishop
    } else if bit64(bb.piece_set(c, Piece::Rook), o) {
        Piece::Rook
    } else if bit64(bb.piece_set(c, Piece::Queen), o) {
        Piece::Queen
    } else {
        Piece::King
    }
}

/// The kind of the opposing piece standing on square `d`, if any.
pub open spec fn captured_piece_spec(bb: Bitboard, c: Color, d: int) -> Option<Piece> {
    let opp = c.opposite_spec();
    if bit64(bb.piece_set(opp, Piece::Pawn), d as u64) {
        Some(Piece::Pawn)
    } else if bit64(bb.piece_set(opp, Piece::Knight), d as u64) {
        Some(Piece::Knight)
    } else if bit64(bb.piece_set(opp, Piece::Bishop), d as u64) {
        Some(Piece::Bishop)
    } else if bit64(bb.piece_set(opp, Piece::Rook), d as u64) {
        Some(Piece::Rook)
    } else if bit64(bb.piece_set(opp, Piece::Queen), d as u64) {
        Some(Piece::Queen)
    } else if bit64(bb.piece_set(opp, Piece::King), d as u64) {
        Some(Piece::King)
    } else {
        None
    }
}

/// The square sets after relocating the piece of set `i` from `o` to `d`.
pub open spec fn seq_move(ps: Seq<BoardSlice>, i: int, o: int, d: int) -> Seq<BoardSlice> {
    ps.update(i, BoardSlice((ps[i].0 & !(1u64 << o as u64)) | (1u64 << d as u64)))
}

/// The square sets after clearing square `s` in set `i`.
pub open spec fn seq_clear(ps: Seq<BoardSlice>, i: int, s: int) -> Seq<BoardSlice> {
    ps.update(i, BoardSlice(ps[i].0 & !(1u64 << s as u64)))
}

/// The square sets after setting square `s` in set `i`.
pub open spec fn seq_add(ps: Seq<BoardSlice>, i: int, s: int) -> Seq<BoardSlice> {
    ps.update(i, BoardSlice(ps[i].0 | (1u64 << s as u64)))
}

/// Side to move and full-move counter after any applied move: the other
/// side is to move, and the counter grows by one after a Black move.
pub open spec fn common_after(bb: Bitboard, nb: Bitboard) -> bool {
    &&& nb.to_move == bb.to_move.opposite_spec()
    &&& nb.full_move_clock == bb.full_move_clock + (if bb.to_move is Black {
        1int
    } else {
        0int
    })
}

/// The square sets after a castling move to destination `d`: king and rook
/// jump to their post-castle squares for the four castle destinations; any
/// other two-file king move moves nothing.
pub open spec fn castle_pieces(ps: Seq<BoardSlice>, d: int) -> Seq<BoardSlice> {
    if d == 6 {
        seq_move(seq_move(ps, 5, 4, 6), 3, 7, 5)
    } else if d == 62 {
        seq_move(seq_move(ps, 11, 60, 62), 9, 63, 61)
    } else if d == 2 {
        seq_move(seq_move(ps, 5, 4, 2), 3, 0, 3)
    } else if d == 58 {
        seq_move(seq_move(ps, 11, 60, 58), 9, 56, 59)
    } else {
        ps
    }
}

/// The castling rights after a castling move to destination `d`: both of
/// the castling side's rights are cleared.
pub open spec fn castle_rights_after(rights: u8, d: int) -> u8 {
    if d == 6 || d == 2 {
        (rights & !(1u8)) & !(2u8)
    } else if d == 62 || d == 58 {
        (rights & !(4u8)) & !(8u8)
    } else {
        rights
    }
}

/// The castling rights after an ordinary move: a rook leaving its home
/// corner clears that corner's right, a king move clears both of its
/// side's rights.
pub open spec fn normal_rights_after(rights: u8, c: Color, p: Piece, o: int) -> u8 {
    if c is White {
        if p is Rook && o == 0 {
            rights & !(2u8)
        } else if p is Rook && o == 7 {
            rights & !(1u8)
        } else if p is King {
            (rights & !(1u8)) & !(2u8)
        } else {
            rights
        }
    } else {
        if p is Rook && o == 56 {
            rights & !(8u8)
        } else if p is Rook && o == 63 {
            rights & !(4u8)
        } else if p is King {
            (rights & !(4u8)) & !(8u8)
        } else {
            rights
        }
    }
}

/// The full transition relation of move application: given the position
/// `bb` and the move `m`, exactly which result `r` is produced. The five
/// transition cases are tried in priority order — castling, double push,
/// en-passant capture, promotion, ordinary move — and the two defensive
/// errors arise exactly when a derived midpoint or capture square would
/// fall off the board.
pub open spec fn perform_move_rel(bb: Bitboard, m: Move, r: Result<
    Bitboard,
    PerformMoveError,
>) -> bool {
    let c = move_color_spec(bb, m);
    let p = moved_piece_spec(bb, m);
    let o = m.orig.idx();
    let d = m.dest.idx();
    if p is King && (o - d == 2 || d - o == 2) {
        r matches Ok(nb) && {
            &&& common_after(bb, nb)
            &&& nb.pieces@ == castle_pieces(bb.pieces@, d)
            &&& nb.castling_rights == castle_rights_after(bb.castling_rights, d)
            &&& nb.en_passant_square is None
            &&& nb.half_move_clock == bb.half_move_clock + 1
        }
    } else if p is Pawn && (o - d == 16 || d - o == 16) {
        if (c is White && d < 8) || (c is Black && d >= 56) {
            r == Err::<Bitboard, PerformMoveError>(PerformMoveError::ImpossibleDoublePush)
        } else {
            r matches Ok(nb) && {
                &&& common_after(bb, nb)
                &&& nb.pieces@ == seq_move(bb.pieces@, piece_index(c, Piece::Pawn), o, d)
                &&& nb.castling_rights == bb.castling_rights
                &&& (nb.en_passant_square matches Some(q) && q.idx() == (if c is White {
                    d - 8
                } else {
                    d + 8
                }))
                &&& nb.half_move_clock == 0
            }
        }
    } else if bb.en_passant_square == Some(m.dest) && p is Pawn {
        if (c is White && d < 8) || (c is Black && d >= 56) {
            r == Err::<Bitboard, PerformMoveError>(PerformMoveError::EnPassantImpossible)
        } else {
            r matches Ok(nb) && {
                &&& common_after(bb, nb)
                &&& nb.pieces@ == seq_clear(
                    seq_move(bb.pieces@, piece_index(c, Piece::Pawn), o, d),
                    piece_index(c.opposite_spec(), Piece::Pawn),
                    if c is White {
                        d - 8
                    } else {
                        d + 8
                    },
                )
                &&& nb.castling_rights == bb.castling_rights
                &&& nb.en_passant_square is None
                &&& nb.half_move_clock == 0
            }
        }
    } else if m.promotion is Some {
        r matches Ok(nb) && {
            let pp = m.promotion->Some_0;
            &&& common_after(bb, nb)
            &&& nb.pieces@ == seq_add(
                seq_clear(bb.pieces@, piece_index(c, Piece::Pawn), o),
                piece_index(c, pp),
                d,
            )
            &&& nb.castling_rights == bb.castling_rights
            &&& nb.en_passant_square is None
            &&& nb.half_move_clock == 0
        }
    } else {
        r matches Ok(nb) && {
            let cap = captured_piece_spec(bb, c, d);
            &&& common_after(bb, nb)
            &&& nb.pieces@ == (match cap {
                Some(cp) => seq_clear(
                    seq_move(bb.pieces@, piece_index(c, p), o, d),
                    piece_index(c.opposite_spec(), cp),
                    d,
                ),
                None => seq_move(bb.pieces@, piece_index(c, p), o, d),
            })
            &&& nb.castling_rights == normal_rights_after(bb.castling_rights, c, p, o)
            &&& nb.en_passant_square is None
            &&& nb.half_move_clock == (if cap is None && !(p is Pawn) {
                bb.half_move_clock + 1
            } else {
                0int
            })
        }
    }
}

/// Applies `_move` to `bitboard` and returns the successor position, or a
/// defensive error where a derived square would fall off the board. The
/// result is exactly what the transition relation [`perform_move_rel`]
/// prescribes. No legality checking is performed; the origin square must
/// hold a piece of the derived color, and the clocks must have room to
/// grow.
pub fn perform_move(bitboard: &Bitboard, _move: &Move) -> (r: Result<Bitboard, PerformMoveError>)
    requires
        bit64(
            bitboard.color_pieces_spec(move_color_spec(*bitboard, *_move)),
            _move.orig.idx() as u64,
        ),
        bitboard.half_move_clock < usize::MAX,
        bitboard.full_move_clock < usize::MAX,
    ensures
        perform_move_rel(*bitboard, *_move, r),
{
    let mut new_bitboard = bitboard.clone();
    let oi = _move.orig.index();
    let di = _move.dest.index();
    let ob: u64 = 1u64 << (oi as u64);

    let move_color = if bitboard.get_color_pieces(Color::White).0 & ob != 0 {
        Color::White
    } else {
        Color::Black
    };
    proof {
        assert(move_color == move_color_spec(*bitboard, *_move));
    }

    let move_piece = if bitboard.get_piece(move_color, Piece::Pawn).0 & ob != 0 {
        Piece::Pawn
    } else if bitboard.get_piece(move_color, Piece::Knight).0 & ob != 0 {
        Piece::Knight
    } else if bitboard.get_piece(move_color, Piece::Bishop).0 & ob != 0 {
        Piece::Bishop
    } else if bitboard.get_piece(move_color, Piece::Rook).0 & ob != 0 {
        Piece::Rook
    } else if bitboard.get_piece(move_color, Piece::Queen).0 & ob != 0 {
        Piece::Queen
    } else {
        Piece::King
    };
    proof {
        assert(move_piece == moved_piece_spec(*bitboard, *_move));
    }

    // Castling
    if move_piece == Piece::King && (oi + 2 == di || di + 2 == oi) {
        if _move.dest == Square::G1 {
            new_bitboard.move_piece(Color::White, Piece::King, Square::E1, Square::G1);
            new_bitboard.move_piece(Color::White, Piece::Rook, Square::H1, Square::F1);
            new_bitboard.remove_castling_right(CastleMoves::WhiteKingsideCastle);
            new_bitboard.remove_castling_right(CastleMoves::WhiteQueensideCastle);
        } else if _move.dest == Square::G8 {
            new_bitboard.move_piece(Color::Black, Piece::King, Square::E8, Square::G8);
            new_bitboard.move_piece(Color::Black, Piece::Rook, Square::H8, Square::F8);
            new_bitboard.remove_castling_right(CastleMoves::BlackKingsideCastle);
            new_bitboard.remove_castling_right(CastleMoves::BlackQueensideCastle);
        } else if _move.dest == Square::C1 {
            new_bitboard.move_piece(Color::White, Piece::King, Square::E1, Square::C1);
            new_bitboard.move_piece(Color::White, Piece::Rook, Square::A1, Square::D1);
            new_bitboard.remove_castling_right(CastleMoves::WhiteKingsideCastle);
            new_bitboard.remove_castling_right(CastleMoves::WhiteQueensideCastle);
        } else if _move.dest == Square::C8 {
            new_bitboard.move_piece(Color::Black, Piece::King, Square::E8, Square::C8);
            new_bitboard.move_piece(Color::Black, Piece::Rook, Square::A8, Square::D8);
            new_bitboard.remove_castling_right(CastleMoves::BlackKingsideCastle);
            new_bitboard.remove_castling_right(CastleMoves::BlackQueensideCastle);
        }
        new_bitboard.toggle_move();
        new_bitboard.en_passant_square = None;
        new_bitboard.half_move_clock = new_bitboard.half_move_clock + 1;
        if new_bitboard.to_move == Color::White {
            new_bitboard.full_move_clock = new_bitboard.full_move_clock + 1;
        }
        return Ok(new_bitboard);
    }

    // Double push
    if move_piece == Piece::Pawn && (oi + 16 == di || di + 16 == oi) {
        new_bitboard.move_piece(move_color, Piece::Pawn, _move.orig, _move.dest);
        new_bitboard.toggle_move();
        let mid: usize = match move_color {
            Color::White => {
                if di < 8 {
                    return Err(PerformMoveError::ImpossibleDoublePush);
                }
                di - 8
            },
            Color::Black => {
                if di >= 56 {
                    return Err(PerformMoveError::ImpossibleDoublePush);
                }
                di + 8
            },
        };
        new_bitboard.en_passant_square = match Square::from_index(mid) {
            Some(q) => Some(q),
            None => {
                return Err(PerformMoveError::ImpossibleDoublePush);
            },
        };
        new_bitboard.half_move_clock = 0;
        if new_bitboard.to_move == Color::White {
            new_bitboard.full_move_clock = new_bitboard.full_move_clock + 1;
        }
        return Ok(new_bitboard);
    }

    // En passant
    let is_ep_dest = match bitboard.en_passant_square {
        Some(sq) => sq == _move.dest,
        None => false,
    };
    if is_ep_dest && move_piece == Piece::Pawn {
        new_bitboard.move_piece(move_color, Piece::Pawn, _move.orig, _move.dest);
        let behind: usize = match move_color {
            Color::White => {
                if di < 8 {
                    return Err(PerformMoveError::EnPassantImpossible);
                }
                di - 8
            },
            Color::Black => {
                if di >= 56 {
                    return Err(PerformMoveError::EnPassantImpossible);
                }
                di + 8
            },
        };
        let behind_sq = match Square::from_index(behind) {
            Some(q) => q,
            None => {
                return Err(PerformMoveError::EnPassantImpossible);
            },
        };
        new_bitboard.remove_piece(move_color.opposite(), Piece::Pawn, behind_sq);
        new_bitboard.toggle_move();
        new_bitboard.en_passant_square = None;
        new_bitboard.half_move_clock = 0;
        if new_bitboard.to_move == Color::White {
            new_bitboard.full_move_clock = new_bitboard.full_move_clock + 1;
        }
        return Ok(new_bitboard);
    }

    // Promotion
    match _move.promotion {
        Some(piece) => {
            new_bitboard.remove_piece(move_color, Piece::Pawn, _move.orig);
            new_bitboard.add_piece(move_color, piece, _move.dest);
            new_bitboard.toggle_move();
            new_bitboard.en_passant_square = None;
            new_bitboard.half_move_clock = 0;
            if new_bitboard.to_move == Color::White {
                new_bitboard.full_move_clock = new_bitboard.full_move_clock + 1;
            }
            return Ok(new_bitboard);
        },
        None => {},
    }

    // Normal and capture
    let db: u64 = 1u64 << (di as u64);
    let opp = move_color.opposite();
    let capture_piece = if bitboard.get_piece(opp, Piece::Pawn).0 & db != 0 {
        Some(Piece::Pawn)
    } else if bitboard.get_piece(opp, Piece::Knight).0 & db != 0 {
        Some(Piece::Knight)
    } else if bitboard.get_piece(opp, Piece::Bishop).0 & db != 0 {
        Some(Piece::Bishop)
    } else if bitboard.get_piece(opp, Piece::Rook).0 & db != 0 {
        Some(Piece::Rook)
    } else if bitboard.get_piece(opp, Piece::Queen).0 & db != 0 {
        Some(Piece::Queen)
    } else if bitboard.get_piece(opp, Piece::King).0 & db != 0 {
        Some(Piece::King)
    } else {
        None
    };
    proof {
        assert(capture_piece == captured_piece_spec(*bitboard, move_color, di as int));
    }

    new_bitboard.move_piece(move_color, move_piece, _move.orig, _move.dest);
    match capture_piece {
        Some(piece) => new_bitboard.remove_piece(opp, piece, _move.dest),
        None => {},
    }

    match move_color {
        Color::White => {
            if move_piece == Piece::Rook && _move.orig == Square::A1 {
                new_bitboard.remove_castling_right(CastleMoves::WhiteQueensideCastle);
            } else if move_piece == Piece::Rook && _move.orig == Square::H1 {
                new_bitboard.remove_castling_right(CastleMoves::WhiteKingsideCastle);
            } else if move_piece == Piece::King {
                new_bitboard.remove_castling_right(CastleMoves::WhiteKingsideCastle);
                new_bitboard.remove_castling_right(CastleMoves::WhiteQueensideCastle);
            }
        },
        Color::Black => {
            if move_piece == Piece::Rook && _move.orig == Square::A8 {
                new_bitboard.remove_castling_right(CastleMoves::BlackQueensideCastle);
            } else if move_piece == Piece::Rook && _move.orig == Square::H8 {
                new_bitboard.remove_castling_right(CastleMoves::BlackKingsideCastle);
            } else if move_piece == Piece::King {
                new_bitboard.remove_castling_right(CastleMoves::BlackKingsideCastle);
                new_bitboard.remove_castling_right(CastleMoves::BlackQueensideCastle);
            }
        },
    }

    new_bitboard.toggle_move();
    new_bitboard.en_passant_square = None;
    new_bitboard.half_move_clock = if capture_piece.is_none() && move_piece != Piece::Pawn {
        new_bitboard.half_move_clock + 1
    } else {
        0
    };
    if new_bitboard.to_move == Color::White {
        new_bitboard.full_move_clock = new_bitboard.full_move_clock + 1;
    }
    Ok(new_bitboard)
}

/// Whether the castling-rights mask still holds the given right.
pub open spec fn has_right(rights: u8, cm: CastleMoves) -> bool {
    rights & cm.mask_spec() != 0
}

/// Whether `cm` is one of the two castling rights of color `c`.
pub open spec fn right_of_color(c: Color, cm: CastleMoves) -> bool {
    if c is White {
        cm is WhiteKingsideCastle || cm is WhiteQueensideCastle
    } else {
        cm is BlackKingsideCastle || cm is BlackQueensideCastle
    }
}

/// Clearing castling-right bits clears exactly those bits: each cleared
/// bit reads 0 afterwards, and every other right bit is unchanged.
proof fn lemma_u8_clear_bits(r: u8)
    by (bit_vector)
    ensures
        ((r & !1u8) & !2u8) & 1u8 == 0,
        ((r & !1u8) & !2u8) & 2u8 == 0,
        ((r & !1u8) & !2u8) & 4u8 == (r & 4u8),
        ((r & !1u8) & !2u8) & 8u8 == (r & 8u8),
        ((r & !4u8) & !8u8) & 4u8 == 0,
        ((r & !4u8) & !8u8) & 8u8 == 0,
        ((r & !4u8) & !8u8) & 1u8 == (r & 1u8),
        ((r & !4u8) & !8u8) & 2u8 == (r & 2u8),
        (r & !1u8) & 1u8 == 0,
        (r & !1u8) & 2u8 == (r & 2u8),
        (r & !1u8) & 4u8 == (r & 4u8),
        (r & !1u8) & 8u8 == (r & 8u8),
        (r & !2u8) & 2u8 == 0,
        (r & !2u8) & 1u8 == (r & 1u8),
        (r & !2u8) & 4u8 == (r & 4u8),
        (r & !2u8) & 8u8 == (r & 8u8),
        (r & !4u8) & 4u8 == 0,
        (r & !4u8) & 1u8 == (r & 1u8),
        (r & !4u8) & 2u8 == (r & 2u8),
        (r & !4u8) & 8u8 == (r & 8u8),
        (r & !8u8) & 8u8 == 0,
        (r & !8u8) & 1u8 == (r & 1u8),
        (r & !8u8) & 2u8 == (r & 2u8),
        (r & !8u8) & 4u8 == (r & 4u8),
{
}

/// Law: an ordinary king move (no castling, no promotion field) clears
/// exactly the mover's two castling rights; every other right is kept.
pub proof fn lemma_king_move_clears_rights(bb: Bitboard, m: Move, nb: Bitboard, cm: CastleMoves)
    requires
        perform_move_rel(bb, m, Ok(nb)),
        moved_piece_spec(bb, m) is King,
        m.promotion is None,
        !(m.orig.idx() - m.dest.idx() == 2 || m.dest.idx() - m.orig.idx() == 2),
    ensures
        has_right(nb.castling_rights, cm) == (has_right(bb.castling_rights, cm) && !right_of_color(
            move_color_spec(bb, m),
            cm,
        )),
{
    lemma_u8_clear_bits(bb.castling_rights);
}

/// Law: a castling move clears exactly the castling side's two rights;
/// every other right is kept.
pub proof fn lemma_castle_clears_rights(bb: Bitboard, m: Move, nb: Bitboard, cm: CastleMoves)
    requires
        perform_move_rel(bb, m, Ok(nb)),
        moved_piece_spec(bb, m) is King,
        m.orig.idx() - m.dest.idx() == 2 || m.dest.idx() - m.orig.idx() == 2,
        m.dest.idx() == 6 || m.dest.idx() == 2 || m.dest.idx() == 62 || m.dest.idx() == 58,
    ensures
        has_right(nb.castling_rights, cm) == (has_right(bb.castling_rights, cm) && !right_of_color(
            if m.dest.idx() == 6 || m.dest.idx() == 2 {
                Color::White
            } else {
                Color::Black
            },
            cm,
        )),
{
    lemma_u8_clear_bits(bb.castling_rights);
}

/// Law: an ordinary rook move out of a home corner clears exactly that
/// corner's castling right; a rook move from anywhere else clears nothing.
pub proof fn lemma_rook_move_clears_rights(bb: Bitboard, m: Move, nb: Bitboard, cm: CastleMoves)
    requires
        perform_move_rel(bb, m, Ok(nb)),
        moved_piece_spec(bb, m) is Rook,
        m.promotion is None,
        !(bb.en_passant_square == Some(m.dest)),
    ensures
        has_right(nb.castling_rights, cm) == (has_right(bb.castling_rights, cm) && !(
        match (move_color_spec(bb, m), cm) {
            (Color::White, CastleMoves::WhiteQueensideCastle) => m.orig.idx() == 0,
            (Color::White, CastleMoves::WhiteKingsideCastle) => m.orig.idx() == 7,
            (Color::Black, CastleMoves::BlackQueensideCastle) => m.orig.idx() == 56,
            (Color::Black, CastleMoves::BlackKingsideCastle) => m.orig.idx() == 63,
            _ => false,
        })),
{
    lemma_u8_clear_bits(bb.castling_rights);
}

} // verus!
