//! The chess position: twelve per-(color, piece) square sets plus side to
//! move, castling rights, en-passant target and the move clocks, with the
//! attacked-square and check queries built on the attack tables.
use vstd::prelude::*;

use crate::attack_tables::bishop_attack_generators::{bishop_attacks_spec, bishop_mask_spec};
use crate::attack_tables::rook_attack_generators::{rook_attacks_spec, rook_mask_spec};
use crate::attack_tables::{knight_attack_mask, king_attack_mask, pawn_attack_mask, AttackTables};
use crate::bits::bit64;
use crate::board_slice::BoardSlice;
use crate::enums::{CastleMoves, Color, Piece, Square};
use vstd::std_specs::bits::u64_trailing_zeros;

verus! {

/// A full chess position. The twelve square sets are indexed by
/// `color * 6 + piece` in the enumeration order of [`Color`] and [`Piece`].
#[derive(Clone, Copy, Debug, PartialEq, Eq)]
pub struct Bitboard {
    /// One square set per (color, piece kind) pair.
    pub pieces: [BoardSlice; 12],
    /// The side to move.
    pub to_move: Color,
    /// The 4-bit castling-rights mask; see [`CastleMoves::mask_spec`] for
    /// the bit of each right.
    pub castling_rights: u8,
    /// The en-passant target square, if the last move was a double push.
    pub en_passant_square: Option<Square>,
    /// Half moves since the last pawn move or capture.
    pub half_move_clock: usize,
    /// Full move counter, incremented after each Black move.
    pub full_move_clock: usize,
}

/// The index of the square set of `(color, piece)`.
pub open spec fn piece_index(color: Color, piece: Piece) -> int {
    color.idx() * 6 + piece.idx()
}

impl Bitboard {
    /// The square set of `(color, piece)`, as a spec value.
    pub open spec fn piece_set(self, color: Color, piece: Piece) -> u64 {
        self.pieces@[piece_index(color, piece)].0
    }

    /// The union of all twelve square sets.
    pub open spec fn all_pieces_spec(self) -> u64 {
        self.pieces@[0].0 | self.pieces@[1].0 | self.pieces@[2].0 | self.pieces@[3].0
            | self.pieces@[4].0 | self.pieces@[5].0 | self.pieces@[6].0 | self.pieces@[7].0
            | self.pieces@[8].0 | self.pieces@[9].0 | self.pieces@[10].0 | self.pieces@[11].0
    }

    /// The union of the six square sets of `color`.
    pub open spec fn color_pieces_spec(self, color: Color) -> u64 {
        if color is White {
            self.pieces@[0].0 | self.pieces@[1].0 | self.pieces@[2].0 | self.pieces@[3].0
                | self.pieces@[4].0 | self.pieces@[5].0
        } else {
            self.pieces@[6].0 | self.pieces@[7].0 | self.pieces@[8].0 | self.pieces@[9].0
                | self.pieces@[10].0 | self.pieces@[11].0
        }
    }

    /// Whether a piece of `color` attacks square `s`: for each piece kind,
    /// cast that kind's attack pattern outward from `s` (pawns by the
    /// opposite color's own attack geometry) and intersect it with the
    /// kind's square set.
    pub open spec fn is_square_attacked_spec(self, color: Color, s: int) -> bool {
        let all = self.all_pieces_spec();
        ((pawn_attack_mask(color.opposite_spec(), s) & self.piece_set(color, Piece::Pawn)) | (
        knight_attack_mask(s) & self.piece_set(color, Piece::Knight)) | (bishop_attacks_spec(
            s,
            all & bishop_mask_spec(s),
        ) & self.piece_set(color, Piece::Bishop)) | (rook_attacks_spec(s, all & rook_mask_spec(s))
            & self.piece_set(color, Piece::Rook)) | ((bishop_attacks_spec(
            s,
            all & bishop_mask_spec(s),
        ) | rook_attacks_spec(s, all & rook_mask_spec(s))) & self.piece_set(color, Piece::Queen)) | (
        king_attack_mask(s) & self.piece_set(color, Piece::King))) != 0
    }

    /// The index of the lowest square of `color`'s king set; the king's
    /// square whenever the position holds exactly one king of that color.
    pub open spec fn king_square_spec(self, color: Color) -> int {
        u64_trailing_zeros(self.piece_set(color, Piece::King)) as int
    }

    /// The square set of `(color, piece)`.
    pub fn get_piece(&self, color: Color, piece: Piece) -> (r: BoardSlice)
        ensures
            r.0 == self.piece_set(color, piece),
    {
        self.pieces[color.index() * 6 + piece.index()]
    }

    /// The set of all occupied squares.
    pub fn get_all_pieces(&self) -> (r: BoardSlice)
        ensures
            r.0 == self.all_pieces_spec(),
    {
        BoardSlice(
            self.pieces[0].0 | self.pieces[1].0 | self.pieces[2].0 | self.pieces[3].0
                | self.pieces[4].0 | self.pieces[5].0 | self.pieces[6].0 | self.pieces[7].0
                | self.pieces[8].0 | self.pieces[9].0 | self.pieces[10].0 | self.pieces[11].0,
        )
    }

    /// The set of squares occupied by `color`.
    pub fn get_color_pieces(&self, color: Color) -> (r: BoardSlice)
        ensures
            r.0 == self.color_pieces_spec(color),
    {
        match color {
            Color::White => BoardSlice(
                self.pieces[0].0 | self.pieces[1].0 | self.pieces[2].0 | self.pieces[3].0
                    | self.pieces[4].0 | self.pieces[5].0,
            ),
            Color::Black => BoardSlice(
                self.pieces[6].0 | self.pieces[7].0 | self.pieces[8].0 | self.pieces[9].0
                    | self.pieces[10].0 | self.pieces[11].0,
            ),
        }
    }

    /// Whether a piece of `color` attacks `square`.
    pub fn is_square_attacked(&self, tables: &AttackTables, color: Color, square: Square) -> (r:
        bool)
        requires
            tables.wf(),
        ensures
            r == self.is_square_attacked_spec(color, square.idx()),
    {
        let opp = color.opposite();
        ((tables.get_pawn_attacks(opp, square).0 & self.get_piece(color, Piece::Pawn).0) | (
        tables.get_knight_attacks(square).0 & self.get_piece(color, Piece::Knight).0) | (
        tables.get_bishop_attacks(square, self.get_all_pieces()).0 & self.get_piece(
            color,
            Piece::Bishop,
        ).0) | (tables.get_rook_attacks(square, self.get_all_pieces()).0 & self.get_piece(
            color,
            Piece::Rook,
        ).0) | (tables.get_queen_attacks(square, self.get_all_pieces()).0 & self.get_piece(
            color,
            Piece::Queen,
        ).0) | (tables.get_king_attacks(square).0 & self.get_piece(color, Piece::King).0)) != 0
    }

    /// The square of `color`'s king. The position must hold a king of that
    /// color; with more than one, the lowest-index square is returned.
    pub fn get_king_square(&self, color: Color) -> (r: Square)
        requires
            self.piece_set(color, Piece::King) != 0,
        ensures
            r.idx() == self.king_square_spec(color),
    {
        let tz = self.get_piece(color, Piece::King).0.trailing_zeros() as usize;
        proof {
            vstd::std_specs::bits::axiom_u64_trailing_zeros(self.piece_set(color, Piece::King));
        }
        match Square::from_index(tz) {
            Some(q) => q,
            None => Square::A1,
        }
    }

    /// Whether `color`'s king stands on a square attacked by the other
    /// side.
    pub fn is_king_in_check(&self, tables: &AttackTables, color: Color) -> (r: bool)
        requires
            tables.wf(),
            self.piece_set(color, Piece::King) != 0,
        ensures
            r == self.is_square_attacked_spec(
                color.opposite_spec(),
                self.king_square_spec(color),
            ),
    {
        let king_square = self.get_king_square(color);
        self.is_square_attacked(tables, color.opposite(), king_square)
    }

    /// Whether the position still holds the given castling right.
    pub fn has_castling_right(&self, cm: CastleMoves) -> (r: bool)
        ensures
            r == (self.castling_rights & cm.mask_spec() != 0),
    {
        self.castling_rights & cm.mask() != 0
    }

    /// The position after adding a piece of `(color, piece)` on `square`.
    pub open spec fn add_piece_spec(self, color: Color, piece: Piece, s: int) -> Seq<BoardSlice> {
        self.pieces@.update(
            piece_index(color, piece),
            BoardSlice(self.pieces@[piece_index(color, piece)].0 | (1u64 << s as u64)),
        )
    }

    /// Adds a piece of `(color, piece)` on `square`; the other fields stay.
    pub fn add_piece(&mut self, color: Color, piece: Piece, square: Square)
        ensures
            final(self).pieces@ == old(self).add_piece_spec(color, piece, square.idx()),
            final(self).to_move == old(self).to_move,
            final(self).castling_rights == old(self).castling_rights,
            final(self).en_passant_square == old(self).en_passant_square,
            final(self).half_move_clock == old(self).half_move_clock,
            final(self).full_move_clock == old(self).full_move_clock,
    {
        let i = color.index() * 6 + piece.index();
        self.pieces[i] = BoardSlice(self.pieces[i].0 | (1u64 << square.index() as u64));
    }

    /// The position after removing any piece of `(color, piece)` from
    /// `square`.
    pub open spec fn remove_piece_spec(self, color: Color, piece: Piece, s: int) -> Seq<
        BoardSlice,
    > {
        self.pieces@.update(
            piece_index(color, piece),
            BoardSlice(self.pieces@[piece_index(color, piece)].0 & !(1u64 << s as u64)),
        )
    }

    /// Removes the piece of `(color, piece)` from `square`; the other
    /// fields stay.
    pub fn remove_piece(&mut self, color: Color, piece: Piece, square: Square)
        ensures
            final(self).pieces@ == old(self).remove_piece_spec(color, piece, square.idx()),
            final(self).to_move == old(self).to_move,
            final(self).castling_rights == old(self).castling_rights,
            final(self).en_passant_square == old(self).en_passant_square,
            final(self).half_move_clock == old(self).half_move_clock,
            final(self).full_move_clock == old(self).full_move_clock,
    {
        let i = color.index() * 6 + piece.index();
        self.pieces[i] = BoardSlice(self.pieces[i].0 & !(1u64 << square.index() as u64));
    }

    /// The square sets after relocating the piece of `(color, piece)` from
    /// `orig` to `dest`: its origin bit cleared, its destination bit set.
    pub open spec fn move_piece_spec(self, color: Color, piece: Piece, o: int, d: int) -> Seq<
        BoardSlice,
    > {
        let i = piece_index(color, piece);
        let cleared = self.pieces@[i].0 & !(1u64 << o as u64);
        self.pieces@.update(i, BoardSlice(cleared | (1u64 << d as u64)))
    }

    /// Relocates the piece of `(color, piece)` from `orig` to `dest`; the
    /// other fields stay.
    pub fn move_piece(&mut self, color: Color, piece: Piece, orig: Square, dest: Square)
        ensures
            final(self).pieces@ == old(self).move_piece_spec(color, piece, orig.idx(), dest.idx()),
            final(self).to_move == old(self).to_move,
            final(self).castling_rights == old(self).castling_rights,
            final(self).en_passant_square == old(self).en_passant_square,
            final(self).half_move_clock == old(self).half_move_clock,
            final(self).full_move_clock == old(self).full_move_clock,
    {
        let i = color.index() * 6 + piece.index();
        let cleared = self.pieces[i].0 & !(1u64 << orig.index() as u64);
        self.pieces[i] = BoardSlice(cleared | (1u64 << dest.index() as u64));
        proof {
            assert(self.pieces@ =~= old(self).move_piece_spec(
                color,
                piece,
                orig.idx(),
                dest.idx(),
            ));
        }
    }

    /// Gives the move to the other side; everything else stays.
    pub fn toggle_move(&mut self)
        ensures
            final(self).to_move == old(self).to_move.opposite_spec(),
            final(self).pieces == old(self).pieces,
            final(self).castling_rights == old(self).castling_rights,
            final(self).en_passant_square == old(self).en_passant_square,
            final(self).half_move_clock == old(self).half_move_clock,
            final(self).full_move_clock == old(self).full_move_clock,
    {
        self.to_move = self.to_move.opposite();
    }

    /// Clears one castling right; everything else stays.
    pub fn remove_castling_right(&mut self, cm: CastleMoves)
        ensures
            final(self).castling_rights == (old(self).castling_rights & !cm.mask_spec()),
            final(self).pieces == old(self).pieces,
            final(self).to_move == old(self).to_move,
            final(self).en_passant_square == old(self).en_passant_square,
            final(self).half_move_clock == old(self).half_move_clock,
            final(self).full_move_clock == old(self).full_move_clock,
    {
        self.castling_rights = self.castling_rights & !cm.mask();
    }
}

} // verus!
