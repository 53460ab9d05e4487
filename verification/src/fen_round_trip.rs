//! The FEN round-trip law: serializing a well-formed position and parsing
//! the result gives the position back, field for field.
use vstd::prelude::*;

use crate::bitboard::Bitboard;
use crate::bits::bit64;
use crate::board_slice::BoardSlice;
use crate::enums::{lemma_square_idx_injective, Color, Square};
use crate::errors::FENParseError;
use crate::fen::{
    all_digits, board_bytes, castle_bit, castling_bytes, dec_bytes, digits_val, ep_bytes,
    fen_bytes, is_ws, lemma_first_slash_eq, lemma_token_len_eq, matches_fen, parse_board,
    parse_board_rows, parse_castle_chars, parse_castling, parse_clock, parse_en_passant,
    parse_fen, parse_row, parse_side, piece_char_index, piece_letter, row_bytes, side_bytes,
    split_slash, split_ws, square_chars_rec, FenFields,
};

verus! {

/// No byte of the sequence is whitespace.
pub open spec fn ws_free(s: Seq<u8>) -> bool {
    forall|j: int| 0 <= j < s.len() ==> !is_ws(#[trigger] s[j])
}

/// A whitespace-free, nonempty token followed by a space splits off as one
/// field.
pub proof fn lemma_split_ws_token(t: Seq<u8>, r: Seq<u8>)
    requires
        t.len() > 0,
        ws_free(t),
    ensures
        split_ws(t + seq![32u8] + r) == seq![t] + split_ws(r),
{
    let s = t + seq![32u8] + r;
    assert(forall|j: int| 0 <= j < t.len() ==> s[j] == t[j]);
    assert(s[t.len() as int] == 32);
    lemma_token_len_eq(s, t.len() as int);
    assert(s.take(t.len() as int) =~= t);
    assert(s.skip(t.len() as int) =~= seq![32u8] + r);
    assert((seq![32u8] + r).drop_first() =~= r);
    assert(split_ws(seq![32u8] + r) == split_ws(r));
}

/// A whitespace-free, nonempty token alone is one field.
pub proof fn lemma_split_ws_last(t: Seq<u8>)
    requires
        t.len() > 0,
        ws_free(t),
    ensures
        split_ws(t) == seq![t],
{
    lemma_token_len_eq(t, t.len() as int);
    assert(t.take(t.len() as int) =~= t);
    assert(t.skip(t.len() as int) =~= Seq::<u8>::empty());
    assert(split_ws(Seq::<u8>::empty()) =~= Seq::<Seq<u8>>::empty());
    assert(seq![t] + Seq::<Seq<u8>>::empty() =~= seq![t]);
}

/// The digits of a number are digits.
pub proof fn lemma_dec_bytes_digits(n: int)
    requires
        n >= 0,
    ensures
        all_digits(dec_bytes(n)),
        dec_bytes(n).len() > 0,
        ws_free(dec_bytes(n)),
        dec_bytes(n)[0] != 43,
    decreases n,
{
    if n >= 10 {
        lemma_dec_bytes_digits(n / 10);
    }
}

/// Folding one more digit onto an accumulated value.
pub proof fn lemma_digits_val_push(s: Seq<u8>, d: u8, acc: int)
    ensures
        digits_val(s.push(d), acc) == digits_val(s, acc) * 10 + (d - 48),
    decreases s.len(),
{
    if s.len() == 0 {
        assert(s.push(d)[0] == d);
        assert(s.push(d).drop_first() =~= Seq::<u8>::empty());
        assert(s.push(d).len() == 1);
        assert(digits_val(s.push(d), acc) == digits_val(
            Seq::<u8>::empty(),
            acc * 10 + (d - 48),
        ));
        assert(digits_val(Seq::<u8>::empty(), acc * 10 + (d - 48)) == acc * 10 + (d - 48));
        assert(digits_val(s, acc) == acc);
        assert(digits_val(s.push(d), acc) == digits_val(s, acc) * 10 + (d - 48));
    } else {
        assert(s.push(d)[0] == s[0]);
        assert(s.push(d).drop_first() =~= s.drop_first().push(d));
        assert(s.push(d).len() != 0);
        assert(digits_val(s.push(d), acc) == digits_val(
            s.drop_first().push(d),
            acc * 10 + (s[0] - 48),
        ));
        assert(digits_val(s, acc) == digits_val(s.drop_first(), acc * 10 + (s[0] - 48)));
        lemma_digits_val_push(s.drop_first(), d, acc * 10 + (s[0] - 48));
        assert(digits_val(s.push(d), acc) == digits_val(s, acc) * 10 + (d - 48));
    }
}

/// Parsing the decimal rendering of a number gives the number back.
pub proof fn lemma_dec_bytes_val(n: int)
    requires
        n >= 0,
    ensures
        digits_val(dec_bytes(n), 0) == n,
    decreases n,
{
    if n < 10 {
        assert(dec_bytes(n) =~= seq![(48 + n) as u8]);
        assert(dec_bytes(n)[0] == (48 + n) as u8);
        assert(dec_bytes(n).drop_first() =~= Seq::<u8>::empty());
        assert(dec_bytes(n).len() == 1);
        assert((48 + n) as u8 - 48 == n);
        assert(digits_val(dec_bytes(n), 0) == digits_val(
            Seq::<u8>::empty(),
            0 * 10 + ((48 + n) as u8 - 48),
        ));
    } else {
        lemma_dec_bytes_val(n / 10);
        lemma_digits_val_push(dec_bytes(n / 10), (48 + n % 10) as u8, 0);
        assert(dec_bytes(n) == dec_bytes(n / 10).push((48 + n % 10) as u8));
        assert(digits_val(dec_bytes(n), 0) == (n / 10) * 10 + ((48 + n % 10) as u8 - 48));
        assert((48 + n % 10) as u8 - 48 == n % 10);
    }
}

/// The clock round trip: a rendered clock parses to its value.
pub proof fn lemma_clock_round_trip(n: usize)
    ensures
        parse_clock(dec_bytes(n as int)) == Some(n as int),
{
    lemma_dec_bytes_digits(n as int);
    lemma_dec_bytes_val(n as int);
}

/// The side round trip.
pub proof fn lemma_side_round_trip(c: Color)
    ensures
        parse_side(side_bytes(c)) == Some(c),
        side_bytes(c).len() > 0,
        ws_free(side_bytes(c)),
{
}

/// The en-passant round trip: the rendered target square parses back to
/// the same square index.
pub proof fn lemma_ep_round_trip(ep: Option<Square>)
    ensures
        parse_en_passant(ep_bytes(ep)) matches Some(o) && (match (ep, o) {
            (Some(q), Some(v)) => q.idx() == v,
            (None, None) => true,
            _ => false,
        }),
        ep_bytes(ep).len() > 0,
        ws_free(ep_bytes(ep)),
{
    match ep {
        None => {},
        Some(q) => {
            assert(0 <= q.idx() < 64);
        },
    }
}

/// The castling round trip: a rights mask below 16 is recovered from its
/// canonical rendering.
pub proof fn lemma_castling_round_trip(rights: u8)
    requires
        rights < 16,
    ensures
        parse_castling(castling_bytes(rights)) == Some(rights),
        castling_bytes(rights).len() > 0,
        ws_free(castling_bytes(rights)),
{
    if rights == 0 {
    } else {
        lemma_castle_or_facts();
        castle_fold_case(rights);
    }
}

/// Every byte a board rank emits is a piece letter or a skip digit.
pub open spec fn row_byte_ok(b: u8) -> bool {
    piece_char_index(b) >= 0 || (49 <= b <= 56)
}

/// A sequence of rank bytes: not whitespace, not a slash.
pub open spec fn row_bytes_ok(s: Seq<u8>) -> bool {
    forall|j: int| 0 <= j < s.len() ==> row_byte_ok(#[trigger] s[j])
}

/// Rank bytes are neither whitespace nor slashes.
pub proof fn lemma_row_bytes_ok_class(s: Seq<u8>)
    requires
        row_bytes_ok(s),
    ensures
        ws_free(s),
        forall|j: int| 0 <= j < s.len() ==> #[trigger] s[j] != 47,
{
    assert forall|j: int| 0 <= j < s.len() implies !is_ws(#[trigger] s[j]) && s[j] != 47 by {
        assert(row_byte_ok(s[j]));
    }
}

/// The letters a square emits are piece letters.
pub proof fn lemma_square_chars_class(bb: Bitboard, s: int, i: int)
    ensures
        row_bytes_ok(square_chars_rec(bb, s, i)),
    decreases 12 - i,
{
    if 0 <= i < 12 {
        lemma_square_chars_class(bb, s, i + 1);
        assert(piece_char_index(piece_letter(i)) == i);
        let hd = if bit64(bb.pieces@[i].0, s as u64) {
            seq![piece_letter(i)]
        } else {
            Seq::<u8>::empty()
        };
        let tl = square_chars_rec(bb, s, i + 1);
        assert forall|j: int| 0 <= j < (hd + tl).len() implies row_byte_ok(
            #[trigger] (hd + tl)[j],
        ) by {
            if j < hd.len() {
                assert((hd + tl)[j] == hd[j]);
            } else {
                assert((hd + tl)[j] == tl[j - hd.len()]);
            }
        }
    }
}

/// A rank's emission appended to `out` is `out` followed by the emission
/// from an empty accumulator.
pub proof fn lemma_row_bytes_prefix(bb: Bitboard, r: int, j: int, blanks: int, out: Seq<u8>)
    ensures
        row_bytes(bb, r, j, blanks, out) == out + row_bytes(bb, r, j, blanks, Seq::empty()),
    decreases 8 - j,
{
    let e = Seq::<u8>::empty();
    if j < 0 || j >= 8 {
        if blanks != 0 {
            assert(out.push((48 + blanks) as u8) =~= out + e.push((48 + blanks) as u8));
        } else {
            assert(out =~= out + e);
        }
    } else {
        let cs = square_chars_rec(bb, r * 8 + j, 0);
        if cs.len() == 0 {
            lemma_row_bytes_prefix(bb, r, j + 1, blanks + 1, out);
        } else {
            let flushed_out = if blanks != 0 {
                out.push((48 + blanks) as u8)
            } else {
                out
            };
            let flushed_e = if blanks != 0 {
                e.push((48 + blanks) as u8)
            } else {
                e
            };
            lemma_row_bytes_prefix(bb, r, j + 1, 0, flushed_out + cs);
            lemma_row_bytes_prefix(bb, r, j + 1, 0, flushed_e + cs);
            assert(flushed_out + cs =~= out + (flushed_e + cs));
            assert((out + (flushed_e + cs)) + row_bytes(bb, r, j + 1, 0, e) =~= out + ((flushed_e
                + cs) + row_bytes(bb, r, j + 1, 0, e)));
        }
    }
}

/// Every byte a rank emits past an accumulator of rank bytes is a rank
/// byte, and a full rank emits at least one byte.
pub proof fn lemma_row_bytes_class(bb: Bitboard, r: int, j: int, blanks: int, out: Seq<u8>)
    requires
        row_bytes_ok(out),
        0 <= blanks <= j <= 8,
    ensures
        row_bytes_ok(row_bytes(bb, r, j, blanks, out)),
        blanks > 0 || (0 <= j < 8) ==> row_bytes(bb, r, j, blanks, out).len() > out.len(),
        row_bytes(bb, r, j, blanks, out).len() >= out.len(),
    decreases 8 - j,
{
    let e = Seq::<u8>::empty();
    if j < 0 || j >= 8 {
        if blanks != 0 {
            assert(row_bytes_ok(out.push((48 + blanks) as u8)));
        }
    } else {
        let cs = square_chars_rec(bb, r * 8 + j, 0);
        lemma_square_chars_class(bb, r * 8 + j, 0);
        if cs.len() == 0 {
            lemma_row_bytes_class(bb, r, j + 1, blanks + 1, out);
        } else {
            let flushed_out = if blanks != 0 {
                out.push((48 + blanks) as u8)
            } else {
                out
            };
            assert(row_bytes_ok(flushed_out));
            assert(row_bytes_ok(flushed_out + cs));
            lemma_row_bytes_class(bb, r, j + 1, 0, flushed_out + cs);
        }
    }
}

/// A slash-free part followed by a slash splits off as one part.
pub proof fn lemma_split_slash_piece(t: Seq<u8>, r: Seq<u8>)
    requires
        forall|j: int| 0 <= j < t.len() ==> #[trigger] t[j] != 47,
    ensures
        split_slash(t + seq![47u8] + r) == seq![t] + split_slash(r),
{
    let s = t + seq![47u8] + r;
    assert(forall|j: int| 0 <= j < t.len() ==> s[j] == t[j]);
    assert(s[t.len() as int] == 47);
    lemma_first_slash_eq(s, t.len() as int);
    assert(s.take(t.len() as int) =~= t);
    assert(s.skip(t.len() as int + 1) =~= r);
}

/// A slash-free sequence is a single part.
pub proof fn lemma_split_slash_last(t: Seq<u8>)
    requires
        forall|j: int| 0 <= j < t.len() ==> #[trigger] t[j] != 47,
    ensures
        split_slash(t) == seq![t],
{
    lemma_first_slash_eq(t, t.len() as int);
}

/// The letters of a square that holds exactly one piece, in set `i0`.
pub proof fn lemma_square_chars_unique(bb: Bitboard, s: int, i: int, i0: int)
    requires
        0 <= i <= i0 < 12,
        bit64(bb.pieces@[i0].0, s as u64),
        forall|k: int| 0 <= k < 12 && k != i0 ==> !bit64((#[trigger] bb.pieces@[k]).0, s as u64),
    ensures
        square_chars_rec(bb, s, i) == seq![piece_letter(i0)],
    decreases 12 - i,
{
    let e = Seq::<u8>::empty();
    if i == i0 {
        lemma_square_chars_none(bb, s, i + 1);
        assert(seq![piece_letter(i0)] + e =~= seq![piece_letter(i0)]);
    } else {
        lemma_square_chars_unique(bb, s, i + 1, i0);
        assert(e + square_chars_rec(bb, s, i + 1) =~= square_chars_rec(bb, s, i + 1));
    }
}

/// The letters of a span of sets none of which holds the square.
pub proof fn lemma_square_chars_none(bb: Bitboard, s: int, i: int)
    requires
        forall|k: int| i <= k < 12 ==> !bit64((#[trigger] bb.pieces@[k]).0, s as u64),
    ensures
        square_chars_rec(bb, s, i) == Seq::<u8>::empty(),
    decreases 12 - i,
{
    let e = Seq::<u8>::empty();
    if 0 <= i < 12 {
        lemma_square_chars_none(bb, s, i + 1);
        assert(e + square_chars_rec(bb, s, i + 1) =~= square_chars_rec(bb, s, i + 1));
    }
}

/// The squares of rank `r` from file `lo` rightward.
pub open spec fn files_mask(r: int, lo: int) -> u64
    decreases 8 - lo,
{
    if lo < 0 || lo >= 8 {
        0u64
    } else {
        (1u64 << ((r * 8 + lo) as u64)) | files_mask(r, lo + 1)
    }
}

/// No square is held by two different piece sets.
pub open spec fn disjoint_sets(bb: Bitboard) -> bool {
    forall|i1: int, i2: int, s: u64|
        0 <= i1 < i2 < 12 && s < 64 ==> !(#[trigger] bit64(bb.pieces@[i1].0, s)
            && #[trigger] bit64(bb.pieces@[i2].0, s))
}

/// Empty-set facts for square sets.
proof fn lemma_zero_facts(x: u64, y: u64)
    by (bit_vector)
    ensures
        x & 0 == 0,
        x | 0 == x,
        0u64 | x == x,
        x | (y & 0) == x,
{
}

/// Masking with a union that starts with an absent bit drops that bit.
proof fn lemma_mask_absent(p: u64, s: u64, m: u64)
    by (bit_vector)
    requires
        s < 64,
        p & (1u64 << s) == 0,
    ensures
        p & ((1u64 << s) | m) == p & m,
{
}

/// Adding a present bit before masking with a union that starts with it.
proof fn lemma_mask_present(a: u64, p: u64, s: u64, m: u64)
    by (bit_vector)
    requires
        s < 64,
        p & (1u64 << s) != 0,
    ensures
        (a | (1u64 << s)) | (p & m) == a | (p & ((1u64 << s) | m)),
{
}

/// Parsing a rank's own serialization: starting from file `j` with `blanks`
/// empty files pending, the parse continues to the end of the rank and adds
/// exactly the rank's remaining squares to each piece set.
pub proof fn lemma_row_parse(bb: Bitboard, r: int, j: int, blanks: int, ps: Seq<BoardSlice>)
    requires
        disjoint_sets(bb),
        0 <= r < 8,
        0 <= blanks <= j <= 8,
        ps.len() == 12,
        forall|k: int, i: int|
            j - blanks <= k < j && 0 <= i < 12 ==> !(#[trigger] bit64(
                bb.pieces@[i].0,
                (r * 8 + k) as u64,
            )),
    ensures
        parse_row(row_bytes(bb, r, j, blanks, Seq::empty()), r, r * 8 + j - blanks, ps) matches Ok(
            p,
        ) && p.0 == (r + 1) * 8 && p.1.len() == 12 && (forall|i: int|
            0 <= i < 12 ==> (#[trigger] p.1[i]).0 == ps[i].0 | (bb.pieces@[i].0 & files_mask(
                r,
                j,
            ))),
    decreases 8 - j,
{
    let e = Seq::<u8>::empty();
    let acc = r * 8 + j - blanks;
    if j >= 8 {
        if blanks != 0 {
            let em = e.push((48 + blanks) as u8);
            assert(row_bytes(bb, r, j, blanks, e) == em);
            assert(em[0] == (48 + blanks) as u8);
            assert(em.drop_first() =~= e);
            assert(piece_char_index((48 + blanks) as u8) == -1);
            assert(parse_row(em, r, acc, ps) == parse_row(e, r, (r + 1) * 8, ps));
        }
        assert forall|i: int| 0 <= i < 12 implies ps[i].0 == ps[i].0 | (bb.pieces@[i].0
            & files_mask(r, j)) by {
            lemma_zero_facts(ps[i].0, bb.pieces@[i].0);
        }
    } else {
        let sq = (r * 8 + j) as u64;
        assert(sq < 64);
        if exists|i: int| 0 <= i < 12 && #[trigger] bit64(bb.pieces@[i].0, sq) {
            let i0 = choose|i: int| 0 <= i < 12 && #[trigger] bit64(bb.pieces@[i].0, sq);
            assert forall|k: int| 0 <= k < 12 && k != i0 implies !bit64(
                (#[trigger] bb.pieces@[k]).0,
                sq,
            ) by {
                if k < i0 {
                    assert(!(bit64(bb.pieces@[k].0, sq) && bit64(bb.pieces@[i0].0, sq)));
                } else {
                    assert(!(bit64(bb.pieces@[i0].0, sq) && bit64(bb.pieces@[k].0, sq)));
                }
            }
            lemma_square_chars_unique(bb, r * 8 + j, 0, i0);
            let cs = seq![piece_letter(i0)];
            let flushed = if blanks != 0 {
                e.push((48 + blanks) as u8)
            } else {
                e
            };
            lemma_row_bytes_prefix(bb, r, j + 1, 0, flushed + cs);
            let tail = row_bytes(bb, r, j + 1, 0, e);
            let em = (flushed + cs) + tail;
            assert(row_bytes(bb, r, j, blanks, e) == em);
            let ps2 = ps.update(i0, BoardSlice(ps[i0].0 | (1u64 << sq)));
            lemma_row_parse(bb, r, j + 1, 0, ps2);
            assert(piece_char_index(piece_letter(i0)) == i0);
            if blanks != 0 {
                assert(em[0] == (48 + blanks) as u8);
                assert(piece_char_index((48 + blanks) as u8) == -1);
                assert(em.drop_first() =~= cs + tail);
                assert(parse_row(em, r, acc, ps) == parse_row(cs + tail, r, r * 8 + j, ps));
            } else {
                assert(em =~= cs + tail);
            }
            assert((cs + tail)[0] == piece_letter(i0));
            assert((cs + tail).drop_first() =~= tail);
            assert(parse_row(cs + tail, r, r * 8 + j, ps) == parse_row(
                tail,
                r,
                r * 8 + j + 1,
                ps2,
            ));
            let p = match parse_row(tail, r, r * 8 + j + 1, ps2) {
                Ok(p) => p,
                Err(_) => ((0int, ps2)),
            };
            assert forall|i: int| 0 <= i < 12 implies (#[trigger] p.1[i]).0 == ps[i].0 | (
            bb.pieces@[i].0 & files_mask(r, j)) by {
                if i == i0 {
                    lemma_mask_present(
                        ps[i0].0,
                        bb.pieces@[i0].0,
                        sq,
                        files_mask(r, j + 1),
                    );
                } else {
                    lemma_mask_absent(bb.pieces@[i].0, sq, files_mask(r, j + 1));
                }
            }
        } else {
            assert forall|k: int| 0 <= k < 12 implies !bit64((#[trigger] bb.pieces@[k]).0, sq) by {
            }
            lemma_square_chars_none(bb, r * 8 + j, 0);
            assert(row_bytes(bb, r, j, blanks, e) == row_bytes(bb, r, j + 1, blanks + 1, e));
            lemma_row_parse(bb, r, j + 1, blanks + 1, ps);
            assert forall|i: int| 0 <= i < 12 implies bb.pieces@[i].0 & files_mask(r, j)
                == bb.pieces@[i].0 & files_mask(r, j + 1) by {
                lemma_mask_absent(bb.pieces@[i].0, sq, files_mask(r, j + 1));
            }
        }
    }
}

/// The board-field emission appended to `out` is `out` followed by the
/// emission from an empty accumulator.
pub proof fn lemma_board_bytes_prefix(bb: Bitboard, rank: int, out: Seq<u8>)
    ensures
        board_bytes(bb, rank, out) == out + board_bytes(bb, rank, Seq::empty()),
    decreases rank + 1,
{
    let e = Seq::<u8>::empty();
    if rank < 0 {
        assert(out =~= out + e);
    } else {
        let row_out = row_bytes(bb, rank, 0, 0, out);
        let row_e = row_bytes(bb, rank, 0, 0, e);
        lemma_row_bytes_prefix(bb, rank, 0, 0, out);
        if rank > 0 {
            lemma_board_bytes_prefix(bb, rank - 1, row_out.push(47));
            lemma_board_bytes_prefix(bb, rank - 1, row_e.push(47));
            assert(row_out.push(47) =~= out + row_e.push(47));
            assert((out + row_e.push(47)) + board_bytes(bb, rank - 1, e) =~= out + (row_e.push(47)
                + board_bytes(bb, rank - 1, e)));
            assert(row_e.push(47) + board_bytes(bb, rank - 1, e) =~= board_bytes(
                bb,
                rank - 1,
                row_e.push(47),
            )) by {
                lemma_board_bytes_prefix(bb, rank - 1, row_e.push(47));
            }
        } else {
            lemma_board_bytes_prefix(bb, rank - 1, row_out);
            lemma_board_bytes_prefix(bb, rank - 1, row_e);
            assert(row_out =~= out + row_e);
            assert((out + row_e) + board_bytes(bb, rank - 1, e) =~= out + (row_e + board_bytes(
                bb,
                rank - 1,
                e,
            )));
            assert(row_e + board_bytes(bb, rank - 1, e) =~= board_bytes(bb, rank - 1, row_e)) by {
                lemma_board_bytes_prefix(bb, rank - 1, row_e);
            }
        }
    }
}

/// The board field splits at its slashes into the eight rank emissions,
/// rank `rank` first, and holds no whitespace.
pub proof fn lemma_board_parts(bb: Bitboard, rank: int)
    requires
        0 <= rank < 8,
    ensures
        split_slash(board_bytes(bb, rank, Seq::empty())) == Seq::new(
            (rank + 1) as nat,
            |k: int| row_bytes(bb, rank - k, 0, 0, Seq::empty()),
        ),
        ws_free(board_bytes(bb, rank, Seq::empty())),
        board_bytes(bb, rank, Seq::empty()).len() > 0,
    decreases rank,
{
    let e = Seq::<u8>::empty();
    let row = row_bytes(bb, rank, 0, 0, e);
    lemma_row_bytes_class(bb, rank, 0, 0, e);
    lemma_row_bytes_ok_class(row);
    if rank == 0 {
        assert(board_bytes(bb, 0, e) == board_bytes(bb, -1, row)) by {
            lemma_board_bytes_prefix(bb, -1, row);
        }
        assert(board_bytes(bb, -1, row) == row);
        lemma_split_slash_last(row);
        assert(seq![row] =~= Seq::new(1nat, |k: int| row_bytes(bb, 0 - k, 0, 0, e)));
    } else {
        lemma_board_parts(bb, rank - 1);
        let tail = board_bytes(bb, rank - 1, e);
        assert(board_bytes(bb, rank, e) == row + seq![47u8] + tail) by {
            lemma_board_bytes_prefix(bb, rank - 1, row.push(47));
            assert(row.push(47) =~= row + seq![47u8]);
            assert((row + seq![47u8]) + tail =~= row + seq![47u8] + tail);
        }
        lemma_split_slash_piece(row, tail);
        assert(seq![row] + Seq::new((rank - 1 + 1) as nat, |k: int| row_bytes(bb, rank - 1 - k, 0, 0, e))
            =~= Seq::new((rank + 1) as nat, |k: int| row_bytes(bb, rank - k, 0, 0, e)));
        assert forall|j: int|
            0 <= j < (row + seq![47u8] + tail).len() implies !is_ws(
            #[trigger] (row + seq![47u8] + tail)[j],
        ) by {
            if j < row.len() {
                assert((row + seq![47u8] + tail)[j] == row[j]);
            } else if j == row.len() {
                assert((row + seq![47u8] + tail)[j] == 47);
            } else {
                assert((row + seq![47u8] + tail)[j] == tail[j - row.len() - 1]);
            }
        }
    }
}

/// The squares of all ranks from `idx` upward.
pub open spec fn ranks_from(idx: int) -> u64
    decreases 8 - idx,
{
    if idx < 0 || idx >= 8 {
        0u64
    } else {
        files_mask(idx, 0) | ranks_from(idx + 1)
    }
}

/// Merging two masked unions of one set.
proof fn lemma_or_mask_merge(a: u64, p: u64, m1: u64, m2: u64)
    by (bit_vector)
    ensures
        (a | (p & m1)) | (p & m2) == a | (p & (m1 | m2)),
{
}

/// Parsing the remaining ranks of the board field, rank `idx` upward, adds
/// exactly those ranks' squares to each piece set.
pub proof fn lemma_board_rows_parse(bb: Bitboard, rows: Seq<Seq<u8>>, idx: int, ps: Seq<
    BoardSlice,
>)
    requires
        disjoint_sets(bb),
        0 <= idx <= 8,
        ps.len() == 12,
        rows.len() == 8,
        forall|k: int| 0 <= k < 8 ==> #[trigger] rows[k] == row_bytes(
            bb,
            7 - k,
            0,
            0,
            Seq::empty(),
        ),
    ensures
        parse_board_rows(rows, idx, ps) matches Ok(fin) && fin.len() == 12 && (forall|i: int|
            0 <= i < 12 ==> (#[trigger] fin[i]).0 == ps[i].0 | (bb.pieces@[i].0 & ranks_from(
                idx,
            ))),
    decreases 8 - idx,
{
    if idx >= 8 {
        assert forall|i: int| 0 <= i < 12 implies ps[i].0 == ps[i].0 | (bb.pieces@[i].0
            & ranks_from(idx)) by {
            lemma_zero_facts(ps[i].0, bb.pieces@[i].0);
        }
    } else {
        assert(rows[7 - idx] == row_bytes(bb, idx, 0, 0, Seq::empty()));
        lemma_row_parse(bb, idx, 0, 0, ps);
        let p = match parse_row(rows[7 - idx], idx, idx * 8, ps) {
            Ok(p) => p,
            Err(_) => ((0int, ps)),
        };
        lemma_board_rows_parse(bb, rows, idx + 1, p.1);
        let fin = match parse_board_rows(rows, idx + 1, p.1) {
            Ok(f) => f,
            Err(_) => ps,
        };
        assert forall|i: int| 0 <= i < 12 implies (#[trigger] fin[i]).0 == ps[i].0 | (
        bb.pieces@[i].0 & ranks_from(idx)) by {
            lemma_or_mask_merge(
                ps[i].0,
                bb.pieces@[i].0,
                files_mask(idx, 0),
                ranks_from(idx + 1),
            );
        }
    }
}

/// A rank's file span is one byte row of the mask.
proof fn lemma_files_mask_value(r: int)
    requires
        0 <= r < 8,
    ensures
        files_mask(r, 0) == (0xFFu64 << ((8 * r) as u64)),
{
    let s: u64 = (8 * r) as u64;
    assert(files_mask(r, 8) == 0);
    assert(files_mask(r, 7) == (1u64 << ((r * 8 + 7) as u64)) | 0);
    assert(files_mask(r, 6) == (1u64 << ((r * 8 + 6) as u64)) | files_mask(r, 7));
    assert(files_mask(r, 5) == (1u64 << ((r * 8 + 5) as u64)) | files_mask(r, 6));
    assert(files_mask(r, 4) == (1u64 << ((r * 8 + 4) as u64)) | files_mask(r, 5));
    assert(files_mask(r, 3) == (1u64 << ((r * 8 + 3) as u64)) | files_mask(r, 4));
    assert(files_mask(r, 2) == (1u64 << ((r * 8 + 2) as u64)) | files_mask(r, 3));
    assert(files_mask(r, 1) == (1u64 << ((r * 8 + 1) as u64)) | files_mask(r, 2));
    assert(files_mask(r, 0) == (1u64 << ((r * 8 + 0) as u64)) | files_mask(r, 1));
    assert((1u64 << ((s + 0) as u64)) | ((1u64 << ((s + 1) as u64)) | ((1u64 << ((s + 2) as u64))
        | ((1u64 << ((s + 3) as u64)) | ((1u64 << ((s + 4) as u64)) | ((1u64 << ((s + 5) as u64))
        | ((1u64 << ((s + 6) as u64)) | ((1u64 << ((s + 7) as u64)) | 0u64))))))) == (0xFFu64 << s))
        by (bit_vector)
        requires
            s <= 56,
    ;
}

/// The whole board mask covers every square.
proof fn lemma_ranks_from_full(p: u64)
    ensures
        p & ranks_from(0) == p,
{
    lemma_files_mask_value(0);
    lemma_files_mask_value(1);
    lemma_files_mask_value(2);
    lemma_files_mask_value(3);
    lemma_files_mask_value(4);
    lemma_files_mask_value(5);
    lemma_files_mask_value(6);
    lemma_files_mask_value(7);
    assert(ranks_from(8) == 0);
    assert(ranks_from(7) == files_mask(7, 0) | 0);
    assert(ranks_from(6) == files_mask(6, 0) | ranks_from(7));
    assert(ranks_from(5) == files_mask(5, 0) | ranks_from(6));
    assert(ranks_from(4) == files_mask(4, 0) | ranks_from(5));
    assert(ranks_from(3) == files_mask(3, 0) | ranks_from(4));
    assert(ranks_from(2) == files_mask(2, 0) | ranks_from(3));
    assert(ranks_from(1) == files_mask(1, 0) | ranks_from(2));
    assert(ranks_from(0) == files_mask(0, 0) | ranks_from(1));
    assert(p & ((0xFFu64 << 0u64) | ((0xFFu64 << 8u64) | ((0xFFu64 << 16u64) | ((0xFFu64 << 24u64)
        | ((0xFFu64 << 32u64) | ((0xFFu64 << 40u64) | ((0xFFu64 << 48u64) | ((0xFFu64 << 56u64)
        | 0u64)))))))) == p) by (bit_vector);
}

/// A position whose FEN serialization parses back to itself: the twelve
/// square sets are pairwise disjoint, and the castling mask uses only its
/// four bits.
pub open spec fn wf_fen(bb: Bitboard) -> bool {
    &&& disjoint_sets(bb)
    &&& bb.castling_rights < 16
}

/// The FEN round-trip law: parsing the serialization of any well-formed
/// position succeeds and yields exactly the position's fields.
pub proof fn lemma_fen_round_trip(bb: Bitboard)
    requires
        wf_fen(bb),
    ensures
        parse_fen(fen_bytes(bb)) matches Ok(ff) && matches_fen(bb, ff),
{
    let e = Seq::<u8>::empty();
    let board = board_bytes(bb, 7, e);
    let side = side_bytes(bb.to_move);
    let castle = castling_bytes(bb.castling_rights);
    let ep = ep_bytes(bb.en_passant_square);
    let half = dec_bytes(bb.half_move_clock as int);
    let full = dec_bytes(bb.full_move_clock as int);
    let sp = seq![32u8];
    lemma_board_parts(bb, 7);
    lemma_side_round_trip(bb.to_move);
    lemma_castling_round_trip(bb.castling_rights);
    lemma_ep_round_trip(bb.en_passant_square);
    lemma_clock_round_trip(bb.half_move_clock);
    lemma_clock_round_trip(bb.full_move_clock);
    lemma_dec_bytes_digits(bb.half_move_clock as int);
    lemma_dec_bytes_digits(bb.full_move_clock as int);
    let fen = fen_bytes(bb);
    let rest1 = side + sp + (castle + sp + (ep + sp + (half + sp + full)));
    let rest2 = castle + sp + (ep + sp + (half + sp + full));
    let rest3 = ep + sp + (half + sp + full);
    let rest4 = half + sp + full;
    assert(fen =~= board + sp + rest1);
    assert(rest1 =~= side + sp + rest2);
    assert(rest2 =~= castle + sp + rest3);
    assert(rest3 =~= ep + sp + rest4);
    assert(rest4 =~= half + sp + full);
    lemma_split_ws_token(board, rest1);
    lemma_split_ws_token(side, rest2);
    lemma_split_ws_token(castle, rest3);
    lemma_split_ws_token(ep, rest4);
    lemma_split_ws_token(half, full);
    lemma_split_ws_last(full);
    let parts = split_ws(fen);
    assert(parts =~= seq![board, side, castle, ep, half, full]);
    assert(parts.len() == 6);
    assert(parts[0] == board && parts[1] == side && parts[2] == castle && parts[3] == ep
        && parts[4] == half && parts[5] == full);
    // The board field parses back to the position's square sets.
    let rows = split_slash(board);
    assert(rows.len() == 8);
    assert(forall|k: int|
        0 <= k < 8 ==> #[trigger] rows[k] == row_bytes(bb, 7 - k, 0, 0, Seq::empty()));
    let init = Seq::new(12, |i: int| BoardSlice(0));
    lemma_board_rows_parse(bb, rows, 0, init);
    let fin = match parse_board_rows(rows, 0, init) {
        Ok(f) => f,
        Err(_) => init,
    };
    assert forall|i: int| 0 <= i < 12 implies #[trigger] fin[i] == bb.pieces@[i] by {
        lemma_ranks_from_full(bb.pieces@[i].0);
        lemma_zero_facts(bb.pieces@[i].0, 0);
        assert(fin[i].0 == bb.pieces@[i].0);
    }
    assert(fin =~= bb.pieces@);
    assert(parse_board(board) == Ok::<Seq<BoardSlice>, crate::errors::FENParseError>(fin));
}

/// The bitwise facts on literal castling masks that the fold evaluation
/// needs: which bits each mask below 16 holds, and the value of each
/// reachable accumulation.
proof fn lemma_castle_or_facts()
    by (bit_vector)
    ensures
        (0u8 | 1u8) == 1u8,
        (0u8 | 2u8) == 2u8,
        (0u8 | 4u8) == 4u8,
        (0u8 | 8u8) == 8u8,
        (1u8 | 2u8) == 3u8,
        (1u8 | 4u8) == 5u8,
        (1u8 | 8u8) == 9u8,
        (2u8 | 4u8) == 6u8,
        (2u8 | 8u8) == 10u8,
        (3u8 | 4u8) == 7u8,
        (3u8 | 8u8) == 11u8,
        (4u8 | 8u8) == 12u8,
        (5u8 | 8u8) == 13u8,
        (6u8 | 8u8) == 14u8,
        (7u8 | 8u8) == 15u8,
        (1u8 & 1u8) == 1u8,
        (1u8 & 2u8) == 0u8,
        (1u8 & 4u8) == 0u8,
        (1u8 & 8u8) == 0u8,
        (2u8 & 1u8) == 0u8,
        (2u8 & 2u8) == 2u8,
        (2u8 & 4u8) == 0u8,
        (2u8 & 8u8) == 0u8,
        (3u8 & 1u8) == 1u8,
        (3u8 & 2u8) == 2u8,
        (3u8 & 4u8) == 0u8,
        (3u8 & 8u8) == 0u8,
        (4u8 & 1u8) == 0u8,
        (4u8 & 2u8) == 0u8,
        (4u8 & 4u8) == 4u8,
        (4u8 & 8u8) == 0u8,
        (5u8 & 1u8) == 1u8,
        (5u8 & 2u8) == 0u8,
        (5u8 & 4u8) == 4u8,
        (5u8 & 8u8) == 0u8,
        (6u8 & 1u8) == 0u8,
        (6u8 & 2u8) == 2u8,
        (6u8 & 4u8) == 4u8,
        (6u8 & 8u8) == 0u8,
        (7u8 & 1u8) == 1u8,
        (7u8 & 2u8) == 2u8,
        (7u8 & 4u8) == 4u8,
        (7u8 & 8u8) == 0u8,
        (8u8 & 1u8) == 0u8,
        (8u8 & 2u8) == 0u8,
        (8u8 & 4u8) == 0u8,
        (8u8 & 8u8) == 8u8,
        (9u8 & 1u8) == 1u8,
        (9u8 & 2u8) == 0u8,
        (9u8 & 4u8) == 0u8,
        (9u8 & 8u8) == 8u8,
        (10u8 & 1u8) == 0u8,
        (10u8 & 2u8) == 2u8,
        (10u8 & 4u8) == 0u8,
        (10u8 & 8u8) == 8u8,
        (11u8 & 1u8) == 1u8,
        (11u8 & 2u8) == 2u8,
        (11u8 & 4u8) == 0u8,
        (11u8 & 8u8) == 8u8,
        (12u8 & 1u8) == 0u8,
        (12u8 & 2u8) == 0u8,
        (12u8 & 4u8) == 4u8,
        (12u8 & 8u8) == 8u8,
        (13u8 & 1u8) == 1u8,
        (13u8 & 2u8) == 0u8,
        (13u8 & 4u8) == 4u8,
        (13u8 & 8u8) == 8u8,
        (14u8 & 1u8) == 0u8,
        (14u8 & 2u8) == 2u8,
        (14u8 & 4u8) == 4u8,
        (14u8 & 8u8) == 8u8,
        (15u8 & 1u8) == 1u8,
        (15u8 & 2u8) == 2u8,
        (15u8 & 4u8) == 4u8,
        (15u8 & 8u8) == 8u8,
{
}

/// Folds the canonical castling rendering of each nonzero mask below 16.
proof fn castle_fold_case(rights: u8)
    requires
        0 < rights < 16,
    ensures
        parse_castle_chars(castling_bytes(rights), 0) == Some(rights),
{
    lemma_castle_or_facts();
    if rights == 1 {
        assert(castling_bytes(rights) =~= seq![75u8]);
        lemma_castle_fold_1();
    } else if rights == 2 {
        assert(castling_bytes(rights) =~= seq![81u8]);
        lemma_castle_fold_2();
    } else if rights == 3 {
        assert(castling_bytes(rights) =~= seq![75u8, 81u8]);
        lemma_castle_fold_3();
    } else if rights == 4 {
        assert(castling_bytes(rights) =~= seq![107u8]);
        lemma_castle_fold_4();
    } else if rights == 5 {
        assert(castling_bytes(rights) =~= seq![75u8, 107u8]);
        lemma_castle_fold_5();
    } else if rights == 6 {
        assert(castling_bytes(rights) =~= seq![81u8, 107u8]);
        lemma_castle_fold_6();
    } else if rights == 7 {
        assert(castling_bytes(rights) =~= seq![75u8, 81u8, 107u8]);
        lemma_castle_fold_7();
    } else if rights == 8 {
        assert(castling_bytes(rights) =~= seq![113u8]);
        lemma_castle_fold_8();
    } else if rights == 9 {
        assert(castling_bytes(rights) =~= seq![75u8, 113u8]);
        lemma_castle_fold_9();
    } else if rights == 10 {
        assert(castling_bytes(rights) =~= seq![81u8, 113u8]);
        lemma_castle_fold_10();
    } else if rights == 11 {
        assert(castling_bytes(rights) =~= seq![75u8, 81u8, 113u8]);
        lemma_castle_fold_11();
    } else if rights == 12 {
        assert(castling_bytes(rights) =~= seq![107u8, 113u8]);
        lemma_castle_fold_12();
    } else if rights == 13 {
        assert(castling_bytes(rights) =~= seq![75u8, 107u8, 113u8]);
        lemma_castle_fold_13();
    } else if rights == 14 {
        assert(castling_bytes(rights) =~= seq![81u8, 107u8, 113u8]);
        lemma_castle_fold_14();
    } else if rights == 15 {
        assert(castling_bytes(rights) =~= seq![75u8, 81u8, 107u8, 113u8]);
        lemma_castle_fold_15();
    }
}

/// Folds the castling letters of mask 1.
proof fn lemma_castle_fold_1()
    ensures
        parse_castle_chars(seq![75u8], 0) == Some(1u8),
{
    lemma_castle_or_facts();
    assert(parse_castle_chars(Seq::<u8>::empty(), 1u8) == Some(1u8));
    assert(seq![75u8][0] == 75u8);
    assert(seq![75u8].drop_first() =~= Seq::<u8>::empty());
    assert(castle_bit(75u8) == 1u8);
    assert(parse_castle_chars(seq![75u8], 0u8) == Some(1u8));
}

/// Folds the castling letters of mask 2.
proof fn lemma_castle_fold_2()
    ensures
        parse_castle_chars(seq![81u8], 0) == Some(2u8),
{
    lemma_castle_or_facts();
    assert(parse_castle_chars(Seq::<u8>::empty(), 2u8) == Some(2u8));
    assert(seq![81u8][0] == 81u8);
    assert(seq![81u8].drop_first() =~= Seq::<u8>::empty());
    assert(castle_bit(81u8) == 2u8);
    assert(parse_castle_chars(seq![81u8], 0u8) == Some(2u8));
}

/// Folds the castling letters of mask 3.
proof fn lemma_castle_fold_3()
    ensures
        parse_castle_chars(seq![75u8, 81u8], 0) == Some(3u8),
{
    lemma_castle_or_facts();
    assert(parse_castle_chars(Seq::<u8>::empty(), 3u8) == Some(3u8));
    assert(seq![81u8][0] == 81u8);
    assert(seq![81u8].drop_first() =~= Seq::<u8>::empty());
    assert(castle_bit(81u8) == 2u8);
    assert(parse_castle_chars(seq![81u8], 1u8) == Some(3u8));
    assert(seq![75u8, 81u8][0] == 75u8);
    assert(seq![75u8, 81u8].drop_first() =~= seq![81u8]);
    assert(castle_bit(75u8) == 1u8);
    assert(parse_castle_chars(seq![75u8, 81u8], 0u8) == Some(3u8));
}

/// Folds the castling letters of mask 4.
proof fn lemma_castle_fold_4()
    ensures
        parse_castle_chars(seq![107u8], 0) == Some(4u8),
{
    lemma_castle_or_facts();
    assert(parse_castle_chars(Seq::<u8>::empty(), 4u8) == Some(4u8));
    assert(seq![107u8][0] == 107u8);
    assert(seq![107u8].drop_first() =~= Seq::<u8>::empty());
    assert(castle_bit(107u8) == 4u8);
    assert(parse_castle_chars(seq![107u8], 0u8) == Some(4u8));
}

/// Folds the castling letters of mask 5.
proof fn lemma_castle_fold_5()
    ensures
        parse_castle_chars(seq![75u8, 107u8], 0) == Some(5u8),
{
    lemma_castle_or_facts();
    assert(parse_castle_chars(Seq::<u8>::empty(), 5u8) == Some(5u8));
    assert(seq![107u8][0] == 107u8);
    assert(seq![107u8].drop_first() =~= Seq::<u8>::empty());
    assert(castle_bit(107u8) == 4u8);
    assert(parse_castle_chars(seq![107u8], 1u8) == Some(5u8));
    assert(seq![75u8, 107u8][0] == 75u8);
    assert(seq![75u8, 107u8].drop_first() =~= seq![107u8]);
    assert(castle_bit(75u8) == 1u8);
    assert(parse_castle_chars(seq![75u8, 107u8], 0u8) == Some(5u8));
}

/// Folds the castling letters of mask 6.
proof fn lemma_castle_fold_6()
    ensures
        parse_castle_chars(seq![81u8, 107u8], 0) == Some(6u8),
{
    lemma_castle_or_facts();
    assert(parse_castle_chars(Seq::<u8>::empty(), 6u8) == Some(6u8));
    assert(seq![107u8][0] == 107u8);
    assert(seq![107u8].drop_first() =~= Seq::<u8>::empty());
    assert(castle_bit(107u8) == 4u8);
    assert(parse_castle_chars(seq![107u8], 2u8) == Some(6u8));
    assert(seq![81u8, 107u8][0] == 81u8);
    assert(seq![81u8, 107u8].drop_first() =~= seq![107u8]);
    assert(castle_bit(81u8) == 2u8);
    assert(parse_castle_chars(seq![81u8, 107u8], 0u8) == Some(6u8));
}

/// Folds the castling letters of mask 7.
proof fn lemma_castle_fold_7()
    ensures
        parse_castle_chars(seq![75u8, 81u8, 107u8], 0) == Some(7u8),
{
    lemma_castle_or_facts();
    assert(parse_castle_chars(Seq::<u8>::empty(), 7u8) == Some(7u8));
    assert(seq![107u8][0] == 107u8);
    assert(seq![107u8].drop_first() =~= Seq::<u8>::empty());
    assert(castle_bit(107u8) == 4u8);
    assert(parse_castle_chars(seq![107u8], 3u8) == Some(7u8));
    assert(seq![81u8, 107u8][0] == 81u8);
    assert(seq![81u8, 107u8].drop_first() =~= seq![107u8]);
    assert(castle_bit(81u8) == 2u8);
    assert(parse_castle_chars(seq![81u8, 107u8], 1u8) == Some(7u8));
    assert(seq![75u8, 81u8, 107u8][0] == 75u8);
    assert(seq![75u8, 81u8, 107u8].drop_first() =~= seq![81u8, 107u8]);
    assert(castle_bit(75u8) == 1u8);
    assert(parse_castle_chars(seq![75u8, 81u8, 107u8], 0u8) == Some(7u8));
}

/// Folds the castling letters of mask 8.
proof fn lemma_castle_fold_8()
    ensures
        parse_castle_chars(seq![113u8], 0) == Some(8u8),
{
    lemma_castle_or_facts();
    assert(parse_castle_chars(Seq::<u8>::empty(), 8u8) == Some(8u8));
    assert(seq![113u8][0] == 113u8);
    assert(seq![113u8].drop_first() =~= Seq::<u8>::empty());
    assert(castle_bit(113u8) == 8u8);
    assert(parse_castle_chars(seq![113u8], 0u8) == Some(8u8));
}

/// Folds the castling letters of mask 9.
proof fn lemma_castle_fold_9()
    ensures
        parse_castle_chars(seq![75u8, 113u8], 0) == Some(9u8),
{
    lemma_castle_or_facts();
    assert(parse_castle_chars(Seq::<u8>::empty(), 9u8) == Some(9u8));
    assert(seq![113u8][0] == 113u8);
    assert(seq![113u8].drop_first() =~= Seq::<u8>::empty());
    assert(castle_bit(113u8) == 8u8);
    assert(parse_castle_chars(seq![113u8], 1u8) == Some(9u8));
    assert(seq![75u8, 113u8][0] == 75u8);
    assert(seq![75u8, 113u8].drop_first() =~= seq![113u8]);
    assert(castle_bit(75u8) == 1u8);
    assert(parse_castle_chars(seq![75u8, 113u8], 0u8) == Some(9u8));
}

/// Folds the castling letters of mask 10.
proof fn lemma_castle_fold_10()
    ensures
        parse_castle_chars(seq![81u8, 113u8], 0) == Some(10u8),
{
    lemma_castle_or_facts();
    assert(parse_castle_chars(Seq::<u8>::empty(), 10u8) == Some(10u8));
    assert(seq![113u8][0] == 113u8);
    assert(seq![113u8].drop_first() =~= Seq::<u8>::empty());
    assert(castle_bit(113u8) == 8u8);
    assert(parse_castle_chars(seq![113u8], 2u8) == Some(10u8));
    assert(seq![81u8, 113u8][0] == 81u8);
    assert(seq![81u8, 113u8].drop_first() =~= seq![113u8]);
    assert(castle_bit(81u8) == 2u8);
    assert(parse_castle_chars(seq![81u8, 113u8], 0u8) == Some(10u8));
}

/// Folds the castling letters of mask 11.
proof fn lemma_castle_fold_11()
    ensures
        parse_castle_chars(seq![75u8, 81u8, 113u8], 0) == Some(11u8),
{
    lemma_castle_or_facts();
    assert(parse_castle_chars(Seq::<u8>::empty(), 11u8) == Some(11u8));
    assert(seq![113u8][0] == 113u8);
    assert(seq![113u8].drop_first() =~= Seq::<u8>::empty());
    assert(castle_bit(113u8) == 8u8);
    assert(parse_castle_chars(seq![113u8], 3u8) == Some(11u8));
    assert(seq![81u8, 113u8][0] == 81u8);
    assert(seq![81u8, 113u8].drop_first() =~= seq![113u8]);
    assert(castle_bit(81u8) == 2u8);
    assert(parse_castle_chars(seq![81u8, 113u8], 1u8) == Some(11u8));
    assert(seq![75u8, 81u8, 113u8][0] == 75u8);
    assert(seq![75u8, 81u8, 113u8].drop_first() =~= seq![81u8, 113u8]);
    assert(castle_bit(75u8) == 1u8);
    assert(parse_castle_chars(seq![75u8, 81u8, 113u8], 0u8) == Some(11u8));
}

/// Folds the castling letters of mask 12.
proof fn lemma_castle_fold_12()
    ensures
        parse_castle_chars(seq![107u8, 113u8], 0) == Some(12u8),
{
    lemma_castle_or_facts();
    assert(parse_castle_chars(Seq::<u8>::empty(), 12u8) == Some(12u8));
    assert(seq![113u8][0] == 113u8);
    assert(seq![113u8].drop_first() =~= Seq::<u8>::empty());
    assert(castle_bit(113u8) == 8u8);
    assert(parse_castle_chars(seq![113u8], 4u8) == Some(12u8));
    assert(seq![107u8, 113u8][0] == 107u8);
    assert(seq![107u8, 113u8].drop_first() =~= seq![113u8]);
    assert(castle_bit(107u8) == 4u8);
    assert(parse_castle_chars(seq![107u8, 113u8], 0u8) == Some(12u8));
}

/// Folds the castling letters of mask 13.
proof fn lemma_castle_fold_13()
    ensures
        parse_castle_chars(seq![75u8, 107u8, 113u8], 0) == Some(13u8),
{
    lemma_castle_or_facts();
    assert(parse_castle_chars(Seq::<u8>::empty(), 13u8) == Some(13u8));
    assert(seq![113u8][0] == 113u8);
    assert(seq![113u8].drop_first() =~= Seq::<u8>::empty());
    assert(castle_bit(113u8) == 8u8);
    assert(parse_castle_chars(seq![113u8], 5u8) == Some(13u8));
    assert(seq![107u8, 113u8][0] == 107u8);
    assert(seq![107u8, 113u8].drop_first() =~= seq![113u8]);
    assert(castle_bit(107u8) == 4u8);
    assert(parse_castle_chars(seq![107u8, 113u8], 1u8) == Some(13u8));
    assert(seq![75u8, 107u8, 113u8][0] == 75u8);
    assert(seq![75u8, 107u8, 113u8].drop_first() =~= seq![107u8, 113u8]);
    assert(castle_bit(75u8) == 1u8);
    assert(parse_castle_chars(seq![75u8, 107u8, 113u8], 0u8) == Some(13u8));
}

/// Folds the castling letters of mask 14.
proof fn lemma_castle_fold_14()
    ensures
        parse_castle_chars(seq![81u8, 107u8, 113u8], 0) == Some(14u8),
{
    lemma_castle_or_facts();
    assert(parse_castle_chars(Seq::<u8>::empty(), 14u8) == Some(14u8));
    assert(seq![113u8][0] == 113u8);
    assert(seq![113u8].drop_first() =~= Seq::<u8>::empty());
    assert(castle_bit(113u8) == 8u8);
    assert(parse_castle_chars(seq![113u8], 6u8) == Some(14u8));
    assert(seq![107u8, 113u8][0] == 107u8);
    assert(seq![107u8, 113u8].drop_first() =~= seq![113u8]);
    assert(castle_bit(107u8) == 4u8);
    assert(parse_castle_chars(seq![107u8, 113u8], 2u8) == Some(14u8));
    assert(seq![81u8, 107u8, 113u8][0] == 81u8);
    assert(seq![81u8, 107u8, 113u8].drop_first() =~= seq![107u8, 113u8]);
    assert(castle_bit(81u8) == 2u8);
    assert(parse_castle_chars(seq![81u8, 107u8, 113u8], 0u8) == Some(14u8));
}

/// Folds the castling letters of mask 15.
proof fn lemma_castle_fold_15()
    ensures
        parse_castle_chars(seq![75u8, 81u8, 107u8, 113u8], 0) == Some(15u8),
{
    lemma_castle_or_facts();
    assert(parse_castle_chars(Seq::<u8>::empty(), 15u8) == Some(15u8));
    assert(seq![113u8][0] == 113u8);
    assert(seq![113u8].drop_first() =~= Seq::<u8>::empty());
    assert(castle_bit(113u8) == 8u8);
    assert(parse_castle_chars(seq![113u8], 7u8) == Some(15u8));
    assert(seq![107u8, 113u8][0] == 107u8);
    assert(seq![107u8, 113u8].drop_first() =~= seq![113u8]);
    assert(castle_bit(107u8) == 4u8);
    assert(parse_castle_chars(seq![107u8, 113u8], 3u8) == Some(15u8));
    assert(seq![81u8, 107u8, 113u8][0] == 81u8);
    assert(seq![81u8, 107u8, 113u8].drop_first() =~= seq![107u8, 113u8]);
    assert(castle_bit(81u8) == 2u8);
    assert(parse_castle_chars(seq![81u8, 107u8, 113u8], 1u8) == Some(15u8));
    assert(seq![75u8, 81u8, 107u8, 113u8][0] == 75u8);
    assert(seq![75u8, 81u8, 107u8, 113u8].drop_first() =~= seq![81u8, 107u8, 113u8]);
    assert(castle_bit(75u8) == 1u8);
    assert(parse_castle_chars(seq![75u8, 81u8, 107u8, 113u8], 0u8) == Some(15u8));
}

/// No piece set holds a square at or above `limit`.
pub open spec fn sets_below(ps: Seq<BoardSlice>, limit: int) -> bool {
    forall|i: int, s: u64|
        0 <= i < ps.len() && s < 64 && s >= limit ==> !(#[trigger] bit64(ps[i].0, s))
}

/// No square is held by two different piece sets of the sequence.
pub open spec fn sets_disjoint(ps: Seq<BoardSlice>) -> bool {
    forall|i1: int, i2: int, s: u64|
        0 <= i1 < i2 < ps.len() && s < 64 ==> !(#[trigger] bit64(ps[i1].0, s) && #[trigger] bit64(
            ps[i2].0,
            s,
        ))
}

/// A parsed rank places at most one piece per square, each at the running
/// square counter, so boundedness and disjointness of the piece sets are
/// preserved.
pub proof fn lemma_parse_row_wf(row: Seq<u8>, ri: int, acc: int, ps: Seq<BoardSlice>)
    requires
        0 <= ri < 8,
        0 <= acc,
        ps.len() == 12,
        sets_below(ps, acc),
        sets_disjoint(ps),
    ensures
        parse_row(row, ri, acc, ps) matches Ok(p) ==> p.0 >= acc && p.1.len() == 12 && sets_below(
            p.1,
            p.0,
        ) && sets_disjoint(p.1),
    decreases row.len(),
{
    if row.len() == 0 {
    } else {
        let b = row[0];
        if acc >= (ri + 1) * 8 {
        } else if piece_char_index(b) >= 0 {
            let i0 = piece_char_index(b);
            let ps2 = ps.update(i0, BoardSlice(ps[i0].0 | (1u64 << acc as u64)));
            assert(acc < 64);
            assert forall|i: int, s: u64|
                0 <= i < 12 && s < 64 && s >= acc + 1 implies !(#[trigger] bit64(
                ps2[i].0,
                s,
            )) by {
                crate::bits::lemma_bit_or(ps[i0].0, 1u64 << (acc as u64), s);
                crate::bits::lemma_bit_single(acc as u64, s);
                assert(!bit64(ps[i].0, s));
            }
            assert forall|i1: int, i2: int, s: u64|
                0 <= i1 < i2 < 12 && s < 64 implies !(#[trigger] bit64(ps2[i1].0, s)
                && #[trigger] bit64(ps2[i2].0, s)) by {
                crate::bits::lemma_bit_or(ps[i0].0, 1u64 << (acc as u64), s);
                crate::bits::lemma_bit_single(acc as u64, s);
                if s == acc as u64 {
                    assert(!bit64(ps[i1].0, s) && !bit64(ps[i2].0, s));
                } else {
                    assert(bit64(ps2[i1].0, s) == bit64(ps[i1].0, s));
                    assert(bit64(ps2[i2].0, s) == bit64(ps[i2].0, s));
                }
            }
            lemma_parse_row_wf(row.drop_first(), ri, acc + 1, ps2);
        } else if 49 <= b <= 57 {
            if acc + (b - 48) > (ri + 1) * 8 {
            } else {
                lemma_parse_row_wf(row.drop_first(), ri, acc + (b - 48), ps);
            }
        } else {
        }
    }
}

/// Parsing the board ranks preserves boundedness and disjointness.
pub proof fn lemma_parse_board_rows_wf(rows: Seq<Seq<u8>>, idx: int, ps: Seq<BoardSlice>)
    requires
        0 <= idx <= 8,
        ps.len() == 12,
        sets_below(ps, idx * 8),
        sets_disjoint(ps),
    ensures
        parse_board_rows(rows, idx, ps) matches Ok(fin) ==> fin.len() == 12 && sets_disjoint(fin),
    decreases 8 - idx,
{
    if idx >= 8 {
    } else {
        lemma_parse_row_wf(rows[7 - idx], idx, idx * 8, ps);
        match parse_row(rows[7 - idx], idx, idx * 8, ps) {
            Ok(p) => {
                if p.0 == (idx + 1) * 8 {
                    lemma_parse_board_rows_wf(rows, idx + 1, p.1);
                }
            },
            Err(_) => {},
        }
    }
}

/// A folded castling field stays below 16.
pub proof fn lemma_parse_castle_chars_bound(t: Seq<u8>, acc: u8)
    requires
        acc < 16,
    ensures
        parse_castle_chars(t, acc) matches Some(v) ==> v < 16,
    decreases t.len(),
{
    if t.len() > 0 && castle_bit(t[0]) != 0 {
        let b = castle_bit(t[0]);
        assert(acc | b < 16) by (bit_vector)
            requires
                acc < 16,
                b == 1 || b == 2 || b == 4 || b == 8,
        ;
        lemma_parse_castle_chars_bound(t.drop_first(), acc | b);
    }
}

/// Any successfully parsed FEN string yields a well-formed position: the
/// piece sets are pairwise disjoint and the castling mask uses only its
/// four bits. Parsed positions therefore lie in the round-trip law's
/// domain.
pub proof fn lemma_parse_fen_wf(s: Seq<u8>)
    ensures
        parse_fen(s) matches Ok(ff) ==> ff.pieces.len() == 12 && sets_disjoint(ff.pieces)
            && ff.castling_rights < 16,
{
    let parts = split_ws(s);
    if parts.len() == 6 {
        let rows = split_slash(parts[0]);
        if rows.len() == 8 {
            let init = Seq::new(12, |i: int| BoardSlice(0));
            assert forall|i: int, sq: u64| 0 <= i < 12 && sq < 64 && sq >= 0 implies !(
            #[trigger] bit64(init[i].0, sq)) by {
                crate::bits::lemma_bit_zero(sq);
            }
            lemma_parse_board_rows_wf(rows, 0, init);
        }
        lemma_parse_castle_chars_bound(parts[2], 0);
    }
}

/// One piece-letter step of the rank fold: the letter places its piece on
/// the running square and the fold continues.
pub proof fn lemma_parse_row_letter(row: Seq<u8>, ri: int, acc: int, ps: Seq<BoardSlice>)
    requires
        row.len() > 0,
        piece_char_index(row[0]) >= 0,
        0 <= acc < (ri + 1) * 8,
    ensures
        parse_row(row, ri, acc, ps) == parse_row(
            row.drop_first(),
            ri,
            acc + 1,
            ps.update(
                piece_char_index(row[0]),
                BoardSlice(ps[piece_char_index(row[0])].0 | (1u64 << acc as u64)),
            ),
        ),
{
}

/// One digit step of the rank fold: the digit skips that many squares.
pub proof fn lemma_parse_row_digit(row: Seq<u8>, ri: int, acc: int, ps: Seq<BoardSlice>)
    requires
        row.len() > 0,
        piece_char_index(row[0]) == -1,
        49 <= row[0] <= 57,
        0 <= acc < (ri + 1) * 8,
        acc + (row[0] - 48) <= (ri + 1) * 8,
    ensures
        parse_row(row, ri, acc, ps) == parse_row(row.drop_first(), ri, acc + (row[0] - 48), ps),
{
}

/// The exhausted rank fold returns its running square and piece sets.
pub proof fn lemma_parse_row_end(ri: int, acc: int, ps: Seq<BoardSlice>)
    ensures
        parse_row(Seq::empty(), ri, acc, ps) == Ok::<(int, Seq<BoardSlice>), FENParseError>(
            (acc, ps),
        ),
{
}

/// Law: a rank whose characters describe fewer than its eight squares is
/// rejected with that rank's distinct rank-length error, whatever the
/// other ranks hold.
pub proof fn lemma_short_rank_rejected(rows: Seq<Seq<u8>>, idx: int, ps: Seq<BoardSlice>)
    requires
        0 <= idx < 8,
        parse_row(rows[7 - idx], idx, idx * 8, ps) matches Ok(p) && p.0 < (idx + 1) * 8,
    ensures
        parse_board_rows(rows, idx, ps) == Err::<Seq<BoardSlice>, FENParseError>(
            FENParseError::IncorrectBoardRowLength((idx + 1) as usize),
        ),
{
}

/// Whitespace-freedom is preserved by concatenation.
pub proof fn lemma_ws_free_concat(a: Seq<u8>, b: Seq<u8>)
    requires
        ws_free(a),
        ws_free(b),
    ensures
        ws_free(a + b),
{
    assert forall|j: int| 0 <= j < (a + b).len() implies !is_ws(#[trigger] (a + b)[j]) by {
        if j < a.len() {
            assert((a + b)[j] == a[j]);
        } else {
            assert((a + b)[j] == b[j - a.len()]);
        }
    }
}

/// Corollary: on the serializer's image, serializing after parsing gives
/// the string back. Any position carrying the fields parsed from a
/// well-formed position's FEN string serializes to that same string.
pub proof fn lemma_serialize_after_parse(bb: Bitboard, bb2: Bitboard)
    requires
        wf_fen(bb),
        parse_fen(fen_bytes(bb)) matches Ok(ff) && matches_fen(bb2, ff),
    ensures
        fen_bytes(bb2) == fen_bytes(bb),
{
    lemma_fen_round_trip(bb);
    broadcast use vstd::array::axiom_array_ext_equal;

    assert(bb2.pieces@ =~= bb.pieces@);
    assert(bb2.pieces =~= bb.pieces);
    match (bb.en_passant_square, bb2.en_passant_square) {
        (Some(q1), Some(q2)) => {
            lemma_square_idx_injective(q1, q2);
        },
        _ => {},
    }
    assert(bb2 == bb);
}

/// The bytes of a FEN string whose top rank describes only seven squares:
/// `rnbqkbn/pppppppp/8/8/8/8/PPPPPPPP/RNBQKBNR w KQkq - 0 1`.
pub open spec fn underfull_rank_fixture() -> Seq<u8> {
    seq![
        114u8, 110u8, 98u8, 113u8, 107u8, 98u8, 110u8, 47u8, 112u8, 112u8,
        112u8, 112u8, 112u8, 112u8, 112u8, 112u8, 47u8, 56u8, 47u8, 56u8,
        47u8, 56u8, 47u8, 56u8, 47u8, 80u8, 80u8, 80u8, 80u8, 80u8,
        80u8, 80u8, 80u8, 47u8, 82u8, 78u8, 66u8, 81u8, 75u8, 66u8,
        78u8, 82u8, 32u8, 119u8, 32u8, 75u8, 81u8, 107u8, 113u8, 32u8,
        45u8, 32u8, 48u8, 32u8, 49u8,
    ]
}

/// Law: the under-full-rank fixture is rejected with the distinct
/// rank-length error of its top rank, evaluated from the grammar itself.
#[verifier::rlimit(100)]
#[verifier::spinoff_prover]
pub proof fn lemma_underfull_rank_fixture_rejected()
    ensures
        parse_fen(underfull_rank_fixture()) == Err::<FenFields, FENParseError>(
            FENParseError::IncorrectBoardRowLength(8),
        ),
{
    let sp = seq![32u8];
    let sl = seq![47u8];
    let r_top = seq![114u8, 110u8, 98u8, 113u8, 107u8, 98u8, 110u8];
    let r_bp = seq![112u8, 112u8, 112u8, 112u8, 112u8, 112u8, 112u8, 112u8];
    let r_e = seq![56u8];
    let r_wp = seq![80u8, 80u8, 80u8, 80u8, 80u8, 80u8, 80u8, 80u8];
    let r_w1 = seq![82u8, 78u8, 66u8, 81u8, 75u8, 66u8, 78u8, 82u8];
    let side = seq![119u8];
    let castle = seq![75u8, 81u8, 107u8, 113u8];
    let dash = seq![45u8];
    let zero = seq![48u8];
    let one = seq![49u8];
    let board = r_top + sl + (r_bp + sl + (r_e + sl + (r_e + sl + (r_e + sl + (r_e + sl + (
    r_wp + sl + r_w1))))));
    let fen = board + sp + (side + sp + (castle + sp + (dash + sp + (zero + sp + one))));
    assert(fen =~= underfull_rank_fixture());
    assert(sp.len() == 1);
    assert(sp[0] == 32u8);
    assert(sl.len() == 1);
    assert(sl[0] == 47u8);
    assert(r_top.len() == 7);
    assert(r_top[0] == 114u8);
    assert(r_top[1] == 110u8);
    assert(r_top[2] == 98u8);
    assert(r_top[3] == 113u8);
    assert(r_top[4] == 107u8);
    assert(r_top[5] == 98u8);
    assert(r_top[6] == 110u8);
    assert(r_bp.len() == 8);
    assert(r_bp[0] == 112u8);
    assert(r_bp[1] == 112u8);
    assert(r_bp[2] == 112u8);
    assert(r_bp[3] == 112u8);
    assert(r_bp[4] == 112u8);
    assert(r_bp[5] == 112u8);
    assert(r_bp[6] == 112u8);
    assert(r_bp[7] == 112u8);
    assert(r_e.len() == 1);
    assert(r_e[0] == 56u8);
    assert(r_wp.len() == 8);
    assert(r_wp[0] == 80u8);
    assert(r_wp[1] == 80u8);
    assert(r_wp[2] == 80u8);
    assert(r_wp[3] == 80u8);
    assert(r_wp[4] == 80u8);
    assert(r_wp[5] == 80u8);
    assert(r_wp[6] == 80u8);
    assert(r_wp[7] == 80u8);
    assert(r_w1.len() == 8);
    assert(r_w1[0] == 82u8);
    assert(r_w1[1] == 78u8);
    assert(r_w1[2] == 66u8);
    assert(r_w1[3] == 81u8);
    assert(r_w1[4] == 75u8);
    assert(r_w1[5] == 66u8);
    assert(r_w1[6] == 78u8);
    assert(r_w1[7] == 82u8);
    assert(side.len() == 1);
    assert(side[0] == 119u8);
    assert(castle.len() == 4);
    assert(castle[0] == 75u8);
    assert(castle[1] == 81u8);
    assert(castle[2] == 107u8);
    assert(castle[3] == 113u8);
    assert(dash.len() == 1);
    assert(dash[0] == 45u8);
    assert(zero.len() == 1);
    assert(zero[0] == 48u8);
    assert(one.len() == 1);
    assert(one[0] == 49u8);
    assert forall|j: int| 0 <= j < sl.len() implies !is_ws(#[trigger] sl[j]) by {}
    assert forall|j: int| 0 <= j < r_top.len() implies !is_ws(#[trigger] r_top[j]) by {}
    assert forall|j: int| 0 <= j < r_bp.len() implies !is_ws(#[trigger] r_bp[j]) by {}
    assert forall|j: int| 0 <= j < r_e.len() implies !is_ws(#[trigger] r_e[j]) by {}
    assert forall|j: int| 0 <= j < r_wp.len() implies !is_ws(#[trigger] r_wp[j]) by {}
    assert forall|j: int| 0 <= j < r_w1.len() implies !is_ws(#[trigger] r_w1[j]) by {}
    assert forall|j: int| 0 <= j < side.len() implies !is_ws(#[trigger] side[j]) by {}
    assert forall|j: int| 0 <= j < castle.len() implies !is_ws(#[trigger] castle[j]) by {}
    assert forall|j: int| 0 <= j < dash.len() implies !is_ws(#[trigger] dash[j]) by {}
    assert forall|j: int| 0 <= j < zero.len() implies !is_ws(#[trigger] zero[j]) by {}
    assert forall|j: int| 0 <= j < one.len() implies !is_ws(#[trigger] one[j]) by {}
    assert forall|j: int| 0 <= j < r_top.len() implies #[trigger] r_top[j] != 47 by {}
    assert forall|j: int| 0 <= j < r_bp.len() implies #[trigger] r_bp[j] != 47 by {}
    assert forall|j: int| 0 <= j < r_e.len() implies #[trigger] r_e[j] != 47 by {}
    assert forall|j: int| 0 <= j < r_wp.len() implies #[trigger] r_wp[j] != 47 by {}
    assert forall|j: int| 0 <= j < r_w1.len() implies #[trigger] r_w1[j] != 47 by {}
    lemma_ws_free_concat(r_wp, sl);
    lemma_ws_free_concat(r_wp + sl, r_w1);
    let b5 = r_wp + sl + r_w1;
    lemma_ws_free_concat(r_e, sl);
    lemma_ws_free_concat(r_e + sl, b5);
    let b4 = r_e + sl + b5;
    lemma_ws_free_concat(r_e, sl);
    lemma_ws_free_concat(r_e + sl, b4);
    let b3 = r_e + sl + b4;
    lemma_ws_free_concat(r_e, sl);
    lemma_ws_free_concat(r_e + sl, b3);
    let b2 = r_e + sl + b3;
    lemma_ws_free_concat(r_e, sl);
    lemma_ws_free_concat(r_e + sl, b2);
    let b1 = r_e + sl + b2;
    lemma_ws_free_concat(r_bp, sl);
    lemma_ws_free_concat(r_bp + sl, b1);
    let b0 = r_bp + sl + b1;
    lemma_ws_free_concat(r_top, sl);
    lemma_ws_free_concat(r_top + sl, b0);
    assert(board == r_top + sl + b0);
    assert(ws_free(board));
    assert(board.len() > 0);
    let rest1 = side + sp + (castle + sp + (dash + sp + (zero + sp + one)));
    let rest2 = castle + sp + (dash + sp + (zero + sp + one));
    let rest3 = dash + sp + (zero + sp + one);
    let rest4 = zero + sp + one;
    lemma_split_ws_token(board, rest1);
    lemma_split_ws_token(side, rest2);
    lemma_split_ws_token(castle, rest3);
    lemma_split_ws_token(dash, rest4);
    lemma_split_ws_token(zero, one);
    lemma_split_ws_last(one);
    let parts = split_ws(fen);
    assert(parts =~= seq![board, side, castle, dash, zero, one]);
    assert(parts.len() == 6);
    assert(parts[0] == board);
    lemma_split_slash_piece(r_top, b0);
    lemma_split_slash_piece(r_bp, b1);
    lemma_split_slash_piece(r_e, b2);
    lemma_split_slash_piece(r_e, b3);
    lemma_split_slash_piece(r_e, b4);
    lemma_split_slash_piece(r_e, b5);
    lemma_split_slash_piece(r_wp, r_w1);
    lemma_split_slash_last(r_w1);
    let rows = split_slash(board);
    assert(rows =~= seq![r_top, r_bp, r_e, r_e, r_e, r_e, r_wp, r_w1]);
    assert(rows.len() == 8);
    assert(rows[0] == r_top);
    assert(rows[1] == r_bp);
    assert(rows[2] == r_e);
    assert(rows[3] == r_e);
    assert(rows[4] == r_e);
    assert(rows[5] == r_e);
    assert(rows[6] == r_wp);
    assert(rows[7] == r_w1);
    let init = Seq::new(12, |i: int| BoardSlice(0));
    assert(piece_char_index(82u8) == 3);
    lemma_parse_row_letter(r_w1, 0, 0, init);
    let ps1 = init.update(3, BoardSlice(init[3].0 | (1u64 << 0u64)));
    assert(r_w1.drop_first() =~= seq![78u8, 66u8, 81u8, 75u8, 66u8, 78u8, 82u8]);
    assert(parse_row(r_w1, 0, 0, init) == parse_row(seq![78u8, 66u8, 81u8, 75u8, 66u8, 78u8, 82u8], 0, 1, ps1));
    assert(piece_char_index(78u8) == 1);
    lemma_parse_row_letter(seq![78u8, 66u8, 81u8, 75u8, 66u8, 78u8, 82u8], 0, 1, ps1);
    let ps2 = ps1.update(1, BoardSlice(ps1[1].0 | (1u64 << 1u64)));
    assert(seq![78u8, 66u8, 81u8, 75u8, 66u8, 78u8, 82u8].drop_first() =~= seq![66u8, 81u8, 75u8, 66u8, 78u8, 82u8]);
    assert(parse_row(seq![78u8, 66u8, 81u8, 75u8, 66u8, 78u8, 82u8], 0, 1, ps1) == parse_row(seq![66u8, 81u8, 75u8, 66u8, 78u8, 82u8], 0, 2, ps2));
    assert(piece_char_index(66u8) == 2);
    lemma_parse_row_letter(seq![66u8, 81u8, 75u8, 66u8, 78u8, 82u8], 0, 2, ps2);
    let ps3 = ps2.update(2, BoardSlice(ps2[2].0 | (1u64 << 2u64)));
    assert(seq![66u8, 81u8, 75u8, 66u8, 78u8, 82u8].drop_first() =~= seq![81u8, 75u8, 66u8, 78u8, 82u8]);
    assert(parse_row(seq![66u8, 81u8, 75u8, 66u8, 78u8, 82u8], 0, 2, ps2) == parse_row(seq![81u8, 75u8, 66u8, 78u8, 82u8], 0, 3, ps3));
    assert(piece_char_index(81u8) == 4);
    lemma_parse_row_letter(seq![81u8, 75u8, 66u8, 78u8, 82u8], 0, 3, ps3);
    let ps4 = ps3.update(4, BoardSlice(ps3[4].0 | (1u64 << 3u64)));
    assert(seq![81u8, 75u8, 66u8, 78u8, 82u8].drop_first() =~= seq![75u8, 66u8, 78u8, 82u8]);
    assert(parse_row(seq![81u8, 75u8, 66u8, 78u8, 82u8], 0, 3, ps3) == parse_row(seq![75u8, 66u8, 78u8, 82u8], 0, 4, ps4));
    assert(piece_char_index(75u8) == 5);
    lemma_parse_row_letter(seq![75u8, 66u8, 78u8, 82u8], 0, 4, ps4);
    let ps5 = ps4.update(5, BoardSlice(ps4[5].0 | (1u64 << 4u64)));
    assert(seq![75u8, 66u8, 78u8, 82u8].drop_first() =~= seq![66u8, 78u8, 82u8]);
    assert(parse_row(seq![75u8, 66u8, 78u8, 82u8], 0, 4, ps4) == parse_row(seq![66u8, 78u8, 82u8], 0, 5, ps5));
    assert(piece_char_index(66u8) == 2);
    lemma_parse_row_letter(seq![66u8, 78u8, 82u8], 0, 5, ps5);
    let ps6 = ps5.update(2, BoardSlice(ps5[2].0 | (1u64 << 5u64)));
    assert(seq![66u8, 78u8, 82u8].drop_first() =~= seq![78u8, 82u8]);
    assert(parse_row(seq![66u8, 78u8, 82u8], 0, 5, ps5) == parse_row(seq![78u8, 82u8], 0, 6, ps6));
    assert(piece_char_index(78u8) == 1);
    lemma_parse_row_letter(seq![78u8, 82u8], 0, 6, ps6);
    let ps7 = ps6.update(1, BoardSlice(ps6[1].0 | (1u64 << 6u64)));
    assert(seq![78u8, 82u8].drop_first() =~= seq![82u8]);
    assert(parse_row(seq![78u8, 82u8], 0, 6, ps6) == parse_row(seq![82u8], 0, 7, ps7));
    assert(piece_char_index(82u8) == 3);
    lemma_parse_row_letter(seq![82u8], 0, 7, ps7);
    let ps8 = ps7.update(3, BoardSlice(ps7[3].0 | (1u64 << 7u64)));
    assert(seq![82u8].drop_first() =~= Seq::<u8>::empty());
    assert(parse_row(seq![82u8], 0, 7, ps7) == parse_row(Seq::<u8>::empty(), 0, 8, ps8));
    lemma_parse_row_end(0, 8, ps8);
    assert(parse_row(r_w1, 0, 0, init) == Ok::<(int, Seq<BoardSlice>), FENParseError>((8int, ps8)));
    assert(parse_board_rows(rows, 0, init) == parse_board_rows(rows, 1, ps8));
    assert(piece_char_index(80u8) == 0);
    lemma_parse_row_letter(r_wp, 1, 8, ps8);
    let ps9 = ps8.update(0, BoardSlice(ps8[0].0 | (1u64 << 8u64)));
    assert(r_wp.drop_first() =~= seq![80u8, 80u8, 80u8, 80u8, 80u8, 80u8, 80u8]);
    assert(parse_row(r_wp, 1, 8, ps8) == parse_row(seq![80u8, 80u8, 80u8, 80u8, 80u8, 80u8, 80u8], 1, 9, ps9));
    assert(piece_char_index(80u8) == 0);
    lemma_parse_row_letter(seq![80u8, 80u8, 80u8, 80u8, 80u8, 80u8, 80u8], 1, 9, ps9);
    let ps10 = ps9.update(0, BoardSlice(ps9[0].0 | (1u64 << 9u64)));
    assert(seq![80u8, 80u8, 80u8, 80u8, 80u8, 80u8, 80u8].drop_first() =~= seq![80u8, 80u8, 80u8, 80u8, 80u8, 80u8]);
    assert(parse_row(seq![80u8, 80u8, 80u8, 80u8, 80u8, 80u8, 80u8], 1, 9, ps9) == parse_row(seq![80u8, 80u8, 80u8, 80u8, 80u8, 80u8], 1, 10, ps10));
    assert(piece_char_index(80u8) == 0);
    lemma_parse_row_letter(seq![80u8, 80u8, 80u8, 80u8, 80u8, 80u8], 1, 10, ps10);
    let ps11 = ps10.update(0, BoardSlice(ps10[0].0 | (1u64 << 10u64)));
    assert(seq![80u8, 80u8, 80u8, 80u8, 80u8, 80u8].drop_first() =~= seq![80u8, 80u8, 80u8, 80u8, 80u8]);
    assert(parse_row(seq![80u8, 80u8, 80u8, 80u8, 80u8, 80u8], 1, 10, ps10) == parse_row(seq![80u8, 80u8, 80u8, 80u8, 80u8], 1, 11, ps11));
    assert(piece_char_index(80u8) == 0);
    lemma_parse_row_letter(seq![80u8, 80u8, 80u8, 80u8, 80u8], 1, 11, ps11);
    let ps12 = ps11.update(0, BoardSlice(ps11[0].0 | (1u64 << 11u64)));
    assert(seq![80u8, 80u8, 80u8, 80u8, 80u8].drop_first() =~= seq![80u8, 80u8, 80u8, 80u8]);
    assert(parse_row(seq![80u8, 80u8, 80u8, 80u8, 80u8], 1, 11, ps11) == parse_row(seq![80u8, 80u8, 80u8, 80u8], 1, 12, ps12));
    assert(piece_char_index(80u8) == 0);
    lemma_parse_row_letter(seq![80u8, 80u8, 80u8, 80u8], 1, 12, ps12);
    let ps13 = ps12.update(0, BoardSlice(ps12[0].0 | (1u64 << 12u64)));
    assert(seq![80u8, 80u8, 80u8, 80u8].drop_first() =~= seq![80u8, 80u8, 80u8]);
    assert(parse_row(seq![80u8, 80u8, 80u8, 80u8], 1, 12, ps12) == parse_row(seq![80u8, 80u8, 80u8], 1, 13, ps13));
    assert(piece_char_index(80u8) == 0);
    lemma_parse_row_letter(seq![80u8, 80u8, 80u8], 1, 13, ps13);
    let ps14 = ps13.update(0, BoardSlice(ps13[0].0 | (1u64 << 13u64)));
    assert(seq![80u8, 80u8, 80u8].drop_first() =~= seq![80u8, 80u8]);
    assert(parse_row(seq![80u8, 80u8, 80u8], 1, 13, ps13) == parse_row(seq![80u8, 80u8], 1, 14, ps14));
    assert(piece_char_index(80u8) == 0);
    lemma_parse_row_letter(seq![80u8, 80u8], 1, 14, ps14);
    let ps15 = ps14.update(0, BoardSlice(ps14[0].0 | (1u64 << 14u64)));
    assert(seq![80u8, 80u8].drop_first() =~= seq![80u8]);
    assert(parse_row(seq![80u8, 80u8], 1, 14, ps14) == parse_row(seq![80u8], 1, 15, ps15));
    assert(piece_char_index(80u8) == 0);
    lemma_parse_row_letter(seq![80u8], 1, 15, ps15);
    let ps16 = ps15.update(0, BoardSlice(ps15[0].0 | (1u64 << 15u64)));
    assert(seq![80u8].drop_first() =~= Seq::<u8>::empty());
    assert(parse_row(seq![80u8], 1, 15, ps15) == parse_row(Seq::<u8>::empty(), 1, 16, ps16));
    lemma_parse_row_end(1, 16, ps16);
    assert(parse_row(r_wp, 1, 8, ps8) == Ok::<(int, Seq<BoardSlice>), FENParseError>((16int, ps16)));
    assert(parse_board_rows(rows, 1, ps8) == parse_board_rows(rows, 2, ps16));
    assert(piece_char_index(56u8) == -1);
    lemma_parse_row_digit(r_e, 2, 16, ps16);
    assert(r_e.drop_first() =~= Seq::<u8>::empty());
    lemma_parse_row_end(2, 24, ps16);
    assert(parse_row(r_e, 2, 16, ps16) == Ok::<(int, Seq<BoardSlice>), FENParseError>((24int, ps16)));
    assert(parse_board_rows(rows, 2, ps16) == parse_board_rows(rows, 3, ps16));
    assert(piece_char_index(56u8) == -1);
    lemma_parse_row_digit(r_e, 3, 24, ps16);
    assert(r_e.drop_first() =~= Seq::<u8>::empty());
    lemma_parse_row_end(3, 32, ps16);
    assert(parse_row(r_e, 3, 24, ps16) == Ok::<(int, Seq<BoardSlice>), FENParseError>((32int, ps16)));
    assert(parse_board_rows(rows, 3, ps16) == parse_board_rows(rows, 4, ps16));
    assert(piece_char_index(56u8) == -1);
    lemma_parse_row_digit(r_e, 4, 32, ps16);
    assert(r_e.drop_first() =~= Seq::<u8>::empty());
    lemma_parse_row_end(4, 40, ps16);
    assert(parse_row(r_e, 4, 32, ps16) == Ok::<(int, Seq<BoardSlice>), FENParseError>((40int, ps16)));
    assert(parse_board_rows(rows, 4, ps16) == parse_board_rows(rows, 5, ps16));
    assert(piece_char_index(56u8) == -1);
    lemma_parse_row_digit(r_e, 5, 40, ps16);
    assert(r_e.drop_first() =~= Seq::<u8>::empty());
    lemma_parse_row_end(5, 48, ps16);
    assert(parse_row(r_e, 5, 40, ps16) == Ok::<(int, Seq<BoardSlice>), FENParseError>((48int, ps16)));
    assert(parse_board_rows(rows, 5, ps16) == parse_board_rows(rows, 6, ps16));
    assert(piece_char_index(112u8) == 6);
    lemma_parse_row_letter(r_bp, 6, 48, ps16);
    let ps17 = ps16.update(6, BoardSlice(ps16[6].0 | (1u64 << 48u64)));
    assert(r_bp.drop_first() =~= seq![112u8, 112u8, 112u8, 112u8, 112u8, 112u8, 112u8]);
    assert(parse_row(r_bp, 6, 48, ps16) == parse_row(seq![112u8, 112u8, 112u8, 112u8, 112u8, 112u8, 112u8], 6, 49, ps17));
    assert(piece_char_index(112u8) == 6);
    lemma_parse_row_letter(seq![112u8, 112u8, 112u8, 112u8, 112u8, 112u8, 112u8], 6, 49, ps17);
    let ps18 = ps17.update(6, BoardSlice(ps17[6].0 | (1u64 << 49u64)));
    assert(seq![112u8, 112u8, 112u8, 112u8, 112u8, 112u8, 112u8].drop_first() =~= seq![112u8, 112u8, 112u8, 112u8, 112u8, 112u8]);
    assert(parse_row(seq![112u8, 112u8, 112u8, 112u8, 112u8, 112u8, 112u8], 6, 49, ps17) == parse_row(seq![112u8, 112u8, 112u8, 112u8, 112u8, 112u8], 6, 50, ps18));
    assert(piece_char_index(112u8) == 6);
    lemma_parse_row_letter(seq![112u8, 112u8, 112u8, 112u8, 112u8, 112u8], 6, 50, ps18);
    let ps19 = ps18.update(6, BoardSlice(ps18[6].0 | (1u64 << 50u64)));
    assert(seq![112u8, 112u8, 112u8, 112u8, 112u8, 112u8].drop_first() =~= seq![112u8, 112u8, 112u8, 112u8, 112u8]);
    assert(parse_row(seq![112u8, 112u8, 112u8, 112u8, 112u8, 112u8], 6, 50, ps18) == parse_row(seq![112u8, 112u8, 112u8, 112u8, 112u8], 6, 51, ps19));
    assert(piece_char_index(112u8) == 6);
    lemma_parse_row_letter(seq![112u8, 112u8, 112u8, 112u8, 112u8], 6, 51, ps19);
    let ps20 = ps19.update(6, BoardSlice(ps19[6].0 | (1u64 << 51u64)));
    assert(seq![112u8, 112u8, 112u8, 112u8, 112u8].drop_first() =~= seq![112u8, 112u8, 112u8, 112u8]);
    assert(parse_row(seq![112u8, 112u8, 112u8, 112u8, 112u8], 6, 51, ps19) == parse_row(seq![112u8, 112u8, 112u8, 112u8], 6, 52, ps20));
    assert(piece_char_index(112u8) == 6);
    lemma_parse_row_letter(seq![112u8, 112u8, 112u8, 112u8], 6, 52, ps20);
    let ps21 = ps20.update(6, BoardSlice(ps20[6].0 | (1u64 << 52u64)));
    assert(seq![112u8, 112u8, 112u8, 112u8].drop_first() =~= seq![112u8, 112u8, 112u8]);
    assert(parse_row(seq![112u8, 112u8, 112u8, 112u8], 6, 52, ps20) == parse_row(seq![112u8, 112u8, 112u8], 6, 53, ps21));
    assert(piece_char_index(112u8) == 6);
    lemma_parse_row_letter(seq![112u8, 112u8, 112u8], 6, 53, ps21);
    let ps22 = ps21.update(6, BoardSlice(ps21[6].0 | (1u64 << 53u64)));
    assert(seq![112u8, 112u8, 112u8].drop_first() =~= seq![112u8, 112u8]);
    assert(parse_row(seq![112u8, 112u8, 112u8], 6, 53, ps21) == parse_row(seq![112u8, 112u8], 6, 54, ps22));
    assert(piece_char_index(112u8) == 6);
    lemma_parse_row_letter(seq![112u8, 112u8], 6, 54, ps22);
    let ps23 = ps22.update(6, BoardSlice(ps22[6].0 | (1u64 << 54u64)));
    assert(seq![112u8, 112u8].drop_first() =~= seq![112u8]);
    assert(parse_row(seq![112u8, 112u8], 6, 54, ps22) == parse_row(seq![112u8], 6, 55, ps23));
    assert(piece_char_index(112u8) == 6);
    lemma_parse_row_letter(seq![112u8], 6, 55, ps23);
    let ps24 = ps23.update(6, BoardSlice(ps23[6].0 | (1u64 << 55u64)));
    assert(seq![112u8].drop_first() =~= Seq::<u8>::empty());
    assert(parse_row(seq![112u8], 6, 55, ps23) == parse_row(Seq::<u8>::empty(), 6, 56, ps24));
    lemma_parse_row_end(6, 56, ps24);
    assert(parse_row(r_bp, 6, 48, ps16) == Ok::<(int, Seq<BoardSlice>), FENParseError>((56int, ps24)));
    assert(parse_board_rows(rows, 6, ps16) == parse_board_rows(rows, 7, ps24));
    assert(piece_char_index(114u8) == 9);
    lemma_parse_row_letter(r_top, 7, 56, ps24);
    let ps25 = ps24.update(9, BoardSlice(ps24[9].0 | (1u64 << 56u64)));
    assert(r_top.drop_first() =~= seq![110u8, 98u8, 113u8, 107u8, 98u8, 110u8]);
    assert(parse_row(r_top, 7, 56, ps24) == parse_row(seq![110u8, 98u8, 113u8, 107u8, 98u8, 110u8], 7, 57, ps25));
    assert(piece_char_index(110u8) == 7);
    lemma_parse_row_letter(seq![110u8, 98u8, 113u8, 107u8, 98u8, 110u8], 7, 57, ps25);
    let ps26 = ps25.update(7, BoardSlice(ps25[7].0 | (1u64 << 57u64)));
    assert(seq![110u8, 98u8, 113u8, 107u8, 98u8, 110u8].drop_first() =~= seq![98u8, 113u8, 107u8, 98u8, 110u8]);
    assert(parse_row(seq![110u8, 98u8, 113u8, 107u8, 98u8, 110u8], 7, 57, ps25) == parse_row(seq![98u8, 113u8, 107u8, 98u8, 110u8], 7, 58, ps26));
    assert(piece_char_index(98u8) == 8);
    lemma_parse_row_letter(seq![98u8, 113u8, 107u8, 98u8, 110u8], 7, 58, ps26);
    let ps27 = ps26.update(8, BoardSlice(ps26[8].0 | (1u64 << 58u64)));
    assert(seq![98u8, 113u8, 107u8, 98u8, 110u8].drop_first() =~= seq![113u8, 107u8, 98u8, 110u8]);
    assert(parse_row(seq![98u8, 113u8, 107u8, 98u8, 110u8], 7, 58, ps26) == parse_row(seq![113u8, 107u8, 98u8, 110u8], 7, 59, ps27));
    assert(piece_char_index(113u8) == 10);
    lemma_parse_row_letter(seq![113u8, 107u8, 98u8, 110u8], 7, 59, ps27);
    let ps28 = ps27.update(10, BoardSlice(ps27[10].0 | (1u64 << 59u64)));
    assert(seq![113u8, 107u8, 98u8, 110u8].drop_first() =~= seq![107u8, 98u8, 110u8]);
    assert(parse_row(seq![113u8, 107u8, 98u8, 110u8], 7, 59, ps27) == parse_row(seq![107u8, 98u8, 110u8], 7, 60, ps28));
    assert(piece_char_index(107u8) == 11);
    lemma_parse_row_letter(seq![107u8, 98u8, 110u8], 7, 60, ps28);
    let ps29 = ps28.update(11, BoardSlice(ps28[11].0 | (1u64 << 60u64)));
    assert(seq![107u8, 98u8, 110u8].drop_first() =~= seq![98u8, 110u8]);
    assert(parse_row(seq![107u8, 98u8, 110u8], 7, 60, ps28) == parse_row(seq![98u8, 110u8], 7, 61, ps29));
    assert(piece_char_index(98u8) == 8);
    lemma_parse_row_letter(seq![98u8, 110u8], 7, 61, ps29);
    let ps30 = ps29.update(8, BoardSlice(ps29[8].0 | (1u64 << 61u64)));
    assert(seq![98u8, 110u8].drop_first() =~= seq![110u8]);
    assert(parse_row(seq![98u8, 110u8], 7, 61, ps29) == parse_row(seq![110u8], 7, 62, ps30));
    assert(piece_char_index(110u8) == 7);
    lemma_parse_row_letter(seq![110u8], 7, 62, ps30);
    let ps31 = ps30.update(7, BoardSlice(ps30[7].0 | (1u64 << 62u64)));
    assert(seq![110u8].drop_first() =~= Seq::<u8>::empty());
    assert(parse_row(seq![110u8], 7, 62, ps30) == parse_row(Seq::<u8>::empty(), 7, 63, ps31));
    lemma_parse_row_end(7, 63, ps31);
    assert(parse_row(r_top, 7, 56, ps24) == Ok::<(int, Seq<BoardSlice>), FENParseError>((63int, ps31)));
    lemma_short_rank_rejected(rows, 7, ps24);
    assert(parse_board_rows(rows, 0, init) == Err::<Seq<BoardSlice>, FENParseError>(
        FENParseError::IncorrectBoardRowLength(8),
    ));
    assert(parse_board(board) == Err::<Seq<BoardSlice>, FENParseError>(
        FENParseError::IncorrectBoardRowLength(8),
    ));
    assert(parse_fen(fen) == Err::<FenFields, FENParseError>(
        FENParseError::IncorrectBoardRowLength(8),
    ));
}

} // verus!
