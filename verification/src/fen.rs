//! FEN text format: exact, bidirectional serialization of a position as six
//! space-separated fields. The parser and the serializer are both specified
//! over byte sequences; parsing never panics and reports a distinct error
//! for each malformed field.
use vstd::prelude::*;

use crate::bitboard::Bitboard;
use crate::bits::bit64;
use crate::board_slice::BoardSlice;
use crate::enums::{Color, Square};
use crate::errors::FENParseError;
use vstd::string::StrSliceExecFns;
use vstd::string::StringSliceAdditionalSpecFns;

verus! {

/// ASCII whitespace, as the field separator.
pub open spec fn is_ws(b: u8) -> bool {
    b == 32 || b == 9 || b == 10 || b == 13 || b == 11 || b == 12
}

/// Length of the maximal non-whitespace prefix.
pub open spec fn token_len(s: Seq<u8>) -> int
    decreases s.len(),
{
    if s.len() == 0 || is_ws(s[0]) {
        0
    } else {
        1 + token_len(s.drop_first())
    }
}

pub proof fn lemma_token_len_le(s: Seq<u8>)
    ensures
        0 <= token_len(s) <= s.len(),
    decreases s.len(),
{
    if s.len() > 0 && !is_ws(s[0]) {
        lemma_token_len_le(s.drop_first());
    }
}

/// A token occupies positions `0 .. t` exactly when those bytes are
/// non-whitespace and the next byte, if any, is whitespace.
pub proof fn lemma_token_len_eq(s: Seq<u8>, t: int)
    requires
        0 <= t <= s.len(),
        forall|j: int| 0 <= j < t ==> !is_ws(#[trigger] s[j]),
        t < s.len() ==> is_ws(s[t]),
    ensures
        token_len(s) == t,
    decreases t,
{
    if t == 0 {
    } else {
        assert(!is_ws(s[0]));
        lemma_token_len_eq(s.drop_first(), t - 1);
    }
}

/// The input split at runs of whitespace into its maximal non-whitespace
/// tokens, in order.
pub open spec fn split_ws(s: Seq<u8>) -> Seq<Seq<u8>>
    decreases s.len(),
    via split_ws_decreases
{
    if s.len() == 0 {
        Seq::empty()
    } else if is_ws(s[0]) {
        split_ws(s.drop_first())
    } else {
        seq![s.take(token_len(s))] + split_ws(s.skip(token_len(s)))
    }
}

#[via_fn]
proof fn split_ws_decreases(s: Seq<u8>) {
    if s.len() > 0 && !is_ws(s[0]) {
        lemma_token_len_le(s.drop_first());
        assert(token_len(s) == 1 + token_len(s.drop_first()));
    }
}

/// Splits the bytes at whitespace runs.
fn split_whitespace_bytes(v: &Vec<u8>) -> (parts: Vec<Vec<u8>>)
    ensures
        parts@.len() == split_ws(v@).len(),
        forall|k: int| 0 <= k < parts@.len() ==> #[trigger] parts@[k]@ == split_ws(v@)[k],
{
    let n = v.len();
    let mut parts: Vec<Vec<u8>> = Vec::new();
    let mut i: usize = 0;
    proof {
        assert(v@.skip(0) =~= v@);
    }
    while i < n
        invariant
            n == v@.len(),
            i <= n,
            split_ws(v@) == parts@.map_values(|p: Vec<u8>| p@) + split_ws(v@.skip(i as int)),
        decreases n - i,
    {
        if is_byte_ws(v[i]) {
            proof {
                assert(v@.skip(i as int).drop_first() =~= v@.skip(i + 1));
            }
            i += 1;
        } else {
            let ghost start = i as int;
            let mut cur: Vec<u8> = Vec::new();
            proof {
                assert(cur@ =~= v@.subrange(start, start));
            }
            while i < n && !is_byte_ws(v[i])
                invariant
                    n == v@.len(),
                    0 <= start <= i <= n,
                    cur@ == v@.subrange(start, i as int),
                    forall|j: int| start <= j < i ==> !is_ws(#[trigger] v@[j]),
                    start < n && !is_ws(v@[start]),
                decreases n - i,
            {
                cur.push(v[i]);
                proof {
                    assert(cur@ =~= v@.subrange(start, i + 1));
                }
                i += 1;
            }
            let ghost curv = cur@;
            proof {
                let tail = v@.skip(start);
                lemma_token_len_eq(tail, i - start);
                assert(tail.take(i - start) =~= v@.subrange(start, i as int));
                assert(tail.skip(i - start) =~= v@.skip(i as int));
                assert(split_ws(tail) == seq![curv] + split_ws(v@.skip(i as int)));
            }
            let ghost old_parts = parts@;
            parts.push(cur);
            proof {
                assert(parts@.map_values(|p: Vec<u8>| p@) =~= old_parts.map_values(
                    |p: Vec<u8>| p@,
                ).push(curv));
                assert(old_parts.map_values(|p: Vec<u8>| p@).push(curv) + split_ws(v@.skip(i as int))
                    =~= old_parts.map_values(|p: Vec<u8>| p@) + (seq![curv] + split_ws(
                    v@.skip(i as int),
                )));
            }
        }
    }
    proof {
        assert(v@.skip(n as int) =~= Seq::<u8>::empty());
        assert(split_ws(v@) =~= parts@.map_values(|p: Vec<u8>| p@));
    }
    parts
}

/// Whitespace test on a byte.
fn is_byte_ws(b: u8) -> (r: bool)
    ensures
        r == is_ws(b),
{
    b == 32 || b == 9 || b == 10 || b == 13 || b == 11 || b == 12
}

/// Position of the first `/`, or the length if there is none.
pub open spec fn first_slash(s: Seq<u8>) -> int
    decreases s.len(),
{
    if s.len() == 0 {
        0
    } else if s[0] == 47 {
        0
    } else {
        1 + first_slash(s.drop_first())
    }
}

pub proof fn lemma_first_slash_le(s: Seq<u8>)
    ensures
        0 <= first_slash(s) <= s.len(),
    decreases s.len(),
{
    if s.len() > 0 && s[0] != 47 {
        lemma_first_slash_le(s.drop_first());
    }
}

/// The first slash is where the first slash is.
pub proof fn lemma_first_slash_eq(s: Seq<u8>, t: int)
    requires
        0 <= t <= s.len(),
        forall|j: int| 0 <= j < t ==> #[trigger] s[j] != 47,
        t < s.len() ==> s[t] == 47,
    ensures
        first_slash(s) == t,
    decreases t,
{
    if t > 0 {
        lemma_first_slash_eq(s.drop_first(), t - 1);
    }
}

/// The input split at every `/`, keeping empty parts; there is always at
/// least one part.
pub open spec fn split_slash(s: Seq<u8>) -> Seq<Seq<u8>>
    decreases s.len(),
    via split_slash_decreases
{
    let t = first_slash(s);
    if t == s.len() {
        seq![s]
    } else {
        seq![s.take(t)] + split_slash(s.skip(t + 1))
    }
}

#[via_fn]
proof fn split_slash_decreases(s: Seq<u8>) {
    lemma_first_slash_le(s);
}

/// Splits the bytes at every slash.
fn split_slash_bytes(v: &Vec<u8>) -> (parts: Vec<Vec<u8>>)
    ensures
        parts@.len() == split_slash(v@).len(),
        forall|k: int| 0 <= k < parts@.len() ==> #[trigger] parts@[k]@ == split_slash(v@)[k],
{
    let n = v.len();
    let mut parts: Vec<Vec<u8>> = Vec::new();
    let mut cur: Vec<u8> = Vec::new();
    let ghost mut seg_start: int = 0;
    let mut i: usize = 0;
    proof {
        assert(v@.skip(0) =~= v@);
        assert(cur@ =~= v@.subrange(0, 0));
    }
    while i < n
        invariant
            n == v@.len(),
            0 <= seg_start <= i <= n,
            cur@ == v@.subrange(seg_start, i as int),
            forall|j: int| seg_start <= j < i ==> #[trigger] v@[j] != 47,
            split_slash(v@) == parts@.map_values(|p: Vec<u8>| p@) + split_slash(
                v@.skip(seg_start),
            ),
        decreases n - i,
    {
        let b = v[i];
        if b == 47 {
            let ghost old_parts = parts@;
            let ghost old_seg = seg_start;
            let ghost curv = cur@;
            proof {
                let tail = v@.skip(old_seg);
                lemma_first_slash_eq(tail, i - old_seg);
                assert(tail.take(i - old_seg) =~= v@.subrange(old_seg, i as int));
                assert(tail.skip(i - old_seg + 1) =~= v@.skip(i + 1));
                assert(split_slash(tail) == seq![curv] + split_slash(v@.skip(i + 1)));
            }
            parts.push(cur);
            cur = Vec::new();
            proof {
                seg_start = i + 1;
                assert(cur@ =~= v@.subrange(seg_start, seg_start));
                assert(parts@.map_values(|p: Vec<u8>| p@) =~= old_parts.map_values(
                    |p: Vec<u8>| p@,
                ).push(curv));
                assert(old_parts.map_values(|p: Vec<u8>| p@).push(curv) + split_slash(
                    v@.skip(seg_start),
                ) =~= old_parts.map_values(|p: Vec<u8>| p@) + (seq![curv] + split_slash(
                    v@.skip(seg_start),
                )));
            }
            i += 1;
        } else {
            cur.push(b);
            proof {
                assert(cur@ =~= v@.subrange(seg_start, i + 1));
            }
            i += 1;
        }
    }
    let ghost curv = cur@;
    proof {
        let tail = v@.skip(seg_start);
        lemma_first_slash_eq(tail, n - seg_start);
        assert(tail =~= curv);
        assert(split_slash(tail) == seq![curv]);
    }
    let ghost old_parts = parts@;
    parts.push(cur);
    proof {
        assert(parts@.map_values(|p: Vec<u8>| p@) =~= old_parts.map_values(|p: Vec<u8>| p@).push(
            curv,
        ));
        assert(old_parts.map_values(|p: Vec<u8>| p@).push(curv) =~= old_parts.map_values(
            |p: Vec<u8>| p@,
        ) + seq![curv]);
    }
    parts
}

/// The side-to-move field: exactly `w` or `b`.
pub open spec fn parse_side(t: Seq<u8>) -> Option<Color> {
    if t.len() == 1 && t[0] == 119 {
        Some(Color::White)
    } else if t.len() == 1 && t[0] == 98 {
        Some(Color::Black)
    } else {
        None
    }
}

/// The castling-rights bit of a castling character, 0 for any other byte.
pub open spec fn castle_bit(b: u8) -> u8 {
    if b == 75 {
        1
    } else if b == 81 {
        2
    } else if b == 107 {
        4
    } else if b == 113 {
        8
    } else {
        0
    }
}

/// Folds the castling characters into a rights mask; any other character
/// rejects the field.
pub open spec fn parse_castle_chars(t: Seq<u8>, acc: u8) -> Option<u8>
    decreases t.len(),
{
    if t.len() == 0 {
        Some(acc)
    } else if castle_bit(t[0]) != 0 {
        parse_castle_chars(t.drop_first(), acc | castle_bit(t[0]))
    } else {
        None
    }
}

/// The castling field: a leading `-` means no rights (the rest of the field
/// is not examined); otherwise every character must be one of `KQkq`.
pub open spec fn parse_castling(t: Seq<u8>) -> Option<u8> {
    if t.len() > 0 && t[0] == 45 {
        Some(0)
    } else {
        parse_castle_chars(t, 0)
    }
}

/// A file letter in either case.
pub open spec fn is_file_byte(b: u8) -> bool {
    (65 <= b <= 72) || (97 <= b <= 104)
}

/// The file index of a file letter.
pub open spec fn file_of_byte(b: u8) -> int {
    if 65 <= b <= 72 {
        b - 65
    } else {
        b - 97
    }
}

/// The en-passant field: `-` for none, else a file letter (either case)
/// followed by a rank digit. `Some(None)` is no target, `Some(Some(s))` is
/// target square `s`, `None` rejects the field.
pub open spec fn parse_en_passant(t: Seq<u8>) -> Option<Option<int>> {
    if t.len() == 1 && t[0] == 45 {
        Some(None)
    } else if t.len() == 2 && is_file_byte(t[0]) && 49 <= t[1] <= 56 {
        Some(Some(file_of_byte(t[0]) + 8 * (t[1] - 49)))
    } else {
        None
    }
}

/// Whether every byte is an ASCII digit.
pub open spec fn all_digits(d: Seq<u8>) -> bool {
    forall|j: int| 0 <= j < d.len() ==> 48 <= #[trigger] d[j] <= 57
}

/// The decimal value of the digits, folded left onto `acc`.
pub open spec fn digits_val(d: Seq<u8>, acc: int) -> int
    decreases d.len(),
{
    if d.len() == 0 {
        acc
    } else {
        digits_val(d.drop_first(), acc * 10 + (d[0] - 48))
    }
}

/// Folding digits never shrinks a non-negative accumulator.
pub proof fn lemma_digits_val_ge(d: Seq<u8>, acc: int)
    requires
        all_digits(d),
        acc >= 0,
    ensures
        digits_val(d, acc) >= acc,
    decreases d.len(),
{
    if d.len() > 0 {
        assert(48 <= d[0] <= 57);
        assert(all_digits(d.drop_first())) by {
            assert(forall|j: int|
                0 <= j < d.drop_first().len() ==> #[trigger] d.drop_first()[j] == d[j + 1]);
        }
        lemma_digits_val_ge(d.drop_first(), acc * 10 + (d[0] - 48));
    }
}

/// A clock field: an optional leading `+`, then one or more digits whose
/// value fits a `usize`.
pub open spec fn parse_clock(t: Seq<u8>) -> Option<int> {
    let d = if t.len() > 0 && t[0] == 43 {
        t.drop_first()
    } else {
        t
    };
    if d.len() == 0 || !all_digits(d) {
        None
    } else if digits_val(d, 0) > usize::MAX {
        None
    } else {
        Some(digits_val(d, 0))
    }
}

/// The square-set index a board character populates, or -1 for any other
/// byte: uppercase `PNBRQK` are the White sets, lowercase the Black ones.
pub open spec fn piece_char_index(b: u8) -> int {
    if b == 80 {
        0
    } else if b == 78 {
        1
    } else if b == 66 {
        2
    } else if b == 82 {
        3
    } else if b == 81 {
        4
    } else if b == 75 {
        5
    } else if b == 112 {
        6
    } else if b == 110 {
        7
    } else if b == 98 {
        8
    } else if b == 114 {
        9
    } else if b == 113 {
        10
    } else if b == 107 {
        11
    } else {
        -1
    }
}

/// One rank of the board field, folded left over its characters: a piece
/// character places a piece on the running square `acc`, a digit skips that
/// many squares, and a rank that would exceed 8 squares or holds any other
/// character is rejected.
pub open spec fn parse_row(row: Seq<u8>, row_index: int, acc: int, pieces: Seq<BoardSlice>) -> Result<
    (int, Seq<BoardSlice>),
    FENParseError,
>
    decreases row.len(),
{
    if row.len() == 0 {
        Ok((acc, pieces))
    } else {
        let b = row[0];
        if acc >= (row_index + 1) * 8 {
            Err(FENParseError::IncorrectBoardRowLength((row_index + 1) as usize))
        } else if piece_char_index(b) >= 0 {
            let i = piece_char_index(b);
            parse_row(
                row.drop_first(),
                row_index,
                acc + 1,
                pieces.update(i, BoardSlice(pieces[i].0 | (1u64 << acc as u64))),
            )
        } else if 49 <= b <= 57 {
            if acc + (b - 48) > (row_index + 1) * 8 {
                Err(FENParseError::IncorrectBoardRowLength((row_index + 1) as usize))
            } else {
                parse_row(row.drop_first(), row_index, acc + (b - 48), pieces)
            }
        } else {
            Err(FENParseError::IncorrectBoard(b as char))
        }
    }
}

/// The eight ranks of the board field, processed from rank 1 upward (the
/// FEN text gives rank 8 first, so rank `idx` is row `7 - idx` of the
/// text). Each rank must describe exactly its 8 squares.
pub open spec fn parse_board_rows(rows: Seq<Seq<u8>>, idx: int, pieces: Seq<BoardSlice>) -> Result<
    Seq<BoardSlice>,
    FENParseError,
>
    decreases 8 - idx,
{
    if idx < 0 || idx >= 8 {
        Ok(pieces)
    } else {
        match parse_row(rows[7 - idx], idx, idx * 8, pieces) {
            Ok(p) => {
                if p.0 == (idx + 1) * 8 {
                    parse_board_rows(rows, idx + 1, p.1)
                } else {
                    Err(FENParseError::IncorrectBoardRowLength((idx + 1) as usize))
                }
            },
            Err(e) => Err(e),
        }
    }
}

/// The board field: 8 slash-separated ranks.
pub open spec fn parse_board(field: Seq<u8>) -> Result<Seq<BoardSlice>, FENParseError> {
    let rows = split_slash(field);
    if rows.len() != 8 {
        Err(FENParseError::IncorrectBoardLength(rows.len() as usize))
    } else {
        parse_board_rows(rows, 0, Seq::new(12, |i: int| BoardSlice(0)))
    }
}

/// The parsed content of a FEN string, before it is packed into a
/// [`Bitboard`] value.
pub struct FenFields {
    /// The twelve square sets.
    pub pieces: Seq<BoardSlice>,
    /// The side to move.
    pub to_move: Color,
    /// The castling-rights mask.
    pub castling_rights: u8,
    /// The en-passant target square index, if any.
    pub en_passant_square: Option<int>,
    /// The half-move clock value.
    pub half_move_clock: int,
    /// The full-move counter value.
    pub full_move_clock: int,
}

/// The FEN grammar: six whitespace-separated fields — board, side to move,
/// castling rights, en-passant target, half-move clock, full-move counter —
/// each rejected with its own error, the leftmost failure winning.
pub open spec fn parse_fen(s: Seq<u8>) -> Result<FenFields, FENParseError> {
    let parts = split_ws(s);
    if parts.len() != 6 {
        Err(FENParseError::IncorrectPartsCount(parts.len() as usize))
    } else {
        match parse_board(parts[0]) {
            Err(e) => Err(e),
            Ok(pieces) => match parse_side(parts[1]) {
                None => Err(FENParseError::IncorrectToMove),
                Some(to_move) => match parse_castling(parts[2]) {
                    None => Err(FENParseError::IncorrectCastlingRights),
                    Some(castling_rights) => match parse_en_passant(parts[3]) {
                        None => Err(FENParseError::IncorrectEnPassantSquare),
                        Some(en_passant_square) => match parse_clock(parts[4]) {
                            None => Err(FENParseError::IncorrectHalfMoveClock),
                            Some(half_move_clock) => match parse_clock(parts[5]) {
                                None => Err(FENParseError::IncorrectFullMoveClock),
                                Some(full_move_clock) => Ok(
                                    FenFields {
                                        pieces,
                                        to_move,
                                        castling_rights,
                                        en_passant_square,
                                        half_move_clock,
                                        full_move_clock,
                                    },
                                ),
                            },
                        },
                    },
                },
            },
        }
    }
}

/// Parses the side-to-move field.
fn parse_side_bytes(t: &Vec<u8>) -> (r: Option<Color>)
    ensures
        r == parse_side(t@),
{
    if t.len() == 1 {
        if t[0] == 119 {
            return Some(Color::White);
        }
        if t[0] == 98 {
            return Some(Color::Black);
        }
    }
    None
}

/// Parses the castling-rights field.
#[verifier::loop_isolation(false)]
fn parse_castling_bytes(t: &Vec<u8>) -> (r: Option<u8>)
    ensures
        r == parse_castling(t@),
{
    let n = t.len();
    if n > 0 && t[0] == 45 {
        return Some(0);
    }
    let mut acc: u8 = 0;
    let mut j: usize = 0;
    proof {
        assert(t@.skip(0) =~= t@);
    }
    while j < n
        invariant
            n == t@.len(),
            j <= n,
            parse_castle_chars(t@, 0) == parse_castle_chars(t@.skip(j as int), acc),
        decreases n - j,
    {
        let b = t[j];
        let bit: u8 = if b == 75 {
            1
        } else if b == 81 {
            2
        } else if b == 107 {
            4
        } else if b == 113 {
            8
        } else {
            0
        };
        if bit == 0 {
            proof {
                assert(t@.skip(j as int)[0] == t@[j as int]);
            }
            return None;
        }
        proof {
            assert(t@.skip(j as int).drop_first() =~= t@.skip(j + 1));
        }
        acc = acc | bit;
        j += 1;
    }
    proof {
        assert(t@.skip(n as int) =~= Seq::<u8>::empty());
    }
    Some(acc)
}

/// Parses the en-passant field.
fn parse_en_passant_bytes(t: &Vec<u8>) -> (r: Option<Option<Square>>)
    ensures
        r is None <==> parse_en_passant(t@) is None,
        r matches Some(o) ==> parse_en_passant(t@) matches Some(so) && (match (o, so) {
            (Some(q), Some(v)) => q.idx() == v,
            (None, None) => true,
            _ => false,
        }),
{
    if t.len() == 1 && t[0] == 45 {
        return Some(None);
    }
    if t.len() == 2 {
        let b0 = t[0];
        let b1 = t[1];
        let file_upper = 65 <= b0 && b0 <= 72;
        let file_lower = 97 <= b0 && b0 <= 104;
        if (file_upper || file_lower) && 49 <= b1 && b1 <= 56 {
            let file: usize = if file_upper {
                (b0 - 65) as usize
            } else {
                (b0 - 97) as usize
            };
            let rank: usize = (b1 - 49) as usize;
            match Square::from_index(file + 8 * rank) {
                Some(q) => {
                    return Some(Some(q));
                },
                None => {
                    return None;
                },
            }
        }
        return None;
    }
    None
}

/// Parses a clock field into a `usize`.
#[verifier::loop_isolation(false)]
fn parse_clock_bytes(t: &Vec<u8>) -> (r: Option<usize>)
    ensures
        r matches Some(u) ==> parse_clock(t@) == Some(u as int),
        r is None ==> parse_clock(t@) is None,
{
    let n = t.len();
    let start: usize = if n > 0 && t[0] == 43 {
        1
    } else {
        0
    };
    let ghost d = if t@.len() > 0 && t@[0] == 43 {
        t@.drop_first()
    } else {
        t@
    };
    proof {
        assert(d =~= t@.skip(start as int));
    }
    if n == start {
        return None;
    }
    let mut acc: usize = 0;
    let mut j: usize = start;
    proof {
        assert(d.skip(0) =~= d);
    }
    while j < n
        invariant
            n == t@.len(),
            0 <= start <= j <= n,
            start <= 1,
            d == t@.skip(start as int),
            d.len() == n - start,
            forall|k: int| 0 <= k < j - start ==> 48 <= #[trigger] d[k] <= 57,
            digits_val(d, 0) == digits_val(d.skip(j - start), acc as int),
        decreases n - j,
    {
        let b = t[j];
        proof {
            assert(d[j - start] == t@[j as int]);
        }
        if b < 48 || b > 57 {
            proof {
                assert(!all_digits(d));
            }
            return None;
        }
        let digit = (b - 48) as usize;
        let ghost rest = d.skip(j - start);
        proof {
            assert(rest[0] == t@[j as int]);
            assert(rest.drop_first() =~= d.skip(j + 1 - start));
            assert(digits_val(rest, acc as int) == digits_val(
                d.skip(j + 1 - start),
                acc as int * 10 + (b - 48),
            ));
        }
        if acc > (usize::MAX - digit) / 10 {
            proof {
                if all_digits(d) {
                    assert(forall|k: int|
                        0 <= k < d.skip(j + 1 - start).len() ==> #[trigger] d.skip(
                            j + 1 - start,
                        )[k] == d[k + (j + 1 - start)]);
                    lemma_digits_val_ge(d.skip(j + 1 - start), acc as int * 10 + (b - 48));
                    assert(digits_val(d, 0) > usize::MAX);
                }
            }
            return None;
        }
        acc = acc * 10 + digit;
        j += 1;
    }
    proof {
        assert(d.skip(n - start) =~= Seq::<u8>::empty());
        assert(all_digits(d));
    }
    Some(acc)
}

/// Parses the board field into the twelve square sets.
#[verifier::loop_isolation(false)]
fn parse_board_bytes(field: &Vec<u8>) -> (r: Result<[BoardSlice; 12], FENParseError>)
    ensures
        parse_board(field@) matches Ok(ps) ==> r matches Ok(arr) && arr@ == ps,
        parse_board(field@) matches Err(e) ==> r == Err::<[BoardSlice; 12], FENParseError>(e),
{
    let rows = split_slash_bytes(field);
    let ghost rows_views = split_slash(field@);
    if rows.len() != 8 {
        return Err(FENParseError::IncorrectBoardLength(rows.len()));
    }
    let mut pieces: [BoardSlice; 12] = [BoardSlice(0); 12];
    proof {
        assert(pieces@ =~= Seq::new(12, |i: int| BoardSlice(0)));
    }
    let ghost init_pieces = pieces@;
    let mut idx: usize = 0;
    while idx < 8
        invariant
            rows@.len() == 8,
            rows_views.len() == 8,
            rows_views == split_slash(field@),
            forall|k: int| 0 <= k < 8 ==> #[trigger] rows@[k]@ == rows_views[k],
            idx <= 8,
            parse_board_rows(rows_views, 0, init_pieces) == parse_board_rows(
                rows_views,
                idx as int,
                pieces@,
            ),
            parse_board(field@) == parse_board_rows(rows_views, 0, init_pieces),
        decreases 8 - idx,
    {
        let row = &rows[7 - idx];
        let rn = row.len();
        let ghost entry_pieces = pieces@;
        let mut acc: usize = idx * 8;
        let mut j: usize = 0;
        proof {
            assert(row@.skip(0) =~= row@);
        }
        while j < rn
            invariant
                0 <= idx < 8,
                rn == row@.len(),
                j <= rn,
                idx * 8 <= acc <= (idx + 1) * 8,
                parse_row(row@, idx as int, (idx * 8) as int, entry_pieces) == parse_row(
                    row@.skip(j as int),
                    idx as int,
                    acc as int,
                    pieces@,
                ),
            decreases rn - j,
        {
            let b = row[j];
            proof {
                assert(row@.skip(j as int)[0] == row@[j as int]);
                assert(row@.skip(j as int).drop_first() =~= row@.skip(j + 1));
            }
            if acc >= (idx + 1) * 8 {
                return Err(FENParseError::IncorrectBoardRowLength(idx + 1));
            }
            let pci: i32 = if b == 80 {
                0
            } else if b == 78 {
                1
            } else if b == 66 {
                2
            } else if b == 82 {
                3
            } else if b == 81 {
                4
            } else if b == 75 {
                5
            } else if b == 112 {
                6
            } else if b == 110 {
                7
            } else if b == 98 {
                8
            } else if b == 114 {
                9
            } else if b == 113 {
                10
            } else if b == 107 {
                11
            } else {
                -1
            };
            if pci >= 0 {
                let i = pci as usize;
                pieces[i] = BoardSlice(pieces[i].0 | (1u64 << acc as u64));
                acc += 1;
                j += 1;
            } else if 49 <= b && b <= 57 {
                let dskip = (b - 48) as usize;
                if acc + dskip > (idx + 1) * 8 {
                    return Err(FENParseError::IncorrectBoardRowLength(idx + 1));
                }
                acc += dskip;
                j += 1;
            } else {
                return Err(FENParseError::IncorrectBoard(b as char));
            }
        }
        proof {
            assert(row@.skip(rn as int) =~= Seq::<u8>::empty());
        }
        if acc != (idx + 1) * 8 {
            return Err(FENParseError::IncorrectBoardRowLength(idx + 1));
        }
        idx += 1;
    }
    Ok(pieces)
}

/// Whether the position value carries exactly the parsed fields.
pub open spec fn matches_fen(bb: Bitboard, ff: FenFields) -> bool {
    &&& bb.pieces@ == ff.pieces
    &&& bb.to_move == ff.to_move
    &&& bb.castling_rights == ff.castling_rights
    &&& match (bb.en_passant_square, ff.en_passant_square) {
        (Some(q), Some(v)) => q.idx() == v,
        (None, None) => true,
        _ => false,
    }
    &&& bb.half_move_clock == ff.half_move_clock
    &&& bb.full_move_clock == ff.full_move_clock
}

impl Bitboard {
    /// Parses a FEN string into a position. The result is exactly what the
    /// FEN grammar [`parse_fen`] says for the string's bytes: a position
    /// carrying the parsed fields, or the error of the leftmost malformed
    /// field. Never panics.
    pub fn from_fen(fen: &str) -> (r: Result<Bitboard, FENParseError>)
        ensures
            parse_fen(fen.spec_bytes()) matches Ok(ff) ==> r matches Ok(bb) && matches_fen(bb, ff),
            parse_fen(fen.spec_bytes()) matches Err(e) ==> r == Err::<Bitboard, FENParseError>(e),
    {
        let v = fen.as_bytes_vec();
        let parts = split_whitespace_bytes(&v);
        if parts.len() != 6 {
            return Err(FENParseError::IncorrectPartsCount(parts.len()));
        }
        let pieces = match parse_board_bytes(&parts[0]) {
            Ok(p) => p,
            Err(e) => {
                return Err(e);
            },
        };
        let to_move = match parse_side_bytes(&parts[1]) {
            Some(c) => c,
            None => {
                return Err(FENParseError::IncorrectToMove);
            },
        };
        let castling_rights = match parse_castling_bytes(&parts[2]) {
            Some(c) => c,
            None => {
                return Err(FENParseError::IncorrectCastlingRights);
            },
        };
        let en_passant_square = match parse_en_passant_bytes(&parts[3]) {
            Some(o) => o,
            None => {
                return Err(FENParseError::IncorrectEnPassantSquare);
            },
        };
        let half_move_clock = match parse_clock_bytes(&parts[4]) {
            Some(u) => u,
            None => {
                return Err(FENParseError::IncorrectHalfMoveClock);
            },
        };
        let full_move_clock = match parse_clock_bytes(&parts[5]) {
            Some(u) => u,
            None => {
                return Err(FENParseError::IncorrectFullMoveClock);
            },
        };
        Ok(
            Bitboard {
                pieces,
                to_move,
                castling_rights,
                en_passant_square,
                half_move_clock,
                full_move_clock,
            },
        )
    }
}

impl core::str::FromStr for Bitboard {
    type Err = FENParseError;

    fn from_str(s: &str) -> Result<Bitboard, FENParseError> {
        Bitboard::from_fen(s)
    }
}

/// Whether every byte is ASCII.
pub open spec fn ascii_seq(s: Seq<u8>) -> bool {
    forall|i: int| 0 <= i < s.len() ==> #[trigger] s[i] < 128
}

/// The FEN letter of square-set `i`: uppercase `PNBRQK` for the White sets,
/// lowercase for the Black ones.
pub open spec fn piece_letter(i: int) -> u8 {
    if i == 0 {
        80
    } else if i == 1 {
        78
    } else if i == 2 {
        66
    } else if i == 3 {
        82
    } else if i == 4 {
        81
    } else if i == 5 {
        75
    } else if i == 6 {
        112
    } else if i == 7 {
        110
    } else if i == 8 {
        98
    } else if i == 9 {
        114
    } else if i == 10 {
        113
    } else {
        107
    }
}

/// The letters of every piece standing on square `s`, scanning the square
/// sets from `i` upward. A well-formed position yields at most one letter.
pub open spec fn square_chars_rec(bb: Bitboard, s: int, i: int) -> Seq<u8>
    decreases 12 - i,
{
    if i < 0 || i >= 12 {
        Seq::empty()
    } else {
        (if bit64(bb.pieces@[i].0, s as u64) {
            seq![piece_letter(i)]
        } else {
            Seq::empty()
        }) + square_chars_rec(bb, s, i + 1)
    }
}

/// One rank of the board field appended to `out`: piece letters in file
/// order, runs of empty squares folded into a digit.
pub open spec fn row_bytes(bb: Bitboard, rank: int, j: int, blanks: int, out: Seq<u8>) -> Seq<u8>
    decreases 8 - j,
{
    if j < 0 || j >= 8 {
        if blanks != 0 {
            out.push((48 + blanks) as u8)
        } else {
            out
        }
    } else {
        let cs = square_chars_rec(bb, rank * 8 + j, 0);
        if cs.len() == 0 {
            row_bytes(bb, rank, j + 1, blanks + 1, out)
        } else {
            row_bytes(
                bb,
                rank,
                j + 1,
                0,
                (if blanks != 0 {
                    out.push((48 + blanks) as u8)
                } else {
                    out
                }) + cs,
            )
        }
    }
}

/// The whole board field appended to `out`: ranks 8 down to 1, separated by
/// slashes.
pub open spec fn board_bytes(bb: Bitboard, rank: int, out: Seq<u8>) -> Seq<u8>
    decreases rank + 1,
{
    if rank < 0 {
        out
    } else {
        let o2 = row_bytes(bb, rank, 0, 0, out);
        board_bytes(
            bb,
            rank - 1,
            if rank > 0 {
                o2.push(47)
            } else {
                o2
            },
        )
    }
}

/// The side-to-move field.
pub open spec fn side_bytes(c: Color) -> Seq<u8> {
    if c is White {
        seq![119u8]
    } else {
        seq![98u8]
    }
}

/// The castling field in canonical `KQkq` order, `-` when empty.
pub open spec fn castling_bytes(rights: u8) -> Seq<u8> {
    if rights == 0 {
        seq![45u8]
    } else {
        (if rights & 1 != 0 {
            seq![75u8]
        } else {
            Seq::empty()
        }) + (if rights & 2 != 0 {
            seq![81u8]
        } else {
            Seq::empty()
        }) + (if rights & 4 != 0 {
            seq![107u8]
        } else {
            Seq::empty()
        }) + (if rights & 8 != 0 {
            seq![113u8]
        } else {
            Seq::empty()
        })
    }
}

/// The en-passant field: lowercase algebraic notation, `-` for none.
pub open spec fn ep_bytes(ep: Option<Square>) -> Seq<u8> {
    match ep {
        None => seq![45u8],
        Some(q) => seq![(97 + q.idx() % 8) as u8, (49 + q.idx() / 8) as u8],
    }
}

/// The decimal digits of `n`, most significant first.
pub open spec fn dec_bytes(n: int) -> Seq<u8>
    decreases n,
{
    if n < 10 {
        seq![(48 + n) as u8]
    } else {
        dec_bytes(n / 10).push((48 + n % 10) as u8)
    }
}

/// The full FEN serialization of a position: the six fields separated by
/// single spaces.
pub open spec fn fen_bytes(bb: Bitboard) -> Seq<u8> {
    board_bytes(bb, 7, Seq::empty()) + seq![32u8] + side_bytes(bb.to_move) + seq![32u8]
        + castling_bytes(bb.castling_rights) + seq![32u8] + ep_bytes(bb.en_passant_square) + seq![
        32u8,
    ] + dec_bytes(bb.half_move_clock as int) + seq![32u8] + dec_bytes(bb.full_move_clock as int)
}

/// The FEN letter of square-set `i`.
fn piece_letter_exec(i: usize) -> (r: u8)
    requires
        i < 12,
    ensures
        r == piece_letter(i as int),
{
    if i == 0 {
        80
    } else if i == 1 {
        78
    } else if i == 2 {
        66
    } else if i == 3 {
        82
    } else if i == 4 {
        81
    } else if i == 5 {
        75
    } else if i == 6 {
        112
    } else if i == 7 {
        110
    } else if i == 8 {
        98
    } else if i == 9 {
        114
    } else if i == 10 {
        113
    } else {
        107
    }
}

/// Appends the letters of the pieces on square `s`.
#[verifier::loop_isolation(false)]
fn push_square_chars(out: &mut Vec<u8>, bb: &Bitboard, s: usize)
    requires
        s < 64,
    ensures
        final(out)@ == old(out)@ + square_chars_rec(*bb, s as int, 0),
        ascii_seq(old(out)@) ==> ascii_seq(final(out)@),
{
    let mut i: usize = 0;
    while i < 12
        invariant
            i <= 12,
            old(out)@ + square_chars_rec(*bb, s as int, 0) == out@ + square_chars_rec(
                *bb,
                s as int,
                i as int,
            ),
            ascii_seq(old(out)@) ==> ascii_seq(out@),
        decreases 12 - i,
    {
        let ghost pre = out@;
        if bb.pieces[i].0 & (1u64 << (s as u64)) != 0 {
            out.push(piece_letter_exec(i));
            proof {
                assert(pre + square_chars_rec(*bb, s as int, i as int) =~= out@
                    + square_chars_rec(*bb, s as int, i + 1));
            }
        } else {
            proof {
                assert(pre + square_chars_rec(*bb, s as int, i as int) =~= out@
                    + square_chars_rec(*bb, s as int, i + 1));
            }
        }
        i += 1;
    }
    proof {
        assert(out@ + square_chars_rec(*bb, s as int, 12) =~= out@);
    }
}

/// Appends one rank of the board field.
#[verifier::loop_isolation(false)]
fn push_row(out: &mut Vec<u8>, bb: &Bitboard, rank: usize)
    requires
        rank < 8,
    ensures
        final(out)@ == row_bytes(*bb, rank as int, 0, 0, old(out)@),
        ascii_seq(old(out)@) ==> ascii_seq(final(out)@),
{
    let mut blanks: usize = 0;
    let mut j: usize = 0;
    while j < 8
        invariant
            j <= 8,
            blanks <= j,
            row_bytes(*bb, rank as int, 0, 0, old(out)@) == row_bytes(
                *bb,
                rank as int,
                j as int,
                blanks as int,
                out@,
            ),
            ascii_seq(old(out)@) ==> ascii_seq(out@),
        decreases 8 - j,
    {
        let ghost pre = out@;
        let mut probe: Vec<u8> = Vec::new();
        push_square_chars(&mut probe, bb, rank * 8 + j);
        if probe.len() == 0 {
            blanks += 1;
        } else {
            if blanks != 0 {
                out.push((48 + blanks) as u8);
            }
            proof {
                assert(out@ =~= (if blanks != 0 {
                    pre.push((48 + blanks) as u8)
                } else {
                    pre
                }) + probe@.take(0));
            }
            let mut k: usize = 0;
            let n = probe.len();
            while k < n
                invariant
                    k <= n,
                    n == probe@.len(),
                    probe@ == square_chars_rec(*bb, (rank * 8 + j) as int, 0),
                    out@ == (if blanks != 0 {
                        pre.push((48 + blanks) as u8)
                    } else {
                        pre
                    }) + probe@.take(k as int),
                    ascii_seq(pre) ==> ascii_seq(out@),
                decreases n - k,
            {
                out.push(probe[k]);
                proof {
                    assert(probe@[k as int] < 128) by {
                        lemma_square_chars_ascii(*bb, (rank * 8 + j) as int, 0);
                    }
                    assert(out@ =~= (if blanks != 0 {
                        pre.push((48 + blanks) as u8)
                    } else {
                        pre
                    }) + probe@.take(k + 1));
                }
                k += 1;
            }
            proof {
                assert(probe@.take(n as int) =~= probe@);
            }
            blanks = 0;
        }
        j += 1;
    }
    if blanks != 0 {
        out.push((48 + blanks) as u8);
    }
}

/// Every letter a square contributes is ASCII.
pub proof fn lemma_square_chars_ascii(bb: Bitboard, s: int, i: int)
    ensures
        ascii_seq(square_chars_rec(bb, s, i)),
    decreases 12 - i,
{
    if 0 <= i < 12 {
        lemma_square_chars_ascii(bb, s, i + 1);
    }
}

/// Appends the decimal digits of `n`.
fn push_decimal(out: &mut Vec<u8>, n: usize)
    ensures
        final(out)@ == old(out)@ + dec_bytes(n as int),
        ascii_seq(old(out)@) ==> ascii_seq(final(out)@),
    decreases n,
{
    if n >= 10 {
        push_decimal(out, n / 10);
        out.push(48 + (n % 10) as u8);
        proof {
            assert(out@ =~= old(out)@ + dec_bytes(n as int));
        }
    } else {
        out.push(48 + n as u8);
        proof {
            assert(out@ =~= old(out)@ + dec_bytes(n as int));
        }
    }
}

/// Relies on String::from_utf8: a sequence of ASCII bytes is valid UTF-8
/// and decodes to the characters with the same code points, so the call
/// cannot fail on such input.
#[verifier::external_body]
fn ascii_to_string(v: Vec<u8>) -> (r: String)
    requires
        ascii_seq(v@),
    ensures
        r@ == v@.map_values(|b: u8| b as char),
{
    String::from_utf8(v).unwrap_or_default()
}

impl Bitboard {
    /// Serializes the position to its FEN string: exactly the characters of
    /// [`fen_bytes`], with castling rights in canonical `KQkq` order and
    /// the en-passant square in lowercase.
    pub fn to_str(&self) -> (r: String)
        ensures
            r@ == fen_bytes(*self).map_values(|b: u8| b as char),
    {
        let out = self.fen_bytes_vec();
        ascii_to_string(out)
    }

    /// Serializes the position to its FEN bytes.
    fn fen_bytes_vec(&self) -> (v: Vec<u8>)
        ensures
            v@ == fen_bytes(*self),
            ascii_seq(v@),
    {
        let mut out: Vec<u8> = Vec::new();
        let mut rank: usize = 8;
        proof {
            assert(out@ =~= Seq::<u8>::empty());
        }
        while rank > 0
            invariant
                rank <= 8,
                board_bytes(*self, 7, Seq::empty()) == board_bytes(*self, rank as int - 1, out@),
                ascii_seq(out@),
            decreases rank,
        {
            rank -= 1;
            push_row(&mut out, self, rank);
            if rank > 0 {
                out.push(47);
            }
        }
        let ghost board_part = out@;
        proof {
            assert(board_part == board_bytes(*self, 7, Seq::empty()));
        }
        out.push(32);
        push_side(&mut out, self.to_move);
        let ghost side_part = out@;
        proof {
            assert(side_part =~= board_part + seq![32u8] + side_bytes(self.to_move));
        }
        out.push(32);
        push_castling(&mut out, self.castling_rights);
        let ghost castle_part = out@;
        proof {
            assert(castle_part =~= side_part + seq![32u8] + castling_bytes(self.castling_rights));
        }
        out.push(32);
        push_en_passant(&mut out, self.en_passant_square);
        let ghost ep_part = out@;
        proof {
            assert(ep_part =~= castle_part + seq![32u8] + ep_bytes(self.en_passant_square));
        }
        out.push(32);
        push_decimal(&mut out, self.half_move_clock);
        let ghost half_part = out@;
        proof {
            assert(half_part =~= ep_part + seq![32u8] + dec_bytes(self.half_move_clock as int));
        }
        out.push(32);
        push_decimal(&mut out, self.full_move_clock);
        proof {
            assert(out@ =~= half_part + seq![32u8] + dec_bytes(self.full_move_clock as int));
            assert(out@ =~= fen_bytes(*self));
        }
        out
    }
}

/// Appends the side-to-move field.
fn push_side(out: &mut Vec<u8>, c: Color)
    ensures
        final(out)@ == old(out)@ + side_bytes(c),
        ascii_seq(old(out)@) ==> ascii_seq(final(out)@),
{
    match c {
        Color::White => out.push(119),
        Color::Black => out.push(98),
    }
    proof {
        assert(out@ =~= old(out)@ + side_bytes(c));
    }
}

/// Appends the castling field in canonical order.
fn push_castling(out: &mut Vec<u8>, rights: u8)
    ensures
        final(out)@ == old(out)@ + castling_bytes(rights),
        ascii_seq(old(out)@) ==> ascii_seq(final(out)@),
{
    if rights == 0 {
        out.push(45);
    } else {
        if rights & 1 != 0 {
            out.push(75);
        }
        if rights & 2 != 0 {
            out.push(81);
        }
        if rights & 4 != 0 {
            out.push(107);
        }
        if rights & 8 != 0 {
            out.push(113);
        }
    }
    proof {
        assert(out@ =~= old(out)@ + castling_bytes(rights));
    }
}

/// Appends the en-passant field.
fn push_en_passant(out: &mut Vec<u8>, ep: Option<Square>)
    ensures
        final(out)@ == old(out)@ + ep_bytes(ep),
        ascii_seq(old(out)@) ==> ascii_seq(final(out)@),
{
    match ep {
        None => out.push(45),
        Some(q) => {
            let i = q.index();
            out.push(97 + (i % 8) as u8);
            out.push(49 + (i / 8) as u8);
        },
    }
    proof {
        assert(out@ =~= old(out)@ + ep_bytes(ep));
    }
}

} // verus!
