//! Precomputed attack tables: per-square step-attack masks for the
//! non-sliding pieces, and the magic-multiply lookup tables for the sliding
//! pieces, all gathered in an immutable [`AttackTables`] context built once
//! at startup.
pub mod bishop_attack_generators;
pub mod magic_number_constants;
pub mod magic_number_generator;
pub mod occupancies;
pub mod occupancy;
pub mod rays;
pub mod rook_attack_generators;

use vstd::prelude::*;

use crate::attack_tables::bishop_attack_generators::{
    bishop_attacks_spec, bishop_mask_spec, generate_bishop_attack_mask,
    generate_bishop_attacks_on_the_fly,
};
use crate::attack_tables::magic_number_constants::{
    bishop_magic_numbers, bishop_magic_seq, rook_magic_numbers, rook_magic_seq,
};
use crate::attack_tables::occupancy::{
    deposit_spec, lemma_deposit_extract, lemma_deposit_subset, lemma_occupancy_n_full,
    lemma_popcnt_bound, occupancy_rec,
    popcnt, popcount_clear, extract_spec,
};
use crate::attack_tables::rook_attack_generators::{
    generate_rook_attack_mask, generate_rook_attacks_on_the_fly, rook_attacks_spec, rook_mask_spec,
};
use crate::bits::bit64;
use crate::board_slice::BoardSlice;
use crate::enums::{Color, Piece, Square};

verus! {

/// Single pawn push target of a pawn of color `c` on square `s`: one rank
/// ahead, defined only on the origin ranks 2 through 7.
pub open spec fn pawn_move_mask(c: Color, s: int) -> u64 {
    if 8 <= s < 56 {
        if c is White {
            1u64 << ((s + 8) as u64)
        } else {
            1u64 << ((s - 8) as u64)
        }
    } else {
        0u64
    }
}

/// Double pawn push target: two ranks ahead, only from the color's second
/// rank.
pub open spec fn double_pawn_move_mask(c: Color, s: int) -> u64 {
    if c is White {
        if 8 <= s < 16 {
            1u64 << ((s + 16) as u64)
        } else {
            0u64
        }
    } else {
        if 48 <= s < 56 {
            1u64 << ((s - 16) as u64)
        } else {
            0u64
        }
    }
}

/// Inverse double push target: from a double-push destination square, the
/// origin square the pawn came from, defined on the fourth rank for White
/// and the fifth for Black.
pub open spec fn inverse_double_pawn_move_mask(c: Color, s: int) -> u64 {
    if c is White {
        if 24 <= s < 32 {
            1u64 << ((s - 16) as u64)
        } else {
            0u64
        }
    } else {
        if 32 <= s < 40 {
            1u64 << ((s + 16) as u64)
        } else {
            0u64
        }
    }
}

/// Diagonal pawn attack targets of a pawn of color `c` on square `s`,
/// clipped at the board edges.
pub open spec fn pawn_attack_mask(c: Color, s: int) -> u64 {
    let f = s % 8;
    if c is White {
        (if s < 56 && f <= 6 {
            1u64 << ((s + 9) as u64)
        } else {
            0u64
        }) | (if s < 56 && f >= 1 {
            1u64 << ((s + 7) as u64)
        } else {
            0u64
        })
    } else {
        (if s >= 8 && f <= 6 {
            1u64 << ((s - 7) as u64)
        } else {
            0u64
        }) | (if s >= 8 && f >= 1 {
            1u64 << ((s - 9) as u64)
        } else {
            0u64
        })
    }
}

/// Knight attack targets of square `s`: the eight L-shaped leaps that stay
/// on the board, each clipped per direction to avoid file or rank wrap.
pub open spec fn knight_attack_mask(s: int) -> u64 {
    let r = s / 8;
    let f = s % 8;
    (if r <= 5 && f <= 6 {
        1u64 << ((s + 17) as u64)
    } else {
        0u64
    }) | (if r <= 6 && f <= 5 {
        1u64 << ((s + 10) as u64)
    } else {
        0u64
    }) | (if r >= 1 && f <= 5 {
        1u64 << ((s - 6) as u64)
    } else {
        0u64
    }) | (if r >= 2 && f <= 6 {
        1u64 << ((s - 15) as u64)
    } else {
        0u64
    }) | (if r >= 2 && f >= 1 {
        1u64 << ((s - 17) as u64)
    } else {
        0u64
    }) | (if r >= 1 && f >= 2 {
        1u64 << ((s - 10) as u64)
    } else {
        0u64
    }) | (if r <= 6 && f >= 2 {
        1u64 << ((s + 6) as u64)
    } else {
        0u64
    }) | (if r <= 5 && f >= 1 {
        1u64 << ((s + 15) as u64)
    } else {
        0u64
    })
}

/// King attack targets of square `s`: the eight adjacent squares that stay
/// on the board.
pub open spec fn king_attack_mask(s: int) -> u64 {
    let r = s / 8;
    let f = s % 8;
    (if r <= 6 {
        1u64 << ((s + 8) as u64)
    } else {
        0u64
    }) | (if r <= 6 && f <= 6 {
        1u64 << ((s + 9) as u64)
    } else {
        0u64
    }) | (if f <= 6 {
        1u64 << ((s + 1) as u64)
    } else {
        0u64
    }) | (if r >= 1 && f <= 6 {
        1u64 << ((s - 7) as u64)
    } else {
        0u64
    }) | (if r >= 1 {
        1u64 << ((s - 8) as u64)
    } else {
        0u64
    }) | (if r >= 1 && f >= 1 {
        1u64 << ((s - 9) as u64)
    } else {
        0u64
    }) | (if f >= 1 {
        1u64 << ((s - 1) as u64)
    } else {
        0u64
    }) | (if r <= 6 && f >= 1 {
        1u64 << ((s + 7) as u64)
    } else {
        0u64
    })
}

/// Law: square `t` is a knight-attack target of square `s` exactly when it
/// lies one L-shaped leap away on the board: two ranks and one file apart,
/// or one rank and two files apart.
pub proof fn lemma_knight_attack_membership(s: int, t: int)
    requires
        0 <= s < 64,
        0 <= t < 64,
    ensures
        bit64(knight_attack_mask(s), t as u64) <==> {
            let dr = t / 8 - s / 8;
            let df = t % 8 - s % 8;
            ((dr == 2 || dr == -2) && (df == 1 || df == -1)) || ((dr == 1 || dr == -1) && (df == 2
                || df == -2))
        },
{
    let r = s / 8;
    let f = s % 8;
    let c1: u64 = if r <= 5 && f <= 6 {
        1u64 << ((s + 17) as u64)
    } else {
        0u64
    };
    let c2: u64 = if r <= 6 && f <= 5 {
        1u64 << ((s + 10) as u64)
    } else {
        0u64
    };
    let c3: u64 = if r >= 1 && f <= 5 {
        1u64 << ((s - 6) as u64)
    } else {
        0u64
    };
    let c4: u64 = if r >= 2 && f <= 6 {
        1u64 << ((s - 15) as u64)
    } else {
        0u64
    };
    let c5: u64 = if r >= 2 && f >= 1 {
        1u64 << ((s - 17) as u64)
    } else {
        0u64
    };
    let c6: u64 = if r >= 1 && f >= 2 {
        1u64 << ((s - 10) as u64)
    } else {
        0u64
    };
    let c7: u64 = if r <= 6 && f >= 2 {
        1u64 << ((s + 6) as u64)
    } else {
        0u64
    };
    let c8: u64 = if r <= 5 && f >= 1 {
        1u64 << ((s + 15) as u64)
    } else {
        0u64
    };
    lemma_step_or8(c1, c2, c3, c4, c5, c6, c7, c8, t as u64);
    lemma_step_bit(s, 2, 1, t);
    lemma_step_bit(s, 1, 2, t);
    lemma_step_bit(s, -1, 2, t);
    lemma_step_bit(s, -2, 1, t);
    lemma_step_bit(s, -2, -1, t);
    lemma_step_bit(s, -1, -2, t);
    lemma_step_bit(s, 1, -2, t);
    lemma_step_bit(s, 2, -1, t);
}

/// Law: square `t` is a king-attack target of square `s` exactly when it
/// is one of the up-to-eight adjacent board squares.
pub proof fn lemma_king_attack_membership(s: int, t: int)
    requires
        0 <= s < 64,
        0 <= t < 64,
    ensures
        bit64(king_attack_mask(s), t as u64) <==> {
            let dr = t / 8 - s / 8;
            let df = t % 8 - s % 8;
            -1 <= dr <= 1 && -1 <= df <= 1 && (dr != 0 || df != 0)
        },
{
    let r = s / 8;
    let f = s % 8;
    let c1: u64 = if r <= 6 {
        1u64 << ((s + 8) as u64)
    } else {
        0u64
    };
    let c2: u64 = if r <= 6 && f <= 6 {
        1u64 << ((s + 9) as u64)
    } else {
        0u64
    };
    let c3: u64 = if f <= 6 {
        1u64 << ((s + 1) as u64)
    } else {
        0u64
    };
    let c4: u64 = if r >= 1 && f <= 6 {
        1u64 << ((s - 7) as u64)
    } else {
        0u64
    };
    let c5: u64 = if r >= 1 {
        1u64 << ((s - 8) as u64)
    } else {
        0u64
    };
    let c6: u64 = if r >= 1 && f >= 1 {
        1u64 << ((s - 9) as u64)
    } else {
        0u64
    };
    let c7: u64 = if f >= 1 {
        1u64 << ((s - 1) as u64)
    } else {
        0u64
    };
    let c8: u64 = if r <= 6 && f >= 1 {
        1u64 << ((s + 7) as u64)
    } else {
        0u64
    };
    lemma_step_or8(c1, c2, c3, c4, c5, c6, c7, c8, t as u64);
    lemma_step_bit(s, 1, 0, t);
    lemma_step_bit(s, 1, 1, t);
    lemma_step_bit(s, 0, 1, t);
    lemma_step_bit(s, -1, 1, t);
    lemma_step_bit(s, -1, 0, t);
    lemma_step_bit(s, -1, -1, t);
    lemma_step_bit(s, 0, -1, t);
    lemma_step_bit(s, 1, -1, t);
}

/// Law: square `t` is a pawn-attack target of a pawn of color `c` on
/// square `s` exactly when it lies one rank ahead (by the pawn's own
/// direction of travel) and one file aside, on the board.
pub proof fn lemma_pawn_attack_membership(c: Color, s: int, t: int)
    requires
        0 <= s < 64,
        0 <= t < 64,
    ensures
        bit64(pawn_attack_mask(c, s), t as u64) <==> {
            let dr = t / 8 - s / 8;
            let df = t % 8 - s % 8;
            dr == (if c is White {
                1int
            } else {
                -1int
            }) && (df == 1 || df == -1)
        },
{
    let f = s % 8;
    if c is White {
        let c1: u64 = if s < 56 && f <= 6 {
            1u64 << ((s + 9) as u64)
        } else {
            0u64
        };
        let c2: u64 = if s < 56 && f >= 1 {
            1u64 << ((s + 7) as u64)
        } else {
            0u64
        };
        lemma_step_or2(c1, c2, t as u64);
        lemma_step_bit(s, 1, 1, t);
        lemma_step_bit(s, 1, -1, t);
    } else {
        let c1: u64 = if s >= 8 && f <= 6 {
            1u64 << ((s - 7) as u64)
        } else {
            0u64
        };
        let c2: u64 = if s >= 8 && f >= 1 {
            1u64 << ((s - 9) as u64)
        } else {
            0u64
        };
        lemma_step_or2(c1, c2, t as u64);
        lemma_step_bit(s, -1, 1, t);
        lemma_step_bit(s, -1, -1, t);
    }
}

/// Law: square `t` is the single push target of a pawn of color `c` on
/// square `s` exactly when it lies one rank ahead on the same file and `s`
/// is on one of the origin ranks 2 through 7.
pub proof fn lemma_pawn_move_membership(c: Color, s: int, t: int)
    requires
        0 <= s < 64,
        0 <= t < 64,
    ensures
        bit64(pawn_move_mask(c, s), t as u64) <==> {
            let dr = t / 8 - s / 8;
            let df = t % 8 - s % 8;
            dr == (if c is White {
                1int
            } else {
                -1int
            }) && df == 0 && 1 <= s / 8 <= 6
        },
{
    if c is White {
        lemma_step_bit(s, 1, 0, t);
    } else {
        lemma_step_bit(s, -1, 0, t);
    }
}

/// Law: square `t` is the double push target of a pawn of color `c` on
/// square `s` exactly when it lies two ranks ahead on the same file and
/// `s` is on the color's second rank.
pub proof fn lemma_double_pawn_move_membership(c: Color, s: int, t: int)
    requires
        0 <= s < 64,
        0 <= t < 64,
    ensures
        bit64(double_pawn_move_mask(c, s), t as u64) <==> {
            let dr = t / 8 - s / 8;
            let df = t % 8 - s % 8;
            if c is White {
                dr == 2 && df == 0 && s / 8 == 1
            } else {
                dr == -2 && df == 0 && s / 8 == 6
            }
        },
{
    if c is White {
        lemma_step_bit(s, 2, 0, t);
    } else {
        lemma_step_bit(s, -2, 0, t);
    }
}

/// Law: square `t` is the inverse double push target of square `s` for
/// color `c` exactly when `s` is a double-push destination (the fourth
/// rank for White, the fifth for Black) and `t` is the origin square the
/// pawn came from, two ranks back on the same file.
pub proof fn lemma_inverse_double_pawn_move_membership(c: Color, s: int, t: int)
    requires
        0 <= s < 64,
        0 <= t < 64,
    ensures
        bit64(inverse_double_pawn_move_mask(c, s), t as u64) <==> {
            let dr = t / 8 - s / 8;
            let df = t % 8 - s % 8;
            if c is White {
                dr == -2 && df == 0 && s / 8 == 3
            } else {
                dr == 2 && df == 0 && s / 8 == 4
            }
        },
{
    if c is White {
        lemma_step_bit(s, -2, 0, t);
    } else {
        lemma_step_bit(s, 2, 0, t);
    }
}

/// Membership in a union of eight step masks is membership in one of them.
proof fn lemma_step_or8(c1: u64, c2: u64, c3: u64, c4: u64, c5: u64, c6: u64, c7: u64, c8: u64, t: u64)
    requires
        t < 64,
    ensures
        bit64(c1 | c2 | c3 | c4 | c5 | c6 | c7 | c8, t) <==> (bit64(c1, t) || bit64(c2, t)
            || bit64(c3, t) || bit64(c4, t) || bit64(c5, t) || bit64(c6, t) || bit64(c7, t)
            || bit64(c8, t)),
{
    crate::bits::lemma_bit_or(c1 | c2 | c3 | c4 | c5 | c6 | c7, c8, t);
    crate::bits::lemma_bit_or(c1 | c2 | c3 | c4 | c5 | c6, c7, t);
    crate::bits::lemma_bit_or(c1 | c2 | c3 | c4 | c5, c6, t);
    crate::bits::lemma_bit_or(c1 | c2 | c3 | c4, c5, t);
    crate::bits::lemma_bit_or(c1 | c2 | c3, c4, t);
    crate::bits::lemma_bit_or(c1 | c2, c3, t);
    crate::bits::lemma_bit_or(c1, c2, t);
}

/// Membership in a union of two step masks.
proof fn lemma_step_or2(c1: u64, c2: u64, t: u64)
    requires
        t < 64,
    ensures
        bit64(c1 | c2, t) <==> (bit64(c1, t) || bit64(c2, t)),
{
    crate::bits::lemma_bit_or(c1, c2, t);
}

/// One clipped step: the single-square mask of the step `(dr, df)` from
/// `s`, guarded by its own edge conditions, holds `t` exactly when `t` is
/// the stepped-to square, in terms of rank and file deltas.
proof fn lemma_step_bit(s: int, dr: int, df: int, t: int)
    requires
        0 <= s < 64,
        0 <= t < 64,
        -2 <= dr <= 2,
        -2 <= df <= 2,
    ensures
        0 <= s / 8 + dr < 8 && 0 <= s % 8 + df < 8 ==> (bit64(
            1u64 << ((s + dr * 8 + df) as u64),
            t as u64,
        ) <==> (t / 8 - s / 8 == dr && t % 8 - s % 8 == df)),
        !(0 <= s / 8 + dr < 8 && 0 <= s % 8 + df < 8) ==> !(t / 8 - s / 8 == dr && t % 8 - s % 8
            == df),
        !bit64(0u64, t as u64),
{
    crate::bits::lemma_bit_zero(t as u64);
    if 0 <= s / 8 + dr < 8 && 0 <= s % 8 + df < 8 {
        let u = s + dr * 8 + df;
        assert(u == (s / 8 + dr) * 8 + (s % 8 + df));
        assert(0 <= u < 64);
        crate::bits::lemma_bit_single(u as u64, t as u64);
        if t == u {
            assert(t / 8 == s / 8 + dr && t % 8 == s % 8 + df);
        }
        if t / 8 - s / 8 == dr && t % 8 - s % 8 == df {
            assert(t == (t / 8) * 8 + t % 8);
            assert(t == u);
        }
    } else {
        if t / 8 - s / 8 == dr && t % 8 - s % 8 == df {
            assert(0 <= t / 8 < 8 && 0 <= t % 8 < 8);
            assert(false);
        }
    }
}

/// The 64-entry single pawn push table for `color`.
pub fn generate_pawn_move_table(color: Color) -> (t: Vec<BoardSlice>)
    ensures
        t@.len() == 64,
        forall|s: int| 0 <= s < 64 ==> t@[s].0 == pawn_move_mask(color, s),
{
    let mut t: Vec<BoardSlice> = Vec::new();
    let mut s: usize = 0;
    while s < 64
        invariant
            s <= 64,
            t@.len() == s,
            forall|k: int| 0 <= k < s ==> t@[k].0 == pawn_move_mask(color, k),
        decreases 64 - s,
    {
        let m: u64 = if 8 <= s && s < 56 {
            match color {
                Color::White => 1u64 << ((s + 8) as u64),
                Color::Black => 1u64 << ((s - 8) as u64),
            }
        } else {
            0u64
        };
        t.push(BoardSlice(m));
        s += 1;
    }
    t
}

/// The 64-entry double pawn push table for `color`.
pub fn generate_double_pawn_move_table(color: Color) -> (t: Vec<BoardSlice>)
    ensures
        t@.len() == 64,
        forall|s: int| 0 <= s < 64 ==> t@[s].0 == double_pawn_move_mask(color, s),
{
    let mut t: Vec<BoardSlice> = Vec::new();
    let mut s: usize = 0;
    while s < 64
        invariant
            s <= 64,
            t@.len() == s,
            forall|k: int| 0 <= k < s ==> t@[k].0 == double_pawn_move_mask(color, k),
        decreases 64 - s,
    {
        let m: u64 = match color {
            Color::White => if 8 <= s && s < 16 {
                1u64 << ((s + 16) as u64)
            } else {
                0u64
            },
            Color::Black => if 48 <= s && s < 56 {
                1u64 << ((s - 16) as u64)
            } else {
                0u64
            },
        };
        t.push(BoardSlice(m));
        s += 1;
    }
    t
}

/// The 64-entry inverse double push table for `color`.
pub fn generate_inverse_double_pawn_move_table(color: Color) -> (t: Vec<BoardSlice>)
    ensures
        t@.len() == 64,
        forall|s: int| 0 <= s < 64 ==> t@[s].0 == inverse_double_pawn_move_mask(color, s),
{
    let mut t: Vec<BoardSlice> = Vec::new();
    let mut s: usize = 0;
    while s < 64
        invariant
            s <= 64,
            t@.len() == s,
            forall|k: int| 0 <= k < s ==> t@[k].0 == inverse_double_pawn_move_mask(color, k),
        decreases 64 - s,
    {
        let m: u64 = match color {
            Color::White => if 24 <= s && s < 32 {
                1u64 << ((s - 16) as u64)
            } else {
                0u64
            },
            Color::Black => if 32 <= s && s < 40 {
                1u64 << ((s + 16) as u64)
            } else {
                0u64
            },
        };
        t.push(BoardSlice(m));
        s += 1;
    }
    t
}

/// The 64-entry diagonal pawn attack table for `color`.
pub fn generate_pawn_attack_table(color: Color) -> (t: Vec<BoardSlice>)
    ensures
        t@.len() == 64,
        forall|s: int| 0 <= s < 64 ==> t@[s].0 == pawn_attack_mask(color, s),
{
    let mut t: Vec<BoardSlice> = Vec::new();
    let mut s: usize = 0;
    while s < 64
        invariant
            s <= 64,
            t@.len() == s,
            forall|k: int| 0 <= k < s ==> t@[k].0 == pawn_attack_mask(color, k),
        decreases 64 - s,
    {
        let f = s % 8;
        let m: u64 = match color {
            Color::White => (if s < 56 && f <= 6 {
                1u64 << ((s + 9) as u64)
            } else {
                0u64
            }) | (if s < 56 && f >= 1 {
                1u64 << ((s + 7) as u64)
            } else {
                0u64
            }),
            Color::Black => (if s >= 8 && f <= 6 {
                1u64 << ((s - 7) as u64)
            } else {
                0u64
            }) | (if s >= 8 && f >= 1 {
                1u64 << ((s - 9) as u64)
            } else {
                0u64
            }),
        };
        t.push(BoardSlice(m));
        s += 1;
    }
    t
}

/// The 64-entry knight attack table.
pub fn generate_knight_attack_table() -> (t: Vec<BoardSlice>)
    ensures
        t@.len() == 64,
        forall|s: int| 0 <= s < 64 ==> t@[s].0 == knight_attack_mask(s),
{
    let mut t: Vec<BoardSlice> = Vec::new();
    let mut s: usize = 0;
    while s < 64
        invariant
            s <= 64,
            t@.len() == s,
            forall|k: int| 0 <= k < s ==> t@[k].0 == knight_attack_mask(k),
        decreases 64 - s,
    {
        let r = s / 8;
        let f = s % 8;
        let m: u64 = (if r <= 5 && f <= 6 {
            1u64 << ((s + 17) as u64)
        } else {
            0u64
        }) | (if r <= 6 && f <= 5 {
            1u64 << ((s + 10) as u64)
        } else {
            0u64
        }) | (if r >= 1 && f <= 5 {
            1u64 << ((s - 6) as u64)
        } else {
            0u64
        }) | (if r >= 2 && f <= 6 {
            1u64 << ((s - 15) as u64)
        } else {
            0u64
        }) | (if r >= 2 && f >= 1 {
            1u64 << ((s - 17) as u64)
        } else {
            0u64
        }) | (if r >= 1 && f >= 2 {
            1u64 << ((s - 10) as u64)
        } else {
            0u64
        }) | (if r <= 6 && f >= 2 {
            1u64 << ((s + 6) as u64)
        } else {
            0u64
        }) | (if r <= 5 && f >= 1 {
            1u64 << ((s + 15) as u64)
        } else {
            0u64
        });
        t.push(BoardSlice(m));
        s += 1;
    }
    t
}

/// The 64-entry king attack table.
pub fn generate_king_attack_table() -> (t: Vec<BoardSlice>)
    ensures
        t@.len() == 64,
        forall|s: int| 0 <= s < 64 ==> t@[s].0 == king_attack_mask(s),
{
    let mut t: Vec<BoardSlice> = Vec::new();
    let mut s: usize = 0;
    while s < 64
        invariant
            s <= 64,
            t@.len() == s,
            forall|k: int| 0 <= k < s ==> t@[k].0 == king_attack_mask(k),
        decreases 64 - s,
    {
        let r = s / 8;
        let f = s % 8;
        let m: u64 = (if r <= 6 {
            1u64 << ((s + 8) as u64)
        } else {
            0u64
        }) | (if r <= 6 && f <= 6 {
            1u64 << ((s + 9) as u64)
        } else {
            0u64
        }) | (if f <= 6 {
            1u64 << ((s + 1) as u64)
        } else {
            0u64
        }) | (if r >= 1 && f <= 6 {
            1u64 << ((s - 7) as u64)
        } else {
            0u64
        }) | (if r >= 1 {
            1u64 << ((s - 8) as u64)
        } else {
            0u64
        }) | (if r >= 1 && f >= 1 {
            1u64 << ((s - 9) as u64)
        } else {
            0u64
        }) | (if f >= 1 {
            1u64 << ((s - 1) as u64)
        } else {
            0u64
        }) | (if r <= 6 && f >= 1 {
            1u64 << ((s + 7) as u64)
        } else {
            0u64
        });
        t.push(BoardSlice(m));
        s += 1;
    }
    t
}

/// The relevant-occupancy mask of the sliding piece kind on square `s`.
/// Only bishop and rook slide; the other kinds have no mask.
pub open spec fn sliding_mask(piece: Piece, s: int) -> u64 {
    match piece {
        Piece::Bishop => bishop_mask_spec(s),
        Piece::Rook => rook_mask_spec(s),
        _ => 0u64,
    }
}

/// The attack set of the sliding piece kind on square `s` under `blockers`.
pub open spec fn sliding_attacks(piece: Piece, s: int, blockers: u64) -> u64 {
    match piece {
        Piece::Bishop => bishop_attacks_spec(s, blockers),
        Piece::Rook => rook_attacks_spec(s, blockers),
        _ => 0u64,
    }
}

/// The magic hash of an occupancy pattern: multiply by the magic constant
/// modulo two to the 64, then keep the top `bits` bits.
pub open spec fn magic_index_spec(occ: u64, magic: u64, bits: u64) -> u64 {
    vstd::wrapping::u64_specs::wrapping_mul(occ, magic) >> ((64 - bits) as u64)
}

/// A lookup table is sound for `(piece, s, mask, magic, bits)` when it has
/// an entry for every subset of the relevant-occupancy mask, and that entry
/// is the true attack set of the subset.
pub open spec fn table_ok(
    piece: Piece,
    s: int,
    mask: u64,
    magic: u64,
    bits: u64,
    tbl: Seq<u64>,
) -> bool {
    &&& 1 <= bits <= 16
    &&& tbl.len() == (1u64 << bits)
    &&& forall|sub: u64|
        sub & !mask == 0 ==> tbl[#[trigger] magic_index_spec(sub, magic, bits) as int]
            == sliding_attacks(piece, s, sub)
}

/// The magic hash keeps only the top `bits` bits, so it stays below the
/// table size.
proof fn lemma_index_bound(x: u64, bits: u64)
    by (bit_vector)
    requires
        1 <= bits <= 16,
    ensures
        (x >> ((64 - bits) as u64)) < (1u64 << bits),
        (1u64 << bits) <= 0x10000,
{
}

/// Masking keeps a pattern inside the mask, and a pattern inside the mask
/// is unchanged by masking.
proof fn lemma_mask_subset(a: u64, m: u64)
    by (bit_vector)
    ensures
        (a & m) & !m == 0,
        a & !m == 0 ==> a & m == a,
{
}

/// Builds the dense magic lookup table for one square and sliding piece
/// kind, enumerating every subset of `mask` and storing its attack set at
/// its hashed index. Returns the table and the mask's bit count, or `None`
/// if `magic` maps two subsets with different attack sets to one index.
/// Success is owed: whenever a sound table of the mask's own width exists
/// for `magic`, the build finds one.
pub fn build_sliding_table(piece: Piece, square: Square, mask: u64, magic: u64) -> (r: Option<
    (Vec<u64>, usize),
>)
    requires
        piece is Bishop || piece is Rook,
    ensures
        r matches Some(p) ==> p.1 as nat == popcnt(mask) && table_ok(
            piece,
            square.idx(),
            mask,
            magic,
            p.1 as u64,
            p.0@,
        ),
        1 <= popcnt(mask) <= 16 && (exists|tbl: Seq<u64>|
            #[trigger] table_ok(piece, square.idx(), mask, magic, popcnt(mask) as u64, tbl))
            ==> r is Some,
{
    let bits = popcount_clear(mask);
    if bits < 1 || bits > 16 {
        return None;
    }
    let n: usize = 1usize << bits;
    proof {
        assert(n == (1u64 << (bits as u64)) && n <= 0x10000) by (bit_vector)
            requires
                1 <= bits <= 16,
                n == (1usize << bits),
        ;
    }
    let mut tbl: Vec<u64> = Vec::new();
    let mut written: Vec<bool> = Vec::new();
    let mut k: usize = 0;
    while k < n
        invariant
            k <= n,
            tbl@.len() == k,
            written@.len() == k,
            forall|k2: int| 0 <= k2 < k ==> !(#[trigger] written@[k2]),
        decreases n - k,
    {
        tbl.push(0u64);
        written.push(false);
        k += 1;
    }
    let mut i: usize = 0;
    while i < n
        invariant
            piece is Bishop || piece is Rook,
            i <= n,
            tbl@.len() == n,
            written@.len() == n,
            bits as nat == popcnt(mask),
            1 <= bits <= 16,
            n == (1u64 << (bits as u64)),
            forall|j: u64|
                j < i ==> {
                    let idx = magic_index_spec(#[trigger] deposit_spec(j, mask), magic, bits as u64);
                    idx < n && written@[idx as int] && tbl@[idx as int] == sliding_attacks(
                        piece,
                        square.idx(),
                        deposit_spec(j, mask),
                    )
                },
            forall|k2: int|
                0 <= k2 < n && #[trigger] written@[k2] ==> exists|j: u64|
                    j < i && magic_index_spec(deposit_spec(j, mask), magic, bits as u64)
                        == k2 as u64,
        decreases n - i,
    {
        let occ = occupancy_rec(i as u64, bits, mask);
        proof {
            lemma_occupancy_n_full(i as u64, mask);
        }
        let att: u64 = match piece {
            Piece::Bishop => generate_bishop_attacks_on_the_fly(square, BoardSlice(occ)).0,
            Piece::Rook => generate_rook_attacks_on_the_fly(square, BoardSlice(occ)).0,
            _ => {
                return None;
            },
        };
        let sh: u64 = (64 - bits) as u64;
        let idx64: u64 = occ.wrapping_mul(magic) >> sh;
        proof {
            lemma_index_bound(occ.wrapping_mul(magic), bits as u64);
            assert(idx64 == magic_index_spec(occ, magic, bits as u64));
        }
        let idx = idx64 as usize;
        if written[idx] {
            if tbl[idx] != att {
                // A collision between subsets with different attack sets:
                // no sound table of this width exists for `magic` at all.
                proof {
                    if exists|tbl2: Seq<u64>|
                        #[trigger] table_ok(
                            piece,
                            square.idx(),
                            mask,
                            magic,
                            popcnt(mask) as u64,
                            tbl2,
                        ) {
                        let t2 = choose|tbl2: Seq<u64>|
                            #[trigger] table_ok(
                                piece,
                                square.idx(),
                                mask,
                                magic,
                                popcnt(mask) as u64,
                                tbl2,
                            );
                        let j0 = choose|j: u64|
                            j < i && magic_index_spec(deposit_spec(j, mask), magic, bits as u64)
                                == idx as u64;
                        lemma_deposit_subset(j0, mask);
                        lemma_deposit_subset(i as u64, mask);
                        assert(magic_index_spec(deposit_spec(i as u64, mask), magic, bits as u64)
                            == idx as u64);
                        assert(t2[idx as int] == sliding_attacks(
                            piece,
                            square.idx(),
                            deposit_spec(j0, mask),
                        ));
                        assert(t2[idx as int] == sliding_attacks(
                            piece,
                            square.idx(),
                            deposit_spec(i as u64, mask),
                        ));
                        assert(tbl@[idx as int] == att);
                        assert(false);
                    }
                }
                return None;
            }
        } else {
            tbl.set(idx, att);
            written.set(idx, true);
            proof {
                assert(magic_index_spec(deposit_spec(i as u64, mask), magic, bits as u64)
                    == idx as u64);
            }
        }
        i += 1;
    }
    proof {
        assert forall|sub: u64| sub & !mask == 0 implies tbl@[#[trigger] magic_index_spec(
            sub,
            magic,
            bits as u64,
        ) as int] == sliding_attacks(piece, square.idx(), sub) by {
            lemma_popcnt_bound(mask);
            lemma_deposit_extract(sub, mask);
            let j = extract_spec(sub, mask);
            assert(j < (1u64 << (bits as u64)));
            assert(deposit_spec(j, mask) == sub);
        }
    }
    Some((tbl, bits))
}

/// The shipped magic constants are fit: for every square, a sound lookup
/// table of the relevant mask's own width exists for that square's bishop
/// and rook multiplier. [`AttackTables::new`] owes success under exactly
/// this condition.
pub open spec fn magic_constants_fit() -> bool {
    forall|s: int|
        #![trigger bishop_mask_spec(s)]
        0 <= s < 64 ==> {
            &&& 1 <= popcnt(bishop_mask_spec(s)) <= 16
            &&& 1 <= popcnt(rook_mask_spec(s)) <= 16
            &&& exists|tbl: Seq<u64>|
                #[trigger] table_ok(
                    Piece::Bishop,
                    s,
                    bishop_mask_spec(s),
                    bishop_magic_seq()[s],
                    popcnt(bishop_mask_spec(s)) as u64,
                    tbl,
                )
            &&& exists|tbl: Seq<u64>|
                #[trigger] table_ok(
                    Piece::Rook,
                    s,
                    rook_mask_spec(s),
                    rook_magic_seq()[s],
                    popcnt(rook_mask_spec(s)) as u64,
                    tbl,
                )
        }
}

/// The immutable attack-table context: every per-square table the position
/// queries need, built once at startup and passed by shared reference.
pub struct AttackTables {
    white_pawn_moves: Vec<BoardSlice>,
    black_pawn_moves: Vec<BoardSlice>,
    white_pawn_attacks: Vec<BoardSlice>,
    black_pawn_attacks: Vec<BoardSlice>,
    white_double_pawn_moves: Vec<BoardSlice>,
    black_double_pawn_moves: Vec<BoardSlice>,
    white_inverse_double_pawn_moves: Vec<BoardSlice>,
    black_inverse_double_pawn_moves: Vec<BoardSlice>,
    knight_attack_table: Vec<BoardSlice>,
    king_attack_table: Vec<BoardSlice>,
    bishop_masks: Vec<BoardSlice>,
    rook_masks: Vec<BoardSlice>,
    bishop_magics: Vec<u64>,
    rook_magics: Vec<u64>,
    bishop_bits: Vec<usize>,
    rook_bits: Vec<usize>,
    bishop_table: Vec<Vec<u64>>,
    rook_table: Vec<Vec<u64>>,
}

impl AttackTables {
    /// Well-formedness: every table has 64 entries and each entry matches
    /// its defining spec; each sliding-piece lookup table is sound.
    pub closed spec fn wf(self) -> bool {
        &&& self.white_pawn_moves@.len() == 64
        &&& self.black_pawn_moves@.len() == 64
        &&& self.white_pawn_attacks@.len() == 64
        &&& self.black_pawn_attacks@.len() == 64
        &&& self.white_double_pawn_moves@.len() == 64
        &&& self.black_double_pawn_moves@.len() == 64
        &&& self.white_inverse_double_pawn_moves@.len() == 64
        &&& self.black_inverse_double_pawn_moves@.len() == 64
        &&& self.knight_attack_table@.len() == 64
        &&& self.king_attack_table@.len() == 64
        &&& self.bishop_masks@.len() == 64
        &&& self.rook_masks@.len() == 64
        &&& self.bishop_magics@.len() == 64
        &&& self.rook_magics@.len() == 64
        &&& self.bishop_bits@.len() == 64
        &&& self.rook_bits@.len() == 64
        &&& self.bishop_table@.len() == 64
        &&& self.rook_table@.len() == 64
        &&& forall|s: int|
            0 <= s < 64 ==> (#[trigger] self.white_pawn_moves@[s]).0 == pawn_move_mask(
                Color::White,
                s,
            )
        &&& forall|s: int|
            0 <= s < 64 ==> (#[trigger] self.black_pawn_moves@[s]).0 == pawn_move_mask(
                Color::Black,
                s,
            )
        &&& forall|s: int|
            0 <= s < 64 ==> (#[trigger] self.white_pawn_attacks@[s]).0 == pawn_attack_mask(
                Color::White,
                s,
            )
        &&& forall|s: int|
            0 <= s < 64 ==> (#[trigger] self.black_pawn_attacks@[s]).0 == pawn_attack_mask(
                Color::Black,
                s,
            )
        &&& forall|s: int|
            0 <= s < 64 ==> (#[trigger] self.white_double_pawn_moves@[s]).0
                == double_pawn_move_mask(Color::White, s)
        &&& forall|s: int|
            0 <= s < 64 ==> (#[trigger] self.black_double_pawn_moves@[s]).0
                == double_pawn_move_mask(Color::Black, s)
        &&& forall|s: int|
            0 <= s < 64 ==> (#[trigger] self.white_inverse_double_pawn_moves@[s]).0
                == inverse_double_pawn_move_mask(Color::White, s)
        &&& forall|s: int|
            0 <= s < 64 ==> (#[trigger] self.black_inverse_double_pawn_moves@[s]).0
                == inverse_double_pawn_move_mask(Color::Black, s)
        &&& forall|s: int|
            0 <= s < 64 ==> (#[trigger] self.knight_attack_table@[s]).0 == knight_attack_mask(s)
        &&& forall|s: int|
            0 <= s < 64 ==> (#[trigger] self.king_attack_table@[s]).0 == king_attack_mask(s)
        &&& forall|s: int| 0 <= s < 64 ==> (#[trigger] self.bishop_masks@[s]).0 == bishop_mask_spec(s)
        &&& forall|s: int| 0 <= s < 64 ==> (#[trigger] self.rook_masks@[s]).0 == rook_mask_spec(s)
        &&& forall|s: int|
            0 <= s < 64 ==> table_ok(
                Piece::Bishop,
                s,
                bishop_mask_spec(s),
                self.bishop_magics@[s],
                (#[trigger] self.bishop_bits@[s]) as u64,
                self.bishop_table@[s]@,
            )
        &&& forall|s: int|
            0 <= s < 64 ==> table_ok(
                Piece::Rook,
                s,
                rook_mask_spec(s),
                self.rook_magics@[s],
                (#[trigger] self.rook_bits@[s]) as u64,
                self.rook_table@[s]@,
            )
    }

    /// Builds every table. Returns `None` only if a magic constant fails
    /// its collision check; success is owed whenever the shipped constants
    /// are fit, which [`magic_constants_fit`] states and the equivalence
    /// tests exercise.
    pub fn new() -> (r: Option<AttackTables>)
        ensures
            r matches Some(t) ==> t.wf(),
            magic_constants_fit() ==> r is Some,
    {
        let bishop_magics = bishop_magic_numbers();
        let rook_magics = rook_magic_numbers();
        let mut bishop_masks: Vec<BoardSlice> = Vec::new();
        let mut rook_masks: Vec<BoardSlice> = Vec::new();
        let mut bishop_bits: Vec<usize> = Vec::new();
        let mut rook_bits: Vec<usize> = Vec::new();
        let mut bishop_table: Vec<Vec<u64>> = Vec::new();
        let mut rook_table: Vec<Vec<u64>> = Vec::new();
        let mut s: usize = 0;
        while s < 64
            invariant
                s <= 64,
                bishop_magics@.len() == 64,
                rook_magics@.len() == 64,
                bishop_magics@ == bishop_magic_seq(),
                rook_magics@ == rook_magic_seq(),
                bishop_masks@.len() == s,
                rook_masks@.len() == s,
                bishop_bits@.len() == s,
                rook_bits@.len() == s,
                bishop_table@.len() == s,
                rook_table@.len() == s,
                forall|k: int| 0 <= k < s ==> (#[trigger] bishop_masks@[k]).0 == bishop_mask_spec(k),
                forall|k: int| 0 <= k < s ==> (#[trigger] rook_masks@[k]).0 == rook_mask_spec(k),
                forall|k: int|
                    0 <= k < s ==> table_ok(
                        Piece::Bishop,
                        k,
                        bishop_mask_spec(k),
                        bishop_magics@[k],
                        (#[trigger] bishop_bits@[k]) as u64,
                        bishop_table@[k]@,
                    ),
                forall|k: int|
                    0 <= k < s ==> table_ok(
                        Piece::Rook,
                        k,
                        rook_mask_spec(k),
                        rook_magics@[k],
                        (#[trigger] rook_bits@[k]) as u64,
                        rook_table@[k]@,
                    ),
            decreases 64 - s,
        {
            let square = match Square::from_index(s) {
                Some(q) => q,
                None => {
                    return None;
                },
            };
            let bmask = generate_bishop_attack_mask(square);
            let rmask = generate_rook_attack_mask(square);
            let (btbl, bbits) = match build_sliding_table(
                Piece::Bishop,
                square,
                bmask.0,
                bishop_magics[s],
            ) {
                Some(p) => p,
                None => {
                    proof {
                        if magic_constants_fit() {
                            let tw = choose|tbl: Seq<u64>|
                                #[trigger] table_ok(
                                    Piece::Bishop,
                                    s as int,
                                    bishop_mask_spec(s as int),
                                    bishop_magic_seq()[s as int],
                                    popcnt(bishop_mask_spec(s as int)) as u64,
                                    tbl,
                                );
                            assert(table_ok(
                                Piece::Bishop,
                                square.idx(),
                                bmask.0,
                                bishop_magics@[s as int],
                                popcnt(bmask.0) as u64,
                                tw,
                            ));
                            assert(false);
                        }
                    }
                    return None;
                },
            };
            let (rtbl, rbits) = match build_sliding_table(
                Piece::Rook,
                square,
                rmask.0,
                rook_magics[s],
            ) {
                Some(p) => p,
                None => {
                    proof {
                        if magic_constants_fit() {
                            let tw = choose|tbl: Seq<u64>|
                                #[trigger] table_ok(
                                    Piece::Rook,
                                    s as int,
                                    rook_mask_spec(s as int),
                                    rook_magic_seq()[s as int],
                                    popcnt(rook_mask_spec(s as int)) as u64,
                                    tbl,
                                );
                            assert(table_ok(
                                Piece::Rook,
                                square.idx(),
                                rmask.0,
                                rook_magics@[s as int],
                                popcnt(rmask.0) as u64,
                                tw,
                            ));
                            assert(false);
                        }
                    }
                    return None;
                },
            };
            bishop_masks.push(bmask);
            rook_masks.push(rmask);
            bishop_bits.push(bbits);
            rook_bits.push(rbits);
            bishop_table.push(btbl);
            rook_table.push(rtbl);
            s += 1;
        }
        Some(
            AttackTables {
                white_pawn_moves: generate_pawn_move_table(Color::White),
                black_pawn_moves: generate_pawn_move_table(Color::Black),
                white_pawn_attacks: generate_pawn_attack_table(Color::White),
                black_pawn_attacks: generate_pawn_attack_table(Color::Black),
                white_double_pawn_moves: generate_double_pawn_move_table(Color::White),
                black_double_pawn_moves: generate_double_pawn_move_table(Color::Black),
                white_inverse_double_pawn_moves: generate_inverse_double_pawn_move_table(
                    Color::White,
                ),
                black_inverse_double_pawn_moves: generate_inverse_double_pawn_move_table(
                    Color::Black,
                ),
                knight_attack_table: generate_knight_attack_table(),
                king_attack_table: generate_king_attack_table(),
                bishop_masks,
                rook_masks,
                bishop_magics,
                rook_magics,
                bishop_bits,
                rook_bits,
                bishop_table,
                rook_table,
            },
        )
    }

    /// Single pawn push target for a pawn of `color` on `square`.
    pub fn get_pawn_moves(&self, color: Color, square: Square) -> (r: BoardSlice)
        requires
            self.wf(),
        ensures
            r.0 == pawn_move_mask(color, square.idx()),
    {
        match color {
            Color::White => self.white_pawn_moves[square.index()],
            Color::Black => self.black_pawn_moves[square.index()],
        }
    }

    /// Diagonal attack targets for a pawn of `color` on `square`.
    pub fn get_pawn_attacks(&self, color: Color, square: Square) -> (r: BoardSlice)
        requires
            self.wf(),
        ensures
            r.0 == pawn_attack_mask(color, square.idx()),
    {
        match color {
            Color::White => self.white_pawn_attacks[square.index()],
            Color::Black => self.black_pawn_attacks[square.index()],
        }
    }

    /// Double push target for a pawn of `color` on `square`.
    pub fn get_double_pawn_moves(&self, color: Color, square: Square) -> (r: BoardSlice)
        requires
            self.wf(),
        ensures
            r.0 == double_pawn_move_mask(color, square.idx()),
    {
        match color {
            Color::White => self.white_double_pawn_moves[square.index()],
            Color::Black => self.black_double_pawn_moves[square.index()],
        }
    }

    /// The square a double-pushed pawn of `color` started from, given where
    /// it landed.
    pub fn get_inverse_double_pawn_moves(&self, color: Color, square: Square) -> (r: BoardSlice)
        requires
            self.wf(),
        ensures
            r.0 == inverse_double_pawn_move_mask(color, square.idx()),
    {
        match color {
            Color::White => self.white_inverse_double_pawn_moves[square.index()],
            Color::Black => self.black_inverse_double_pawn_moves[square.index()],
        }
    }

    /// Knight attack targets from `square`.
    pub fn get_knight_attacks(&self, square: Square) -> (r: BoardSlice)
        requires
            self.wf(),
        ensures
            r.0 == knight_attack_mask(square.idx()),
    {
        self.knight_attack_table[square.index()]
    }

    /// King attack targets from `square`.
    pub fn get_king_attacks(&self, square: Square) -> (r: BoardSlice)
        requires
            self.wf(),
        ensures
            r.0 == king_attack_mask(square.idx()),
    {
        self.king_attack_table[square.index()]
    }

    /// Bishop attack set from `square` under `blockers`, by magic lookup.
    /// The result always equals the on-the-fly ray walk applied to the
    /// blockers restricted to the relevant-occupancy mask; in particular
    /// the two agree exactly on every occupancy subset of the mask.
    pub fn get_bishop_attacks(&self, square: Square, blockers: BoardSlice) -> (r: BoardSlice)
        requires
            self.wf(),
        ensures
            r.0 == bishop_attacks_spec(
                square.idx(),
                blockers.0 & bishop_mask_spec(square.idx()),
            ),
            blockers.0 & !bishop_mask_spec(square.idx()) == 0 ==> r.0 == bishop_attacks_spec(
                square.idx(),
                blockers.0,
            ),
    {
        let s = square.index();
        let occupancy = blockers.0 & self.bishop_masks[s].0;
        let bits = self.bishop_bits[s];
        let sh: u64 = (64 - bits) as u64;
        let idx64: u64 = occupancy.wrapping_mul(self.bishop_magics[s]) >> sh;
        proof {
            lemma_mask_subset(blockers.0, bishop_mask_spec(square.idx()));
            lemma_index_bound(
                occupancy.wrapping_mul(self.bishop_magics@[s as int]),
                bits as u64,
            );
            assert(idx64 == magic_index_spec(occupancy, self.bishop_magics@[s as int], bits as u64));
        }
        BoardSlice(self.bishop_table[s][idx64 as usize])
    }

    /// Rook attack set from `square` under `blockers`, by magic lookup,
    /// with the same agreement guarantees as the bishop lookup.
    pub fn get_rook_attacks(&self, square: Square, blockers: BoardSlice) -> (r: BoardSlice)
        requires
            self.wf(),
        ensures
            r.0 == rook_attacks_spec(square.idx(), blockers.0 & rook_mask_spec(square.idx())),
            blockers.0 & !rook_mask_spec(square.idx()) == 0 ==> r.0 == rook_attacks_spec(
                square.idx(),
                blockers.0,
            ),
    {
        let s = square.index();
        let occupancy = blockers.0 & self.rook_masks[s].0;
        let bits = self.rook_bits[s];
        let sh: u64 = (64 - bits) as u64;
        let idx64: u64 = occupancy.wrapping_mul(self.rook_magics[s]) >> sh;
        proof {
            lemma_mask_subset(blockers.0, rook_mask_spec(square.idx()));
            lemma_index_bound(occupancy.wrapping_mul(self.rook_magics@[s as int]), bits as u64);
            assert(idx64 == magic_index_spec(occupancy, self.rook_magics@[s as int], bits as u64));
        }
        BoardSlice(self.rook_table[s][idx64 as usize])
    }

    /// Queen attack set: the union of the bishop and rook attack sets.
    pub fn get_queen_attacks(&self, square: Square, blockers: BoardSlice) -> (r: BoardSlice)
        requires
            self.wf(),
        ensures
            r.0 == bishop_attacks_spec(square.idx(), blockers.0 & bishop_mask_spec(square.idx()))
                | rook_attacks_spec(square.idx(), blockers.0 & rook_mask_spec(square.idx())),
    {
        BoardSlice(
            self.get_bishop_attacks(square, blockers).0 | self.get_rook_attacks(square, blockers).0,
        )
    }
}

} // verus!
