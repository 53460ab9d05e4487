//! An earlier generation of the table builders, kept as public API: a pawn
//! table that folds the single and double pushes together, and the knight,
//! king and sliding-mask builders shared with the attack-table subsystem.
use vstd::prelude::*;

use crate::attack_tables;
use crate::attack_tables::bishop_attack_generators;
use crate::attack_tables::bishop_attack_generators::bishop_mask_spec;
use crate::attack_tables::rook_attack_generators;
use crate::attack_tables::rook_attack_generators::rook_mask_spec;
use crate::attack_tables::{
    double_pawn_move_mask, king_attack_mask, knight_attack_mask, pawn_move_mask,
};
use crate::board_slice::BoardSlice;
use crate::enums::{Color, Square};

verus! {

/// The 64-entry pawn push table for `color`: each entry holds the single
/// push target together with the double push target where one exists.
pub fn generate_pawn_attack_table(color: Color) -> (t: Vec<BoardSlice>)
    ensures
        t@.len() == 64,
        forall|s: int|
            0 <= s < 64 ==> t@[s].0 == (pawn_move_mask(color, s) | double_pawn_move_mask(
                color,
                s,
            )),
{
    let single = attack_tables::generate_pawn_move_table(color);
    let double = attack_tables::generate_double_pawn_move_table(color);
    let mut t: Vec<BoardSlice> = Vec::new();
    let mut s: usize = 0;
    while s < 64
        invariant
            s <= 64,
            t@.len() == s,
            single@.len() == 64,
            double@.len() == 64,
            forall|k: int| 0 <= k < 64 ==> single@[k].0 == pawn_move_mask(color, k),
            forall|k: int| 0 <= k < 64 ==> double@[k].0 == double_pawn_move_mask(color, k),
            forall|k: int|
                0 <= k < s ==> t@[k].0 == (pawn_move_mask(color, k) | double_pawn_move_mask(
                    color,
                    k,
                )),
        decreases 64 - s,
    {
        t.push(BoardSlice(single[s].0 | double[s].0));
        s += 1;
    }
    t
}

/// The 64-entry knight attack table.
pub fn generate_knight_attack_table() -> (t: Vec<BoardSlice>)
    ensures
        t@.len() == 64,
        forall|s: int| 0 <= s < 64 ==> t@[s].0 == knight_attack_mask(s),
{
    attack_tables::generate_knight_attack_table()
}

/// The 64-entry king attack table.
pub fn generate_king_attack_table() -> (t: Vec<BoardSlice>)
    ensures
        t@.len() == 64,
        forall|s: int| 0 <= s < 64 ==> t@[s].0 == king_attack_mask(s),
{
    attack_tables::generate_king_attack_table()
}

/// The bishop relevant-occupancy mask of `square`.
pub fn generate_bishop_attack_mask(square: Square) -> (m: BoardSlice)
    ensures
        m.0 == bishop_mask_spec(square.idx()),
{
    bishop_attack_generators::generate_bishop_attack_mask(square)
}

/// The rook relevant-occupancy mask of `square`.
pub fn generate_rook_attack_mask(square: Square) -> (m: BoardSlice)
    ensures
        m.0 == rook_mask_spec(square.idx()),
{
    rook_attack_generators::generate_rook_attack_mask(square)
}

} // verus!
