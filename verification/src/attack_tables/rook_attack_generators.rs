//! Rook relevant-occupancy masks and on-the-fly attack sets, computed by
//! walking the four orthogonal rays.
use vstd::prelude::*;

use crate::attack_tables::rays::{ray_attacks, ray_attacks_walk, ray_mask, ray_mask_walk};
use crate::board_slice::BoardSlice;
use crate::enums::Square;

verus! {

/// The rook relevant-occupancy mask of square `s`: the four orthogonal rays,
/// each stopped short of the board edge in its own direction.
pub open spec fn rook_mask_spec(s: int) -> u64 {
    let r = s / 8;
    let f = s % 8;
    ray_mask(r, f, 1, 0, 8) | ray_mask(r, f, 0, 1, 8) | ray_mask(r, f, -1, 0, 8) | ray_mask(
        r,
        f,
        0,
        -1,
        8,
    )
}

/// The rook attack set of square `s` under `blockers`: the four orthogonal
/// rays, each stopped at (and including) the first blocker.
pub open spec fn rook_attacks_spec(s: int, blockers: u64) -> u64 {
    let r = s / 8;
    let f = s % 8;
    ray_attacks(blockers, r, f, 1, 0, 8) | ray_attacks(blockers, r, f, 0, 1, 8) | ray_attacks(
        blockers,
        r,
        f,
        -1,
        0,
        8,
    ) | ray_attacks(blockers, r, f, 0, -1, 8)
}

/// The relevant-occupancy mask for a rook on `square`.
pub fn generate_rook_attack_mask(square: Square) -> (m: BoardSlice)
    ensures
        m.0 == rook_mask_spec(square.idx()),
{
    let s = square.index();
    let r = (s / 8) as i64;
    let f = (s % 8) as i64;
    BoardSlice(
        ray_mask_walk(r, f, 1, 0, 8) | ray_mask_walk(r, f, 0, 1, 8) | ray_mask_walk(r, f, -1, 0, 8)
            | ray_mask_walk(r, f, 0, -1, 8),
    )
}

/// The attack set of a rook on `square` with the given blocker squares.
pub fn generate_rook_attacks_on_the_fly(square: Square, blockers: BoardSlice) -> (a: BoardSlice)
    ensures
        a.0 == rook_attacks_spec(square.idx(), blockers.0),
{
    let s = square.index();
    let r = (s / 8) as i64;
    let f = (s % 8) as i64;
    BoardSlice(
        ray_attacks_walk(blockers.0, r, f, 1, 0, 8) | ray_attacks_walk(blockers.0, r, f, 0, 1, 8)
            | ray_attacks_walk(blockers.0, r, f, -1, 0, 8) | ray_attacks_walk(
            blockers.0,
            r,
            f,
            0,
            -1,
            8,
        ),
    )
}

} // verus!
