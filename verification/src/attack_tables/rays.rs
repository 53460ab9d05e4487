//! Ray walks shared by the sliding-piece generators: the relevant-occupancy
//! ray (stopping short of the board edge) and the blocker-sensitive attack
//! ray (stopping at, and including, the first occupied square).
use vstd::prelude::*;

use crate::bits::bit64;

verus! {

/// The squares of the relevant-occupancy ray from `(r, f)` in direction
/// `(dr, df)`: each step must stay strictly inside the board edge along
/// every axis the ray moves on. `n` is fuel; 8 steps always suffice.
pub open spec fn ray_mask(r: int, f: int, dr: int, df: int, n: nat) -> u64
    decreases n,
{
    if n == 0 {
        0u64
    } else {
        let r2 = r + dr;
        let f2 = f + df;
        if (dr == 0 || (1 <= r2 && r2 <= 6)) && (df == 0 || (1 <= f2 && f2 <= 6)) {
            (1u64 << ((r2 * 8 + f2) as u64)) | ray_mask(r2, f2, dr, df, (n - 1) as nat)
        } else {
            0u64
        }
    }
}

/// The squares attacked along the ray from `(r, f)` in direction `(dr, df)`
/// given `blockers`: every traversed square up to and including the first
/// blocker. `n` is fuel; 8 steps always suffice.
pub open spec fn ray_attacks(blockers: u64, r: int, f: int, dr: int, df: int, n: nat) -> u64
    decreases n,
{
    if n == 0 {
        0u64
    } else {
        let r2 = r + dr;
        let f2 = f + df;
        if 0 <= r2 && r2 <= 7 && 0 <= f2 && f2 <= 7 {
            let b = 1u64 << ((r2 * 8 + f2) as u64);
            if bit64(blockers, (r2 * 8 + f2) as u64) {
                b
            } else {
                b | ray_attacks(blockers, r2, f2, dr, df, (n - 1) as nat)
            }
        } else {
            0u64
        }
    }
}

/// Walks the relevant-occupancy ray.
pub fn ray_mask_walk(r: i64, f: i64, dr: i64, df: i64, n: u64) -> (m: u64)
    requires
        -1 <= r <= 8,
        -1 <= f <= 8,
        -1 <= dr <= 1,
        -1 <= df <= 1,
        dr == 0 ==> 0 <= r <= 7,
        df == 0 ==> 0 <= f <= 7,
    ensures
        m == ray_mask(r as int, f as int, dr as int, df as int, n as nat),
    decreases n,
{
    if n == 0 {
        return 0u64;
    }
    let r2 = r + dr;
    let f2 = f + df;
    if (dr == 0 || (1 <= r2 && r2 <= 6)) && (df == 0 || (1 <= f2 && f2 <= 6)) {
        (1u64 << ((r2 * 8 + f2) as u64)) | ray_mask_walk(r2, f2, dr, df, n - 1)
    } else {
        0u64
    }
}

/// Walks the blocker-sensitive attack ray.
pub fn ray_attacks_walk(blockers: u64, r: i64, f: i64, dr: i64, df: i64, n: u64) -> (m: u64)
    requires
        -1 <= r <= 8,
        -1 <= f <= 8,
        -1 <= dr <= 1,
        -1 <= df <= 1,
    ensures
        m == ray_attacks(blockers, r as int, f as int, dr as int, df as int, n as nat),
    decreases n,
{
    if n == 0 {
        return 0u64;
    }
    let r2 = r + dr;
    let f2 = f + df;
    if 0 <= r2 && r2 <= 7 && 0 <= f2 && f2 <= 7 {
        let b = 1u64 << ((r2 * 8 + f2) as u64);
        if blockers & b != 0 {
            b
        } else {
            b | ray_attacks_walk(blockers, r2, f2, dr, df, n - 1)
        }
    } else {
        0u64
    }
}

} // verus!
