//! Occupancy enumeration for the magic lookup tables: the bit-deposit map
//! from a subset index to an occupancy pattern, its inverse, and the proof
//! that together they reach every subset of a relevant-occupancy mask.
use vstd::prelude::*;

use crate::bits::{bit64, lemma_bit_shift, lemma_clear_lowest};
use crate::board_slice::BoardSlice;
use vstd::std_specs::bits::{axiom_u64_trailing_zeros, u64_trailing_zeros};

verus! {

/// The number of set bits of `mask`, counted by clearing the lowest set bit.
pub open spec fn popcnt(mask: u64) -> nat
    decreases mask,
    via popcnt_decreases
{
    if mask == 0 {
        0
    } else {
        (1 + popcnt(mask & ((mask - 1) as u64))) as nat
    }
}

#[via_fn]
proof fn popcnt_decreases(mask: u64) {
    if mask != 0 {
        assert((mask & ((mask - 1) as u64)) < mask) by (bit_vector)
            requires
                mask != 0,
        ;
    }
}

/// Counting set bits never exceeds the bits above the lowest one.
pub proof fn lemma_popcnt_bound(mask: u64)
    ensures
        popcnt(mask) + u64_trailing_zeros(mask) <= 64,
    decreases mask,
{
    axiom_u64_trailing_zeros(mask);
    if mask != 0 {
        let t = u64_trailing_zeros(mask) as u64;
        lemma_clear_lowest(mask, t);
        let m2 = mask & ((mask - 1) as u64);
        lemma_popcnt_bound(m2);
        axiom_u64_trailing_zeros(m2);
        if m2 != 0 {
            let t2 = u64_trailing_zeros(m2) as u64;
            lemma_bit_shift(m2, t2);
            assert(bit64(m2, t2));
        }
    }
}

/// Bit-deposit: the bits of `index`, lowest first, distributed into the set
/// bit positions of `mask`, lowest first, stopping after `count` positions.
pub open spec fn occupancy_spec_n(index: u64, count: nat, mask: u64) -> u64
    decreases count,
{
    if count == 0 || mask == 0 {
        0u64
    } else {
        let t = u64_trailing_zeros(mask) as u64;
        (if index & 1u64 == 1u64 {
            1u64 << t
        } else {
            0u64
        }) | occupancy_spec_n(index >> 1u64, (count - 1) as nat, mask & ((mask - 1) as u64))
    }
}

/// Bit-deposit over all set bits of `mask`.
pub open spec fn deposit_spec(index: u64, mask: u64) -> u64
    decreases mask,
    via deposit_decreases
{
    if mask == 0 {
        0u64
    } else {
        let t = u64_trailing_zeros(mask) as u64;
        (if index & 1u64 == 1u64 {
            1u64 << t
        } else {
            0u64
        }) | deposit_spec(index >> 1u64, mask & ((mask - 1) as u64))
    }
}

#[via_fn]
proof fn deposit_decreases(index: u64, mask: u64) {
    if mask != 0 {
        assert((mask & ((mask - 1) as u64)) < mask) by (bit_vector)
            requires
                mask != 0,
        ;
    }
}

/// With `count` equal to the popcount of `mask`, the bounded deposit equals
/// the full one.
pub proof fn lemma_occupancy_n_full(index: u64, mask: u64)
    ensures
        occupancy_spec_n(index, popcnt(mask), mask) == deposit_spec(index, mask),
    decreases mask,
{
    if mask != 0 {
        assert((mask & ((mask - 1) as u64)) < mask) by (bit_vector)
            requires
                mask != 0,
        ;
        lemma_occupancy_n_full(index >> 1u64, mask & ((mask - 1) as u64));
    }
}

/// Bit-extract, the inverse of [`deposit_spec`]: gathers the bits of `sub`
/// found at the set bit positions of `mask`, lowest first, into a compact
/// index.
pub open spec fn extract_spec(sub: u64, mask: u64) -> u64
    decreases mask,
    via extract_decreases
{
    if mask == 0 {
        0u64
    } else {
        let t = u64_trailing_zeros(mask) as u64;
        (if bit64(sub, t) {
            1u64
        } else {
            0u64
        }) | (extract_spec(sub & !(1u64 << t), mask & ((mask - 1) as u64)) << 1u64)
    }
}

#[via_fn]
proof fn extract_decreases(sub: u64, mask: u64) {
    if mask != 0 {
        assert((mask & ((mask - 1) as u64)) < mask) by (bit_vector)
            requires
                mask != 0,
        ;
    }
}

/// Every subset of `mask` is reached by the deposit map: depositing the
/// extracted index of a subset gives the subset back, and the extracted
/// index stays below two to the popcount of `mask`.
pub proof fn lemma_deposit_extract(sub: u64, mask: u64)
    requires
        sub & !mask == 0,
        popcnt(mask) < 64,
    ensures
        deposit_spec(extract_spec(sub, mask), mask) == sub,
        extract_spec(sub, mask) < (1u64 << (popcnt(mask) as u64)),
    decreases mask,
{
    if mask == 0 {
        assert(sub == 0 && (1u64 << 0u64) == 1u64) by (bit_vector)
            requires
                sub & !0u64 == 0,
        ;
    } else {
        axiom_u64_trailing_zeros(mask);
        let t = u64_trailing_zeros(mask) as u64;
        lemma_clear_lowest(mask, t);
        let m2 = mask & ((mask - 1) as u64);
        let sub2 = sub & !(1u64 << t);
        let ghost p2: u64 = popcnt(m2) as u64;
        lemma_popcnt_bound(m2);
        assert(popcnt(mask) == p2 + 1);
        assert(sub2 & !m2 == 0) by (bit_vector)
            requires
                sub & !mask == 0,
                m2 == mask & ((mask - 1) as u64),
                sub2 == sub & !(1u64 << t),
                t < 64,
                (mask >> t) & 1u64 == 1u64,
                mask << (64 - t) as u64 == 0,
        ;
        lemma_deposit_extract(sub2, m2);
        let e2 = extract_spec(sub2, m2);
        let b0: u64 = if bit64(sub, t) {
            1u64
        } else {
            0u64
        };
        let e = extract_spec(sub, mask);
        assert(e == b0 | (e2 << 1u64));
        assert((b0 | (e2 << 1u64)) & 1u64 == b0 && (b0 | (e2 << 1u64)) >> 1u64 == e2 && (b0 | (e2
            << 1u64)) < (1u64 << ((p2 + 1) as u64))) by (bit_vector)
            requires
                b0 <= 1,
                p2 <= 62,
                e2 < (1u64 << (p2 as u64)),
        ;
        assert(deposit_spec(e, mask) == (if e & 1u64 == 1u64 {
            1u64 << t
        } else {
            0u64
        }) | deposit_spec(e >> 1u64, m2));
        assert((if b0 == 1u64 {
            1u64 << t
        } else {
            0u64
        }) | sub2 == sub) by (bit_vector)
            requires
                t < 64,
                sub2 == sub & !(1u64 << t),
                b0 == (if sub & (1u64 << t) != 0 {
                    1u64
                } else {
                    0u64
                }),
        ;
    }
}

/// A deposited pattern stays inside its mask.
pub proof fn lemma_deposit_subset(index: u64, mask: u64)
    ensures
        deposit_spec(index, mask) & !mask == 0,
    decreases mask,
{
    if mask == 0 {
        assert(0u64 & !0u64 == 0) by (bit_vector);
    } else {
        axiom_u64_trailing_zeros(mask);
        let t = u64_trailing_zeros(mask) as u64;
        lemma_clear_lowest(mask, t);
        let m2 = mask & ((mask - 1) as u64);
        let rest = deposit_spec(index >> 1u64, m2);
        lemma_deposit_subset(index >> 1u64, m2);
        if index & 1u64 == 1u64 {
            assert(((1u64 << t) | rest) & !mask == 0) by (bit_vector)
                requires
                    rest & !m2 == 0,
                    m2 == mask & ((mask - 1) as u64),
                    t < 64,
                    (mask >> t) & 1u64 == 1u64,
            ;
        } else {
            assert((0u64 | rest) & !mask == 0) by (bit_vector)
                requires
                    rest & !m2 == 0,
                    m2 == mask & ((mask - 1) as u64),
            ;
        }
    }
}

/// The occupancy pattern of subset `index` of `attack_mask`: the low
/// `bit_count` bits of `index` deposited into the set bit positions of the
/// mask, lowest first.
pub fn get_occupancy(index: usize, bit_count: usize, attack_mask: BoardSlice) -> (r: BoardSlice)
    requires
        bit_count as nat <= popcnt(attack_mask.0),
    ensures
        r.0 == occupancy_spec_n(index as u64, bit_count as nat, attack_mask.0),
{
    BoardSlice(occupancy_rec(index as u64, bit_count, attack_mask.0))
}

/// Counts the set bits of `mask` by clearing the lowest set bit until none
/// remain.
pub fn popcount_clear(mask: u64) -> (c: usize)
    ensures
        c as nat == popcnt(mask),
        c <= 64,
    decreases mask,
{
    if mask == 0 {
        0
    } else {
        proof {
            assert((mask & ((mask - 1) as u64)) < mask) by (bit_vector)
                requires
                    mask != 0,
            ;
            lemma_popcnt_bound(mask);
        }
        1 + popcount_clear(mask & (mask - 1))
    }
}

/// Recursive bit-deposit walk shared by the occupancy functions.
pub fn occupancy_rec(index: u64, count: usize, mask: u64) -> (r: u64)
    requires
        count as nat <= popcnt(mask),
    ensures
        r == occupancy_spec_n(index, count as nat, mask),
    decreases count,
{
    if count == 0 {
        0u64
    } else {
        let t = mask.trailing_zeros();
        proof {
            axiom_u64_trailing_zeros(mask);
            lemma_clear_lowest(mask, t as u64);
        }
        let lo: u64 = if index & 1u64 == 1u64 {
            1u64 << (t as u64)
        } else {
            0u64
        };
        lo | occupancy_rec(index >> 1u64, count - 1, mask & (mask - 1))
    }
}

} // verus!
