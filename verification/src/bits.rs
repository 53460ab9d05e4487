//! Bit-level view of a 64-bit square set, with the lemmas that connect the
//! machine operations (or, and, not, shifts, clear-lowest-set-bit) to
//! per-square membership.
use vstd::prelude::*;

verus! {

/// True when bit `i` of `b` is set, i.e. square `i` is a member of the set `b`.
pub open spec fn bit64(b: u64, i: u64) -> bool {
    b & (1u64 << i) != 0
}

/// Membership in a union: a square is in `a | b` iff it is in `a` or in `b`.
pub broadcast proof fn lemma_bit_or(a: u64, b: u64, i: u64)
    by (bit_vector)
    requires
        i < 64,
    ensures
        #[trigger] bit64(a | b, i) == (bit64(a, i) || bit64(b, i)),
{
}

/// Membership in an intersection.
pub broadcast proof fn lemma_bit_and(a: u64, b: u64, i: u64)
    by (bit_vector)
    requires
        i < 64,
    ensures
        #[trigger] bit64(a & b, i) == (bit64(a, i) && bit64(b, i)),
{
}

/// Membership in a complement.
pub broadcast proof fn lemma_bit_not(a: u64, i: u64)
    by (bit_vector)
    requires
        i < 64,
    ensures
        #[trigger] bit64(!a, i) == !bit64(a, i),
{
}

/// A one-bit mask contains exactly its own square.
pub broadcast proof fn lemma_bit_single(j: u64, i: u64)
    by (bit_vector)
    requires
        i < 64,
        j < 64,
    ensures
        #[trigger] bit64(1u64 << j, i) == (i == j),
{
}

/// The empty set has no members.
pub broadcast proof fn lemma_bit_zero(i: u64)
    by (bit_vector)
    ensures
        !#[trigger] bit64(0u64, i),
{
}

/// Membership agrees with the shifted-bit test.
pub broadcast proof fn lemma_bit_shift(x: u64, i: u64)
    by (bit_vector)
    requires
        i < 64,
    ensures
        #[trigger] bit64(x, i) == ((x >> i) & 1u64 == 1u64),
{
}

/// Clearing the lowest set bit: if bit `t` of `b` is set and all bits below
/// `t` are clear, then `b & (b - 1)` holds exactly the members of `b` other
/// than `t`, and every member of `b` other than `t` lies above `t`.
pub proof fn lemma_clear_lowest(b: u64, t: u64)
    by (bit_vector)
    requires
        t < 64,
        (b >> t) & 1u64 == 1u64,
        b << (64 - t) as u64 == 0,
    ensures
        bit64(b, t),
        forall|i: u64| i < 64 ==> #[trigger] bit64(b & (b - 1) as u64, i) == (bit64(b, i) && i
            != t),
        forall|i: u64| i < 64 && #[trigger] bit64(b, i) && i != t ==> i > t,
        b != 0,
        (b & (b - 1) as u64) < b,
{
}

} // verus!
