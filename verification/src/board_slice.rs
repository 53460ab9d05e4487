//! `BoardSlice`: a set of board squares stored as a 64-bit mask, bit `i`
//! standing for square `i` in rank-major order.
use vstd::prelude::*;

use crate::bits::{
    bit64, lemma_bit_and, lemma_bit_not, lemma_bit_or, lemma_bit_single, lemma_bit_zero,
    lemma_clear_lowest,
};
use crate::enums::Square;

verus! {

/// A set of squares as a 64-bit membership mask.
#[derive(Clone, Copy, Debug, PartialEq, Eq, Structural)]
pub struct BoardSlice(pub u64);

impl BoardSlice {
    /// Whether `square` is a member of the set.
    pub fn contains(&self, square: Square) -> (r: bool)
        ensures
            r == bit64(self.0, square.idx() as u64),
    {
        self.0 & (1u64 << square.index() as u64) != 0
    }

    /// The set with `square` added.
    pub fn set(&self, square: Square) -> (r: BoardSlice)
        ensures
            r.0 == self.0 | (1u64 << square.idx() as u64),
            forall|i: u64| i < 64 ==> #[trigger] bit64(r.0, i) == (bit64(self.0, i) || i
                == square.idx() as u64),
    {
        let r = BoardSlice(self.0 | (1u64 << square.index() as u64));
        proof {
            assert forall|i: u64| i < 64 implies #[trigger] bit64(r.0, i) == (bit64(self.0, i) || i
                == square.idx() as u64) by {
                lemma_bit_or(self.0, 1u64 << square.idx() as u64, i);
                lemma_bit_single(square.idx() as u64, i);
            }
        }
        r
    }

    /// The set with `square` removed.
    pub fn clear(&self, square: Square) -> (r: BoardSlice)
        ensures
            r.0 == self.0 & !(1u64 << square.idx() as u64),
            forall|i: u64| i < 64 ==> #[trigger] bit64(r.0, i) == (bit64(self.0, i) && i
                != square.idx() as u64),
    {
        let r = BoardSlice(self.0 & !(1u64 << square.index() as u64));
        proof {
            assert forall|i: u64| i < 64 implies #[trigger] bit64(r.0, i) == (bit64(self.0, i) && i
                != square.idx() as u64) by {
                lemma_bit_and(self.0, !(1u64 << square.idx() as u64), i);
                lemma_bit_not(1u64 << square.idx() as u64, i);
                lemma_bit_single(square.idx() as u64, i);
            }
        }
        r
    }

    /// The union of the two sets.
    pub fn union(&self, other: &BoardSlice) -> (r: BoardSlice)
        ensures
            r.0 == self.0 | other.0,
            forall|i: u64| i < 64 ==> #[trigger] bit64(r.0, i) == (bit64(self.0, i) || bit64(
                other.0,
                i,
            )),
    {
        proof {
            assert forall|i: u64| i < 64 implies #[trigger] bit64(self.0 | other.0, i) == (bit64(
                self.0,
                i,
            ) || bit64(other.0, i)) by {
                lemma_bit_or(self.0, other.0, i);
            }
        }
        BoardSlice(self.0 | other.0)
    }

    /// The intersection of the two sets.
    pub fn intersect(&self, other: &BoardSlice) -> (r: BoardSlice)
        ensures
            r.0 == self.0 & other.0,
            forall|i: u64| i < 64 ==> #[trigger] bit64(r.0, i) == (bit64(self.0, i) && bit64(
                other.0,
                i,
            )),
    {
        proof {
            assert forall|i: u64| i < 64 implies #[trigger] bit64(self.0 & other.0, i) == (bit64(
                self.0,
                i,
            ) && bit64(other.0, i)) by {
                lemma_bit_and(self.0, other.0, i);
            }
        }
        BoardSlice(self.0 & other.0)
    }

    /// The complement of the set.
    pub fn complement(&self) -> (r: BoardSlice)
        ensures
            r.0 == !self.0,
            forall|i: u64| i < 64 ==> #[trigger] bit64(r.0, i) == !bit64(self.0, i),
    {
        proof {
            assert forall|i: u64| i < 64 implies #[trigger] bit64(!self.0, i) == !bit64(
                self.0,
                i,
            ) by {
                lemma_bit_not(self.0, i);
            }
        }
        BoardSlice(!self.0)
    }

    /// The member squares, lowest index first, found by repeatedly clearing
    /// the lowest set bit.
    pub fn iter(&self) -> (r: Vec<Square>)
        ensures
            forall|k: int|
                0 <= k < r@.len() ==> 0 <= #[trigger] r@[k].idx() < 64 && bit64(
                    self.0,
                    r@[k].idx() as u64,
                ),
            forall|k1: int, k2: int| 0 <= k1 < k2 < r@.len() ==> r@[k1].idx() < r@[k2].idx(),
            forall|i: u64|
                i < 64 && #[trigger] bit64(self.0, i) ==> exists|k: int|
                    0 <= k < r@.len() && r@[k].idx() == i,
    {
        let mut res: Vec<Square> = Vec::new();
        let mut curr: u64 = self.0;
        while curr != 0
            invariant
                forall|i: u64| i < 64 && #[trigger] bit64(curr, i) ==> bit64(self.0, i),
                forall|k: int|
                    0 <= k < res@.len() ==> 0 <= #[trigger] res@[k].idx() < 64 && bit64(
                        self.0,
                        res@[k].idx() as u64,
                    ),
                forall|k1: int, k2: int|
                    0 <= k1 < k2 < res@.len() ==> res@[k1].idx() < res@[k2].idx(),
                forall|i: u64|
                    i < 64 && #[trigger] bit64(self.0, i) ==> bit64(curr, i) || exists|k: int|
                        0 <= k < res@.len() && res@[k].idx() == i,
                forall|k: int, i: u64|
                    0 <= k < res@.len() && i < 64 && #[trigger] bit64(curr, i)
                        ==> #[trigger] res@[k].idx() < i,
            decreases curr,
        {
            let tz = curr.trailing_zeros() as usize;
            proof {
                vstd::std_specs::bits::axiom_u64_trailing_zeros(curr);
                lemma_clear_lowest(curr, tz as u64);
            }
            let ghost prev = res@;
            let sq = Square::from_index(tz);
            match sq {
                Some(q) => {
                    res.push(q);
                    proof {
                        assert(forall|k: int| 0 <= k < prev.len() ==> res@[k] == prev[k]);
                        assert(res@[prev.len() as int].idx() == tz as int);
                        assert forall|i: u64| i < 64 && #[trigger] bit64(self.0, i) && (exists|
                            k: int,
                        | 0 <= k < prev.len() && prev[k].idx() == i) implies exists|k: int|
                            0 <= k < res@.len() && res@[k].idx() == i by {
                            let k0 = choose|k: int| 0 <= k < prev.len() && prev[k].idx() == i;
                            assert(res@[k0].idx() == i);
                        }
                        assert(exists|k: int|
                            0 <= k < res@.len() && res@[k].idx() == tz as u64);
                    }
                },
                None => (),
            }
            curr = curr & (curr - 1);
        }
        proof {
            assert forall|i: u64| i < 64 && #[trigger] bit64(self.0, i) implies exists|k: int|
                0 <= k < res@.len() && res@[k].idx() == i by {
                lemma_bit_zero(i);
            }
        }
        res
    }
}

} // verus!
