//! The 32-bit variant of the occupancy bit-deposit walk.
use vstd::prelude::*;

use crate::attack_tables::occupancy::{occupancy_rec, occupancy_spec_n, popcnt};
use crate::board_slice::BoardSlice;

verus! {

/// The occupancy pattern of subset `index` of `attack_mask`, taking 32-bit
/// arguments.
pub fn set_occupancy(index: u32, bit_count: u32, attack_mask: BoardSlice) -> (r: BoardSlice)
    requires
        bit_count as nat <= popcnt(attack_mask.0),
    ensures
        r.0 == occupancy_spec_n(index as u64, bit_count as nat, attack_mask.0),
{
    BoardSlice(occupancy_rec(index as u64, bit_count as usize, attack_mask.0))
}

} // verus!
