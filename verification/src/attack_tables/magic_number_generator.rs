//! Offline search for magic multiplier constants: draw sparse random
//! candidates and keep the first one whose hash maps no two occupancy
//! subsets with different attack sets to the same table index.
use vstd::prelude::*;

use crate::attack_tables::bishop_attack_generators::generate_bishop_attack_mask;
use crate::attack_tables::rook_attack_generators::generate_rook_attack_mask;
use crate::attack_tables::occupancy::{popcnt, popcount_clear};
use crate::attack_tables::{build_sliding_table, sliding_mask, table_ok};
use crate::enums::{Piece, Square};
use crate::errors::MagicNumberError;

verus! {

/// A magic constant is viable for a square and sliding piece kind when a
/// dense table of the relevant mask's own width — two to the mask's bit
/// count entries, indexed by the top bit-count bits of the hash — holds
/// the true attack set for every occupancy subset of the mask.
pub open spec fn magic_viable(piece: Piece, s: int, magic: u64) -> bool {
    exists|tbl: Seq<u64>|
        #[trigger] table_ok(
            piece,
            s,
            sliding_mask(piece, s),
            magic,
            popcnt(sliding_mask(piece, s)) as u64,
            tbl,
        )
}

/// Relies on fastrand::seed: fixes the seed of the thread-local generator
/// that the candidate search draws from, so a search can be reproduced.
#[verifier::external_body]
pub fn init_magic_number_generator() {
    fastrand::seed(2);
}

/// Relies on fastrand::u64 over the full range: returns a machine random
/// number; nothing is assumed of the value, and the full range is never
/// empty, so the call does not panic.
#[verifier::external_body]
fn random_u64() -> u64 {
    fastrand::u64(..)
}

/// A sparse random candidate: the conjunction of two random draws.
fn generate_magic_number_candidate() -> u64 {
    random_u64() & random_u64()
}

/// Searches for a viable magic constant for `piece` on `square` by drawing
/// sparse random candidates and validating each against every occupancy
/// subset of the relevant mask. Only bishop and rook are accepted. The
/// search gives up after a fixed attempt budget; success depends on the
/// random draws, so it is not promised, but any constant returned is
/// viable.
pub fn generate_magic_number(square: Square, piece: Piece) -> (r: Result<u64, MagicNumberError>)
    ensures
        !(piece is Bishop || piece is Rook) <==> r == Err::<u64, MagicNumberError>(
            MagicNumberError::IncorrectPiece,
        ),
        r matches Ok(m) ==> magic_viable(piece, square.idx(), m),
{
    let attack_mask = match piece {
        Piece::Bishop => generate_bishop_attack_mask(square),
        Piece::Rook => generate_rook_attack_mask(square),
        _ => {
            return Err(MagicNumberError::IncorrectPiece);
        },
    };
    let mut attempt: u64 = 0;
    while attempt < 100000000u64
        invariant
            piece is Bishop || piece is Rook,
            attack_mask.0 == sliding_mask(piece, square.idx()),
        decreases 100000000u64 - attempt,
    {
        let candidate = generate_magic_number_candidate();
        if popcount_clear(attack_mask.0.wrapping_mul(candidate) & 0xFF00_0000_0000_0000u64) >= 6 {
            match build_sliding_table(piece, square, attack_mask.0, candidate) {
                Some(p) => {
                    proof {
                        assert(p.1 as u64 == popcnt(sliding_mask(piece, square.idx())) as u64);
                        assert(table_ok(
                            piece,
                            square.idx(),
                            sliding_mask(piece, square.idx()),
                            candidate,
                            popcnt(sliding_mask(piece, square.idx())) as u64,
                            p.0@,
                        ));
                    }
                    return Ok(candidate);
                },
                None => {},
            }
        }
        attempt += 1;
    }
    Err(MagicNumberError::MagicNumberNotFound)
}

} // verus!
