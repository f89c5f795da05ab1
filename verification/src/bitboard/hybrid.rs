//! Sliding attacks that trace rays when at most one blocker is relevant and
//! read the magic tables otherwise.

use vstd::prelude::*;
use crate::bitboard::geometry::{rook_attacks_spec, bishop_attacks_spec};
use crate::bitboard::kernel::BitBoardKernel;
use crate::bitboard::magic::{Magic, MagicTable, bishop_mask, rook_mask};
use crate::bitboard::swar::{Swar, SwarUtils};

verus! {

/// Marker for the hybrid backend: SWAR ray tracing when the relevant
/// occupancy holds one blocker or none, magic lookups otherwise.
#[derive(Debug, Clone, Copy, PartialEq, Eq, Hash)]
pub struct HybridSwarMagic;

impl HybridSwarMagic {
    /// Rook attacks: traced rays for at most one relevant blocker, else a
    /// magic table lookup.
    pub fn rook_attacks(table: &MagicTable, square: u8, occupancy: u64) -> (r: u64)
        requires
            square < 64,
        ensures
            r == rook_attacks_spec(square as int, occupancy),
    {
        let mask = rook_mask(square);
        let relevant_occupancy = occupancy & mask;
        if SwarUtils::popcount(relevant_occupancy) <= 1 {
            <Swar as BitBoardKernel>::rook_attacks(square, occupancy)
        } else {
            Magic::rook_attacks(table, square, occupancy)
        }
    }

    /// Bishop attacks: traced rays for at most one relevant blocker, else a
    /// magic table lookup.
    pub fn bishop_attacks(table: &MagicTable, square: u8, occupancy: u64) -> (r: u64)
        requires
            square < 64,
        ensures
            r == bishop_attacks_spec(square as int, occupancy),
    {
        let mask = bishop_mask(square);
        let relevant_occupancy = occupancy & mask;
        if SwarUtils::popcount(relevant_occupancy) <= 1 {
            <Swar as BitBoardKernel>::bishop_attacks(square, occupancy)
        } else {
            Magic::bishop_attacks(table, square, occupancy)
        }
    }
}

} // verus!
