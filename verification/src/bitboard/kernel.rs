//! The interface every sliding-attack backend implements.

use vstd::prelude::*;
use crate::bitboard::geometry::{rook_attacks_spec, bishop_attacks_spec, queen_attacks_spec};

verus! {

/// A sliding-attack generator. Every implementation returns exactly the
/// geometric attack sets: backends differ in speed only, never in result.
pub trait BitBoardKernel {
    /// Squares a rook on `square` attacks given the occupied squares.
    fn rook_attacks(square: u8, occupancy: u64) -> (r: u64)
        requires
            square < 64,
        ensures
            r == rook_attacks_spec(square as int, occupancy),
    ;

    /// Squares a bishop on `square` attacks given the occupied squares.
    fn bishop_attacks(square: u8, occupancy: u64) -> (r: u64)
        requires
            square < 64,
        ensures
            r == bishop_attacks_spec(square as int, occupancy),
    ;

    /// Squares a queen on `square` attacks: rook and bishop attacks together.
    fn queen_attacks(square: u8, occupancy: u64) -> (r: u64)
        requires
            square < 64,
        ensures
            r == queen_attacks_spec(square as int, occupancy),
    {
        Self::rook_attacks(square, occupancy) | Self::bishop_attacks(square, occupancy)
    }
}

} // verus!
