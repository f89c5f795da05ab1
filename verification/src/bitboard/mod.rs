//! Chess bitboards: sliding-attack generation behind several backends.
//!
//! Square `sq` (0..64) stands on rank `sq / 8` and file `sq % 8`; bit `sq` of a
//! `u64` bitboard marks it. Every backend computes the same attack sets, which
//! this module defines geometrically (`ray_spec`, `rook_attacks_spec`,
//! `bishop_attacks_spec`).

pub mod geometry;
pub mod kernel;
pub mod swar;
pub mod kogge_stone;
pub mod hyperbola;
pub mod bit_counts;
pub mod scatter;
pub mod magic;
pub mod hybrid;
