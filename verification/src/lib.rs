//! Verified integer kernels of the hermes SIMD workspace: sliding-attack
//! bitboard backends, scalar and lane-parallel, with their bit utilities; the
//! AMX tile configuration, session and probe logic, packed operand layouts
//! and integer tile products; the runtime dispatcher's decisions; and the
//! rendering of generated kernel sources.

pub mod bits;
pub mod bitboard;
pub mod amx;
pub mod arch;
pub mod tiling;
pub mod dispatch;
pub mod codegen;
