//! Intel AMX tile configuration, the per-thread session discipline, the
//! runtime availability probe and the packing of tile operands.

pub mod config;
pub mod session;
pub mod probe;
pub mod pack;
pub mod gemm;
