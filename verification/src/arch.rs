//! Markers for the instruction sets the kernels are written for, with the
//! facts each one declares about itself.

use vstd::prelude::*;

verus! {

/// The instruction-set family a backend belongs to.
#[derive(Debug, Clone, Copy, PartialEq, Eq, Structural)]
pub enum IsaFamily {
    /// No vector instructions.
    Scalar,
    /// x86 and x86_64.
    X86,
    /// AArch64.
    AArch64,
}

/// What a backend declares about itself.
#[derive(Debug, Clone, Copy, PartialEq, Eq, Structural)]
pub struct ArchInfo {
    /// Vector register width in bits (0 for the scalar fallback).
    pub register_width_bits: u32,
    /// The instruction-set family.
    pub isa_family: IsaFamily,
    /// Fused multiply-adds the backend retires per cycle, as a scheduling
    /// hint.
    pub fma_throughput_hint: u32,
}

/// Fallback scalar implementation marker.
#[derive(Debug, Clone, Copy, PartialEq, Eq)]
pub struct Scalar;

/// x86/x86_64 AVX2 instruction set architecture marker.
#[derive(Debug, Clone, Copy, PartialEq, Eq)]
pub struct Avx2;

/// x86/x86_64 AVX-512F instruction set architecture marker.
#[derive(Debug, Clone, Copy, PartialEq, Eq)]
pub struct Avx512;

/// x86/x86_64 256-bit AVX-VNNI instruction set architecture marker.
#[derive(Debug, Clone, Copy, PartialEq, Eq)]
pub struct AvxVnni;

/// AArch64 NEON instruction set architecture marker.
#[derive(Debug, Clone, Copy, PartialEq, Eq)]
pub struct Neon;

/// AArch64 SVE marker, executed through lane-emulated arrays shaped like a
/// 512-bit vector.
#[derive(Debug, Clone, Copy, PartialEq, Eq)]
pub struct SveArch;

/// `x86/x86_64` AMX BF16 matrix multiply backend.
#[derive(Debug, Clone, Copy, PartialEq, Eq)]
pub struct AmxBf16;

/// `x86/x86_64` AMX INT8 matrix multiply backend.
#[derive(Debug, Clone, Copy, PartialEq, Eq)]
pub struct AmxInt8;

/// A backend marker and the facts it declares.
pub trait SimdArch {
    /// The backend's name.
    fn name() -> &'static str;

    /// Register width, family and throughput hint.
    fn info() -> ArchInfo;
}

impl SimdArch for Scalar {
    fn name() -> (s: &'static str)
        ensures
            s@ == "scalar"@,
    {
        "scalar"
    }

    fn info() -> (i: ArchInfo)
        ensures
            i == (ArchInfo { register_width_bits: 0, isa_family: IsaFamily::Scalar, fma_throughput_hint: 1 }),
    {
        ArchInfo { register_width_bits: 0, isa_family: IsaFamily::Scalar, fma_throughput_hint: 1 }
    }
}

impl SimdArch for Avx2 {
    fn name() -> (s: &'static str)
        ensures
            s@ == "avx2"@,
    {
        "avx2"
    }

    fn info() -> (i: ArchInfo)
        ensures
            i == (ArchInfo { register_width_bits: 256, isa_family: IsaFamily::X86, fma_throughput_hint: 4 }),
    {
        ArchInfo { register_width_bits: 256, isa_family: IsaFamily::X86, fma_throughput_hint: 4 }
    }
}

impl SimdArch for Avx512 {
    fn name() -> (s: &'static str)
        ensures
            s@ == "avx512"@,
    {
        "avx512"
    }

    fn info() -> (i: ArchInfo)
        ensures
            i == (ArchInfo { register_width_bits: 512, isa_family: IsaFamily::X86, fma_throughput_hint: 8 }),
    {
        ArchInfo { register_width_bits: 512, isa_family: IsaFamily::X86, fma_throughput_hint: 8 }
    }
}

impl SimdArch for Neon {
    fn name() -> (s: &'static str)
        ensures
            s@ == "neon"@,
    {
        "neon"
    }

    fn info() -> (i: ArchInfo)
        ensures
            i == (ArchInfo { register_width_bits: 128, isa_family: IsaFamily::AArch64, fma_throughput_hint: 4 }),
    {
        ArchInfo { register_width_bits: 128, isa_family: IsaFamily::AArch64, fma_throughput_hint: 4 }
    }
}

impl SimdArch for SveArch {
    fn name() -> (s: &'static str)
        ensures
            s@ == "sve-emulated"@,
    {
        "sve-emulated"
    }

    fn info() -> (i: ArchInfo)
        ensures
            i == (ArchInfo { register_width_bits: 512, isa_family: IsaFamily::AArch64, fma_throughput_hint: 4 }),
    {
        ArchInfo { register_width_bits: 512, isa_family: IsaFamily::AArch64, fma_throughput_hint: 4 }
    }
}

impl SimdArch for AmxBf16 {
    fn name() -> (s: &'static str)
        ensures
            s@ == "amx_bf16"@,
    {
        "amx_bf16"
    }

    fn info() -> (i: ArchInfo)
        ensures
            i == (ArchInfo { register_width_bits: 8192, isa_family: IsaFamily::X86, fma_throughput_hint: 16 }),
    {
        ArchInfo { register_width_bits: 8192, isa_family: IsaFamily::X86, fma_throughput_hint: 16 }
    }
}

impl SimdArch for AmxInt8 {
    fn name() -> (s: &'static str)
        ensures
            s@ == "amx_int8"@,
    {
        "amx_int8"
    }

    fn info() -> (i: ArchInfo)
        ensures
            i == (ArchInfo { register_width_bits: 8192, isa_family: IsaFamily::X86, fma_throughput_hint: 16 }),
    {
        ArchInfo { register_width_bits: 8192, isa_family: IsaFamily::X86, fma_throughput_hint: 16 }
    }
}

impl SveArch {
    /// The SVE marker runs lane-emulated code, so it can be constructed on
    /// every host, whatever the hardware supports.
    pub fn is_runtime_supported() -> (r: bool)
        ensures
            r,
    {
        true
    }
}

} // verus!
