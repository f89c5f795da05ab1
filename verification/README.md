# hermes_simd

Integer and bitboard kernels of the hermes SIMD workspace, written in Verus
and proved against their specifications.

## Layout

- `src/` is the verified library.
  - `bits.rs`: facts about 64-bit words shared by the bitboard proofs.
  - `bitboard/`: sliding-piece attack generation. `geometry.rs` defines the
    attack sets ray by ray; every backend (`swar`, `kogge_stone` with its
    lane-parallel `avx2`, `avx512` and `neon` fills, `hyperbola`, `magic`,
    `hybrid`) is proved to compute them. Building a `MagicTable`
    checks every magic number against every occupancy pattern; its lookups
    read the slots when that check passes and trace the rays otherwise.
    `scatter.rs` holds bit extract and deposit with their round-trip laws.
  - `amx/`: the AMX tile configuration, the per-thread session state machine
    and its nesting laws, the availability probe as a state machine over the
    host's answers, the operand packing, and the blocked int8 GEMM.
  - `tiling.rs`: signed 8-bit tile products in wrapping 32-bit arithmetic,
    with the bias identity behind the VNNI kernels, and int4 unpacking.
  - `arch.rs`, `dispatch.rs`: backend markers and the decisions of the
    runtime dispatcher (targets, feature frames, generated names).
  - `codegen.rs`: the kernel source templates and their rendering.
- `tests/` runs the library on concrete values.
- `app/` is the host side: thread-local session state and the tile
  instructions, CPUID/XCR0/OS probing, process-wide table caches, the
  procedural-macro expanders over `syn` and `quote`, and writing generated
  sources to disk.
