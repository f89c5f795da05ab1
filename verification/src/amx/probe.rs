//! Whether this process may execute AMX tile instructions.
//!
//! Three independent conditions must hold: the CPU implements AMX (CPUID
//! leaf 7), the operating system saves the tile state (XCR0 bits 17 and 18,
//! readable only once CPUID leaf 1 reports OSXSAVE), and the process holds
//! permission for the tile-data state component, which only Linux and
//! Windows have a protocol to request. Every condition that does not hold,
//! or cannot be checked, makes the answer "no".
//!
//! The probe is a sequence of questions to the host, each asked only when
//! the previous answers allow it (XGETBV is illegal without OSXSAVE, and
//! requesting permission changes the process). [`probe_step`] decides, from
//! what is known so far and the host's latest answer, what to ask next or
//! what the answer is.

use vstd::prelude::*;

verus! {

/// `CPUID.(EAX=7,ECX=0).EDX` bit 22: `amx-bf16`.
pub const CPUID_EDX_AMX_BF16: u32 = 0x0040_0000u32;
/// `CPUID.(EAX=7,ECX=0).EDX` bit 24: `amx-tile`.
pub const CPUID_EDX_AMX_TILE: u32 = 0x0100_0000u32;
/// `CPUID.(EAX=7,ECX=0).EDX` bit 25: `amx-int8`.
pub const CPUID_EDX_AMX_INT8: u32 = 0x0200_0000u32;
/// `CPUID.(EAX=1).ECX` bit 27: `OSXSAVE`, which makes XGETBV legal.
pub const CPUID_ECX_OSXSAVE: u32 = 0x0800_0000u32;
/// `XCR0` bits 17 and 18: `XTILECFG` and `XTILEDATA`.
pub const XCR0_AMX_STATE: u64 = 0x0006_0000u64;
/// The tile-data state component (18) as a mask.
pub const XFEATURE_MASK_XTILEDATA: u64 = 0x0004_0000u64;

/// Which AMX capabilities the process may use.
#[derive(Debug, Clone, Copy, PartialEq, Eq, Structural)]
pub struct AmxAvailability {
    /// Tile configuration, load and store are usable.
    pub tile: bool,
    /// `TDPBF16PS` is usable.
    pub bf16: bool,
    /// `TDPBSSD` is usable.
    pub int8: bool,
}

/// Nothing is usable.
pub open spec fn unavailable() -> AmxAvailability {
    AmxAvailability { tile: false, bf16: false, int8: false }
}

/// The capabilities of a process holding tile permission on a CPU whose
/// leaf 7 EDX is `edx`.
pub open spec fn granted_availability(edx: u32) -> AmxAvailability {
    AmxAvailability {
        tile: true,
        bf16: edx & CPUID_EDX_AMX_BF16 != 0,
        int8: edx & CPUID_EDX_AMX_INT8 != 0,
    }
}

/// How the operating system grants the tile-data state component.
#[derive(Debug, Clone, Copy, PartialEq, Eq, Structural)]
pub enum PermissionProtocol {
    /// Linux `arch_prctl(ARCH_REQ_XCOMP_PERM, XFEATURE_XTILEDATA)`.
    LinuxArchPrctl,
    /// Windows `EnableProcessOptionalXStateFeatures`.
    WindowsOptionalXState,
    /// No known protocol: AMX is never usable.
    Unknown,
}

/// What the probe is waiting for.
#[derive(Debug, Clone, Copy, PartialEq, Eq, Structural)]
pub enum ProbeState {
    /// The highest basic CPUID leaf.
    AwaitMaxLeaf { protocol: PermissionProtocol },
    /// `CPUID.(EAX=1).ECX` and `CPUID.(EAX=7,ECX=0).EDX`.
    AwaitLeaves { protocol: PermissionProtocol },
    /// The value of XCR0.
    AwaitXcr0 { protocol: PermissionProtocol, leaf7_edx: u32 },
    /// Whether the tile-data permission request was granted.
    AwaitPermission { leaf7_edx: u32 },
    /// The probe is over.
    Done(AmxAvailability),
}

/// An answer from the host.
#[derive(Debug, Clone, Copy, PartialEq, Eq, Structural)]
pub enum ProbeEvent {
    /// The highest basic CPUID leaf.
    MaxLeaf(u32),
    /// CPUID leaf 1 ECX and leaf 7 EDX.
    Leaves { leaf1_ecx: u32, leaf7_edx: u32 },
    /// XCR0.
    Xcr0(u64),
    /// Whether tile-data permission was granted.
    Permission(bool),
}

/// The answer a state waits for has the right kind.
pub open spec fn answers(state: ProbeState, event: ProbeEvent) -> bool {
    match state {
        ProbeState::AwaitMaxLeaf { .. } => event is MaxLeaf,
        ProbeState::AwaitLeaves { .. } => event is Leaves,
        ProbeState::AwaitXcr0 { .. } => event is Xcr0,
        ProbeState::AwaitPermission { .. } => event is Permission,
        ProbeState::Done(_) => false,
    }
}

/// One step of the probe.
pub open spec fn probe_next(state: ProbeState, event: ProbeEvent) -> ProbeState {
    match (state, event) {
        (ProbeState::AwaitMaxLeaf { protocol }, ProbeEvent::MaxLeaf(max_leaf)) => {
            if max_leaf < 7 { ProbeState::Done(unavailable()) } else { ProbeState::AwaitLeaves { protocol } }
        },
        (ProbeState::AwaitLeaves { protocol }, ProbeEvent::Leaves { leaf1_ecx, leaf7_edx }) => {
            if leaf7_edx & CPUID_EDX_AMX_TILE == 0 || leaf1_ecx & CPUID_ECX_OSXSAVE == 0 {
                ProbeState::Done(unavailable())
            } else {
                ProbeState::AwaitXcr0 { protocol, leaf7_edx }
            }
        },
        (ProbeState::AwaitXcr0 { protocol, leaf7_edx }, ProbeEvent::Xcr0(xcr0)) => {
            if xcr0 & XCR0_AMX_STATE != XCR0_AMX_STATE || protocol == PermissionProtocol::Unknown {
                ProbeState::Done(unavailable())
            } else {
                ProbeState::AwaitPermission { leaf7_edx }
            }
        },
        (ProbeState::AwaitPermission { leaf7_edx }, ProbeEvent::Permission(granted)) => {
            if granted { ProbeState::Done(granted_availability(leaf7_edx)) } else { ProbeState::Done(unavailable()) }
        },
        _ => state,
    }
}

/// Where the probe starts.
pub fn probe_start(protocol: PermissionProtocol) -> (s: ProbeState)
    ensures
        s == (ProbeState::AwaitMaxLeaf { protocol }),
{
    ProbeState::AwaitMaxLeaf { protocol }
}

/// Decides, from the probe's state and the host's answer, the next state:
/// the next question, or the availability once a condition fails or all
/// hold.
pub fn probe_step(state: ProbeState, event: ProbeEvent) -> (next: ProbeState)
    requires
        answers(state, event),
    ensures
        next == probe_next(state, event),
        next matches ProbeState::Done(a) ==> ((a.bf16 || a.int8) ==> a.tile),
        next matches ProbeState::Done(a) ==> (a.tile <==> (state is AwaitPermission && event == ProbeEvent::Permission(true))),
{
    match (state, event) {
        (ProbeState::AwaitMaxLeaf { protocol }, ProbeEvent::MaxLeaf(max_leaf)) => {
            if max_leaf < 7 {
                ProbeState::Done(AmxAvailability { tile: false, bf16: false, int8: false })
            } else {
                ProbeState::AwaitLeaves { protocol }
            }
        },
        (ProbeState::AwaitLeaves { protocol }, ProbeEvent::Leaves { leaf1_ecx, leaf7_edx }) => {
            if leaf7_edx & CPUID_EDX_AMX_TILE == 0 {
                ProbeState::Done(AmxAvailability { tile: false, bf16: false, int8: false })
            } else if leaf1_ecx & CPUID_ECX_OSXSAVE == 0 {
                ProbeState::Done(AmxAvailability { tile: false, bf16: false, int8: false })
            } else {
                ProbeState::AwaitXcr0 { protocol, leaf7_edx }
            }
        },
        (ProbeState::AwaitXcr0 { protocol, leaf7_edx }, ProbeEvent::Xcr0(xcr0)) => {
            if xcr0 & XCR0_AMX_STATE != XCR0_AMX_STATE {
                ProbeState::Done(AmxAvailability { tile: false, bf16: false, int8: false })
            } else if protocol == PermissionProtocol::Unknown {
                ProbeState::Done(AmxAvailability { tile: false, bf16: false, int8: false })
            } else {
                ProbeState::AwaitPermission { leaf7_edx }
            }
        },
        (ProbeState::AwaitPermission { leaf7_edx }, ProbeEvent::Permission(granted)) => {
            if granted {
                ProbeState::Done(AmxAvailability {
                    tile: true,
                    bf16: leaf7_edx & CPUID_EDX_AMX_BF16 != 0,
                    int8: leaf7_edx & CPUID_EDX_AMX_INT8 != 0,
                })
            } else {
                ProbeState::Done(AmxAvailability { tile: false, bf16: false, int8: false })
            }
        },
        _ => state,
    }
}

/// Everything the host answers when asked.
pub struct HostAnswers {
    pub max_leaf: u32,
    pub leaf1_ecx: u32,
    pub leaf7_edx: u32,
    pub xcr0: u64,
    pub permission: bool,
}

/// The host's answer to the question a state asks.
pub open spec fn host_answer(host: HostAnswers, state: ProbeState) -> ProbeEvent {
    match state {
        ProbeState::AwaitMaxLeaf { .. } => ProbeEvent::MaxLeaf(host.max_leaf),
        ProbeState::AwaitLeaves { .. } => ProbeEvent::Leaves { leaf1_ecx: host.leaf1_ecx, leaf7_edx: host.leaf7_edx },
        ProbeState::AwaitXcr0 { .. } => ProbeEvent::Xcr0(host.xcr0),
        _ => ProbeEvent::Permission(host.permission),
    }
}

/// The state after answering `n` questions from `host`.
pub open spec fn run_probe(host: HostAnswers, state: ProbeState, n: nat) -> ProbeState
    decreases n,
{
    if n == 0 || state is Done {
        state
    } else {
        run_probe(host, probe_next(state, host_answer(host, state)), (n - 1) as nat)
    }
}

/// What the whole probe concludes: the tiles are usable exactly when leaf 7
/// exists, the CPU reports `amx-tile` and OSXSAVE, XCR0 enables both tile
/// state components, a permission protocol exists and permission is
/// granted; the kernels then follow their CPUID bits.
pub open spec fn probe_outcome(host: HostAnswers, protocol: PermissionProtocol) -> AmxAvailability {
    if host.max_leaf >= 7
        && host.leaf7_edx & CPUID_EDX_AMX_TILE != 0
        && host.leaf1_ecx & CPUID_ECX_OSXSAVE != 0
        && host.xcr0 & XCR0_AMX_STATE == XCR0_AMX_STATE
        && protocol != PermissionProtocol::Unknown
        && host.permission {
        granted_availability(host.leaf7_edx)
    } else {
        unavailable()
    }
}

/// Answering the probe's questions from one host ends, after at most four
/// answers, in exactly the outcome above.
pub proof fn lemma_probe_concludes(host: HostAnswers, protocol: PermissionProtocol)
    ensures
        run_probe(host, ProbeState::AwaitMaxLeaf { protocol }, 4) == ProbeState::Done(probe_outcome(host, protocol)),
{
    reveal_with_fuel(run_probe, 5);
}

/// The Linux kernel offers the tile-data component (`ARCH_GET_XCOMP_SUPP`
/// succeeded and its mask has bit 18).
pub fn xcomp_offers_tile_data(supported: Option<u64>) -> (r: bool)
    ensures
        r == (supported matches Some(m) && m & XFEATURE_MASK_XTILEDATA != 0),
{
    match supported {
        Some(m) => m & XFEATURE_MASK_XTILEDATA != 0,
        None => false,
    }
}

/// The Linux answer to the permission request: the request
/// (`ARCH_REQ_XCOMP_PERM`) returned 0 and the permitted components read back
/// afterwards (`ARCH_GET_XCOMP_PERM`) include tile data.
pub fn linux_permission_granted(request_status: i64, permitted: Option<u64>) -> (r: bool)
    ensures
        r == (request_status == 0 && (permitted matches Some(m) && m & XFEATURE_MASK_XTILEDATA != 0)),
{
    request_status == 0 && xcomp_offers_tile_data(permitted)
}

/// The Windows answer to the permission request: enabling the optional
/// tile-data state returned nonzero and the thread's enabled features
/// include it.
pub fn windows_permission_granted(enable_status: i32, thread_features: u64) -> (r: bool)
    ensures
        r == (enable_status != 0 && thread_features & XFEATURE_MASK_XTILEDATA != 0),
{
    enable_status != 0 && thread_features & XFEATURE_MASK_XTILEDATA != 0
}

/// Windows enables both tile state components system-wide.
pub fn xstate_enables_amx(mask: u64) -> (r: bool)
    ensures
        r == (mask & XCR0_AMX_STATE == XCR0_AMX_STATE),
{
    mask & XCR0_AMX_STATE == XCR0_AMX_STATE
}

/// The cache of the probe's outcome in one byte: bit 0 marks it filled,
/// bits 1 to 3 carry `tile`, `bf16` and `int8`. A filled byte never reports
/// a kernel capability without tile capability.
pub struct ProbeCache {
    bits: u8,
}

/// An availability the probe can report: a kernel capability only together
/// with tile capability.
pub open spec fn consistent(a: AmxAvailability) -> bool {
    (a.bf16 || a.int8) ==> a.tile
}

/// The bytes a cache can hold: empty, or filled with only the four known
/// bits and a kernel bit only beside the tile bit.
pub open spec fn valid_cache_bits(b: u8) -> bool {
    b == 0 || (b & 1u8 != 0 && b < 16 && (b & 12u8 != 0 ==> b & 2u8 != 0))
}

/// What a detected availability is recorded as: the kernel capabilities
/// only where tile capability was detected too, which is always the case
/// for what the probe reports.
pub open spec fn recorded(a: AmxAvailability) -> AmxAvailability {
    AmxAvailability { tile: a.tile, bf16: a.tile && a.bf16, int8: a.tile && a.int8 }
}

/// Bit 0: the cache is filled.
pub const CACHE_READY: u8 = 1u8;
/// Bit 1: `tile`.
pub const CACHE_TILE: u8 = 2u8;
/// Bit 2: `bf16`.
pub const CACHE_BF16: u8 = 4u8;
/// Bit 3: `int8`.
pub const CACHE_INT8: u8 = 8u8;

/// The byte that records `a`.
pub open spec fn encode_spec(a: AmxAvailability) -> u8 {
    (CACHE_READY | (if a.tile { CACHE_TILE } else { 0u8 }) | (if a.bf16 { CACHE_BF16 } else { 0u8 })
        | (if a.int8 { CACHE_INT8 } else { 0u8 })) as u8
}

/// The availability a byte records.
pub open spec fn decode_spec(bits: u8) -> AmxAvailability {
    AmxAvailability {
        tile: bits & CACHE_TILE != 0,
        bf16: bits & CACHE_BF16 != 0,
        int8: bits & CACHE_INT8 != 0,
    }
}

proof fn lemma_cache_bits(t: bool, b: bool, i: bool, y: u8)
    by (bit_vector)
    ensures
        ({
            let x: u8 = 1u8 | (if t { 2u8 } else { 0u8 }) | (if b { 4u8 } else { 0u8 }) | (if i { 8u8 } else { 0u8 });
            &&& x & 1u8 != 0
            &&& (x & 2u8 != 0) == t
            &&& (x & 4u8 != 0) == b
            &&& (x & 8u8 != 0) == i
            &&& x < 16
            &&& (x & 12u8 != 0) == (b || i)
        }),
        (y & 12u8 != 0) == (y & 4u8 != 0 || y & 8u8 != 0),
        y & 1u8 != 0 ==> y != 0,
        y & 1u8 != 0 && y < 16 ==> y == (1u8 | (if y & 2u8 != 0 { 2u8 } else { 0u8 })
            | (if y & 4u8 != 0 { 4u8 } else { 0u8 }) | (if y & 8u8 != 0 { 8u8 } else { 0u8 })),
{
}

/// Decoding what was encoded gives back the availability, and the byte is
/// marked filled.
pub proof fn lemma_decode_encode(a: AmxAvailability)
    ensures
        encode_spec(a) & CACHE_READY != 0,
        decode_spec(encode_spec(a)) == a,
        consistent(a) ==> valid_cache_bits(encode_spec(a)),
{
    lemma_cache_bits(a.tile, a.bf16, a.int8, 0);
}

/// A filled cache byte reports a kernel capability only together with tile
/// capability.
pub proof fn lemma_cached_kernel_implies_tile(bits: u8)
    requires
        valid_cache_bits(bits),
        bits & CACHE_READY != 0,
    ensures
        consistent(decode_spec(bits)),
{
    lemma_cache_bits(false, false, false, bits);
    assert(CACHE_TILE == 2u8 && CACHE_BF16 == 4u8 && CACHE_INT8 == 8u8);
    assert(bits & 4u8 != 0 || bits & 8u8 != 0 ==> bits & 12u8 != 0);
    assert(bits & 12u8 != 0 ==> bits & 2u8 != 0);
}

impl ProbeCache {
    #[verifier::type_invariant]
    closed spec fn wf(self) -> bool {
        valid_cache_bits(self.bits)
    }

    /// The byte the cache holds.
    pub closed spec fn view_bits(&self) -> u8 {
        self.bits
    }

    /// Whether the probe has run.
    pub open spec fn ready(&self) -> bool {
        self.view_bits() & CACHE_READY != 0
    }

    /// An empty cache.
    pub fn new() -> (c: Self)
        ensures
            c.view_bits() == 0,
    {
        ProbeCache { bits: 0 }
    }

    /// A cache holding `bits`, as stored between calls; a byte no cache
    /// can hold gives an empty cache.
    pub fn from_bits(bits: u8) -> (c: Self)
        ensures
            c.view_bits() == if valid_cache_bits(bits) { bits } else { 0 },
    {
        if bits == 0 || (bits & 1 != 0 && bits < 16 && (bits & 12 == 0 || bits & 2 != 0)) {
            ProbeCache { bits }
        } else {
            ProbeCache { bits: 0 }
        }
    }

    /// The byte to store between calls.
    pub fn bits(&self) -> (b: u8)
        ensures
            b == self.view_bits(),
            valid_cache_bits(b),
    {
        proof {
            use_type_invariant(self);
        }
        self.bits
    }

    /// The cached availability, running `detect` first when the cache is
    /// empty and recording what it reports.
    pub fn availability<F>(&mut self, detect: F) -> (r: AmxAvailability)
        where
            F: FnOnce() -> AmxAvailability,
        requires
            detect.requires(()),
        ensures
            valid_cache_bits(old(self).view_bits()),
            old(self).ready() ==> r == decode_spec(old(self).view_bits()) && *final(self) == *old(self),
            !old(self).ready() ==> exists|a: AmxAvailability| detect.ensures((), a) && r == #[trigger] recorded(a),
            final(self).ready(),
            final(self).view_bits() == encode_spec(r),
            valid_cache_bits(final(self).view_bits()),
            consistent(r),
    {
        proof {
            use_type_invariant(&*self);
        }
        let cached = self.bits;
        if cached & CACHE_READY == 0 {
            let detected = detect();
            let kept = AmxAvailability {
                tile: detected.tile,
                bf16: detected.tile && detected.bf16,
                int8: detected.tile && detected.int8,
            };
            let bits = CACHE_READY | (if kept.tile { CACHE_TILE } else { 0u8 }) | (if kept.bf16 {
                CACHE_BF16
            } else {
                0u8
            }) | (if kept.int8 { CACHE_INT8 } else { 0u8 });
            proof {
                lemma_decode_encode(kept);
                assert(recorded(detected) == kept);
            }
            self.bits = bits;
            AmxAvailability {
                tile: bits & CACHE_TILE != 0,
                bf16: bits & CACHE_BF16 != 0,
                int8: bits & CACHE_INT8 != 0,
            }
        } else {
            let r = AmxAvailability {
                tile: cached & CACHE_TILE != 0,
                bf16: cached & CACHE_BF16 != 0,
                int8: cached & CACHE_INT8 != 0,
            };
            proof {
                lemma_cached_kernel_implies_tile(cached);
                lemma_decode_encode(r);
                lemma_cache_bits(false, false, false, cached);
                assert(cached == encode_spec(r));
            }
            r
        }
    }
}

/// Once the cache is filled, every later call answers the same, whatever
/// the detector would say.
pub proof fn lemma_cache_is_stable(c: ProbeCache, a: AmxAvailability)
    requires
        c.view_bits() == encode_spec(a),
    ensures
        c.ready(),
        decode_spec(c.view_bits()) == a,
{
    lemma_decode_encode(a);
}

/// Whether the process may configure and use tile registers.
pub fn has_amx_tile<F>(cache: &mut ProbeCache, detect: F) -> (r: bool)
    where
        F: FnOnce() -> AmxAvailability,
    requires
        detect.requires(()),
    ensures
        old(cache).ready() ==> r == decode_spec(old(cache).view_bits()).tile && *final(cache) == *old(cache),
        !old(cache).ready() ==> exists|a: AmxAvailability| detect.ensures((), a) && r == (#[trigger] recorded(a)).tile,
        final(cache).ready(),
        r == decode_spec(final(cache).view_bits()).tile,
        valid_cache_bits(final(cache).view_bits()),
        consistent(decode_spec(final(cache).view_bits())),
{
    let a = cache.availability(detect);
    proof {
        lemma_decode_encode(a);
    }
    a.tile
}

/// Whether the process may execute `TDPBF16PS`.
pub fn has_amx_bf16<F>(cache: &mut ProbeCache, detect: F) -> (r: bool)
    where
        F: FnOnce() -> AmxAvailability,
    requires
        detect.requires(()),
    ensures
        old(cache).ready() ==> r == decode_spec(old(cache).view_bits()).bf16 && *final(cache) == *old(cache),
        !old(cache).ready() ==> exists|a: AmxAvailability| detect.ensures((), a) && r == (#[trigger] recorded(a)).bf16,
        final(cache).ready(),
        r == decode_spec(final(cache).view_bits()).bf16,
        valid_cache_bits(final(cache).view_bits()),
        consistent(decode_spec(final(cache).view_bits())),
{
    let a = cache.availability(detect);
    proof {
        lemma_decode_encode(a);
    }
    a.bf16
}

/// Whether the process may execute `TDPBSSD`.
pub fn has_amx_int8<F>(cache: &mut ProbeCache, detect: F) -> (r: bool)
    where
        F: FnOnce() -> AmxAvailability,
    requires
        detect.requires(()),
    ensures
        old(cache).ready() ==> r == decode_spec(old(cache).view_bits()).int8 && *final(cache) == *old(cache),
        !old(cache).ready() ==> exists|a: AmxAvailability| detect.ensures((), a) && r == (#[trigger] recorded(a)).int8,
        final(cache).ready(),
        r == decode_spec(final(cache).view_bits()).int8,
        valid_cache_bits(final(cache).view_bits()),
        consistent(decode_spec(final(cache).view_bits())),
{
    let a = cache.availability(detect);
    proof {
        lemma_decode_encode(a);
    }
    a.int8
}

} // verus!
