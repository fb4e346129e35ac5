//! VT-d (Intel IOMMU) register layout, capability fields and command words.
use vstd::prelude::*;

verus! {

// ── Register offsets ─────────────────────────────────────────────
pub const VER: usize = 0x000;
pub const CAP: usize = 0x008;
pub const ECAP: usize = 0x010;
pub const GCMD: usize = 0x018;
pub const GSTS: usize = 0x01C;
pub const RTADDR: usize = 0x020;
pub const CCMD: usize = 0x028;
pub const FSTS: usize = 0x034;
pub const FECTL: usize = 0x03C;
pub const FEDATA: usize = 0x040;
pub const FEADDR: usize = 0x044;
pub const AFLOG: usize = 0x058;
pub const IQA: usize = 0x080;
pub const ICS: usize = 0x09C;
pub const IECTL: usize = 0x0A0;
pub const IEDATA: usize = 0x0A4;
pub const IEADDR: usize = 0x0A8;
pub const IOTLB: usize = 0x0F0;

// ── GCMD bits ────────────────────────────────────────────────────
pub const GCMD_SRTP: u32 = 0x4000_0000;
pub const GCMD_TE: u32 = 0x8000_0000;
pub const GCMD_SFL: u32 = 0x2000_0000;
pub const GCMD_EAFL: u32 = 0x1000_0000;
pub const GCMD_WBF: u32 = 0x0800_0000;
pub const GCMD_IRE: u32 = 0x0200_0000;
pub const GCMD_CFI: u32 = 0x0080_0000;
pub const GCMD_QIE: u32 = 0x0400_0000;

// ── GSTS bits ────────────────────────────────────────────────────
pub const GSTS_TES: u32 = 0x8000_0000;
pub const GSTS_IRES: u32 = 0x0200_0000;
pub const GSTS_QIS: u32 = 0x0400_0000;
pub const GSTS_RTPS: u32 = 0x4000_0000;
pub const GSTS_WBFS: u32 = 0x0800_0000;
pub const GSTS_AFLS: u32 = 0x1000_0000;
pub const GSTS_FLS: u32 = 0x2000_0000;
pub const GSTS_CFIS: u32 = 0x0080_0000;

/// Number of status polls before a wait gives up.
pub const WAIT_TIMEOUT: u32 = 100_000_000;

proof fn lemma_vtd_bits_u64()
    by (bit_vector)
    ensures
        forall|x: u64| #[trigger] (x & 0xffu64) == x % 256,
        forall|x: u64| #[trigger] ((x >> 30u64) & 0xfu64) == (x / 0x4000_0000) % 16,
        forall|x: u64| #[trigger] ((x >> 34u64) & 0x3fu64) == (x / 0x4_0000_0000) % 64,
        forall|x: u64|
            ((#[trigger] ((x >> 60u64) & 1u64)) != 0) == ((x / 0x1000_0000_0000_0000) % 2 == 1),
        forall|x: u64| ((#[trigger] ((x >> 1u64) & 1u64)) != 0) == ((x / 2) % 2 == 1),
        forall|x: u64| ((#[trigger] ((x >> 7u64) & 1u64)) != 0) == ((x / 128) % 2 == 1),
        forall|x: u64| ((#[trigger] ((x >> 3u64) & 1u64)) != 0) == ((x / 8) % 2 == 1),
        forall|x: u64| #[trigger] (x | 1u64) == (if x % 2 == 0 { (x + 1) as u64 } else { x }),
        forall|d: u64|
            d < 0x1_0000 ==> #[trigger] ((2u64 << 32u64) | (d << 16u64) | 1u64) == 2
                * 0x1_0000_0000 + d * 0x1_0000 + 1,
        forall|x: u64| ((#[trigger] (x & 1u64)) == 0) == (x % 2 == 0),
        ((1u64 << 63u64) | (4u64 << 61u64) | 1u64) == 0x8000_0000_0000_0001u64,
        forall|d: u64|
            d < 0x1_0000 ==> #[trigger] ((1u64 << 63u64) | (1u64 << 61u64) | (d << 32u64) | 1u64)
                == 0x8000_0000_0000_0000u64 + 0x2000_0000_0000_0000u64 + d * 0x1_0000_0000 + 1,
        forall|s: u64, d: u64|
            s < 0x1_0000 && d < 0x1_0000 ==> #[trigger] ((1u64 << 63u64) | (2u64 << 61u64) | (s
                << 32u64) | (d << 16u64) | 1u64) == 0x8000_0000_0000_0000u64 + 2
                * 0x2000_0000_0000_0000u64 + s * 0x1_0000_0000 + d * 0x1_0000 + 1,
        forall|c: u64| ((#[trigger] (c & (1u64 << 63u64))) == 0) == (c < 0x8000_0000_0000_0000u64),
{
}

proof fn lemma_vtd_bits_u32()
    by (bit_vector)
    ensures
        forall|g: u32| ((#[trigger] (g & 0x4000_0000u32)) != 0) == ((g / 0x4000_0000) % 2 == 1),
        forall|g: u32| ((#[trigger] (g & 0x8000_0000u32)) != 0) == (g / 0x8000_0000 == 1),
        forall|g: u32| ((#[trigger] (g & 0x8000_0000u32)) == 0) == (g / 0x8000_0000 == 0),
        forall|g: u32|
            #[trigger] (g | 0x0800_0000u32) == (if (g / 0x0800_0000) % 2 == 1 {
                g
            } else {
                (g + 0x0800_0000) as u32
            }),
        forall|g: u32| ((#[trigger] (g & 0x0800_0000u32)) != 0) == ((g / 0x0800_0000) % 2 == 1),
{
}

/// Bit-level facts behind the field extractors and command words.
proof fn lemma_vtd_bits()
    ensures
        forall|x: u64| #[trigger] (x & 0xffu64) == x % 256,
        forall|x: u64| #[trigger] ((x >> 30u64) & 0xfu64) == (x / 0x4000_0000) % 16,
        forall|x: u64| #[trigger] ((x >> 34u64) & 0x3fu64) == (x / 0x4_0000_0000) % 64,
        forall|x: u64|
            ((#[trigger] ((x >> 60u64) & 1u64)) != 0) == ((x / 0x1000_0000_0000_0000) % 2 == 1),
        forall|x: u64| ((#[trigger] ((x >> 1u64) & 1u64)) != 0) == ((x / 2) % 2 == 1),
        forall|x: u64| ((#[trigger] ((x >> 7u64) & 1u64)) != 0) == ((x / 128) % 2 == 1),
        forall|x: u64| ((#[trigger] ((x >> 3u64) & 1u64)) != 0) == ((x / 8) % 2 == 1),
        forall|x: u64| #[trigger] (x | 1u64) == (if x % 2 == 0 { (x + 1) as u64 } else { x }),
        forall|g: u32| ((#[trigger] (g & 0x4000_0000u32)) != 0) == ((g / 0x4000_0000) % 2 == 1),
        forall|g: u32| ((#[trigger] (g & 0x8000_0000u32)) != 0) == (g / 0x8000_0000 == 1),
        forall|g: u32| ((#[trigger] (g & 0x8000_0000u32)) == 0) == (g / 0x8000_0000 == 0),
        forall|g: u32|
            #[trigger] (g | 0x0800_0000u32) == (if (g / 0x0800_0000) % 2 == 1 {
                g
            } else {
                (g + 0x0800_0000) as u32
            }),
        forall|g: u32| ((#[trigger] (g & 0x0800_0000u32)) != 0) == ((g / 0x0800_0000) % 2 == 1),
        forall|d: u64|
            d < 0x1_0000 ==> #[trigger] ((2u64 << 32u64) | (d << 16u64) | 1u64) == 2
                * 0x1_0000_0000 + d * 0x1_0000 + 1,
        forall|x: u64| ((#[trigger] (x & 1u64)) == 0) == (x % 2 == 0),
        ((1u64 << 63u64) | (4u64 << 61u64) | 1u64) == 0x8000_0000_0000_0001u64,
        forall|d: u64|
            d < 0x1_0000 ==> #[trigger] ((1u64 << 63u64) | (1u64 << 61u64) | (d << 32u64) | 1u64)
                == 0x8000_0000_0000_0000u64 + 0x2000_0000_0000_0000u64 + d * 0x1_0000_0000 + 1,
        forall|s: u64, d: u64|
            s < 0x1_0000 && d < 0x1_0000 ==> #[trigger] ((1u64 << 63u64) | (2u64 << 61u64) | (s
                << 32u64) | (d << 16u64) | 1u64) == 0x8000_0000_0000_0000u64 + 2
                * 0x2000_0000_0000_0000u64 + s * 0x1_0000_0000 + d * 0x1_0000 + 1,
        forall|c: u64| ((#[trigger] (c & (1u64 << 63u64))) == 0) == (c < 0x8000_0000_0000_0000u64),
{
    lemma_vtd_bits_u64();
    lemma_vtd_bits_u32();
}

// ── CAP extractors ───────────────────────────────────────────────

/// CAP.ND: the low eight bits of the capability register.
pub fn cap_nd(cap: u64) -> (r: u8)
    ensures
        r == cap % 256,
{
    proof { lemma_vtd_bits(); }
    (cap & 0xff) as u8
}

/// Number of domains encoded by CAP.ND: two to the power `ND + 1`.
pub fn cap_num_domains(cap: u64) -> (r: u32)
    requires
        cap % 256 < 31,
    ensures
        r == vstd::arithmetic::power2::pow2((cap % 256) as nat + 1),
{
    let nd = cap_nd(cap);
    let shift: u32 = nd as u32 + 1;
    proof {
        vstd::arithmetic::power2::lemma2_to64();
        vstd::bits::lemma_u32_pow2_no_overflow(shift as nat);
        vstd::bits::lemma_u32_shl_is_mul(1u32, shift);
    }
    1u32 << shift
}

/// CAP.MGAW: bits 30..34 of the capability register.
pub fn cap_mgaw(cap: u64) -> (r: u8)
    ensures
        r == (cap / 0x4000_0000) % 16,
{
    proof { lemma_vtd_bits(); }
    ((cap >> 30u64) & 0xf) as u8
}

/// CAP.SAGAW: bits 34..40 of the capability register.
pub fn cap_sagaw(cap: u64) -> (r: u8)
    ensures
        r == (cap / 0x4_0000_0000) % 64,
{
    proof { lemma_vtd_bits(); }
    ((cap >> 34u64) & 0x3f) as u8
}

/// CAP.PSI: bit 60 of the capability register.
pub fn cap_psi(cap: u64) -> (r: bool)
    ensures
        r == ((cap / 0x1000_0000_0000_0000) % 2 == 1),
{
    proof { lemma_vtd_bits(); }
    (cap >> 60u64) & 1 != 0
}

// ── ECAP extractors ──────────────────────────────────────────────

/// ECAP.QI: bit 1 of the extended capability register.
pub fn ecap_qi(ecap: u64) -> (r: bool)
    ensures
        r == ((ecap / 2) % 2 == 1),
{
    proof { lemma_vtd_bits(); }
    (ecap >> 1u64) & 1 != 0
}

/// ECAP.DI: bit 7 of the extended capability register.
pub fn ecap_di(ecap: u64) -> (r: bool)
    ensures
        r == ((ecap / 128) % 2 == 1),
{
    proof { lemma_vtd_bits(); }
    (ecap >> 7u64) & 1 != 0
}

/// ECAP.IR: bit 3 of the extended capability register.
pub fn ecap_ir(ecap: u64) -> (r: bool)
    ensures
        r == ((ecap / 8) % 2 == 1),
{
    proof { lemma_vtd_bits(); }
    (ecap >> 3u64) & 1 != 0
}


/// Outcome of one poll of a VT-d status or command register.
#[derive(Clone, Copy, Debug, PartialEq, Eq)]
pub enum WaitStep {
    /// The awaited condition holds; the wait is over.
    Done,
    /// The condition does not hold yet; poll again.
    Continue,
    /// The condition did not hold within [`WAIT_TIMEOUT`] polls.
    TimedOut,
}

/// What a wait loop does after poll number `poll` (counted from zero)
/// observed `cond`.
pub open spec fn wait_outcome(cond: bool, poll: u32) -> WaitStep {
    if cond {
        WaitStep::Done
    } else if poll as int + 1 >= WAIT_TIMEOUT as int {
        WaitStep::TimedOut
    } else {
        WaitStep::Continue
    }
}

fn wait_step(cond: bool, poll: u32) -> (r: WaitStep)
    ensures
        r == wait_outcome(cond, poll),
{
    if cond {
        WaitStep::Done
    } else if poll >= WAIT_TIMEOUT - 1 {
        WaitStep::TimedOut
    } else {
        WaitStep::Continue
    }
}

/// Handle on the MMIO register block of one VT-d remapping unit.
#[derive(Clone, Copy, Debug)]
pub struct VtdRegisters {
    pub mmio_base: u64,
}

impl VtdRegisters {
    /// A handle on the register block mapped at `mmio_base`.
    pub fn new(mmio_base: u64) -> (r: Self)
        ensures
            r.mmio_base == mmio_base,
    {
        Self { mmio_base }
    }

    /// Virtual address of the register at byte offset `off`.
    pub fn register_address(&self, off: usize) -> (r: u64)
        requires
            self.mmio_base as int + off as int <= u64::MAX,
        ensures
            r == self.mmio_base + off,
    {
        self.mmio_base + off as u64
    }

    /// The value written to RTADDR for a root table at `phys`: the address
    /// with bit 0 set.
    pub fn rtaddr_value(phys: u64) -> (r: u64)
        ensures
            r == (if phys % 2 == 0 { phys + 1 } else { phys as int }),
    {
        proof { lemma_vtd_bits(); }
        phys | 1
    }

    /// One poll of `wait_for_root_table_ptr`: done once GSTS.RTPS is set.
    pub fn wait_for_root_table_ptr(&self, gsts: u32, poll: u32) -> (r: WaitStep)
        ensures
            r == wait_outcome((gsts / 0x4000_0000) % 2 == 1, poll),
    {
        proof { lemma_vtd_bits(); }
        wait_step(gsts & GSTS_RTPS != 0, poll)
    }

    /// One poll of `wait_for_translation_enable`: done once GSTS.TES is set.
    pub fn wait_for_translation_enable(&self, gsts: u32, poll: u32) -> (r: WaitStep)
        ensures
            r == wait_outcome(gsts / 0x8000_0000 == 1, poll),
    {
        proof { lemma_vtd_bits(); }
        wait_step(gsts & GSTS_TES != 0, poll)
    }

    /// One poll of `wait_for_translation_disable`: done once GSTS.TES is clear.
    pub fn wait_for_translation_disable(&self, gsts: u32, poll: u32) -> (r: WaitStep)
        ensures
            r == wait_outcome(gsts / 0x8000_0000 == 0, poll),
    {
        proof { lemma_vtd_bits(); }
        wait_step(gsts & GSTS_TES == 0, poll)
    }

    /// The GCMD value that requests a write-buffer flush: the current command
    /// with WBF set.
    pub fn write_buffer_flush(&self, gcmd: u32) -> (r: u32)
        ensures
            r == (if (gcmd / 0x0800_0000) % 2 == 1 { gcmd as int } else { gcmd + 0x0800_0000 }),
    {
        proof { lemma_vtd_bits(); }
        gcmd | GCMD_WBF
    }

    /// One poll of the write-buffer flush: done once GSTS.WBFS is set.
    pub fn write_buffer_flush_wait(&self, gsts: u32, poll: u32) -> (r: WaitStep)
        ensures
            r == wait_outcome((gsts / 0x0800_0000) % 2 == 1, poll),
    {
        proof { lemma_vtd_bits(); }
        wait_step(gsts & GSTS_WBFS != 0, poll)
    }

    /// IOTLB command for a global invalidation: IVT set, granularity global.
    pub fn iotlb_global_invalidate(&self) -> (r: u64)
        ensures
            r == 1,
    {
        1
    }

    /// IOTLB command for a domain-selective invalidation of `domain_id`.
    pub fn iotlb_domain_invalidate(&self, domain_id: u16) -> (r: u64)
        ensures
            r == 2 * 0x1_0000_0000 + domain_id * 0x1_0000 + 1,
    {
        let d: u64 = domain_id as u64;
        proof { lemma_vtd_bits(); }
        (2u64 << 32u64) | (d << 16u64) | 1
    }

    /// Poll of an IOTLB invalidation: done once the IVT bit (bit 0) reads clear.
    pub fn iotlb_invalidate_wait(&self, iotlb: u64, poll: u32) -> (r: WaitStep)
        ensures
            r == wait_outcome(iotlb % 2 == 0, poll),
    {
        proof { lemma_vtd_bits(); }
        wait_step(iotlb & 1 == 0, poll)
    }

    /// CCMD command for a global context-cache invalidation.  The granularity
    /// field is built as `4 << 61`, which lands on bit 63 itself, so the
    /// command word is ICC plus bit 0 only.
    pub fn context_cache_invalidate_all(&self) -> (r: u64)
        ensures
            r == 0x8000_0000_0000_0001,
    {
        proof { lemma_vtd_bits(); }
        (1u64 << 63u64) | (4u64 << 61u64) | 1
    }

    /// CCMD command for a domain-selective context-cache invalidation.
    pub fn context_cache_invalidate_domain(&self, domain_id: u16) -> (r: u64)
        ensures
            r == 0x8000_0000_0000_0000 + 0x2000_0000_0000_0000 + domain_id * 0x1_0000_0000 + 1,
    {
        let d: u64 = domain_id as u64;
        proof { lemma_vtd_bits(); }
        (1u64 << 63u64) | (1u64 << 61u64) | (d << 32u64) | 1
    }

    /// CCMD command for a device-selective context-cache invalidation of
    /// source id `sid` in domain `domain_id`.
    pub fn context_cache_invalidate_device(&self, sid: u16, domain_id: u16) -> (r: u64)
        ensures
            r == 0x8000_0000_0000_0000 + 2 * 0x2000_0000_0000_0000 + sid * 0x1_0000_0000
                + domain_id * 0x1_0000 + 1,
    {
        let s: u64 = sid as u64;
        let d: u64 = domain_id as u64;
        proof { lemma_vtd_bits(); }
        (1u64 << 63u64) | (2u64 << 61u64) | (s << 32u64) | (d << 16u64) | 1
    }

    /// Poll of a context-cache invalidation: done once ICC (bit 63) reads clear.
    pub fn context_cache_invalidate_wait(&self, ccmd: u64, poll: u32) -> (r: WaitStep)
        ensures
            r == wait_outcome(ccmd < 0x8000_0000_0000_0000, poll),
    {
        proof { lemma_vtd_bits(); }
        wait_step(ccmd & (1u64 << 63u64) == 0, poll)
    }
}

} // verus!
