//! PCI configuration-space decoding, BAR decoding, capability-list walks and
//! bus enumeration.
//!
//! Configuration space is reached through the legacy `0xCF8`/`0xCFC` port
//! pair.  The caller performs the port I/O; the functions here build the
//! addresses it writes, decode the values it reads and decide, step by step,
//! what to read or write next.
use vstd::prelude::*;

verus! {

/// Byte `k` (0 = least significant) of a configuration dword.
pub open spec fn dword_byte(dword: u32, k: int) -> int {
    let d = dword as int;
    if k == 0 {
        d % 0x100
    } else if k == 1 {
        (d / 0x100) % 0x100
    } else if k == 2 {
        (d / 0x1_0000) % 0x100
    } else {
        d / 0x100_0000
    }
}

/// The 16-bit half of a configuration dword that a word access at `offset`
/// selects: the low half for `offset % 4 < 2`, the high half otherwise.
pub open spec fn dword_word(dword: u32, offset: u8) -> int {
    if offset % 4 < 2 {
        dword as int % 0x1_0000
    } else {
        dword as int / 0x1_0000
    }
}

proof fn lemma_pci_bits_u32()
    by (bit_vector)
    ensures
        forall|b: u32, d: u32, f: u32, o: u32|
            b < 256 && o < 256 && d < 32 && f < 8 ==> #[trigger] (0x8000_0000u32 | (b << 16u32) | (d
                << 11u32) | (f << 8u32) | (o & 0xFCu32)) == 0x8000_0000 + b * 0x1_0000 + d * 0x800 + f
                * 0x100 + (o / 4) * 4,
        forall|w: u32| #[trigger] ((w >> 0u32) & 0xFFFFu32) == w % 0x1_0000,
        forall|w: u32| #[trigger] ((w >> 16u32) & 0xFFFFu32) == w / 0x1_0000,
        forall|e: u32, v: u32|
            v < 0x1_0000 ==> #[trigger] ((e & !0xFFFFu32) | v) == (e / 0x1_0000) * 0x1_0000 + v,
        forall|e: u32, v: u32|
            v < 0x1_0000 ==> #[trigger] ((e & !(0xFFFFu32 << 16u32)) | (v << 16u32)) == v * 0x1_0000
                + e % 0x1_0000,
        forall|x: u32| ((#[trigger] (x & 0x1u32)) != 0) == (x % 2 == 1),
        forall|x: u32| ((#[trigger] (x & 0x6u32)) == 0x4u32) == ((x / 2) % 4 == 2),
        forall|x: u32| ((#[trigger] (x & 0x8u32)) != 0) == ((x / 8) % 2 == 1),
        forall|x: u32| #[trigger] (x & 0xFFFFFFFCu32) == (x / 4) * 4,
        forall|x: u32| #[trigger] (x & 0xFFFFFFF0u32) == (x / 16) * 16,
        forall|m: u32| m != 0 ==> #[trigger] (!m) + 1 == 0x1_0000_0000 - m,
{
}

proof fn lemma_pci_bits_u64()
    by (bit_vector)
    ensures
        forall|a: u64, h: u64|
            a < 0x1_0000_0000 && h < 0x1_0000_0000 ==> #[trigger] (a | (h << 32u64)) == h
                * 0x1_0000_0000 + a,
        forall|a: u64, h: u64|
            a < 0x1_0000_0000 && h < 0x1_0000_0000 ==> #[trigger] ((h << 32u64) | a) == h
                * 0x1_0000_0000 + a,
{
}

proof fn lemma_pci_bits_usize()
    by (bit_vector)
    ensures
        forall|b: usize, d: usize, f: usize|
            b < 256 && d < 256 && f < 256 ==> #[trigger] ((b << 16usize) | (d << 8usize) | f) == b
                * 0x1_0000 + d * 0x100 + f,
{
}

proof fn lemma_pci_bits_small()
    by (bit_vector)
    ensures
        forall|p: u16| #[trigger] (p & 0x3u16) == p % 4,
        forall|p: u16| #[trigger] (p & !0x3u16) == (p / 4) * 4,
{
}

proof fn lemma_pci_bits_u8()
    by (bit_vector)
    ensures
        forall|o: u8| #[trigger] (o & 3u8) < 4,
        forall|o: u8| #[trigger] (o & !3u8) == (o / 4) * 4,
        forall|h: u8| ((#[trigger] (h & 0x80u8)) == 0) == (h < 0x80),
{
}

/// Bit-level facts behind configuration addresses, word merges and BAR
/// decoding.
proof fn lemma_pci_bits()
    ensures
        forall|b: u32, d: u32, f: u32, o: u32|
            b < 256 && o < 256 && d < 32 && f < 8 ==> #[trigger] (0x8000_0000u32 | (b << 16u32) | (d
                << 11u32) | (f << 8u32) | (o & 0xFCu32)) == 0x8000_0000 + b * 0x1_0000 + d * 0x800 + f
                * 0x100 + (o / 4) * 4,
        forall|w: u32| #[trigger] ((w >> 0u32) & 0xFFFFu32) == w % 0x1_0000,
        forall|w: u32| #[trigger] ((w >> 16u32) & 0xFFFFu32) == w / 0x1_0000,
        forall|e: u32, v: u32|
            v < 0x1_0000 ==> #[trigger] ((e & !0xFFFFu32) | v) == (e / 0x1_0000) * 0x1_0000 + v,
        forall|e: u32, v: u32|
            v < 0x1_0000 ==> #[trigger] ((e & !(0xFFFFu32 << 16u32)) | (v << 16u32)) == v * 0x1_0000
                + e % 0x1_0000,
        forall|x: u32| ((#[trigger] (x & 0x1u32)) != 0) == (x % 2 == 1),
        forall|x: u32| ((#[trigger] (x & 0x6u32)) == 0x4u32) == ((x / 2) % 4 == 2),
        forall|x: u32| ((#[trigger] (x & 0x8u32)) != 0) == ((x / 8) % 2 == 1),
        forall|x: u32| #[trigger] (x & 0xFFFFFFFCu32) == (x / 4) * 4,
        forall|x: u32| #[trigger] (x & 0xFFFFFFF0u32) == (x / 16) * 16,
        forall|m: u32| m != 0 ==> #[trigger] (!m) + 1 == 0x1_0000_0000 - m,
        forall|a: u64, h: u64|
            a < 0x1_0000_0000 && h < 0x1_0000_0000 ==> #[trigger] (a | (h << 32u64)) == h
                * 0x1_0000_0000 + a,
        forall|a: u64, h: u64|
            a < 0x1_0000_0000 && h < 0x1_0000_0000 ==> #[trigger] ((h << 32u64) | a) == h
                * 0x1_0000_0000 + a,
        forall|b: usize, d: usize, f: usize|
            b < 256 && d < 256 && f < 256 ==> #[trigger] ((b << 16usize) | (d << 8usize) | f) == b
                * 0x1_0000 + d * 0x100 + f,
        forall|p: u16| #[trigger] (p & 0x3u16) == p % 4,
        forall|p: u16| #[trigger] (p & !0x3u16) == (p / 4) * 4,
        forall|o: u8| #[trigger] (o & 3u8) < 4,
        forall|o: u8| #[trigger] (o & !3u8) == (o / 4) * 4,
        forall|h: u8| ((#[trigger] (h & 0x80u8)) == 0) == (h < 0x80),
{
    lemma_pci_bits_u32();
    lemma_pci_bits_u64();
    lemma_pci_bits_usize();
    lemma_pci_bits_small();
    lemma_pci_bits_u8();
}

/// A decoded base address register.
#[derive(Clone, Copy, Debug)]
pub struct PciBar {
    pub index: u8,
    pub address: u64,
    pub size: u32,
    pub is_io: bool,
    pub is_64bit: bool,
    pub is_prefetchable: bool,
}

/// The first sixteen bytes of a function's configuration header.
#[derive(Clone, Copy, Debug)]
pub struct PciConfigSpace {
    pub vendor_id: u16,
    pub device_id: u16,
    pub command: u16,
    pub status: u16,
    pub revision_id: u8,
    pub prog_if: u8,
    pub subclass: u8,
    pub class_code: u8,
    pub cache_line_size: u8,
    pub latency_timer: u8,
    pub header_type: u8,
    pub bist: u8,
}

impl PciConfigSpace {
    /// The header decoded from the dwords at offsets 0, 4, 8 and 12.
    pub open spec fn decoded(header: [u32; 4]) -> PciConfigSpace {
        PciConfigSpace {
            vendor_id: (header[0] % 0x1_0000) as u16,
            device_id: (header[0] / 0x1_0000) as u16,
            command: (header[1] % 0x1_0000) as u16,
            status: (header[1] / 0x1_0000) as u16,
            revision_id: dword_byte(header[2], 0) as u8,
            prog_if: dword_byte(header[2], 1) as u8,
            subclass: dword_byte(header[2], 2) as u8,
            class_code: dword_byte(header[2], 3) as u8,
            cache_line_size: dword_byte(header[3], 0) as u8,
            latency_timer: dword_byte(header[3], 1) as u8,
            header_type: dword_byte(header[3], 2) as u8,
            bist: dword_byte(header[3], 3) as u8,
        }
    }

    /// An all-zero header.
    pub fn new() -> (r: Self)
        ensures
            r.vendor_id == 0 && r.device_id == 0 && r.command == 0 && r.status == 0,
            r.revision_id == 0 && r.prog_if == 0 && r.subclass == 0 && r.class_code == 0,
            r.cache_line_size == 0 && r.latency_timer == 0 && r.header_type == 0 && r.bist == 0,
    {
        PciConfigSpace {
            vendor_id: 0,
            device_id: 0,
            command: 0,
            status: 0,
            revision_id: 0,
            prog_if: 0,
            subclass: 0,
            class_code: 0,
            cache_line_size: 0,
            latency_timer: 0,
            header_type: 0,
            bist: 0,
        }
    }

    /// The address written to port `0xCF8` to reach `offset` of function
    /// `bus:device.function`: the enable bit, the three selectors and the
    /// dword-aligned offset.
    pub fn build_config_address(bus: u8, device: u8, function: u8, offset: u8) -> (r: u32)
        ensures
            r == 0x8000_0000u32 | ((bus as u32) << 16u32) | ((device as u32) << 11u32) | ((
            function as u32) << 8u32) | (offset as u32 & 0xFCu32),
            device < 32 && function < 8 ==> r == 0x8000_0000 + bus * 0x1_0000 + device * 0x800
                + function * 0x100 + (offset / 4) * 4,
    {
        let b: u32 = bus as u32;
        let d: u32 = device as u32;
        let f: u32 = function as u32;
        let o: u32 = offset as u32;
        proof { lemma_pci_bits(); }
        0x8000_0000u32 | (b << 16u32) | (d << 11u32) | (f << 8u32) | (o & 0xFC)
    }

    /// The byte at `offset`, taken from the dword read at its aligned address.
    pub fn read_config_byte(dword: u32, offset: u8) -> (r: u8)
        ensures
            r == dword_byte(dword, offset as int % 4),
    {
        let shift: u32 = ((offset & 3) as u32) * 8;
        assert(((dword >> (((offset & 3u8) as u32) * 8)) & 0xffu32) == (if offset % 4 == 0 {
            dword % 0x100
        } else if offset % 4 == 1 {
            (dword / 0x100) % 0x100
        } else if offset % 4 == 2 {
            (dword / 0x1_0000) % 0x100
        } else {
            dword / 0x100_0000
        })) by (bit_vector);
        assert(((offset & 3u8) as u32) * 8 == shift);
        proof { lemma_pci_bits(); }
        ((dword >> shift) & 0xff) as u8
    }

    /// The word at `offset`, taken from the dword read at its aligned address.
    pub fn read_config_word(dword: u32, offset: u8) -> (r: u16)
        ensures
            r == dword_word(dword, offset),
    {
        let shift: u32 = if offset % 4 < 2 {
            0
        } else {
            16
        };
        proof { lemma_pci_bits(); }
        ((dword >> shift) & 0xFFFF) as u16
    }

    /// Whether a function answers: its vendor word is not `0xFFFF`.
    pub fn device_exists(dword0: u32) -> (r: bool)
        ensures
            r == (dword0 % 0x1_0000 != 0xFFFF),
    {
        Self::read_config_word(dword0, 0) != 0xFFFF
    }

    /// Fill the header from the dwords read at offsets 0, 4, 8 and 12.
    pub fn read_config_space(&mut self, header: [u32; 4])
        ensures
            *final(self) == Self::decoded(header),
    {
        self.vendor_id = Self::read_config_word(header[0], 0);
        self.device_id = Self::read_config_word(header[0], 2);
        self.command = Self::read_config_word(header[1], 4);
        self.status = Self::read_config_word(header[1], 6);
        self.revision_id = Self::read_config_byte(header[2], 8);
        self.prog_if = Self::read_config_byte(header[2], 9);
        self.subclass = Self::read_config_byte(header[2], 10);
        self.class_code = Self::read_config_byte(header[2], 11);
        self.cache_line_size = Self::read_config_byte(header[3], 12);
        self.latency_timer = Self::read_config_byte(header[3], 13);
        self.header_type = Self::read_config_byte(header[3], 14);
        self.bist = Self::read_config_byte(header[3], 15);
    }

    /// The header of a function, or `None` when its vendor word reads
    /// `0xFFFF` (no function there).
    pub fn read_from_device(header: [u32; 4]) -> (r: Option<Self>)
        ensures
            r == (if header[0] % 0x1_0000 == 0xFFFF {
                None
            } else {
                Some(Self::decoded(header))
            }),
    {
        if !Self::device_exists(header[0]) {
            return None;
        }
        let mut config = Self::new();
        config.read_config_space(header);
        Some(config)
    }

    /// Set memory-space and bus-master enable in the cached command word and
    /// return the value to write to the command register (offset 4).
    pub fn enable_memory_access(&mut self) -> (r: u16)
        ensures
            r == (old(self).command | 6u16),
            *final(self) == (PciConfigSpace { command: r, ..*old(self) }),
    {
        let command = self.command | 0x06;
        self.command = command;
        command
    }

    /// The header with the fields it caches from the dword at `aligned`
    /// (0, 4, 8 or 12) taken from `value`; other offsets cache nothing.
    pub open spec fn with_dword(self, aligned: int, value: u32) -> PciConfigSpace {
        if aligned == 0 {
            PciConfigSpace {
                vendor_id: (value % 0x1_0000) as u16,
                device_id: (value / 0x1_0000) as u16,
                ..self
            }
        } else if aligned == 4 {
            PciConfigSpace {
                command: (value % 0x1_0000) as u16,
                status: (value / 0x1_0000) as u16,
                ..self
            }
        } else if aligned == 8 {
            PciConfigSpace {
                revision_id: dword_byte(value, 0) as u8,
                prog_if: dword_byte(value, 1) as u8,
                subclass: dword_byte(value, 2) as u8,
                class_code: dword_byte(value, 3) as u8,
                ..self
            }
        } else if aligned == 12 {
            PciConfigSpace {
                cache_line_size: dword_byte(value, 0) as u8,
                latency_timer: dword_byte(value, 1) as u8,
                header_type: dword_byte(value, 2) as u8,
                bist: dword_byte(value, 3) as u8,
                ..self
            }
        } else {
            self
        }
    }

    /// Dword write at `offset` on behalf of this cached header: the header
    /// takes the written value into the fields it caches from that dword,
    /// and the dword offset to write is returned.
    pub fn write_config_dword(&mut self, offset: u8, value: u32) -> (r: u8)
        ensures
            r == (offset / 4) * 4,
            *final(self) == old(self).with_dword(r as int, value),
    {
        let aligned = offset & !3u8;
        assert((offset & !3u8) == (offset / 4) * 4) by (bit_vector);
        if aligned == 0 {
            self.vendor_id = Self::read_config_word(value, 0);
            self.device_id = Self::read_config_word(value, 2);
        } else if aligned == 4 {
            self.command = Self::read_config_word(value, 4);
            self.status = Self::read_config_word(value, 6);
        } else if aligned == 8 {
            self.revision_id = Self::read_config_byte(value, 8);
            self.prog_if = Self::read_config_byte(value, 9);
            self.subclass = Self::read_config_byte(value, 10);
            self.class_code = Self::read_config_byte(value, 11);
        } else if aligned == 12 {
            self.cache_line_size = Self::read_config_byte(value, 12);
            self.latency_timer = Self::read_config_byte(value, 13);
            self.header_type = Self::read_config_byte(value, 14);
            self.bist = Self::read_config_byte(value, 15);
        }
        aligned
    }

    /// Word write at `offset`: the dword offset to write and the dword to
    /// write there, formed from the dword currently at that aligned offset
    /// with only the addressed 16-bit half replaced by `value`.
    pub fn write_config_word_raw(existing: u32, offset: u8, value: u16) -> (r: (u8, u32))
        ensures
            r.0 == (offset / 4) * 4,
            offset % 4 < 2 ==> r.1 == (existing / 0x1_0000) * 0x1_0000 + value,
            offset % 4 >= 2 ==> r.1 == value * 0x1_0000 + existing % 0x1_0000,
    {
        let aligned = offset & !3u8;
        proof { lemma_pci_bits(); }
        let v: u32 = value as u32;
        if offset % 4 < 2 {
            let masked = existing & !0xFFFFu32;
            proof { lemma_pci_bits(); }
            (aligned, masked | v)
        } else {
            let masked = existing & !(0xFFFFu32 << 16u32);
            proof { lemma_pci_bits(); }
            (aligned, masked | (v << 16u32))
        }
    }
}


/// The three widths of configuration read agree: the byte at `offset` is
/// the low or high byte of the word read at `offset` (that is, at the even
/// offset below it), and that word is made of the two bytes of its half of
/// the dword.
pub proof fn lemma_config_reads_agree(dword: u32, offset: u8)
    ensures
        dword_byte(dword, offset as int % 4) == (if offset % 2 == 0 {
            dword_word(dword, offset) % 0x100
        } else {
            dword_word(dword, offset) / 0x100
        }),
        dword_word(dword, offset) == dword_byte(dword, (offset as int % 4) / 2 * 2) + 0x100
            * dword_byte(dword, (offset as int % 4) / 2 * 2 + 1),
{
    let d = dword as int;
    assert(d % 0x1_0000 % 0x100 == d % 0x100) by (nonlinear_arith)
        requires 0 <= d;
    assert(d % 0x1_0000 / 0x100 == (d / 0x100) % 0x100) by (nonlinear_arith)
        requires 0 <= d;
    assert(d / 0x1_0000 % 0x100 == (d / 0x1_0000) % 0x100);
    assert(d / 0x1_0000 / 0x100 == d / 0x100_0000) by (nonlinear_arith)
        requires 0 <= d;
    assert(d % 0x1_0000 == d % 0x100 + 0x100 * ((d / 0x100) % 0x100)) by (nonlinear_arith)
        requires 0 <= d;
    assert(d / 0x1_0000 == (d / 0x1_0000) % 0x100 + 0x100 * (d / 0x100_0000)) by (nonlinear_arith)
        requires 0 <= d < 0x1_0000_0000;
}

/// What a decoded BAR says, in terms of the dword read: a BAR is described
/// exactly when it has a size; bit 0 tells I/O from memory; an I/O BAR's
/// address is the value with bits 0..1 cleared; a memory BAR's low address
/// dword is the value with bits 0..3 cleared, and a 64-bit one (below BAR 5)
/// takes its high dword from `high`.
pub proof fn lemma_bar_info_address(index: u8, value: u32, high: u32, size: u32)
    ensures
        bar_info_spec(index, value, high, size) is Some <==> size != 0,
        bar_info_spec(index, value, high, size) matches Some(bar) ==> {
            &&& bar.index == index && bar.size == size
            &&& bar.is_io == (value % 2 == 1)
            &&& bar.is_io ==> !bar.is_64bit && !bar.is_prefetchable && bar.address == value - value % 4
            &&& !bar.is_io ==> bar.address % 0x1_0000_0000 == value - value % 16
            &&& !bar.is_io && !(bar.is_64bit && index < 5) ==> bar.address == value - value % 16
            &&& bar.is_64bit && index < 5 ==> bar.address / 0x1_0000_0000 == high
        },
{
    let v = value as int;
    assert((v / 4) * 4 == v - v % 4);
    assert((v / 16) * 16 == v - v % 16);
    let h = high as int;
    let low = v - v % 16;
    assert(0 <= low < 0x1_0000_0000);
    assert((h * 0x1_0000_0000 + low) % 0x1_0000_0000 == low) by (nonlinear_arith)
        requires 0 <= low < 0x1_0000_0000, 0 <= h;
    assert((h * 0x1_0000_0000 + low) / 0x1_0000_0000 == h) by (nonlinear_arith)
        requires 0 <= low < 0x1_0000_0000, 0 <= h;
    assert(h * 0x1_0000_0000 + low <= u64::MAX) by (nonlinear_arith)
        requires 0 <= low < 0x1_0000_0000, 0 <= h <= 0xFFFF_FFFF;
}

/// What the address read from a BAR is, in terms of the dwords read: none
/// for an I/O or unset BAR or a BAR index past 5; otherwise the low dword
/// with bits 0..3 cleared, and for a 64-bit BAR (below BAR 5) the high
/// dword above it.
pub proof fn lemma_bar_address(index: u8, low: u32, high: u32)
    ensures
        (index > 5 || low == 0 || low % 2 == 1) ==> bar_address_spec(index, low, high) is None,
        bar_address_spec(index, low, high) matches Some(a) ==> {
            &&& a % 0x1_0000_0000 == low - low % 16
            &&& (low / 2) % 4 == 2 ==> index < 5 && a / 0x1_0000_0000 == high
            &&& (low / 2) % 4 != 2 ==> a == low - low % 16
        },
{
    let v = low as int;
    assert((v / 16) * 16 == v - v % 16);
    let h = high as int;
    let lo = v - v % 16;
    assert((h * 0x1_0000_0000 + lo) % 0x1_0000_0000 == lo) by (nonlinear_arith)
        requires 0 <= lo < 0x1_0000_0000, 0 <= h;
    assert((h * 0x1_0000_0000 + lo) / 0x1_0000_0000 == h) by (nonlinear_arith)
        requires 0 <= lo < 0x1_0000_0000, 0 <= h;
    assert(h * 0x1_0000_0000 + lo <= u64::MAX) by (nonlinear_arith)
        requires 0 <= lo < 0x1_0000_0000, 0 <= h <= 0xFFFF_FFFF;
}

/// Offset of base address register `index` in the configuration header.
pub open spec fn bar_offset(index: u8) -> int {
    0x10 + index * 4
}

/// The address that BAR `index` maps, from its low dword and (for a 64-bit
/// memory BAR) the following dword; `None` for an out-of-range index, an
/// unimplemented BAR, an I/O BAR, or a 64-bit BAR in the last slot.
pub open spec fn bar_address_spec(index: u8, low: u32, high: u32) -> Option<u64> {
    if index > 5 || low == 0 || low % 2 == 1 {
        None
    } else if (low / 2) % 4 == 2 {
        if index >= 5 {
            None
        } else {
            Some((high * 0x1_0000_0000 + (low / 16) * 16) as u64)
        }
    } else {
        Some(((low / 16) * 16) as u64)
    }
}

/// Size of a BAR from the value it reads back after all-ones was written:
/// zero when the BAR is absent, otherwise two's complement of the address
/// bits (bits 2.. for I/O, bits 4.. for memory).
pub open spec fn bar_size_spec(size_mask: u32) -> int {
    if size_mask == 0 || size_mask == 0xFFFF_FFFF {
        0
    } else if size_mask % 2 == 1 {
        0x1_0000_0000 - (size_mask / 4) * 4
    } else {
        0x1_0000_0000 - (size_mask / 16) * 16
    }
}

/// Whether the all-ones read-back of a BAR is one that the size computation
/// accepts: an absent BAR, or one with at least one address bit set.
pub open spec fn bar_size_mask_ok(size_mask: u32) -> bool {
    size_mask == 0 || size_mask == 0xFFFF_FFFF || (size_mask % 2 == 1 && size_mask / 4 != 0)
        || (size_mask % 2 == 0 && size_mask / 16 != 0)
}

/// The BAR description built from its low dword `value`, the following dword
/// `high` and its probed `size`; `None` when the size is zero.
pub open spec fn bar_info_spec(index: u8, value: u32, high: u32, size: u32) -> Option<PciBar> {
    if size == 0 {
        None
    } else {
        let is_io = value % 2 == 1;
        let is_64bit = !is_io && (value / 2) % 4 == 2;
        let is_prefetchable = !is_io && (value / 8) % 2 == 1;
        let low: int = if is_io {
            (value / 4) * 4
        } else {
            (value / 16) * 16
        };
        let address: int = if is_64bit && index < 5 {
            high * 0x1_0000_0000 + low
        } else {
            low
        };
        Some(PciBar { index, address: address as u64, size, is_io, is_64bit, is_prefetchable })
    }
}

/// A PCI function as handed to drivers.
#[derive(Clone, Copy, Debug)]
pub struct PciDevice {
    pub bus: u8,
    pub device: u8,
    pub function: u8,
    pub handle: usize,
    pub vendor_id: u16,
    pub device_id: u16,
    pub class_code: u8,
    pub subclass: u8,
}

/// The handle of function `bus:device.function`: the three selectors packed
/// into one number.
pub open spec fn handle_spec(bus: u8, device: u8, function: u8) -> int {
    bus * 0x1_0000 + device * 0x100 + function
}

/// The driver-facing description of a function with the given header.
pub open spec fn public_device_spec(bus: u8, device: u8, function: u8, config: PciConfigSpace) -> PciDevice {
    PciDevice {
        bus,
        device,
        function,
        handle: handle_spec(bus, device, function) as usize,
        vendor_id: config.vendor_id,
        device_id: config.device_id,
        class_code: config.class_code,
        subclass: config.subclass,
    }
}

/// The driver-facing description of function `bus:device.function` whose
/// header dwords are `header`, or `None` when no function answers.
pub open spec fn probe_spec(bus: u8, device: u8, function: u8, header: [u32; 4]) -> Option<PciDevice> {
    if header[0] % 0x1_0000 == 0xFFFF {
        None
    } else {
        Some(public_device_spec(bus, device, function, PciConfigSpace::decoded(header)))
    }
}

impl PciDevice {
    /// The function `bus:device.function` with header dwords `header`, or
    /// `None` when its vendor word reads `0xFFFF`.
    pub fn new(bus: u8, device: u8, function: u8, header: [u32; 4]) -> (r: Option<Self>)
        ensures
            r == probe_spec(bus, device, function, header),
    {
        if let Some(dev) = PrivatePciDevice::new(bus, device, function, header) {
            Some(dev.to_public())
        } else {
            None
        }
    }

    /// Command-register value that enables memory space and bus mastering,
    /// from the current command word.
    pub fn enable_memory_access(&self, command: u16) -> (r: u16)
        ensures
            r == (command | 6u16),
    {
        command | 0x06
    }

    /// Configuration offset of BAR `index`.
    pub fn bar_offset(index: u8) -> (r: u8)
        requires
            index < 60,
        ensures
            r == bar_offset(index),
    {
        0x10 + index * 4
    }

    /// Whether BAR `bar_index` with low dword `bar_low` is a 64-bit memory BAR
    /// whose high dword must be read to know its address.
    pub fn bar_needs_high_dword(bar_index: u8, bar_low: u32) -> (r: bool)
        ensures
            r == (bar_index <= 5 && bar_low != 0 && bar_low % 2 == 0 && (bar_low / 2) % 4 == 2
                && bar_index < 5),
    {
        proof { lemma_pci_bits(); }
        bar_index <= 5 && bar_low != 0 && (bar_low & 0x1) == 0 && (bar_low & 0x6) == 0x4
            && bar_index < 5
    }

    /// The memory address BAR `bar_index` maps (see [`bar_address_spec`]),
    /// read afresh: `header` is the function's header as it reads now, and
    /// a function that no longer answers (vendor word `0xFFFF`) has no BAR.
    pub fn read_bar(&self, header: [u32; 4], bar_index: u8, bar_low: u32, bar_high: u32) -> (r: Option<u64>)
        ensures
            r == (if header[0] % 0x1_0000 == 0xFFFF {
                None
            } else {
                bar_address_spec(bar_index, bar_low, bar_high)
            }),
    {
        match PrivatePciDevice::new(self.bus, self.device, self.function, header) {
            Some(dev) => dev.read_bar(bar_index, bar_low, bar_high),
            None => None,
        }
    }

    /// Command word written while a BAR is probed: memory and I/O decoding off.
    pub fn bar_probe_command(command: u16) -> (r: u16)
        ensures
            r == (command / 4) * 4,
    {
        proof { lemma_pci_bits(); }
        command & !0x3
    }

    /// Whether `size_mask` is a read-back that [`Self::detect_bar_size`]
    /// accepts: its size computation would overflow on any other.
    pub fn bar_size_mask_valid(size_mask: u32) -> (r: bool)
        ensures
            r == bar_size_mask_ok(size_mask),
    {
        proof { lemma_pci_bits(); }
        size_mask == 0 || size_mask == 0xFFFF_FFFF || ((size_mask & 0x1) != 0 && (size_mask
            & 0xFFFF_FFFC) != 0) || ((size_mask & 0x1) == 0 && (size_mask & 0xFFFF_FFF0) != 0)
    }

    /// BAR size from the value read back after writing all-ones to it.
    pub fn detect_bar_size(&self, size_mask: u32) -> (r: u32)
        requires
            bar_size_mask_ok(size_mask),
        ensures
            r == bar_size_spec(size_mask),
    {
        if size_mask == 0 || size_mask == 0xFFFFFFFF {
            return 0;
        }
        if (size_mask & 0x1) != 0 {
            let m = size_mask & 0xFFFFFFFC;
            proof { lemma_pci_bits(); }
            !m + 1
        } else {
            let m = size_mask & 0xFFFFFFF0;
            proof { lemma_pci_bits(); }
            !m + 1
        }
    }

    /// The BAR description from its low dword `value`, the next dword `high`
    /// (used only for a 64-bit BAR below slot 5) and the probed `size`.
    pub fn get_bar_info(&self, index: u8, value: u32, high: u32, size: u32) -> (r: Option<PciBar>)
        ensures
            r == bar_info_spec(index, value, high, size),
    {
        if size == 0 {
            return None;
        }
        proof { lemma_pci_bits(); }
        let is_io = (value & 0x1) != 0;
        let is_64bit = !is_io && ((value & 0x6) == 0x4);
        let is_prefetchable = !is_io && ((value & 0x8) != 0);
        let mut address: u64 = if is_io {
            (value & 0xFFFFFFFC) as u64
        } else {
            (value & 0xFFFFFFF0) as u64
        };
        if is_64bit && index < 5 {
            let h: u64 = high as u64;
            proof { lemma_pci_bits(); }
            address = address | (h << 32u64);
        }
        Some(PciBar { index, address, size, is_io, is_64bit, is_prefetchable })
    }
}

/// A function together with its full cached header.
pub struct PrivatePciDevice {
    pub bus: u8,
    pub device: u8,
    pub function: u8,
    pub config: PciConfigSpace,
}

impl PrivatePciDevice {
    /// The function `bus:device.function` with header dwords `header`, or
    /// `None` when its vendor word reads `0xFFFF`.
    pub fn new(bus: u8, device: u8, function: u8, header: [u32; 4]) -> (r: Option<Self>)
        ensures
            r matches Some(d) ==> d.bus == bus && d.device == device && d.function == function
                && d.config == PciConfigSpace::decoded(header),
            r is Some <==> header[0] % 0x1_0000 != 0xFFFF,
    {
        if let Some(config) = PciConfigSpace::read_from_device(header) {
            Some(Self { bus, device, function, config })
        } else {
            None
        }
    }

    /// The driver-facing description of this function.
    pub fn to_public(self) -> (r: PciDevice)
        ensures
            r == public_device_spec(self.bus, self.device, self.function, self.config),
    {
        PciDevice {
            bus: self.bus,
            device: self.device,
            function: self.function,
            handle: Self::build_handle(self.bus, self.device, self.function),
            vendor_id: self.config.vendor_id,
            device_id: self.config.device_id,
            class_code: self.config.class_code,
            subclass: self.config.subclass,
        }
    }

    /// The memory address BAR `bar_index` maps (see [`bar_address_spec`]).
    pub fn read_bar(&self, bar_index: u8, bar_low: u32, bar_high: u32) -> (r: Option<u64>)
        ensures
            r == bar_address_spec(bar_index, bar_low, bar_high),
    {
        if bar_index > 5 {
            return None;
        }
        if bar_low == 0 {
            return None;
        }
        proof { lemma_pci_bits(); }
        if (bar_low & 0x1) != 0 {
            return None;
        }
        proof { lemma_pci_bits(); }
        let is_64bit = (bar_low & 0x6) == 0x4;
        let low: u64 = (bar_low & 0xFFFFFFF0) as u64;
        if is_64bit {
            if bar_index >= 5 {
                return None;
            }
            let h: u64 = bar_high as u64;
            proof { lemma_pci_bits(); }
            Some((h << 32u64) | low)
        } else {
            Some(low)
        }
    }

    /// The packed handle of function `bus:device.function`.
    pub fn build_handle(bus: u8, device: u8, function: u8) -> (r: usize)
        ensures
            r == handle_spec(bus, device, function),
    {
        let b: usize = bus as usize;
        let d: usize = device as usize;
        let f: usize = function as usize;
        proof { lemma_pci_bits(); }
        (b << 16usize) | (d << 8usize) | f
    }
}


/// What a capability-list walk asks for next.
#[derive(Clone, Copy, Debug, PartialEq, Eq)]
pub enum WalkRequest {
    /// Read the configuration byte at this offset and feed it to the walk.
    ReadByte(u8),
    /// The capability sought starts at this offset.
    Found(u8),
    /// The list ended, left the capability area, or looped: not found.
    Stopped,
}

/// Where a capability-list walk stands.
#[derive(Clone, Copy, Debug, PartialEq, Eq)]
pub enum WalkPhase {
    /// Waiting for the capability id at `offset`.
    ReadId,
    /// Waiting for the next-pointer at `offset + 1`.
    ReadNext,
    Found,
    Stopped,
}

/// A walk along a function's capability list (starting at the pointer held
/// at offset `0x34`) in search of the capability with id `target_id`.
///
/// Offsets below `0x40` or above `max_offset` end the walk, as does a
/// next-pointer of zero or one pointing at itself; each offset is visited at
/// most once, so a looping list ends the walk too.
pub struct CapabilityWalk {
    pub target_id: u8,
    pub max_offset: u8,
    pub offset: u8,
    pub phase: WalkPhase,
    pub visited: Vec<bool>,
}

impl CapabilityWalk {
    /// The offsets visited so far, by offset.
    pub open spec fn visited(&self) -> Seq<bool> {
        self.visited@
    }

    /// What is left of the walk: two steps per offset not yet visited, and
    /// one more while the id at the current offset is still to be read.
    pub open spec fn remaining(&self) -> nat {
        2 * unvisited_count(self.visited()) + if self.phase is ReadId { 1nat } else { 0nat }
    }

    /// The walk's internal consistency.
    pub open spec fn wf(&self) -> bool {
        &&& self.visited().len() == 256
        &&& self.max_offset <= 0xFE
        &&& (self.phase is ReadId || self.phase is ReadNext || self.phase is Found) ==> {
            &&& 0x40 <= self.offset <= self.max_offset
            &&& self.visited()[self.offset as int]
        }
    }

    /// Whether moving to `off` continues the walk.
    pub open spec fn can_enter(&self, off: u8) -> bool {
        0x40 <= off <= self.max_offset && !self.visited()[off as int]
    }

    fn enter(&mut self, off: u8)
        requires
            old(self).visited().len() == 256,
            old(self).max_offset <= 0xFE,
        ensures
            final(self).wf(),
            final(self).target_id == old(self).target_id,
            final(self).max_offset == old(self).max_offset,
            old(self).can_enter(off) ==> final(self).phase == WalkPhase::ReadId && final(self).offset
                == off && final(self).visited() == old(self).visited().update(off as int, true),
            !old(self).can_enter(off) ==> final(self).phase == WalkPhase::Stopped
                && final(self).offset == old(self).offset && final(self).visited() == old(
                self).visited(),
    {
        if off < 0x40 || off > self.max_offset {
            self.phase = WalkPhase::Stopped;
            return;
        }
        if self.visited[off as usize] {
            self.phase = WalkPhase::Stopped;
            return;
        }
        self.visited.set(off as usize, true);
        self.offset = off;
        self.phase = WalkPhase::ReadId;
    }

    /// A walk for capability `target_id` starting at list pointer `cap_ptr`;
    /// a zero pointer means the function has no capability list.
    pub fn new(target_id: u8, max_offset: u8, cap_ptr: u8) -> (r: Self)
        requires
            max_offset <= 0xFE,
        ensures
            r.wf(),
            r.target_id == target_id,
            r.max_offset == max_offset,
            (cap_ptr == 0 || cap_ptr < 0x40 || cap_ptr > max_offset) ==> r.phase
                == WalkPhase::Stopped,
            !(cap_ptr == 0 || cap_ptr < 0x40 || cap_ptr > max_offset) ==> r.phase
                == WalkPhase::ReadId && r.offset == cap_ptr,
            forall|i: int| 0 <= i < 256 && i != cap_ptr ==> !r.visited()[i],
    {
        let mut visited: Vec<bool> = Vec::new();
        let mut i: usize = 0;
        while i < 256
            invariant
                i <= 256,
                visited@.len() == i,
                forall|j: int| 0 <= j < i ==> !visited@[j],
            decreases 256 - i,
        {
            visited.push(false);
            i += 1;
        }
        let mut walk = CapabilityWalk {
            target_id,
            max_offset,
            offset: 0,
            phase: WalkPhase::Stopped,
            visited,
        };
        if cap_ptr != 0 {
            walk.enter(cap_ptr);
        }
        walk
    }

    /// What the walk needs next.
    pub fn request(&self) -> (r: WalkRequest)
        requires
            self.wf(),
        ensures
            self.phase == WalkPhase::ReadId ==> r == WalkRequest::ReadByte(self.offset),
            self.phase == WalkPhase::ReadNext ==> r == WalkRequest::ReadByte(
                (self.offset + 1) as u8,
            ),
            self.phase == WalkPhase::Found ==> r == WalkRequest::Found(self.offset),
            self.phase == WalkPhase::Stopped ==> r == WalkRequest::Stopped,
    {
        match self.phase {
            WalkPhase::ReadId => WalkRequest::ReadByte(self.offset),
            WalkPhase::ReadNext => WalkRequest::ReadByte(self.offset + 1),
            WalkPhase::Found => WalkRequest::Found(self.offset),
            WalkPhase::Stopped => WalkRequest::Stopped,
        }
    }

    /// Feed the byte read for the last `ReadByte` request.  An id equal to
    /// the target ends the walk at this offset; otherwise the next-pointer is
    /// read, and a pointer of zero or to the same offset ends the walk.
    pub fn feed(&mut self, value: u8)
        requires
            old(self).wf(),
            old(self).phase is ReadId || old(self).phase is ReadNext,
        ensures
            final(self).wf(),
            final(self).phase is ReadId || final(self).phase is ReadNext ==> final(self).remaining()
                < old(self).remaining(),
            final(self).target_id == old(self).target_id,
            final(self).max_offset == old(self).max_offset,
            old(self).phase is ReadId && value == old(self).target_id ==> final(self).phase
                == WalkPhase::Found && final(self).offset == old(self).offset && final(self).visited()
                == old(self).visited(),
            old(self).phase is ReadId && value != old(self).target_id ==> final(self).phase
                == WalkPhase::ReadNext && final(self).offset == old(self).offset
                && final(self).visited() == old(self).visited(),
            old(self).phase is ReadNext && (value == 0 || value == old(self).offset) ==> final(
                self).phase == WalkPhase::Stopped && final(self).visited() == old(self).visited(),
            old(self).phase is ReadNext && value != 0 && value != old(self).offset && old(
                self).can_enter(value) ==> final(self).phase == WalkPhase::ReadId && final(self).offset
                == value && final(self).visited() == old(self).visited().update(value as int, true),
            old(self).phase is ReadNext && value != 0 && value != old(self).offset && !old(
                self).can_enter(value) ==> final(self).phase == WalkPhase::Stopped
                && final(self).visited() == old(self).visited(),
    {
        match self.phase {
            WalkPhase::ReadId => {
                if value == self.target_id {
                    self.phase = WalkPhase::Found;
                } else {
                    self.phase = WalkPhase::ReadNext;
                }
            },
            _ => {
                if value == 0 || value == self.offset {
                    self.phase = WalkPhase::Stopped;
                } else {
                    let ghost before = self.visited();
                    self.enter(value);
                    proof {
                        if self.phase is ReadId {
                            lemma_mark_visited(before, value as int);
                        }
                    }
                }
            },
        }
    }
}


/// Number of offsets not yet visited.
pub open spec fn unvisited_count(s: Seq<bool>) -> nat
    decreases s.len(),
{
    if s.len() == 0 {
        0
    } else {
        unvisited_count(s.drop_last()) + if s.last() { 0nat } else { 1nat }
    }
}

/// Marking an unvisited offset leaves one fewer unvisited.
proof fn lemma_mark_visited(s: Seq<bool>, i: int)
    requires
        0 <= i < s.len(),
        !s[i],
    ensures
        unvisited_count(s.update(i, true)) + 1 == unvisited_count(s),
    decreases s.len(),
{
    let t = s.update(i, true);
    if i == s.len() - 1 {
        assert(t.drop_last() =~= s.drop_last());
    } else {
        assert(t.drop_last() =~= s.drop_last().update(i, true));
        lemma_mark_visited(s.drop_last(), i);
    }
}

/// A capability walk always ends, however the list is linked: what is
/// left of it starts below 2 * 256 + 1, and every byte fed to it (see
/// [`CapabilityWalk::feed`]) either ends it or lowers what is left.
pub proof fn lemma_walk_bounded(w: CapabilityWalk)
    requires
        w.wf(),
    ensures
        w.remaining() <= 2 * 256 + 1,
{
    lemma_unvisited_bound(w.visited());
}

/// At most all offsets are unvisited.
proof fn lemma_unvisited_bound(s: Seq<bool>)
    ensures
        unvisited_count(s) <= s.len(),
    decreases s.len(),
{
    if s.len() > 0 {
        lemma_unvisited_bound(s.drop_last());
    }
}

impl PciDevice {
    /// A walk for the power-management capability (id `0x01`), whose control
    /// register must lie at or below `0xF8 + 4`.
    pub fn ensure_d0(&self, cap_ptr: u8) -> (r: CapabilityWalk)
        ensures
            r.wf(),
            r.target_id == 0x01,
            r.max_offset == 0xF8,
            (cap_ptr < 0x40 || cap_ptr > 0xF8) ==> r.phase == WalkPhase::Stopped,
            0x40 <= cap_ptr <= 0xF8 ==> r.phase == WalkPhase::ReadId && r.offset == cap_ptr,
    {
        CapabilityWalk::new(0x01, 0xF8, cap_ptr)
    }

    /// Offset of the PMCSR register of a power-management capability at `off`.
    pub fn pm_control_offset(off: u8) -> (r: u8)
        requires
            off <= 0xF8,
        ensures
            r == off + 4,
    {
        off + 4
    }

    /// The PMCSR value that requests power state D0, or `None` when the
    /// function already is in D0 (power-state bits 1:0 clear).
    pub fn d0_request(pmcsr: u16) -> (r: Option<u16>)
        ensures
            pmcsr % 4 == 0 ==> r is None,
            pmcsr % 4 != 0 ==> r == Some(((pmcsr / 4) * 4) as u16),
    {
        proof { lemma_pci_bits(); }
        if pmcsr & 0x3 != 0 {
            Some(pmcsr & !0x3)
        } else {
            None
        }
    }

    /// The one write [`ensure_d0`](Self::ensure_d0) makes, from the walk's
    /// outcome (the power-management capability's offset, if found) and the
    /// PMCSR word read there: the register and the value requesting D0, or
    /// `None` when there is no capability or the function already is in D0.
    pub fn d0_write(found: Option<u8>, pmcsr: u16) -> (r: Option<(u8, u16)>)
        requires
            found matches Some(off) ==> off <= 0xF8,
        ensures
            found is None ==> r is None,
            found matches Some(off) ==> r == (if pmcsr % 4 == 0 {
                None
            } else {
                Some(((off + 4) as u8, ((pmcsr / 4) * 4) as u16))
            }),
    {
        match found {
            None => None,
            Some(off) => match Self::d0_request(pmcsr) {
                Some(value) => Some((Self::pm_control_offset(off), value)),
                None => None,
            },
        }
    }

    /// One poll of PMCSR after D0 was requested: done once the power state
    /// reads D0, given up after ten thousand polls.
    pub fn d0_poll(pmcsr: u16, poll: u32) -> (r: crate::vtd::WaitStep)
        ensures
            pmcsr % 4 == 0 ==> r == crate::vtd::WaitStep::Done,
            pmcsr % 4 != 0 && poll + 1 >= 10000 ==> r == crate::vtd::WaitStep::TimedOut,
            pmcsr % 4 != 0 && poll + 1 < 10000 ==> r == crate::vtd::WaitStep::Continue,
    {
        proof { lemma_pci_bits(); }
        if pmcsr & 0x3 == 0 {
            crate::vtd::WaitStep::Done
        } else if poll >= 9999 {
            crate::vtd::WaitStep::TimedOut
        } else {
            crate::vtd::WaitStep::Continue
        }
    }

    /// A walk for the PCI Express capability (id `0x10`) anywhere up to `0xFC`.
    pub fn disable_pcie_aspm(&self, cap_ptr: u8) -> (r: CapabilityWalk)
        ensures
            r.wf(),
            r.target_id == 0x10,
            r.max_offset == 0xFC,
            (cap_ptr < 0x40 || cap_ptr > 0xFC) ==> r.phase == WalkPhase::Stopped,
            0x40 <= cap_ptr <= 0xFC ==> r.phase == WalkPhase::ReadId && r.offset == cap_ptr,
    {
        CapabilityWalk::new(0x10, 0xFC, cap_ptr)
    }

    /// Offset of the Link Control register of a PCI Express capability at
    /// `off`; the offset is an 8-bit sum, so the capability must start at or
    /// below `0xEF`.
    pub fn link_control_offset(off: u8) -> (r: u8)
        requires
            off <= 0xEF,
        ensures
            r == off + 0x10,
    {
        off + 0x10
    }

    /// The one write [`disable_pcie_aspm`](Self::disable_pcie_aspm) makes,
    /// from the walk's outcome (the PCI Express capability's offset, if
    /// found) and the Link Control word read there: the register and the
    /// value with ASPM off, or `None` when there is no capability or ASPM
    /// already is off.
    pub fn aspm_write(found: Option<u8>, lnk_ctrl: u16) -> (r: Option<(u8, u16)>)
        requires
            found matches Some(off) ==> off <= 0xEF,
        ensures
            found is None ==> r is None,
            found matches Some(off) ==> r == (if lnk_ctrl % 4 == 0 {
                None
            } else {
                Some(((off + 0x10) as u8, ((lnk_ctrl / 4) * 4) as u16))
            }),
    {
        match found {
            None => None,
            Some(off) => match Self::aspm_disable_value(lnk_ctrl) {
                Some(value) => Some((Self::link_control_offset(off), value)),
                None => None,
            },
        }
    }

    /// The Link Control value with ASPM (bits 1:0) disabled, or `None` when
    /// ASPM already is off.
    pub fn aspm_disable_value(lnk_ctrl: u16) -> (r: Option<u16>)
        ensures
            lnk_ctrl % 4 == 0 ==> r is None,
            lnk_ctrl % 4 != 0 ==> r == Some(((lnk_ctrl / 4) * 4) as u16),
    {
        Self::d0_request(lnk_ctrl)
    }
}

/// What a bus scan asks for next.
#[derive(Clone, Copy, Debug, PartialEq, Eq)]
pub enum ScanRequest {
    /// Read the vendor word (offset 0) of `bus:device.function`.
    ReadVendor { bus: u8, device: u8, function: u8 },
    /// Read the header-type byte (offset `0x0E`) of `bus:device.0`.
    ReadHeaderType { bus: u8, device: u8 },
    /// Read the four header dwords (offsets 0, 4, 8, 12) of the function.
    ReadHeader { bus: u8, device: u8, function: u8 },
    /// Read the secondary-bus byte (offset `0x19`) of a PCI-to-PCI bridge.
    ReadSecondaryBus { bus: u8, device: u8, function: u8 },
    /// The scan is over.
    Done,
}

/// Which read a bus scan waits for.
#[derive(Clone, Copy, Debug, PartialEq, Eq)]
pub enum ScanStage {
    /// Whether a secondary bus answers at all (vendor of device 0, function 0).
    BusCheck,
    /// Whether function 0 of the current device answers.
    DeviceVendor,
    /// Whether function 0 of the current device is multi-function.
    HeaderType,
    /// Whether the current function answers.
    FunctionVendor,
    /// The header of the current function.
    Header,
    /// The secondary bus behind the current bridge.
    SecondaryBus,
    Done,
}

/// Whether a vendor word shows a function: neither all-ones nor zero.
pub open spec fn vendor_present(vendor: u16) -> bool {
    vendor != 0xFFFF && vendor != 0
}

/// Whether a function is a PCI-to-PCI bridge (class `0x06`, subclass `0x04`).
pub open spec fn is_bridge(dev: PciDevice) -> bool {
    dev.class_code == 0x06 && dev.subclass == 0x04
}

/// The first bus above `from` that is marked for scanning, if any.
pub open spec fn next_marked(marked: Seq<bool>, from: int) -> Option<int>
    decreases 256 - from,
{
    if from + 1 > 255 {
        None
    } else if marked[from + 1] {
        Some(from + 1)
    } else {
        next_marked(marked, from + 1)
    }
}

/// Enumerates PCI functions: bus 0 first, then every bus named as secondary
/// bus by a bridge found on the way, in increasing bus order.
pub struct PciScanner {
    pub devices: Vec<PciDevice>,
    pub buses_to_scan: Vec<bool>,
    pub bus: u8,
    pub device: u8,
    pub function: u8,
    pub stage: ScanStage,
    pub pending: Option<PciDevice>,
}

/// The position of a scan in the enumeration order, together with what it
/// found so far.
pub struct ScanView {
    pub bus: int,
    pub device: int,
    pub function: int,
    pub stage: ScanStage,
    pub marked: Seq<bool>,
    pub devices: Seq<PciDevice>,
    pub pending: Option<PciDevice>,
}

/// The scan moved past the last bus, or on to the next marked bus.
pub open spec fn advance_bus(v: ScanView) -> ScanView {
    match next_marked(v.marked, v.bus) {
        None => ScanView { stage: ScanStage::Done, ..v },
        Some(b) => ScanView { bus: b, device: 0, function: 0, stage: ScanStage::BusCheck, ..v },
    }
}

/// The scan moved on to the next device slot of the bus.
pub open spec fn advance_device(v: ScanView) -> ScanView {
    if v.device >= 31 {
        advance_bus(v)
    } else {
        ScanView { device: v.device + 1, function: 0, stage: ScanStage::DeviceVendor, ..v }
    }
}

/// The scan moved on to the next function of the device.
pub open spec fn advance_function(v: ScanView) -> ScanView {
    if v.function >= 7 {
        advance_device(v)
    } else {
        ScanView { function: v.function + 1, stage: ScanStage::HeaderType, ..v }
    }
}


/// The scan after the vendor word `vendor` was read.
pub open spec fn feed_vendor_spec(v: ScanView, vendor: u16) -> ScanView {
    if v.stage == ScanStage::BusCheck {
        if vendor_present(vendor) {
            ScanView { stage: ScanStage::DeviceVendor, ..v }
        } else {
            advance_bus(ScanView { marked: v.marked.update(v.bus, false), ..v })
        }
    } else if v.stage == ScanStage::DeviceVendor {
        if vendor_present(vendor) {
            ScanView { function: 0, stage: ScanStage::FunctionVendor, ..v }
        } else {
            advance_device(v)
        }
    } else {
        if vendor_present(vendor) {
            ScanView { stage: ScanStage::Header, ..v }
        } else {
            advance_function(v)
        }
    }
}

/// The scan after the header-type byte of function 0 was read: further
/// functions are probed only when the multi-function bit (bit 7) is set.
pub open spec fn feed_header_type_spec(v: ScanView, header_type: u8) -> ScanView {
    if header_type < 0x80 {
        advance_device(v)
    } else {
        ScanView { stage: ScanStage::FunctionVendor, ..v }
    }
}

/// The scan after the header of the current function was read.  On bus 0 a
/// function is recorded at once; on other buses a bridge is recorded after
/// its secondary bus has been read.
pub open spec fn feed_header_spec(v: ScanView, header: [u32; 4]) -> ScanView {
    match probe_spec(v.bus as u8, v.device as u8, v.function as u8, header) {
        None => advance_function(v),
        Some(dev) => if v.bus == 0 {
            if is_bridge(dev) {
                ScanView { devices: v.devices.push(dev), stage: ScanStage::SecondaryBus, ..v }
            } else {
                advance_function(ScanView { devices: v.devices.push(dev), ..v })
            }
        } else {
            if is_bridge(dev) {
                ScanView { pending: Some(dev), stage: ScanStage::SecondaryBus, ..v }
            } else {
                advance_function(ScanView { devices: v.devices.push(dev), ..v })
            }
        },
    }
}

/// The scan after a bridge's secondary bus number was read.  From bus 0 any
/// secondary bus in 1..=254 is marked; from another bus only one above it.
pub open spec fn feed_secondary_bus_spec(v: ScanView, secondary: u8) -> ScanView {
    if v.bus == 0 {
        let marked = if 0 < secondary < 255 {
            v.marked.update(secondary as int, true)
        } else {
            v.marked
        };
        advance_function(ScanView { marked, ..v })
    } else {
        let marked = if secondary > v.bus {
            v.marked.update(secondary as int, true)
        } else {
            v.marked
        };
        advance_function(
            ScanView {
                marked,
                devices: v.devices.push(v.pending->Some_0),
                pending: None,
                ..v
            },
        )
    }
}

/// Position of function `bus:device.function` in the order a scan visits
/// functions.
pub open spec fn scan_key(bus: int, device: int, function: int) -> int {
    bus * 0x1_0000 + device * 0x100 + function
}

/// Position of a recorded function in the scan order.
pub open spec fn dev_key(d: PciDevice) -> int {
    scan_key(d.bus as int, d.device as int, d.function as int)
}

/// A scan's findings are in scan order: the recorded functions strictly
/// ascend by bus, device and function, each answers (vendor not `0xFFFF`),
/// and none lies beyond the current position, the one at the current
/// position being a bridge whose secondary bus is awaited (or the scan
/// having ended there).
pub open spec fn scan_ordered(v: ScanView) -> bool {
    let cur = scan_key(v.bus, v.device, v.function);
    &&& 0 <= v.bus <= 255 && 0 <= v.device <= 31 && 0 <= v.function <= 7
    &&& forall|i: int, j: int|
        0 <= i < j < v.devices.len() ==> dev_key(#[trigger] v.devices[i]) < dev_key(#[trigger] v.devices[j])
    &&& forall|i: int| 0 <= i < v.devices.len() ==> {
        &&& dev_key(#[trigger] v.devices[i]) <= cur
        &&& dev_key(v.devices[i]) == cur ==> (v.stage == ScanStage::SecondaryBus || v.stage == ScanStage::Done)
        &&& v.devices[i].vendor_id != 0xFFFF
    }
    &&& v.pending matches Some(d) ==> v.stage == ScanStage::SecondaryBus && v.bus != 0
        && dev_key(d) == cur && d.vendor_id != 0xFFFF
    &&& v.stage == ScanStage::SecondaryBus && v.bus != 0 ==> v.pending is Some
    &&& v.stage == ScanStage::BusCheck ==> v.device == 0 && v.function == 0
    &&& v.stage == ScanStage::DeviceVendor ==> v.function == 0
    &&& v.stage == ScanStage::SecondaryBus ==> forall|i: int| 0 <= i < v.devices.len() ==>
        (dev_key(#[trigger] v.devices[i]) < cur || v.bus == 0)
}

proof fn lemma_next_marked(marked: Seq<bool>, from: int)
    requires
        0 <= from <= 255,
    ensures
        next_marked(marked, from) matches Some(b) ==> from < b <= 255,
    decreases 256 - from,
{
    if from + 1 <= 255 && !marked[from + 1] {
        lemma_next_marked(marked, from + 1);
    }
}

/// A bus marked above the current one is reached: the next bus the scan
/// moves to is marked, lies above the current one and no higher than any
/// marked bus above it.
pub proof fn lemma_marked_bus_reached(marked: Seq<bool>, from: int, target: int)
    requires
        0 <= from < target <= 255,
        marked.len() == 256,
        marked[target],
    ensures
        next_marked(marked, from) matches Some(b) && from < b <= target && marked[b],
    decreases target - from,
{
    if !marked[from + 1] {
        lemma_marked_bus_reached(marked, from + 1, target);
    }
}

/// A bridge's secondary bus is scheduled: after the secondary-bus byte `s`
/// of a bridge is fed, bus `s` is marked for scanning when the bridge sits
/// on bus 0 and `0 < s < 255`, or on another bus and `s` lies above it; no
/// mark is ever dropped by this step, and the bridge found off bus 0 is
/// recorded.
pub proof fn lemma_bridge_marks_secondary(v: ScanView, s: u8)
    requires
        v.stage == ScanStage::SecondaryBus,
        v.marked.len() == 256,
        0 <= v.bus <= 255,
    ensures
        ((v.bus == 0 && 0 < s < 255) || (v.bus != 0 && s > v.bus))
            ==> feed_secondary_bus_spec(v, s).marked[s as int],
        forall|b: int| 0 <= b < 256 && v.marked[b] ==> #[trigger] feed_secondary_bus_spec(v, s).marked[b],
        feed_secondary_bus_spec(v, s).marked.len() == 256,
        v.bus != 0 ==> feed_secondary_bus_spec(v, s).devices == v.devices.push(v.pending->Some_0),
        v.bus == 0 ==> feed_secondary_bus_spec(v, s).devices == v.devices,
{
}

/// Moving on never goes back: the position after `advance_function` lies
/// beyond the current one, or the scan is over where it stood.
proof fn lemma_advance_forward(v: ScanView)
    requires
        0 <= v.bus <= 255 && 0 <= v.device <= 31 && 0 <= v.function <= 7,
    ensures
        ({
            let w = advance_function(v);
            &&& w.devices == v.devices && w.pending == v.pending
            &&& 0 <= w.bus <= 255 && 0 <= w.device <= 31 && 0 <= w.function <= 7
            &&& (w.stage == ScanStage::Done && w.bus == v.bus && w.device == v.device && w.function == v.function)
                || scan_key(w.bus, w.device, w.function) > scan_key(v.bus, v.device, v.function)
            &&& w.stage != ScanStage::SecondaryBus
        }),
        ({
            let w = advance_device(v);
            &&& w.devices == v.devices && w.pending == v.pending
            &&& 0 <= w.bus <= 255 && 0 <= w.device <= 31 && 0 <= w.function <= 7
            &&& (w.stage == ScanStage::Done && w.bus == v.bus && w.device == v.device && w.function == v.function)
                || scan_key(w.bus, w.device, w.function) > scan_key(v.bus, v.device, v.function)
            &&& w.stage != ScanStage::SecondaryBus
        }),
        ({
            let w = advance_bus(v);
            &&& w.devices == v.devices && w.pending == v.pending
            &&& 0 <= w.bus <= 255 && 0 <= w.device <= 31 && 0 <= w.function <= 7
            &&& (w.stage == ScanStage::Done && w.bus == v.bus && w.device == v.device && w.function == v.function)
                || scan_key(w.bus, w.device, w.function) > scan_key(v.bus, v.device, v.function)
            &&& w.stage != ScanStage::SecondaryBus
        }),
{
    lemma_next_marked(v.marked, v.bus);
}

/// A scan lists functions in increasing bus, device and function order,
/// each once and each answering: a fresh scan starts in order, and every
/// step of a scan keeps it so.
pub proof fn lemma_scan_in_order(v: ScanView, vendor: u16, header_type: u8, header: [u32; 4], secondary: u8, marked: Seq<bool>)
    requires
        scan_ordered(v),
    ensures
        scan_ordered(ScanView {
            bus: 0,
            device: 0,
            function: 0,
            stage: ScanStage::DeviceVendor,
            marked,
            devices: Seq::empty(),
            pending: None,
        }),
        (v.stage == ScanStage::BusCheck || v.stage == ScanStage::DeviceVendor || v.stage
            == ScanStage::FunctionVendor) ==> scan_ordered(feed_vendor_spec(v, vendor)),
        v.stage == ScanStage::HeaderType ==> scan_ordered(feed_header_type_spec(v, header_type)),
        v.stage == ScanStage::Header ==> scan_ordered(feed_header_spec(v, header)),
        v.stage == ScanStage::SecondaryBus ==> scan_ordered(feed_secondary_bus_spec(v, secondary)),
{
    let cur = scan_key(v.bus, v.device, v.function);
    lemma_advance_forward(v);
    let vm = ScanView { marked: v.marked.update(v.bus, false), ..v };
    lemma_advance_forward(vm);
    if v.stage == ScanStage::Header {
        match probe_spec(v.bus as u8, v.device as u8, v.function as u8, header) {
            None => {},
            Some(dev) => {
                assert(dev_key(dev) == cur);
                let pushed = ScanView { devices: v.devices.push(dev), ..v };
                lemma_advance_forward(pushed);
                let w = feed_header_spec(v, header);
                assert forall|i: int, j: int| 0 <= i < j < w.devices.len() implies dev_key(
                    #[trigger] w.devices[i],
                ) < dev_key(#[trigger] w.devices[j]) by {
                    if j == v.devices.len() {
                        assert(dev_key(v.devices[i]) <= cur);
                    }
                }
            },
        }
    }
    if v.stage == ScanStage::SecondaryBus {
        let marked0 = if 0 < secondary < 255 { v.marked.update(secondary as int, true) } else { v.marked };
        lemma_advance_forward(ScanView { marked: marked0, ..v });
        let marked1 = if secondary > v.bus { v.marked.update(secondary as int, true) } else { v.marked };
        if v.bus != 0 {
            let d = v.pending->Some_0;
            let pushed = ScanView { marked: marked1, devices: v.devices.push(d), pending: None, ..v };
            lemma_advance_forward(pushed);
            let w = feed_secondary_bus_spec(v, secondary);
            assert forall|i: int, j: int| 0 <= i < j < w.devices.len() implies dev_key(
                #[trigger] w.devices[i],
            ) < dev_key(#[trigger] w.devices[j]) by {
                if j == v.devices.len() {
                    assert(dev_key(v.devices[i]) < cur);
                }
            }
        }
    }
}

impl PciScanner {
    pub open spec fn view(&self) -> ScanView {
        ScanView {
            bus: self.bus as int,
            device: self.device as int,
            function: self.function as int,
            stage: self.stage,
            marked: self.buses_to_scan@,
            devices: self.devices@,
            pending: self.pending,
        }
    }

    /// Consistency that holds at every point of a scan step: one mark per
    /// bus, a position inside the enumeration order, and every recorded
    /// function answering (vendor not `0xFFFF`) and on bus 0 or on a marked
    /// bus no higher than the current one.
    pub open spec fn wf_core(&self) -> bool {
        &&& self.buses_to_scan@.len() == 256
        &&& self.device < 32
        &&& self.function < 8
        &&& forall|i: int| 0 <= i < self.devices@.len() ==> {
            &&& (#[trigger] self.devices@[i]).bus <= self.bus
            &&& (self.devices@[i].bus == 0 || self.buses_to_scan@[self.devices@[i].bus as int])
            &&& self.devices@[i].vendor_id != 0xFFFF
        }
        &&& self.pending matches Some(d) ==> d.bus == self.bus && d.vendor_id != 0xFFFF
    }

    /// The scanner's internal consistency between steps: besides
    /// [`Self::wf_core`], the current bus is bus 0 or marked, a bridge waits
    /// for its secondary bus exactly when one was found off bus 0, and no
    /// function of a bus is recorded before the bus was checked.
    pub open spec fn wf(&self) -> bool {
        &&& self.wf_core()
        &&& self.stage != ScanStage::Done ==> (self.bus == 0 || self.buses_to_scan@[self.bus as int])
        &&& self.pending is Some <==> (self.stage == ScanStage::SecondaryBus && self.bus > 0)
        &&& self.stage == ScanStage::BusCheck ==> forall|i: int|
            0 <= i < self.devices@.len() ==> (#[trigger] self.devices@[i]).bus < self.bus
    }

    /// An idle scanner with no functions recorded.
    pub fn new() -> (r: Self)
        ensures
            r.wf(),
            r.devices@.len() == 0,
            r.stage == ScanStage::Done,
    {
        let mut buses: Vec<bool> = Vec::new();
        let mut i: usize = 0;
        while i < 256
            invariant
                i <= 256,
                buses@.len() == i,
            decreases 256 - i,
        {
            buses.push(false);
            i += 1;
        }
        PciScanner {
            devices: Vec::new(),
            buses_to_scan: buses,
            bus: 0,
            device: 0,
            function: 0,
            stage: ScanStage::Done,
            pending: None,
        }
    }

    /// Start a scan from scratch: forget what was found, mark only bus 0 and
    /// ask for device 0 of bus 0.
    pub fn scan_all_buses(&mut self) -> (r: Result<(), ()>)
        ensures
            final(self).wf(),
            r is Ok,
            final(self).devices@.len() == 0,
            final(self).bus == 0 && final(self).device == 0 && final(self).function == 0,
            final(self).stage == ScanStage::DeviceVendor,
            final(self).buses_to_scan@ == Seq::new(256, |i: int| i == 0),
    {
        self.devices.clear();
        let mut buses: Vec<bool> = Vec::new();
        let mut i: usize = 0;
        while i < 256
            invariant
                i <= 256,
                buses@ == Seq::new(i as nat, |j: int| j == 0),
            decreases 256 - i,
        {
            buses.push(i == 0);
            i += 1;
        }
        self.buses_to_scan = buses;
        self.bus = 0;
        self.device = 0;
        self.function = 0;
        self.stage = ScanStage::DeviceVendor;
        self.pending = None;
        Ok(())
    }

    /// The functions recorded so far (all of them once the scan is done).
    pub fn get_devices(&self) -> (r: &[PciDevice])
        ensures
            r@ == self.devices@,
    {
        self.devices.as_slice()
    }

    /// What the scan needs next.
    pub fn request(&self) -> (r: ScanRequest)
        ensures
            self.stage == ScanStage::BusCheck ==> r == (ScanRequest::ReadVendor {
                bus: self.bus,
                device: 0,
                function: 0,
            }),
            self.stage == ScanStage::DeviceVendor ==> r == (ScanRequest::ReadVendor {
                bus: self.bus,
                device: self.device,
                function: 0,
            }),
            self.stage == ScanStage::HeaderType ==> r == (ScanRequest::ReadHeaderType {
                bus: self.bus,
                device: self.device,
            }),
            self.stage == ScanStage::FunctionVendor ==> r == (ScanRequest::ReadVendor {
                bus: self.bus,
                device: self.device,
                function: self.function,
            }),
            self.stage == ScanStage::Header ==> r == (ScanRequest::ReadHeader {
                bus: self.bus,
                device: self.device,
                function: self.function,
            }),
            self.stage == ScanStage::SecondaryBus ==> r == (ScanRequest::ReadSecondaryBus {
                bus: self.bus,
                device: self.device,
                function: self.function,
            }),
            self.stage == ScanStage::Done ==> r == ScanRequest::Done,
    {
        match self.stage {
            ScanStage::BusCheck => ScanRequest::ReadVendor { bus: self.bus, device: 0, function: 0 },
            ScanStage::DeviceVendor => ScanRequest::ReadVendor {
                bus: self.bus,
                device: self.device,
                function: 0,
            },
            ScanStage::HeaderType => ScanRequest::ReadHeaderType {
                bus: self.bus,
                device: self.device,
            },
            ScanStage::FunctionVendor => ScanRequest::ReadVendor {
                bus: self.bus,
                device: self.device,
                function: self.function,
            },
            ScanStage::Header => ScanRequest::ReadHeader {
                bus: self.bus,
                device: self.device,
                function: self.function,
            },
            ScanStage::SecondaryBus => ScanRequest::ReadSecondaryBus {
                bus: self.bus,
                device: self.device,
                function: self.function,
            },
            ScanStage::Done => ScanRequest::Done,
        }
    }

    /// Feed the vendor word read for a `ReadVendor` request.
    pub fn feed_vendor(&mut self, vendor: u16)
        requires
            old(self).wf(),
            old(self).stage == ScanStage::BusCheck || old(self).stage == ScanStage::DeviceVendor
                || old(self).stage == ScanStage::FunctionVendor,
        ensures
            final(self).wf(),
            final(self).view() == feed_vendor_spec(old(self).view(), vendor),
    {
        let present = vendor != 0xFFFF && vendor != 0;
        match self.stage {
            ScanStage::BusCheck => {
                if present {
                    self.stage = ScanStage::DeviceVendor;
                } else {
                    let b = self.bus as usize;
                    self.buses_to_scan.set(b, false);
                    self.advance_bus();
                }
            },
            ScanStage::DeviceVendor => {
                if present {
                    self.function = 0;
                    self.stage = ScanStage::FunctionVendor;
                } else {
                    self.advance_device();
                }
            },
            _ => {
                if present {
                    self.stage = ScanStage::Header;
                } else {
                    self.advance_function();
                }
            },
        }
    }

    /// Feed the header-type byte read for a `ReadHeaderType` request.
    pub fn feed_header_type(&mut self, header_type: u8)
        requires
            old(self).wf(),
            old(self).stage == ScanStage::HeaderType,
        ensures
            final(self).wf(),
            final(self).view() == feed_header_type_spec(old(self).view(), header_type),
    {
        proof { lemma_pci_bits(); }
        if (header_type & 0x80) == 0 {
            self.advance_device();
        } else {
            self.stage = ScanStage::FunctionVendor;
        }
    }

    /// Feed the four header dwords read for a `ReadHeader` request.
    pub fn feed_header(&mut self, header: [u32; 4])
        requires
            old(self).wf(),
            old(self).stage == ScanStage::Header,
        ensures
            final(self).wf(),
            final(self).view() == feed_header_spec(old(self).view(), header),
    {
        match PciDevice::new(self.bus, self.device, self.function, header) {
            None => {
                self.advance_function();
            },
            Some(dev) => {
                let bridge = dev.class_code == 0x06 && dev.subclass == 0x04;
                if self.bus == 0 {
                    self.devices.push(dev);
                    if bridge {
                        self.stage = ScanStage::SecondaryBus;
                    } else {
                        self.advance_function();
                    }
                } else {
                    if bridge {
                        self.pending = Some(dev);
                        self.stage = ScanStage::SecondaryBus;
                    } else {
                        self.devices.push(dev);
                        self.advance_function();
                    }
                }
            },
        }
    }

    /// Feed the secondary-bus byte read for a `ReadSecondaryBus` request.
    pub fn feed_secondary_bus(&mut self, secondary: u8)
        requires
            old(self).wf(),
            old(self).stage == ScanStage::SecondaryBus,
        ensures
            final(self).wf(),
            final(self).view() == feed_secondary_bus_spec(old(self).view(), secondary),
    {
        if self.bus == 0 {
            if secondary > 0 && secondary < 255 {
                self.buses_to_scan.set(secondary as usize, true);
            }
            self.advance_function();
        } else {
            if secondary > self.bus && !self.buses_to_scan[secondary as usize] {
                self.buses_to_scan.set(secondary as usize, true);
            } else if secondary > self.bus {
                assert(self.buses_to_scan@.update(secondary as int, true) =~= self.buses_to_scan@);
            }
            let dev = self.pending.unwrap();
            self.pending = None;
            self.devices.push(dev);
            self.advance_function();
        }
    }

    fn find_next_marked(marked: &Vec<bool>, from: u8) -> (r: Option<u8>)
        requires
            marked@.len() == 256,
        ensures
            r matches Some(b) ==> next_marked(marked@, from as int) == Some(b as int) && b > from
                && marked@[b as int],
            r is None ==> next_marked(marked@, from as int) is None,
    {
        let mut b: u16 = from as u16 + 1;
        while b <= 255
            invariant
                from < b <= 256,
                marked@.len() == 256,
                next_marked(marked@, from as int) == next_marked(marked@, b - 1),
            decreases 256 - b,
        {
            if marked[b as usize] {
                return Some(b as u8);
            }
            b += 1;
        }
        None
    }

    fn advance_bus(&mut self)
        requires
            old(self).wf_core(),
            old(self).pending is None,
        ensures
            final(self).view() == advance_bus(old(self).view()),
            final(self).wf(),
    {
        match Self::find_next_marked(&self.buses_to_scan, self.bus) {
            Some(b) => {
                self.bus = b;
                self.device = 0;
                self.function = 0;
                self.stage = ScanStage::BusCheck;
            },
            None => {
                self.stage = ScanStage::Done;
            },
        }
    }

    fn advance_device(&mut self)
        requires
            old(self).wf_core(),
            old(self).bus == 0 || old(self).buses_to_scan@[old(self).bus as int],
            old(self).pending is None,
            old(self).stage != ScanStage::Done,
        ensures
            final(self).view() == advance_device(old(self).view()),
            final(self).wf(),
    {
        if self.device >= 31 {
            self.advance_bus();
        } else {
            self.device = self.device + 1;
            self.function = 0;
            self.stage = ScanStage::DeviceVendor;
        }
    }

    fn advance_function(&mut self)
        requires
            old(self).wf_core(),
            old(self).bus == 0 || old(self).buses_to_scan@[old(self).bus as int],
            old(self).pending is None,
            old(self).stage != ScanStage::Done,
        ensures
            final(self).view() == advance_function(old(self).view()),
            final(self).wf(),
    {
        if self.function >= 7 {
            self.advance_device();
        } else {
            self.function = self.function + 1;
            self.stage = ScanStage::HeaderType;
        }
    }
}

/// A word written with [`PciConfigSpace::write_config_word_raw`] reads back
/// as written, and the other half of the dword is left as it was.
pub proof fn lemma_word_write_reads_back(existing: u32, offset: u8, value: u16, new_dword: u32)
    requires
        offset % 4 < 2 ==> new_dword == (existing / 0x1_0000) * 0x1_0000 + value,
        offset % 4 >= 2 ==> new_dword == value * 0x1_0000 + existing % 0x1_0000,
    ensures
        dword_word(new_dword, offset) == value,
        forall|other: u8| other % 4 < 2 != (offset % 4 < 2) ==> dword_word(new_dword, other)
            == dword_word(existing, other),
{
}

} // verus!
