//! ACPI table discovery: RSDP validation and search, root-table selection,
//! entry decoding and table lookup by signature.
//!
//! The caller maps physical memory and hands over the bytes it maps; the
//! functions here validate, decode and choose.
use vstd::prelude::*;
use crate::bytes::{le16, le32, le64, read_le32, read_le64};

verus! {

/// Sum of a byte sequence.
pub open spec fn byte_sum(s: Seq<u8>) -> int
    decreases s.len(),
{
    if s.len() == 0 {
        0
    } else {
        byte_sum(s.drop_last()) + s.last()
    }
}

/// An ACPI checksum holds: the bytes add up to zero modulo 256.
pub open spec fn checksum_ok(s: Seq<u8>) -> bool {
    byte_sum(s) % 256 == 0
}

/// The RSDP signature, `"RSD PTR "`.
pub open spec fn rsdp_signature() -> Seq<u8> {
    seq![0x52u8, 0x53u8, 0x44u8, 0x20u8, 0x50u8, 0x54u8, 0x52u8, 0x20u8]
}

/// Number of bytes the RSDP checksum covers: 36 from revision 2 on, 20 before.
pub open spec fn rsdp_checked_len(b: Seq<u8>) -> int {
    if b[15] >= 2 {
        36
    } else {
        20
    }
}

/// Whether `b` starts with a valid RSDP: the signature, and a checksum over
/// the length its revision calls for.
pub open spec fn rsdp_valid(b: Seq<u8>) -> bool {
    &&& b.len() >= 20
    &&& b.subrange(0, 8) == rsdp_signature()
    &&& b.len() >= rsdp_checked_len(b)
    &&& checksum_ok(b.subrange(0, rsdp_checked_len(b)))
}

/// Root System Description Pointer.
#[derive(Clone, Copy)]
pub struct Rsdp {
    pub signature: [u8; 8],
    pub checksum: u8,
    pub oem_id: [u8; 6],
    pub revision: u8,
    pub rsdt_address: u32,
    pub length: u32,
    pub xsdt_address: u64,
    pub extended_checksum: u8,
}

/// Header shared by every system description table.
#[derive(Clone, Copy)]
pub struct SdtHeader {
    pub signature: [u8; 4],
    pub length: u32,
    pub revision: u8,
    pub checksum: u8,
    pub oem_id: [u8; 6],
    pub oem_table_id: [u8; 8],
    pub oem_revision: u32,
    pub creator_id: u32,
    pub creator_revision: u32,
}

/// Physical-to-virtual translation used for table access: a fixed offset.
pub struct AcpiContext {
    pub phys_to_virt_offset: u64,
}

/// Set the physical-memory offset used for ACPI table access.
pub fn set_phys_to_virt_offset(ctx: &mut AcpiContext, offset: u64)
    ensures
        final(ctx).phys_to_virt_offset == offset,
{
    ctx.phys_to_virt_offset = offset;
}

impl AcpiContext {
    /// A context whose offset is zero (identity mapping).
    pub fn new() -> (r: Self)
        ensures
            r.phys_to_virt_offset == 0,
    {
        AcpiContext { phys_to_virt_offset: 0 }
    }

    /// Virtual address of `phys`, or `None` (a null pointer) when the sum
    /// does not fit in 64 bits or is zero.
    pub fn phys_to_virt(&self, phys: u64) -> (r: Option<u64>)
        ensures
            0 < phys + self.phys_to_virt_offset <= u64::MAX ==> r == Some(
                (phys + self.phys_to_virt_offset) as u64,
            ),
            phys + self.phys_to_virt_offset > u64::MAX || phys + self.phys_to_virt_offset == 0 ==> r
                is None,
    {
        match phys.checked_add(self.phys_to_virt_offset) {
            Some(v) => if v == 0 { None } else { Some(v) },
            None => None,
        }
    }
}

/// Whether the bytes of `data` add up to zero modulo 256.
pub fn checksum(data: &[u8]) -> (r: bool)
    ensures
        r == checksum_ok(data@),
{
    let mut acc: u8 = 0;
    let mut i: usize = 0;
    while i < data.len()
        invariant
            i <= data@.len(),
            acc == byte_sum(data@.subrange(0, i as int)) % 256,
        decreases data@.len() - i,
    {
        assert(data@.subrange(0, i + 1).drop_last() =~= data@.subrange(0, i as int));
        acc = acc.wrapping_add(data[i]);
        i += 1;
    }
    assert(data@.subrange(0, data@.len() as int) =~= data@);
    acc == 0
}

/// Whether `bytes` (the memory at a candidate address) hold a valid RSDP.
pub fn find_rsdp_at(bytes: &[u8]) -> (r: bool)
    ensures
        r == rsdp_valid(bytes@),
{
    if bytes.len() < 20 {
        return false;
    }
    let sig: [u8; 8] = [0x52, 0x53, 0x44, 0x20, 0x50, 0x54, 0x52, 0x20];
    let mut i: usize = 0;
    while i < 8
        invariant
            i <= 8,
            bytes@.len() >= 20,
            sig@ == rsdp_signature(),
            forall|j: int| 0 <= j < i ==> bytes@[j] == rsdp_signature()[j],
        decreases 8 - i,
    {
        if bytes[i] != sig[i] {
            assert(bytes@.subrange(0, 8)[i as int] != rsdp_signature()[i as int]);
            return false;
        }
        i += 1;
    }
    assert(bytes@.subrange(0, 8) =~= rsdp_signature());
    let cksum_len: usize = if bytes[15] >= 2 {
        36
    } else {
        20
    };
    if bytes.len() < cksum_len {
        return false;
    }
    checksum(&bytes[0..cksum_len])
}

/// Validate an RSDP at physical address `addr`, given `bytes`, the memory
/// it translates to: an address that does not translate (the sum overflows
/// or is the null pointer) holds none.
pub fn find_rsdp_from_addr(ctx: &AcpiContext, addr: u64, bytes: &[u8]) -> (r: bool)
    ensures
        r == (0 < addr + ctx.phys_to_virt_offset <= u64::MAX && rsdp_valid(bytes@)),
{
    match ctx.phys_to_virt(addr) {
        None => false,
        Some(_) => find_rsdp_at(bytes),
    }
}


/// The first offset `k` (a multiple of 16 below `len`) at which `region`
/// (the memory from `start` on) holds a valid RSDP, searched upwards from
/// `from`.
pub open spec fn first_rsdp_from(region: Seq<u8>, len: int, from: int) -> Option<int>
    decreases len + 16 - from,
{
    if from >= len || from < 0 {
        None
    } else if from <= region.len() && rsdp_valid(region.skip(from)) {
        Some(from)
    } else {
        first_rsdp_from(region, len, from + 16)
    }
}

/// The RSDP search finds the first candidate: `Some(k)` only for a
/// 16-byte-aligned offset `k` below `len` (counted from `from`) where the
/// memory holds a valid RSDP, with no valid RSDP at an aligned offset
/// before it; `None` only when no aligned offset below `len` holds one.
pub proof fn lemma_rsdp_search_first(region: Seq<u8>, len: int, from: int)
    requires
        0 <= from,
        from % 16 == 0,
    ensures
        first_rsdp_from(region, len, from) matches Some(k) ==> {
            &&& from <= k < len && k % 16 == 0 && k <= region.len()
            &&& rsdp_valid(region.skip(k))
            &&& forall|j: int| from <= j < k && j % 16 == 0 && j <= region.len() ==> !rsdp_valid(
                #[trigger] region.skip(j),
            )
        },
        first_rsdp_from(region, len, from) is None ==> forall|j: int|
            from <= j < len && j % 16 == 0 && j <= region.len() ==> !rsdp_valid(#[trigger] region.skip(j)),
    decreases len + 16 - from,
{
    if from < len {
        lemma_rsdp_search_first(region, len, from + 16);
        let here = from <= region.len() && rsdp_valid(region.skip(from));
        if !here {
            assert forall|j: int|
                #![trigger region.skip(j)]
                from <= j < len && j % 16 == 0 && j <= region.len() && j != from implies j >= from + 16 by {
                assert(j >= from + 16) by (nonlinear_arith)
                    requires j % 16 == 0, from % 16 == 0, j > from;
            }
        }
    }
}

/// Search the `len` bytes from physical address `start`, at 16-byte steps,
/// for an RSDP; `region` holds the memory from `start` on (it may extend past
/// `len`, since the last candidates' structures do).
pub fn find_rsdp_in_range(region: &[u8], start: u64, len: u64) -> (r: Option<u64>)
    requires
        start + len + 16 <= u64::MAX,
    ensures
        r == (match first_rsdp_from(region@, len as int, 0) {
            Some(k) => Some((start + k) as u64),
            None => None,
        }),
{
    let mut k: u64 = 0;
    while k < len
        invariant
            start + len + 16 <= u64::MAX,
            k % 16 == 0,
            first_rsdp_from(region@, len as int, 0) == first_rsdp_from(region@, len as int, k as int),
            k <= len + 16,
        decreases len + 16 - k,
    {
        if k <= region.len() as u64 {
            let candidate = &region[k as usize..region.len()];
            assert(candidate@ =~= region@.skip(k as int));
            if find_rsdp_at(candidate) {
                return Some(start + k);
            }
        }
        k += 16;
    }
    None
}

/// Linear address of the Extended BIOS Data Area from the real-mode segment
/// stored at physical address `0x40E`.
pub fn ebda_base(segment: u16) -> (r: u64)
    ensures
        r == segment * 16,
{
    segment as u64 * 16
}

/// Scan the EBDA (when its segment is non-zero) and then the BIOS ROM
/// (`0xE0000..=0xFFFFF`) for the RSDP.  `ebda` and `bios_rom` hold the
/// memory from the start of each area on.
pub fn find_rsdp(ebda_segment: u16, ebda: &[u8], bios_rom: &[u8]) -> (r: Option<u64>)
    ensures
        r == (if ebda_segment != 0 && first_rsdp_from(ebda@, 0x400, 0) is Some {
            Some((ebda_segment * 16 + first_rsdp_from(ebda@, 0x400, 0)->Some_0) as u64)
        } else {
            match first_rsdp_from(bios_rom@, 0x2_0000, 0) {
                Some(k) => Some((0xE_0000 + k) as u64),
                None => None,
            }
        }),
{
    let ebda_ptr = ebda_base(ebda_segment);
    if ebda_ptr > 0 {
        if let Some(addr) = find_rsdp_in_range(ebda, ebda_ptr, 0x400) {
            return Some(addr);
        }
    }
    find_rsdp_in_range(bios_rom, 0xE_0000, 0xF_FFFF - 0xE_0000 + 1)
}

impl Rsdp {
    /// The RSDP fields of a validated structure (`bytes` at least 36 long).
    pub fn parse(bytes: &[u8]) -> (r: Rsdp)
        requires
            bytes@.len() >= 36,
        ensures
            r.signature@ == bytes@.subrange(0, 8),
            r.checksum == bytes@[8],
            r.oem_id@ == bytes@.subrange(9, 15),
            r.revision == bytes@[15],
            r.rsdt_address == le32(bytes@, 16),
            r.length == le32(bytes@, 20),
            r.xsdt_address == le64(bytes@, 24),
            r.extended_checksum == bytes@[32],
    {
        let signature: [u8; 8] = [
            bytes[0],
            bytes[1],
            bytes[2],
            bytes[3],
            bytes[4],
            bytes[5],
            bytes[6],
            bytes[7],
        ];
        let oem_id: [u8; 6] = [bytes[9], bytes[10], bytes[11], bytes[12], bytes[13], bytes[14]];
        let r = Rsdp {
            signature,
            checksum: bytes[8],
            oem_id,
            revision: bytes[15],
            rsdt_address: read_le32(bytes, 16),
            length: read_le32(bytes, 20),
            xsdt_address: read_le64(bytes, 24),
            extended_checksum: bytes[32],
        };
        assert(r.signature@ =~= bytes@.subrange(0, 8));
        assert(r.oem_id@ =~= bytes@.subrange(9, 15));
        r
    }

    /// The primary system description table: the XSDT (64-bit entries) from
    /// revision 2 on, the RSDT (32-bit entries) before; `None` when its
    /// address is zero.
    pub fn root_table(&self) -> (r: Option<(u64, usize)>)
        ensures
            self.revision >= 2 ==> r == (if self.xsdt_address != 0 {
                Some((self.xsdt_address, 8usize))
            } else {
                None
            }),
            self.revision < 2 ==> r == (if self.rsdt_address != 0 {
                Some((self.rsdt_address as u64, 4usize))
            } else {
                None
            }),
    {
        if self.revision >= 2 {
            if self.xsdt_address != 0 {
                Some((self.xsdt_address, 8))
            } else {
                None
            }
        } else {
            if self.rsdt_address != 0 {
                Some((self.rsdt_address as u64, 4))
            } else {
                None
            }
        }
    }
}

impl SdtHeader {
    /// The header fields at the start of `bytes`.
    pub fn parse(bytes: &[u8]) -> (r: SdtHeader)
        requires
            bytes@.len() >= 36,
        ensures
            r.signature@ == bytes@.subrange(0, 4),
            r.length == le32(bytes@, 4),
            r.revision == bytes@[8],
            r.checksum == bytes@[9],
            r.oem_id@ == bytes@.subrange(10, 16),
            r.oem_table_id@ == bytes@.subrange(16, 24),
            r.oem_revision == le32(bytes@, 24),
            r.creator_id == le32(bytes@, 28),
            r.creator_revision == le32(bytes@, 32),
    {
        let r = SdtHeader {
            signature: [bytes[0], bytes[1], bytes[2], bytes[3]],
            length: read_le32(bytes, 4),
            revision: bytes[8],
            checksum: bytes[9],
            oem_id: [bytes[10], bytes[11], bytes[12], bytes[13], bytes[14], bytes[15]],
            oem_table_id: [
                bytes[16],
                bytes[17],
                bytes[18],
                bytes[19],
                bytes[20],
                bytes[21],
                bytes[22],
                bytes[23],
            ],
            oem_revision: read_le32(bytes, 24),
            creator_id: read_le32(bytes, 28),
            creator_revision: read_le32(bytes, 32),
        };
        assert(r.signature@ =~= bytes@.subrange(0, 4));
        assert(r.oem_id@ =~= bytes@.subrange(10, 16));
        assert(r.oem_table_id@ =~= bytes@.subrange(16, 24));
        r
    }
}

/// Number of entries of a root table of `length` bytes with entries of
/// `entry_size` bytes; `None` for a length above 128 KiB or too short to hold
/// the header and one entry.
pub fn sdt_entry_count(length: u32, entry_size: usize) -> (r: Option<usize>)
    requires
        entry_size == 4 || entry_size == 8,
    ensures
        (length > 128 * 1024 || length < 36 + entry_size) ==> r is None,
        !(length > 128 * 1024 || length < 36 + entry_size) ==> r == Some(
            ((length - 36) / (entry_size as int)) as usize,
        ),
{
    if length > 128 * 1024 || length < (36 + entry_size) as u32 {
        return None;
    }
    Some((length as usize - 36) / entry_size)
}

/// Entry `i` of a root table: a 32- or 64-bit little-endian address after
/// the 36-byte header.
pub open spec fn sdt_entry(table: Seq<u8>, entry_size: int, i: int) -> int {
    if entry_size == 8 {
        le64(table, 36 + 8 * i)
    } else {
        le32(table, 36 + 4 * i)
    }
}

/// The `count` table addresses listed in a root table.
pub fn sdt_entries(table: &[u8], entry_size: usize, count: usize) -> (r: Vec<u64>)
    requires
        entry_size == 4 || entry_size == 8,
        36 + count * entry_size <= table@.len(),
    ensures
        r@.len() == count,
        forall|i: int| 0 <= i < count ==> r@[i] == sdt_entry(table@, entry_size as int, i),
{
    proof {
        assert(table@.len() == table.len());
    }
    let mut v: Vec<u64> = Vec::new();
    let mut i: usize = 0;
    while i < count
        invariant
            i <= count,
            entry_size == 4 || entry_size == 8,
            36 + count * entry_size <= table@.len(),
            table@.len() <= usize::MAX,
            v@.len() == i,
            forall|j: int| 0 <= j < i ==> v@[j] == sdt_entry(table@, entry_size as int, j),
        decreases count - i,
    {
        assert(36 + (i + 1) * entry_size <= table@.len()) by (nonlinear_arith)
            requires
                i + 1 <= count,
                36 + count * entry_size <= table@.len(),
        ;
        let e: u64 = if entry_size == 8 {
            read_le64(table, 36 + i * 8)
        } else {
            read_le32(table, 36 + i * 4) as u64
        };
        v.push(e);
        i += 1;
    }
    v
}

/// The first non-zero entry whose table carries `signature`, given the
/// signature read at each entry (ignored for zero entries).
pub open spec fn find_table_spec(entries: Seq<u64>, signatures: Seq<[u8; 4]>, signature: [u8; 4], from: int) -> Option<u64>
    decreases entries.len() - from,
{
    if from >= entries.len() || from < 0 {
        None
    } else if entries[from] != 0 && signatures[from]@ == signature@ {
        Some(entries[from])
    } else {
        find_table_spec(entries, signatures, signature, from + 1)
    }
}

/// Whether two signatures agree in all four bytes.
pub open spec fn same_signature(a: [u8; 4], b: [u8; 4]) -> bool {
    forall|k: int| 0 <= k < 4 ==> a@[k] == b@[k]
}

proof fn lemma_same_signature(a: [u8; 4], b: [u8; 4])
    ensures
        same_signature(a, b) <==> a@ == b@,
{
    if same_signature(a, b) {
        assert(a@ =~= b@);
    }
}

/// The table search answers with the first usable entry whose table carries
/// the signature: `Some(a)` only for a non-zero entry `a` at some position
/// `i` whose signature equals the one asked for in all four bytes, with no
/// such entry before `i`; `None` only when no non-zero entry carries exactly
/// that signature.
pub proof fn lemma_find_table_first_exact(entries: Seq<u64>, signatures: Seq<[u8; 4]>, signature: [u8; 4], from: int)
    requires
        signatures.len() == entries.len(),
        0 <= from <= entries.len(),
    ensures
        find_table_spec(entries, signatures, signature, from) matches Some(a) ==> exists|i: int|
            from <= i < entries.len() && entries[i] == a && a != 0
                && same_signature(#[trigger] signatures[i], signature)
                && forall|j: int| from <= j < i ==> !(entries[j] != 0 && same_signature(
                    #[trigger] signatures[j],
                    signature,
                )),
        find_table_spec(entries, signatures, signature, from) is None ==> forall|i: int|
            from <= i < entries.len() && entries[i] != 0 ==> !same_signature(#[trigger] signatures[i], signature),
    decreases entries.len() - from,
{
    if from < entries.len() {
        lemma_same_signature(signatures[from], signature);
        lemma_find_table_first_exact(entries, signatures, signature, from + 1);
        if entries[from] != 0 && signatures[from]@ == signature@ {
            assert(same_signature(signatures[from], signature));
        } else {
            assert(!(entries[from] != 0 && same_signature(signatures[from], signature)));
            if let Some(a) = find_table_spec(entries, signatures, signature, from) {
                let i = choose|i: int|
                    from + 1 <= i < entries.len() && entries[i] == a && a != 0 && same_signature(
                        #[trigger] signatures[i],
                        signature,
                    ) && forall|j: int| from + 1 <= j < i ==> !(entries[j] != 0 && same_signature(
                        #[trigger] signatures[j],
                        signature,
                    ));
                assert forall|j: int| from <= j < i implies !(entries[j] != 0 && same_signature(
                    #[trigger] signatures[j],
                    signature,
                )) by {
                    if j == from {
                    }
                }
            }
        }
    }
}

/// Find a table by its four-byte signature among the entries of the root
/// table, given the signature stored at each entry's address.
pub fn find_table(entries: &[u64], signatures: &[[u8; 4]], signature: &[u8; 4]) -> (r: Option<u64>)
    requires
        signatures@.len() == entries@.len(),
    ensures
        r == find_table_spec(entries@, signatures@, *signature, 0),
{
    let mut i: usize = 0;
    while i < entries.len()
        invariant
            i <= entries@.len(),
            signatures@.len() == entries@.len(),
            find_table_spec(entries@, signatures@, *signature, 0) == find_table_spec(
                entries@,
                signatures@,
                *signature,
                i as int,
            ),
        decreases entries@.len() - i,
    {
        if entries[i] != 0 {
            let sig = &signatures[i];
            if sig[0] == signature[0] && sig[1] == signature[1] && sig[2] == signature[2] && sig[3]
                == signature[3] {
                assert(sig@ =~= signature@);
                return Some(entries[i]);
            } else {
                assert(sig@ != signature@) by {
                    if sig@ == signature@ {
                        assert(sig@[0] == signature@[0] && sig@[1] == signature@[1]);
                        assert(sig@[2] == signature@[2] && sig@[3] == signature@[3]);
                    }
                }
            }
        }
        i += 1;
    }
    None
}

/// Number of bytes of a table whose header states `length`: the length when
/// it lies between 36 bytes and 128 KiB, `None` otherwise.
pub fn get_table_bytes(length: u32) -> (r: Option<usize>)
    ensures
        (length > 128 * 1024 || length < 36) ==> r is None,
        !(length > 128 * 1024 || length < 36) ==> r == Some(length as usize),
{
    if length > 128 * 1024 || length < 36 {
        return None;
    }
    Some(length as usize)
}

} // verus!
