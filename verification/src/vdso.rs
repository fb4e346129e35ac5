//! VDSO image builder: an ELF shared object with one loadable segment for the
//! metadata page and one per exposed kernel function.
use vstd::prelude::*;
use vstd::string::StringSliceAdditionalSpecFns;
use crate::bytes::{le16, le32, le64};

verus! {

/// Base virtual address for VDSO function slots.
pub const VDSO_USER_BASE: u64 = 0x7000_0000_0000;

/// Size reserved for VDSO metadata at `VDSO_USER_BASE`.
pub const VDSO_META_SIZE: usize = 4096;

/// Size of the buffer the image is built in.
pub const VDSO_BUFFER_SIZE: usize = 32768;

/// A kernel function exposed through the VDSO.
#[derive(Clone, Copy, Debug)]
pub struct VdsoEntry {
    /// Symbol name that userspace links against.
    pub name: &'static str,
    /// Virtual address of the kernel function.
    pub virt_addr: u64,
    /// Physical address of the page containing the function.
    pub phys_addr: u64,
}

/// Virtual address of VDSO slot `index`.
pub open spec fn slot_vaddr_spec(index: int) -> int {
    VDSO_USER_BASE + VDSO_META_SIZE + index * 4096
}

/// Compute the VDSO virtual address for entry `index`.
pub fn slot_vaddr(index: usize) -> (r: u64)
    requires
        slot_vaddr_spec(index as int) <= u64::MAX,
    ensures
        r == slot_vaddr_spec(index as int),
{
    VDSO_USER_BASE + VDSO_META_SIZE as u64 + (index as u64) * 4096
}

/// The slots lie above the metadata page, each on its own page: slot 0
/// starts right after the metadata, every slot is page-aligned, and the
/// slots of distinct entries do not overlap.
pub proof fn lemma_slots_disjoint(i: int, j: int)
    requires
        0 <= i < j,
    ensures
        slot_vaddr_spec(0) == VDSO_USER_BASE + VDSO_META_SIZE,
        slot_vaddr_spec(i) % 4096 == 0,
        slot_vaddr_spec(i) + 4096 <= slot_vaddr_spec(j),
        slot_vaddr_spec(i) >= VDSO_USER_BASE + VDSO_META_SIZE,
{
    assert(slot_vaddr_spec(i) == 4096 * (0x7_0000_0000 + 1 + i));
}

/// `s` with the `n` low-order bytes of `val` stored little-endian at `off`.
pub open spec fn put_le(s: Seq<u8>, off: int, val: int, n: nat) -> Seq<u8>
    decreases n,
{
    if n == 0 {
        s
    } else {
        put_le(s.update(off, (val % 256) as u8), off + 1, val / 256, (n - 1) as nat)
    }
}

fn put_bytes(buf: &mut [u8; VDSO_BUFFER_SIZE], off: usize, val: u64, n: usize)
    requires
        off + n <= VDSO_BUFFER_SIZE,
        n <= 8,
    ensures
        final(buf)@ == put_le(old(buf)@, off as int, val as int, n as nat),
{
    let mut o = off;
    let mut v = val;
    let mut k = n;
    while k > 0
        invariant
            o + k == off + n,
            off + n <= VDSO_BUFFER_SIZE,
            buf@.len() == VDSO_BUFFER_SIZE,
            put_le(old(buf)@, off as int, val as int, n as nat) == put_le(
                buf@,
                o as int,
                v as int,
                k as nat,
            ),
        decreases k,
    {
        assert((v & 0xffu64) as u8 == (v % 256) as u8) by (bit_vector);
        assert((v >> 8u64) == v / 256) by (bit_vector);
        buf[o] = (v & 0xff) as u8;
        v = v >> 8u64;
        o += 1;
        k -= 1;
    }
}

/// `s` with a program header written at `at`: a loadable segment with flags
/// `flags`, no file data, virtual address `vaddr`, physical address `paddr`
/// and one page of memory, page aligned.
pub open spec fn phdr_image(s: Seq<u8>, at: int, flags: int, vaddr: int, paddr: int) -> Seq<u8> {
    let s = put_le(s, at, 1, 4);
    let s = put_le(s, at + 4, flags, 4);
    let s = put_le(s, at + 8, 0, 8);
    let s = put_le(s, at + 16, vaddr, 8);
    let s = put_le(s, at + 24, paddr, 8);
    let s = put_le(s, at + 32, 4096, 8);
    let s = put_le(s, at + 40, 4096, 8);
    put_le(s, at + 48, 4096, 8)
}

fn write_phdr(buf: &mut [u8; VDSO_BUFFER_SIZE], at: usize, flags: u32, vaddr: u64, paddr: u64)
    requires
        at + 56 <= VDSO_BUFFER_SIZE,
    ensures
        final(buf)@ == phdr_image(old(buf)@, at as int, flags as int, vaddr as int, paddr as int),
{
    put_bytes(buf, at, 1, 4);
    put_bytes(buf, at + 4, flags as u64, 4);
    put_bytes(buf, at + 8, 0, 8);
    put_bytes(buf, at + 16, vaddr, 8);
    put_bytes(buf, at + 24, paddr, 8);
    put_bytes(buf, at + 32, 4096, 8);
    put_bytes(buf, at + 40, 4096, 8);
    put_bytes(buf, at + 48, 4096, 8);
}

/// `s` with a symbol written at `at`: name offset, info, zero other and
/// section index, value, zero size.
pub open spec fn sym_image(s: Seq<u8>, at: int, name_off: int, info: int, value: int) -> Seq<u8> {
    let s = put_le(s, at, name_off, 4);
    let s = put_le(s, at + 4, info, 1);
    let s = put_le(s, at + 5, 0, 1);
    let s = put_le(s, at + 6, 0, 2);
    let s = put_le(s, at + 8, value, 8);
    put_le(s, at + 16, 0, 8)
}

fn write_sym(buf: &mut [u8; VDSO_BUFFER_SIZE], at: usize, name_off: u32, info: u8, value: u64)
    requires
        at + 24 <= VDSO_BUFFER_SIZE,
    ensures
        final(buf)@ == sym_image(old(buf)@, at as int, name_off as int, info as int, value as int),
{
    put_bytes(buf, at, name_off as u64, 4);
    put_bytes(buf, at + 4, info as u64, 1);
    put_bytes(buf, at + 5, 0, 1);
    put_bytes(buf, at + 6, 0, 2);
    put_bytes(buf, at + 8, value, 8);
    put_bytes(buf, at + 16, 0, 8);
}

/// `s` with `name` and a terminating zero byte stored at `at`.
pub open spec fn name_image(s: Seq<u8>, at: int, name: Seq<u8>) -> Seq<u8> {
    s.subrange(0, at) + name + seq![0u8] + s.subrange(at + name.len() + 1, s.len() as int)
}

fn write_name(buf: &mut [u8; VDSO_BUFFER_SIZE], at: usize, name: &[u8])
    requires
        at + name@.len() + 1 <= VDSO_BUFFER_SIZE,
    ensures
        final(buf)@ == name_image(old(buf)@, at as int, name@),
{
    let mut si: usize = 0;
    while si < name.len()
        invariant
            si <= name@.len(),
            at + name@.len() + 1 <= VDSO_BUFFER_SIZE,
            buf@.len() == VDSO_BUFFER_SIZE,
            buf@ =~= old(buf)@.subrange(0, at as int) + name@.subrange(0, si as int) + old(
                buf,
            )@.subrange(at + si, VDSO_BUFFER_SIZE as int),
        decreases name@.len() - si,
    {
        buf[at + si] = name[si];
        si += 1;
    }
    buf[at + si] = 0;
}

/// The symbol name of an entry, as bytes.
pub open spec fn entry_name(e: VdsoEntry) -> Seq<u8> {
    e.name.spec_bytes()
}

/// Bytes taken by the names (each with its terminator) of the first `k` entries.
pub open spec fn names_len(entries: Seq<VdsoEntry>, k: int) -> int
    decreases k,
{
    if k <= 0 {
        0
    } else {
        names_len(entries, k - 1) + entry_name(entries[k - 1]).len() + 1
    }
}

/// Offset of the symbol table: after the ELF header and the program headers.
pub open spec fn symtab_offset(count: int) -> int {
    64 + (1 + count) * 56
}

/// Offset of the string table: after the null symbol and one symbol per entry.
pub open spec fn strtab_offset(count: int) -> int {
    symtab_offset(count) + (1 + count) * 24
}

/// End of the string table: where the section headers start.
pub open spec fn shdr_offset(entries: Seq<VdsoEntry>) -> int {
    strtab_offset(entries.len() as int) + names_len(entries, entries.len() as int)
}

/// Length of the image for `entries`: everything up to the end of the two
/// section headers.
pub open spec fn vdso_len(entries: Seq<VdsoEntry>) -> int {
    shdr_offset(entries) + 128
}

/// Whether the image for `entries` fits the buffer.
pub open spec fn vdso_fits(entries: Seq<VdsoEntry>) -> bool {
    vdso_len(entries) <= VDSO_BUFFER_SIZE
}

/// `s` with the ELF header of an image with `count` function entries.
pub open spec fn header_image(s: Seq<u8>, count: int) -> Seq<u8> {
    let s = s.update(0, 0x7f).update(1, 0x45).update(2, 0x4c).update(3, 0x46);
    let s = put_le(s, 4, 2, 1);
    let s = put_le(s, 5, 1, 1);
    let s = put_le(s, 6, 1, 1);
    let s = put_le(s, 7, 0, 1);
    let s = put_le(s, 16, 3, 2);
    let s = put_le(s, 18, 62, 2);
    let s = put_le(s, 20, 1, 4);
    let s = put_le(s, 24, 0, 8);
    let s = put_le(s, 32, 64, 8);
    let s = put_le(s, 48, 0, 4);
    let s = put_le(s, 52, 64, 2);
    let s = put_le(s, 54, 56, 2);
    let s = put_le(s, 56, 1 + count, 2);
    let s = put_le(s, 58, 64, 2);
    let s = put_le(s, 60, 2, 2);
    let s = put_le(s, 62, 1, 2);
    phdr_image(s, 64, 6, VDSO_USER_BASE as int, 0)
}

/// `s` with the program headers of the first `k` entries.
pub open spec fn entry_phdrs(s: Seq<u8>, entries: Seq<VdsoEntry>, k: int) -> Seq<u8>
    decreases k,
{
    if k <= 0 {
        s
    } else {
        phdr_image(
            entry_phdrs(s, entries, k - 1),
            120 + 56 * (k - 1),
            5,
            slot_vaddr_spec(k - 1),
            entries[k - 1].phys_addr as int,
        )
    }
}

/// `s` with the symbols and names of the first `k` entries of an image with
/// `count` entries.
pub open spec fn entry_syms(s: Seq<u8>, entries: Seq<VdsoEntry>, count: int, k: int) -> Seq<u8>
    decreases k,
{
    if k <= 0 {
        s
    } else {
        let prev = entry_syms(s, entries, count, k - 1);
        let str_at = strtab_offset(count) + names_len(entries, k - 1);
        name_image(
            sym_image(prev, symtab_offset(count) + 24 * k, names_len(entries, k - 1), 0x12,
                slot_vaddr_spec(k - 1)),
            str_at,
            entry_name(entries[k - 1]),
        )
    }
}

/// `s` with a section header written at `at`: no name, type `typ`, no
/// flags or address, the section's file offset and size, link, info,
/// alignment and entry size.
pub open spec fn shdr_image(
    s: Seq<u8>,
    at: int,
    typ: int,
    offset: int,
    size: int,
    link: int,
    info: int,
    align: int,
    entsize: int,
) -> Seq<u8> {
    let s = put_le(s, at, 0, 4);
    let s = put_le(s, at + 4, typ, 4);
    let s = put_le(s, at + 8, 0, 8);
    let s = put_le(s, at + 16, 0, 8);
    let s = put_le(s, at + 24, offset, 8);
    let s = put_le(s, at + 32, size, 8);
    let s = put_le(s, at + 40, link, 4);
    let s = put_le(s, at + 44, info, 4);
    let s = put_le(s, at + 48, align, 8);
    put_le(s, at + 56, entsize, 8)
}

fn write_shdr(
    buf: &mut [u8; VDSO_BUFFER_SIZE],
    at: usize,
    typ: u64,
    offset: u64,
    size: u64,
    link: u64,
    info: u64,
    align: u64,
    entsize: u64,
)
    requires
        at + 64 <= VDSO_BUFFER_SIZE,
    ensures
        final(buf)@ == shdr_image(
            old(buf)@,
            at as int,
            typ as int,
            offset as int,
            size as int,
            link as int,
            info as int,
            align as int,
            entsize as int,
        ),
{
    put_bytes(buf, at, 0, 4);
    put_bytes(buf, at + 4, typ, 4);
    put_bytes(buf, at + 8, 0, 8);
    put_bytes(buf, at + 16, 0, 8);
    put_bytes(buf, at + 24, offset, 8);
    put_bytes(buf, at + 32, size, 8);
    put_bytes(buf, at + 40, link, 4);
    put_bytes(buf, at + 44, info, 4);
    put_bytes(buf, at + 48, align, 8);
    put_bytes(buf, at + 56, entsize, 8);
}

/// `s` with the two section headers written at `sh`: the symbol table
/// (linked to section 1, one local symbol, 24-byte entries) and the string
/// table of `names` bytes.
pub open spec fn section_image(s: Seq<u8>, count: int, sh: int, names: int) -> Seq<u8> {
    let s = shdr_image(s, sh, 2, symtab_offset(count), (1 + count) * 24, 1, 1, 8, 24);
    shdr_image(s, sh + 64, 3, strtab_offset(count), names, 0, 0, 1, 0)
}

/// The whole image written over `s` for `entries`.
pub open spec fn vdso_image(s: Seq<u8>, entries: Seq<VdsoEntry>) -> Seq<u8> {
    let count = entries.len() as int;
    let s = entry_phdrs(header_image(s, count), entries, count);
    let s = sym_image(s, symtab_offset(count), 0, 0, 0);
    let s = entry_syms(s, entries, count, count);
    let s = section_image(s, count, shdr_offset(entries), names_len(entries, count));
    put_le(s, 40, shdr_offset(entries), 8)
}

/// Write the VDSO image for `entries` into `buf` and return its length, the
/// number of bytes written.
///
/// The image holds the ELF header, one read/write loadable segment for the
/// metadata page at [`VDSO_USER_BASE`], one read/execute loadable segment per
/// entry at [`slot_vaddr`] of its index mapping the entry's physical page, a
/// symbol table naming each slot, the names, and two section headers (symbol
/// table and string table) after the names.  Nothing at or past the returned
/// length is touched.
pub fn build(buf: &mut [u8; VDSO_BUFFER_SIZE], entries: &[VdsoEntry]) -> (r: usize)
    requires
        vdso_fits(entries@),
    ensures
        final(buf)@ == vdso_image(old(buf)@, entries@),
        r == vdso_len(entries@),
        forall|j: int| r <= j < VDSO_BUFFER_SIZE ==> #[trigger] final(buf)@[j] == old(buf)@[j],
{
    let count = entries.len();
    proof {
        lemma_names_len_nonneg(entries@, count as int);
    }
    let phnum = 1 + count;
    let symtab_off: usize = 64 + phnum * 56;
    let strtab_off: usize = symtab_off + (1 + count) * 24;
    let mut str_off: usize = strtab_off;

    // ELF header.
    buf[0] = 0x7f;
    buf[1] = 0x45;
    buf[2] = 0x4c;
    buf[3] = 0x46;
    put_bytes(buf, 4, 2, 1);
    put_bytes(buf, 5, 1, 1);
    put_bytes(buf, 6, 1, 1);
    put_bytes(buf, 7, 0, 1);
    put_bytes(buf, 16, 3, 2);
    put_bytes(buf, 18, 62, 2);
    put_bytes(buf, 20, 1, 4);
    put_bytes(buf, 24, 0, 8);
    put_bytes(buf, 32, 64, 8);
    put_bytes(buf, 48, 0, 4);
    put_bytes(buf, 52, 64, 2);
    put_bytes(buf, 54, 56, 2);
    put_bytes(buf, 56, phnum as u64, 2);
    put_bytes(buf, 58, 64, 2);
    put_bytes(buf, 60, 2, 2);
    put_bytes(buf, 62, 1, 2);

    // Program header of the metadata page.
    write_phdr(buf, 64, 6, VDSO_USER_BASE, 0);
    let ghost after_header = buf@;
    assert(after_header == header_image(old(buf)@, count as int));

    // One program header per function page.
    let mut i: usize = 0;
    while i < count
        invariant
            count == entries@.len(),
            i <= count,
            vdso_fits(entries@),
            symtab_off == symtab_offset(count as int),
            buf@ == entry_phdrs(after_header, entries@, i as int),
        decreases count - i,
    {
        proof {
            lemma_names_len_nonneg(entries@, count as int);
        }
        let slot_base = slot_vaddr(i);
        write_phdr(buf, 120 + 56 * i, 5, slot_base, entries[i].phys_addr);
        i += 1;
    }

    // The null symbol.
    write_sym(buf, symtab_off, 0, 0, 0);
    let ghost after_null = buf@;

    // One symbol and one name per function.
    let mut i: usize = 0;
    while i < count
        invariant
            count == entries@.len(),
            i <= count,
            vdso_fits(entries@),
            symtab_off == symtab_offset(count as int),
            strtab_off == strtab_offset(count as int),
            str_off == strtab_off + names_len(entries@, i as int),
            buf@ == entry_syms(after_null, entries@, count as int, i as int),
        decreases count - i,
    {
        proof {
            lemma_names_len_mono(entries@, i as int + 1, count as int);
            lemma_names_len_nonneg(entries@, i as int);
        }
        let name_off = (str_off - strtab_off) as u32;
        let sym_off = symtab_off + 24 * (i + 1);
        write_sym(buf, sym_off, name_off, 0x12, slot_vaddr(i));
        let name_bytes = entries[i].name.as_bytes();
        write_name(buf, str_off, name_bytes);
        str_off = str_off + name_bytes.len() + 1;
        i += 1;
    }

    // Section headers after the names; the header points at them.
    let sh_off = str_off;
    write_shdr(buf, sh_off, 2, symtab_off as u64, ((1 + count) * 24) as u64, 1, 1, 8, 24);
    write_shdr(buf, sh_off + 64, 3, strtab_off as u64, (str_off - strtab_off) as u64, 0, 0, 1, 0);
    put_bytes(buf, 40, sh_off as u64, 8);
    proof {
        lemma_vdso_unwritten(old(buf)@, entries@);
    }
    sh_off + 128
}

/// Whether the image for `entries` fits the buffer (what [`build`]
/// requires).
pub fn fits(entries: &[VdsoEntry]) -> (r: bool)
    ensures
        r == vdso_fits(entries@),
{
    let count = entries.len();
    if count > 600 {
        proof {
            lemma_names_len_nonneg(entries@, count as int);
        }
        return false;
    }
    let symtab_off: usize = 64 + (1 + count) * 56;
    let mut total: usize = symtab_off + (1 + count) * 24 + 128;
    if total > VDSO_BUFFER_SIZE {
        proof {
            lemma_names_len_nonneg(entries@, count as int);
        }
        return false;
    }
    let mut i: usize = 0;
    while i < count
        invariant
            count == entries@.len(),
            count <= 600,
            i <= count,
            total == strtab_offset(count as int) + names_len(entries@, i as int) + 128,
            total <= VDSO_BUFFER_SIZE,
        decreases count - i,
    {
        let n = entries[i].name.as_bytes().len();
        if n > VDSO_BUFFER_SIZE {
            proof {
                lemma_names_len_mono(entries@, i as int + 1, count as int);
                lemma_names_len_nonneg(entries@, i as int);
            }
            return false;
        }
        total = total + n + 1;
        i += 1;
        if total > VDSO_BUFFER_SIZE {
            proof {
                lemma_names_len_mono(entries@, i as int, count as int);
            }
            return false;
        }
    }
    true
}

/// The `n` low-order bytes of `val`, little-endian.
pub open spec fn le_bytes(val: int, n: nat) -> Seq<u8>
    decreases n,
{
    if n == 0 {
        seq![]
    } else {
        seq![(val % 256) as u8] + le_bytes(val / 256, (n - 1) as nat)
    }
}

/// The number `s` holds, least significant byte first.
pub open spec fn le_value(s: Seq<u8>) -> int
    decreases s.len(),
{
    if s.len() == 0 {
        0
    } else {
        s[0] + 256 * le_value(s.drop_first())
    }
}

/// `256` to the power `n`.
pub open spec fn pow256(n: nat) -> int
    decreases n,
{
    if n == 0 {
        1
    } else {
        256 * pow256((n - 1) as nat)
    }
}

proof fn lemma_le_bytes_value(v: int, n: nat)
    requires
        0 <= v,
    ensures
        le_bytes(v, n).len() == n,
        le_value(le_bytes(v, n)) == v % pow256(n),
        pow256(n) > 0,
    decreases n,
{
    if n > 0 {
        lemma_le_bytes_value(v / 256, (n - 1) as nat);
        let s = le_bytes(v, n);
        assert(s.drop_first() =~= le_bytes(v / 256, (n - 1) as nat));
        vstd::arithmetic::div_mod::lemma_mod_breakdown(v, 256, pow256((n - 1) as nat));
    }
}

/// The bytes the image stores for a number read back as that number: the
/// little-endian readers give `val` modulo the field's width for fields of
/// one, two, four and eight bytes.
pub proof fn lemma_le_bytes_decode(v: int)
    requires
        0 <= v,
    ensures
        le_bytes(v, 1)[0] == v % 0x100,
        le16(le_bytes(v, 2), 0) == v % 0x1_0000,
        le32(le_bytes(v, 4), 0) == v % 0x1_0000_0000,
        le64(le_bytes(v, 8), 0) == v % 0x1_0000_0000_0000_0000,
{
    lemma_le_bytes_value(v, 1);
    lemma_le_bytes_value(v, 2);
    lemma_le_bytes_value(v, 4);
    lemma_le_bytes_value(v, 8);
    reveal_with_fuel(pow256, 9);
    let s2 = le_bytes(v, 2);
    let s4 = le_bytes(v, 4);
    let s8 = le_bytes(v, 8);
    reveal_with_fuel(le_value, 9);
    assert(s2.drop_first().drop_first().len() == 0);
    assert(le_value(s2) == s2[0] + 256 * s2[1]) by {
        assert(s2.drop_first()[0] == s2[1]);
    }
    assert(le_value(s4) == s4[0] + 256 * (s4[1] + 256 * (s4[2] + 256 * s4[3]))) by {
        let t1 = s4.drop_first();
        let t2 = t1.drop_first();
        let t3 = t2.drop_first();
        assert(t1[0] == s4[1] && t2[0] == s4[2] && t3[0] == s4[3]);
        assert(t3.drop_first().len() == 0);
    }
    assert(le_value(s8) == s8[0] + 256 * (s8[1] + 256 * (s8[2] + 256 * (s8[3] + 256 * (s8[4] + 256 * (
    s8[5] + 256 * (s8[6] + 256 * s8[7]))))))) by {
        let t1 = s8.drop_first();
        let t2 = t1.drop_first();
        let t3 = t2.drop_first();
        let t4 = t3.drop_first();
        let t5 = t4.drop_first();
        let t6 = t5.drop_first();
        let t7 = t6.drop_first();
        assert(t1[0] == s8[1] && t2[0] == s8[2] && t3[0] == s8[3] && t4[0] == s8[4]);
        assert(t5[0] == s8[5] && t6[0] == s8[6] && t7[0] == s8[7]);
        assert(t7.drop_first().len() == 0);
    }
}

/// Whether the program header at `at` of `img` describes a loadable
/// segment (type 1) with flags `flags` at virtual address `vaddr` backed by
/// physical address `paddr`, of one page (4096 bytes in the file image
/// count and in memory, page aligned) and no file offset.
pub open spec fn phdr_at(img: Seq<u8>, at: int, flags: int, vaddr: int, paddr: int) -> bool {
    &&& img.subrange(at, at + 4) == le_bytes(1, 4)
    &&& img.subrange(at + 4, at + 8) == le_bytes(flags, 4)
    &&& img.subrange(at + 8, at + 16) == le_bytes(0, 8)
    &&& img.subrange(at + 16, at + 24) == le_bytes(vaddr, 8)
    &&& img.subrange(at + 24, at + 32) == le_bytes(paddr, 8)
    &&& img.subrange(at + 32, at + 40) == le_bytes(4096, 8)
    &&& img.subrange(at + 40, at + 48) == le_bytes(4096, 8)
    &&& img.subrange(at + 48, at + 56) == le_bytes(4096, 8)
}

/// Whether the symbol at `at` of `img` names string-table offset
/// `name_off`, has info byte `info` and value `value`.
pub open spec fn sym_at(img: Seq<u8>, at: int, name_off: int, info: int, value: int) -> bool {
    &&& img.subrange(at, at + 4) == le_bytes(name_off, 4)
    &&& img.subrange(at + 4, at + 5) == le_bytes(info, 1)
    &&& img.subrange(at + 8, at + 16) == le_bytes(value, 8)
}

/// Whether `img` starts with the ELF header of a VDSO with `count` entries
/// (all but the section-header offset): the magic, 64-bit little-endian
/// version 1, a shared object for x86-64 with no entry point, program
/// headers right after the 64-byte header, `1 + count` of them of 56 bytes,
/// and two 64-byte section headers, the second naming the strings.
pub open spec fn elf_header_at(img: Seq<u8>, count: int) -> bool {
    &&& img.subrange(0, 4) == seq![0x7fu8, 0x45u8, 0x4cu8, 0x46u8]
    &&& img.subrange(4, 5) == le_bytes(2, 1)
    &&& img.subrange(5, 6) == le_bytes(1, 1)
    &&& img.subrange(6, 7) == le_bytes(1, 1)
    &&& img.subrange(7, 8) == le_bytes(0, 1)
    &&& img.subrange(16, 18) == le_bytes(3, 2)
    &&& img.subrange(18, 20) == le_bytes(62, 2)
    &&& img.subrange(20, 24) == le_bytes(1, 4)
    &&& img.subrange(24, 32) == le_bytes(0, 8)
    &&& img.subrange(32, 40) == le_bytes(64, 8)
    &&& img.subrange(48, 52) == le_bytes(0, 4)
    &&& img.subrange(52, 54) == le_bytes(64, 2)
    &&& img.subrange(54, 56) == le_bytes(56, 2)
    &&& img.subrange(56, 58) == le_bytes(1 + count, 2)
    &&& img.subrange(58, 60) == le_bytes(64, 2)
    &&& img.subrange(60, 62) == le_bytes(2, 2)
    &&& img.subrange(62, 64) == le_bytes(1, 2)
}

/// `elf_header_at` survives changes outside the header's fields.
proof fn lemma_header_at_kept(s: Seq<u8>, t: Seq<u8>, count: int)
    requires
        64 <= s.len(),
        s.len() == t.len(),
        elf_header_at(s, count),
        forall|j: int| 0 <= j < 64 && !(40 <= j < 48) ==> #[trigger] s[j] == t[j],
    ensures
        elf_header_at(t, count),
{
    lemma_same_range(s, t, 0, 4);
    lemma_same_range(s, t, 4, 5);
    lemma_same_range(s, t, 5, 6);
    lemma_same_range(s, t, 6, 7);
    lemma_same_range(s, t, 7, 8);
    lemma_same_range(s, t, 16, 18);
    lemma_same_range(s, t, 18, 20);
    lemma_same_range(s, t, 20, 24);
    lemma_same_range(s, t, 24, 32);
    lemma_same_range(s, t, 32, 40);
    lemma_same_range(s, t, 48, 52);
    lemma_same_range(s, t, 52, 54);
    lemma_same_range(s, t, 54, 56);
    lemma_same_range(s, t, 56, 58);
    lemma_same_range(s, t, 58, 60);
    lemma_same_range(s, t, 60, 62);
    lemma_same_range(s, t, 62, 64);
}

/// Whether the section header at `at` of `img` has type `typ` and describes
/// `size` bytes at file offset `offset`, with link `link`, info `info` and
/// entry size `entsize`.
pub open spec fn shdr_at(img: Seq<u8>, at: int, typ: int, offset: int, size: int, link: int, info: int, entsize: int) -> bool {
    &&& img.subrange(at + 4, at + 8) == le_bytes(typ, 4)
    &&& img.subrange(at + 24, at + 32) == le_bytes(offset, 8)
    &&& img.subrange(at + 32, at + 40) == le_bytes(size, 8)
    &&& img.subrange(at + 40, at + 44) == le_bytes(link, 4)
    &&& img.subrange(at + 44, at + 48) == le_bytes(info, 4)
    &&& img.subrange(at + 56, at + 64) == le_bytes(entsize, 8)
}

/// Storing `n` bytes at `off` writes `le_bytes(val, n)` there and nothing
/// else.
proof fn lemma_put_le(s: Seq<u8>, off: int, val: int, n: nat)
    requires
        0 <= off,
        off + n <= s.len(),
    ensures
        put_le(s, off, val, n).len() == s.len(),
        forall|j: int| 0 <= j < s.len() && !(off <= j < off + n) ==> #[trigger] put_le(s, off, val, n)[j] == s[j],
        put_le(s, off, val, n).subrange(off, off + n) == le_bytes(val, n),
    decreases n,
{
    if n > 0 {
        let s1 = s.update(off, (val % 256) as u8);
        lemma_put_le(s1, off + 1, val / 256, (n - 1) as nat);
        let r = put_le(s, off, val, n);
        assert(r == put_le(s1, off + 1, val / 256, (n - 1) as nat));
        assert(r[off] == s1[off]);
        assert(r.subrange(off, off + n) =~= seq![(val % 256) as u8] + r.subrange(off + 1, off + n));
    } else {
        assert(put_le(s, off, val, n).subrange(off, off + n) =~= Seq::<u8>::empty());
    }
}

/// Two sequences that agree on `[a, b)` have the same subrange there.
proof fn lemma_same_range(s: Seq<u8>, t: Seq<u8>, a: int, b: int)
    requires
        0 <= a <= b <= s.len(),
        s.len() == t.len(),
        forall|j: int| a <= j < b ==> #[trigger] s[j] == t[j],
    ensures
        s.subrange(a, b) == t.subrange(a, b),
{
    assert(s.subrange(a, b) =~= t.subrange(a, b));
}

/// Writing a program header at `at` makes `phdr_at` hold there and keeps
/// every byte outside `[at, at + 56)`.
proof fn lemma_phdr_image(s: Seq<u8>, at: int, flags: int, vaddr: int, paddr: int)
    requires
        0 <= at,
        at + 56 <= s.len(),
    ensures
        phdr_image(s, at, flags, vaddr, paddr).len() == s.len(),
        forall|j: int| 0 <= j < s.len() && !(at <= j < at + 56) ==> #[trigger] phdr_image(s, at, flags, vaddr, paddr)[j] == s[j],
        phdr_at(phdr_image(s, at, flags, vaddr, paddr), at, flags, vaddr, paddr),
{
    let s1 = put_le(s, at, 1, 4);
    lemma_put_le(s, at, 1, 4);
    let s2 = put_le(s1, at + 4, flags, 4);
    lemma_put_le(s1, at + 4, flags, 4);
    let s3 = put_le(s2, at + 8, 0, 8);
    lemma_put_le(s2, at + 8, 0, 8);
    let s4 = put_le(s3, at + 16, vaddr, 8);
    lemma_put_le(s3, at + 16, vaddr, 8);
    let s5 = put_le(s4, at + 24, paddr, 8);
    lemma_put_le(s4, at + 24, paddr, 8);
    let s6 = put_le(s5, at + 32, 4096, 8);
    lemma_put_le(s5, at + 32, 4096, 8);
    let s7 = put_le(s6, at + 40, 4096, 8);
    lemma_put_le(s6, at + 40, 4096, 8);
    let s8 = put_le(s7, at + 48, 4096, 8);
    lemma_put_le(s7, at + 48, 4096, 8);
    assert(s8 == phdr_image(s, at, flags, vaddr, paddr));
    lemma_same_range(s8, s1, at, at + 4);
    lemma_same_range(s8, s2, at + 4, at + 8);
    lemma_same_range(s8, s3, at + 8, at + 16);
    lemma_same_range(s8, s4, at + 16, at + 24);
    lemma_same_range(s8, s5, at + 24, at + 32);
    lemma_same_range(s8, s6, at + 32, at + 40);
    lemma_same_range(s8, s7, at + 40, at + 48);
}

/// `phdr_at` survives changes outside the header.
proof fn lemma_phdr_at_kept(s: Seq<u8>, t: Seq<u8>, at: int, flags: int, vaddr: int, paddr: int)
    requires
        0 <= at,
        at + 56 <= s.len(),
        s.len() == t.len(),
        phdr_at(s, at, flags, vaddr, paddr),
        forall|j: int| at <= j < at + 56 ==> #[trigger] s[j] == t[j],
    ensures
        phdr_at(t, at, flags, vaddr, paddr),
{
    lemma_same_range(s, t, at, at + 4);
    lemma_same_range(s, t, at + 4, at + 8);
    lemma_same_range(s, t, at + 8, at + 16);
    lemma_same_range(s, t, at + 16, at + 24);
    lemma_same_range(s, t, at + 24, at + 32);
    lemma_same_range(s, t, at + 32, at + 40);
    lemma_same_range(s, t, at + 40, at + 48);
    lemma_same_range(s, t, at + 48, at + 56);
}

/// The entries' program headers: entry `i` at `120 + 56 * i`, nothing else
/// changed.
proof fn lemma_entry_phdrs(s: Seq<u8>, entries: Seq<VdsoEntry>, k: int)
    requires
        0 <= k <= entries.len(),
        120 + 56 * k <= s.len(),
    ensures
        entry_phdrs(s, entries, k).len() == s.len(),
        forall|j: int| 0 <= j < s.len() && !(120 <= j < 120 + 56 * k) ==> #[trigger] entry_phdrs(s, entries, k)[j] == s[j],
        forall|i: int| 0 <= i < k ==> phdr_at(
            entry_phdrs(s, entries, k),
            120 + 56 * i,
            5,
            #[trigger] slot_vaddr_spec(i),
            entries[i].phys_addr as int,
        ),
    decreases k,
{
    if k > 0 {
        lemma_entry_phdrs(s, entries, k - 1);
        let prev = entry_phdrs(s, entries, k - 1);
        let at = 120 + 56 * (k - 1);
        lemma_phdr_image(prev, at, 5, slot_vaddr_spec(k - 1), entries[k - 1].phys_addr as int);
        let cur = entry_phdrs(s, entries, k);
        assert forall|i: int| 0 <= i < k implies phdr_at(
            cur,
            120 + 56 * i,
            5,
            #[trigger] slot_vaddr_spec(i),
            entries[i].phys_addr as int,
        ) by {
            if i < k - 1 {
                lemma_phdr_at_kept(prev, cur, 120 + 56 * i, 5, slot_vaddr_spec(i), entries[i].phys_addr as int);
            }
        }
    }
}

/// A symbol written at `at` is there afterwards, and every byte outside
/// `[at, at + 24)` is kept.
proof fn lemma_sym_image(s: Seq<u8>, at: int, name_off: int, info: int, value: int)
    requires
        0 <= at,
        at + 24 <= s.len(),
    ensures
        sym_image(s, at, name_off, info, value).len() == s.len(),
        forall|j: int| 0 <= j < s.len() && !(at <= j < at + 24) ==> #[trigger] sym_image(s, at, name_off, info, value)[j] == s[j],
        sym_at(sym_image(s, at, name_off, info, value), at, name_off, info, value),
{
    let s1 = put_le(s, at, name_off, 4);
    lemma_put_le(s, at, name_off, 4);
    let s2 = put_le(s1, at + 4, info, 1);
    lemma_put_le(s1, at + 4, info, 1);
    let s3 = put_le(s2, at + 5, 0, 1);
    lemma_put_le(s2, at + 5, 0, 1);
    let s4 = put_le(s3, at + 6, 0, 2);
    lemma_put_le(s3, at + 6, 0, 2);
    let s5 = put_le(s4, at + 8, value, 8);
    lemma_put_le(s4, at + 8, value, 8);
    let s6 = put_le(s5, at + 16, 0, 8);
    lemma_put_le(s5, at + 16, 0, 8);
    lemma_same_range(s6, s1, at, at + 4);
    lemma_same_range(s6, s2, at + 4, at + 5);
    lemma_same_range(s6, s5, at + 8, at + 16);
}

/// `sym_at` survives changes outside the symbol.
proof fn lemma_sym_at_kept(s: Seq<u8>, t: Seq<u8>, at: int, name_off: int, info: int, value: int)
    requires
        0 <= at,
        at + 24 <= s.len(),
        s.len() == t.len(),
        sym_at(s, at, name_off, info, value),
        forall|j: int| at <= j < at + 24 ==> #[trigger] s[j] == t[j],
    ensures
        sym_at(t, at, name_off, info, value),
{
    lemma_same_range(s, t, at, at + 4);
    lemma_same_range(s, t, at + 4, at + 5);
    lemma_same_range(s, t, at + 8, at + 16);
}

/// A name written at `at` keeps every byte outside it and its terminator.
proof fn lemma_name_image(s: Seq<u8>, at: int, name: Seq<u8>)
    requires
        0 <= at,
        at + name.len() + 1 <= s.len(),
    ensures
        name_image(s, at, name).len() == s.len(),
        forall|j: int| 0 <= j < s.len() && !(at <= j < at + name.len() + 1) ==> #[trigger] name_image(s, at, name)[j] == s[j],
        name_image(s, at, name).subrange(at, at + name.len() + 1) == name + seq![0u8],
{
    let r = name_image(s, at, name);
    assert(r.subrange(at, at + name.len() + 1) =~= name + seq![0u8]);
    assert forall|j: int| 0 <= j < s.len() && !(at <= j < at + name.len() + 1) implies #[trigger] r[j] == s[j] by {
        if j < at {
            assert(r[j] == s.subrange(0, at)[j]);
        } else {
            let k = j - (at + name.len() + 1);
            assert(r[j] == s.subrange(at + name.len() + 1, s.len() as int)[k]);
        }
    }
}

/// The symbols and names keep every byte up to the end of the null symbol
/// and every byte past the names written so far; symbol `i + 1` names entry `i`'s
/// string (global function, value its slot), and the string is there.
proof fn lemma_entry_syms(s: Seq<u8>, entries: Seq<VdsoEntry>, count: int, k: int)
    requires
        count == entries.len(),
        0 <= k <= count,
        s.len() == VDSO_BUFFER_SIZE,
        vdso_fits(entries),
    ensures
        entry_syms(s, entries, count, k).len() == s.len(),
        forall|j: int| 0 <= j < symtab_offset(count) + 24 ==> #[trigger] entry_syms(s, entries, count, k)[j] == s[j],
        forall|j: int| strtab_offset(count) + names_len(entries, k) <= j < s.len() ==> #[trigger] entry_syms(s, entries, count, k)[j] == s[j],
        forall|i: int| 0 <= i < k ==> sym_at(
            entry_syms(s, entries, count, k),
            symtab_offset(count) + 24 * (i + 1),
            names_len(entries, i),
            0x12,
            #[trigger] slot_vaddr_spec(i),
        ),
        forall|i: int| 0 <= i < k ==> entry_syms(s, entries, count, k).subrange(
            strtab_offset(count) + #[trigger] names_len(entries, i),
            strtab_offset(count) + names_len(entries, i) + entry_name(entries[i]).len() + 1,
        ) == entry_name(entries[i]) + seq![0u8],
    decreases k,
{
    if k > 0 {
        lemma_entry_syms(s, entries, count, k - 1);
        let prev = entry_syms(s, entries, count, k - 1);
        lemma_names_len_mono(entries, k, count);
        lemma_names_len_nonneg(entries, k - 1);
        lemma_names_len_nonneg(entries, count);
        let at = symtab_offset(count) + 24 * k;
        lemma_sym_image(prev, at, names_len(entries, k - 1), 0x12, slot_vaddr_spec(k - 1));
        let with_sym = sym_image(prev, at, names_len(entries, k - 1), 0x12, slot_vaddr_spec(k - 1));
        let str_at = strtab_offset(count) + names_len(entries, k - 1);
        lemma_name_image(with_sym, str_at, entry_name(entries[k - 1]));
        let cur = entry_syms(s, entries, count, k);
        assert(cur == name_image(with_sym, str_at, entry_name(entries[k - 1])));
        assert forall|i: int| 0 <= i < k implies sym_at(
            cur,
            symtab_offset(count) + 24 * (i + 1),
            names_len(entries, i),
            0x12,
            #[trigger] slot_vaddr_spec(i),
        ) by {
            let ai = symtab_offset(count) + 24 * (i + 1);
            if i < k - 1 {
                lemma_sym_at_kept(prev, with_sym, ai, names_len(entries, i), 0x12, slot_vaddr_spec(i));
            }
            lemma_sym_at_kept(with_sym, cur, ai, names_len(entries, i), 0x12, slot_vaddr_spec(i));
        }
        assert forall|i: int| 0 <= i < k implies cur.subrange(
            strtab_offset(count) + #[trigger] names_len(entries, i),
            strtab_offset(count) + names_len(entries, i) + entry_name(entries[i]).len() + 1,
        ) == entry_name(entries[i]) + seq![0u8] by {
            if i < k - 1 {
                let lo = strtab_offset(count) + names_len(entries, i);
                let hi = lo + entry_name(entries[i]).len() + 1;
                lemma_names_len_mono(entries, i + 1, k - 1);
                lemma_names_len_nonneg(entries, i);
                assert(hi == strtab_offset(count) + names_len(entries, i + 1));
                lemma_same_range(prev, cur, lo, hi);
            }
        }
    }
}

/// A section header written at `at` keeps every byte outside `[at, at + 64)`.
proof fn lemma_shdr_image(
    s: Seq<u8>,
    at: int,
    typ: int,
    offset: int,
    size: int,
    link: int,
    info: int,
    align: int,
    entsize: int,
)
    requires
        0 <= at,
        at + 64 <= s.len(),
    ensures
        shdr_image(s, at, typ, offset, size, link, info, align, entsize).len() == s.len(),
        forall|j: int| 0 <= j < s.len() && !(at <= j < at + 64) ==> #[trigger] shdr_image(s, at, typ, offset, size, link, info, align, entsize)[j] == s[j],
        shdr_at(shdr_image(s, at, typ, offset, size, link, info, align, entsize), at, typ, offset, size, link, info, entsize),
{
    let s1 = put_le(s, at, 0, 4);
    lemma_put_le(s, at, 0, 4);
    let s2 = put_le(s1, at + 4, typ, 4);
    lemma_put_le(s1, at + 4, typ, 4);
    let s3 = put_le(s2, at + 8, 0, 8);
    lemma_put_le(s2, at + 8, 0, 8);
    let s4 = put_le(s3, at + 16, 0, 8);
    lemma_put_le(s3, at + 16, 0, 8);
    let s5 = put_le(s4, at + 24, offset, 8);
    lemma_put_le(s4, at + 24, offset, 8);
    let s6 = put_le(s5, at + 32, size, 8);
    lemma_put_le(s5, at + 32, size, 8);
    let s7 = put_le(s6, at + 40, link, 4);
    lemma_put_le(s6, at + 40, link, 4);
    let s8 = put_le(s7, at + 44, info, 4);
    lemma_put_le(s7, at + 44, info, 4);
    let s9 = put_le(s8, at + 48, align, 8);
    lemma_put_le(s8, at + 48, align, 8);
    let s10 = put_le(s9, at + 56, entsize, 8);
    lemma_put_le(s9, at + 56, entsize, 8);
    lemma_same_range(s10, s2, at + 4, at + 8);
    lemma_same_range(s10, s5, at + 24, at + 32);
    lemma_same_range(s10, s6, at + 32, at + 40);
    lemma_same_range(s10, s7, at + 40, at + 44);
    lemma_same_range(s10, s8, at + 44, at + 48);
}

/// The section headers keep every byte outside `[sh, sh + 128)`.
proof fn lemma_section_image(s: Seq<u8>, count: int, sh: int, names: int)
    requires
        0 <= sh,
        sh + 128 <= s.len(),
    ensures
        section_image(s, count, sh, names).len() == s.len(),
        forall|j: int| 0 <= j < s.len() && !(sh <= j < sh + 128) ==> #[trigger] section_image(s, count, sh, names)[j] == s[j],
        shdr_at(section_image(s, count, sh, names), sh, 2, symtab_offset(count), (1 + count) * 24, 1, 1, 24),
        shdr_at(section_image(s, count, sh, names), sh + 64, 3, strtab_offset(count), names, 0, 0, 0),
{
    let s1 = shdr_image(s, sh, 2, symtab_offset(count), (1 + count) * 24, 1, 1, 8, 24);
    lemma_shdr_image(s, sh, 2, symtab_offset(count), (1 + count) * 24, 1, 1, 8, 24);
    let s2 = shdr_image(s1, sh + 64, 3, strtab_offset(count), names, 0, 0, 1, 0);
    lemma_shdr_image(s1, sh + 64, 3, strtab_offset(count), names, 0, 0, 1, 0);
    lemma_shdr_at_kept(s1, s2, sh, 2, symtab_offset(count), (1 + count) * 24, 1, 1, 24);
}

/// `shdr_at` survives changes outside the section header.
proof fn lemma_shdr_at_kept(s: Seq<u8>, t: Seq<u8>, at: int, typ: int, offset: int, size: int, link: int, info: int, entsize: int)
    requires
        0 <= at,
        at + 64 <= s.len(),
        s.len() == t.len(),
        shdr_at(s, at, typ, offset, size, link, info, entsize),
        forall|j: int| at <= j < at + 64 ==> #[trigger] s[j] == t[j],
    ensures
        shdr_at(t, at, typ, offset, size, link, info, entsize),
{
    lemma_same_range(s, t, at + 4, at + 8);
    lemma_same_range(s, t, at + 24, at + 32);
    lemma_same_range(s, t, at + 32, at + 40);
    lemma_same_range(s, t, at + 40, at + 44);
    lemma_same_range(s, t, at + 44, at + 48);
    lemma_same_range(s, t, at + 56, at + 64);
}

/// The ELF header: it writes below 120 only, counts one program header per
/// entry plus the metadata page, and describes the metadata page.
proof fn lemma_header_image(s: Seq<u8>, count: int)
    requires
        s.len() == VDSO_BUFFER_SIZE,
    ensures
        header_image(s, count).len() == s.len(),
        forall|j: int| 120 <= j < s.len() ==> #[trigger] header_image(s, count)[j] == s[j],
        header_image(s, count).subrange(56, 58) == le_bytes(1 + count, 2),
        phdr_at(header_image(s, count), 64, 6, VDSO_USER_BASE as int, 0),
        elf_header_at(header_image(s, count), count),
{
    let h0 = s.update(0, 0x7f).update(1, 0x45).update(2, 0x4c).update(3, 0x46);
    let h1 = put_le(h0, 4, 2, 1);
    lemma_put_le(h0, 4, 2, 1);
    let h2 = put_le(h1, 5, 1, 1);
    lemma_put_le(h1, 5, 1, 1);
    let h3 = put_le(h2, 6, 1, 1);
    lemma_put_le(h2, 6, 1, 1);
    let h4 = put_le(h3, 7, 0, 1);
    lemma_put_le(h3, 7, 0, 1);
    let h5 = put_le(h4, 16, 3, 2);
    lemma_put_le(h4, 16, 3, 2);
    let h6 = put_le(h5, 18, 62, 2);
    lemma_put_le(h5, 18, 62, 2);
    let h7 = put_le(h6, 20, 1, 4);
    lemma_put_le(h6, 20, 1, 4);
    let h8 = put_le(h7, 24, 0, 8);
    lemma_put_le(h7, 24, 0, 8);
    let h9 = put_le(h8, 32, 64, 8);
    lemma_put_le(h8, 32, 64, 8);
    let h11 = put_le(h9, 48, 0, 4);
    lemma_put_le(h9, 48, 0, 4);
    let h12 = put_le(h11, 52, 64, 2);
    lemma_put_le(h11, 52, 64, 2);
    let h13 = put_le(h12, 54, 56, 2);
    lemma_put_le(h12, 54, 56, 2);
    let h14 = put_le(h13, 56, 1 + count, 2);
    lemma_put_le(h13, 56, 1 + count, 2);
    let h15 = put_le(h14, 58, 64, 2);
    lemma_put_le(h14, 58, 64, 2);
    let h16 = put_le(h15, 60, 2, 2);
    lemma_put_le(h15, 60, 2, 2);
    let h17 = put_le(h16, 62, 1, 2);
    lemma_put_le(h16, 62, 1, 2);
    let header = phdr_image(h17, 64, 6, VDSO_USER_BASE as int, 0);
    lemma_phdr_image(h17, 64, 6, VDSO_USER_BASE as int, 0);
    assert(header == header_image(s, count));
    assert(h0.subrange(0, 4) =~= seq![0x7fu8, 0x45u8, 0x4cu8, 0x46u8]);
    lemma_same_range(header, h0, 0, 4);
    lemma_same_range(header, h1, 4, 5);
    lemma_same_range(header, h2, 5, 6);
    lemma_same_range(header, h3, 6, 7);
    lemma_same_range(header, h4, 7, 8);
    lemma_same_range(header, h5, 16, 18);
    lemma_same_range(header, h6, 18, 20);
    lemma_same_range(header, h7, 20, 24);
    lemma_same_range(header, h8, 24, 32);
    lemma_same_range(header, h9, 32, 40);
    lemma_same_range(header, h11, 48, 52);
    lemma_same_range(header, h12, 52, 54);
    lemma_same_range(header, h13, 54, 56);
    lemma_same_range(header, h14, 56, 58);
    lemma_same_range(header, h15, 58, 60);
    lemma_same_range(header, h16, 60, 62);
    lemma_same_range(header, h17, 62, 64);
}

/// The image's program headers are what the loader maps: the metadata page
/// (read/write) at `VDSO_USER_BASE`, then for each entry `i` a read/execute
/// page at `slot_vaddr(i)` backed by the entry's physical page; the header
/// counts one program header per entry plus the metadata page.
pub proof fn lemma_vdso_segments(s: Seq<u8>, entries: Seq<VdsoEntry>)
    requires
        s.len() == VDSO_BUFFER_SIZE,
        vdso_fits(entries),
    ensures
        vdso_image(s, entries).len() == VDSO_BUFFER_SIZE,
        vdso_image(s, entries).subrange(56, 58) == le_bytes(1 + entries.len() as int, 2),
        elf_header_at(vdso_image(s, entries), entries.len() as int),
        vdso_image(s, entries).subrange(40, 48) == le_bytes(shdr_offset(entries), 8),
        shdr_at(vdso_image(s, entries), shdr_offset(entries), 2, symtab_offset(entries.len() as int),
            (1 + entries.len() as int) * 24, 1, 1, 24),
        shdr_at(vdso_image(s, entries), shdr_offset(entries) + 64, 3, strtab_offset(entries.len() as int),
            names_len(entries, entries.len() as int), 0, 0, 0),
        phdr_at(vdso_image(s, entries), 64, 6, VDSO_USER_BASE as int, 0),
        forall|i: int| 0 <= i < entries.len() ==> phdr_at(
            vdso_image(s, entries),
            64 + 56 * (i + 1),
            5,
            #[trigger] slot_vaddr_spec(i),
            entries[i].phys_addr as int,
        ),
{
    let count = entries.len() as int;
    lemma_names_len_nonneg(entries, count);
    let header = header_image(s, count);
    lemma_header_image(s, count);
    // The entries' program headers, below the symbol table.
    let phdrs = entry_phdrs(header, entries, count);
    lemma_entry_phdrs(header, entries, count);
    lemma_same_range(phdrs, header, 56, 58);
    lemma_phdr_at_kept(header, phdrs, 64, 6, VDSO_USER_BASE as int, 0);
    // Everything after is written from the symbol table on, but for the
    // section header offset at 40.
    let with_null = sym_image(phdrs, symtab_offset(count), 0, 0, 0);
    lemma_sym_image(phdrs, symtab_offset(count), 0, 0, 0);
    let with_syms = entry_syms(with_null, entries, count, count);
    lemma_entry_syms(with_null, entries, count, count);
    let with_sh = section_image(with_syms, count, shdr_offset(entries), names_len(entries, count));
    lemma_section_image(with_syms, count, shdr_offset(entries), names_len(entries, count));
    let img = put_le(with_sh, 40, shdr_offset(entries), 8);
    lemma_put_le(with_sh, 40, shdr_offset(entries), 8);
    assert(img == vdso_image(s, entries));
    assert forall|j: int| 0 <= j < symtab_offset(count) && !(40 <= j < 48) implies #[trigger] img[j] == phdrs[j] by {}
    assert forall|j: int| 0 <= j < 64 && !(40 <= j < 48) implies #[trigger] header[j] == img[j] by {
        assert(phdrs[j] == header[j]);
    }
    lemma_header_at_kept(header, img, count);
    lemma_same_range(img, phdrs, 56, 58);
    assert forall|j: int| shdr_offset(entries) <= j < shdr_offset(entries) + 128 implies #[trigger] with_sh[j] == img[j] by {}
    lemma_shdr_at_kept(with_sh, img, shdr_offset(entries), 2, symtab_offset(count), (1 + count) * 24, 1, 1, 24);
    lemma_shdr_at_kept(with_sh, img, shdr_offset(entries) + 64, 3, strtab_offset(count), names_len(entries, count), 0, 0, 0);
    lemma_phdr_at_kept(phdrs, img, 64, 6, VDSO_USER_BASE as int, 0);
    assert forall|i: int| 0 <= i < entries.len() implies phdr_at(
        img,
        64 + 56 * (i + 1),
        5,
        #[trigger] slot_vaddr_spec(i),
        entries[i].phys_addr as int,
    ) by {
        assert(64 + 56 * (i + 1) == 120 + 56 * i);
        lemma_phdr_at_kept(phdrs, img, 120 + 56 * i, 5, slot_vaddr_spec(i), entries[i].phys_addr as int);
    }
}

/// The image's symbol table names every entry: symbol 0 is the null
/// symbol, symbol `i + 1` is a global function whose value is
/// `slot_vaddr(i)` and whose name (at its string-table offset) is entry
/// `i`'s name with its terminator.
pub proof fn lemma_vdso_symbols(s: Seq<u8>, entries: Seq<VdsoEntry>)
    requires
        s.len() == VDSO_BUFFER_SIZE,
        vdso_fits(entries),
    ensures
        sym_at(vdso_image(s, entries), symtab_offset(entries.len() as int), 0, 0, 0),
        forall|i: int| 0 <= i < entries.len() ==> sym_at(
            vdso_image(s, entries),
            symtab_offset(entries.len() as int) + 24 * (i + 1),
            names_len(entries, i),
            0x12,
            #[trigger] slot_vaddr_spec(i),
        ),
        forall|i: int| 0 <= i < entries.len() ==> vdso_image(s, entries).subrange(
            strtab_offset(entries.len() as int) + #[trigger] names_len(entries, i),
            strtab_offset(entries.len() as int) + names_len(entries, i) + entry_name(entries[i]).len() + 1,
        ) == entry_name(entries[i]) + seq![0u8],
{
    let count = entries.len() as int;
    lemma_names_len_nonneg(entries, count);
    let header = header_image(s, count);
    lemma_header_image(s, count);
    let phdrs = entry_phdrs(header, entries, count);
    lemma_entry_phdrs(header, entries, count);
    let with_null = sym_image(phdrs, symtab_offset(count), 0, 0, 0);
    lemma_sym_image(phdrs, symtab_offset(count), 0, 0, 0);
    let with_syms = entry_syms(with_null, entries, count, count);
    lemma_entry_syms(with_null, entries, count, count);
    let with_sh = section_image(with_syms, count, shdr_offset(entries), names_len(entries, count));
    lemma_section_image(with_syms, count, shdr_offset(entries), names_len(entries, count));
    let img = put_le(with_sh, 40, shdr_offset(entries), 8);
    lemma_put_le(with_sh, 40, shdr_offset(entries), 8);
    assert(img == vdso_image(s, entries));
    // Nothing after the symbols touches the symbol and string tables.
    assert forall|j: int| symtab_offset(count) <= j < shdr_offset(entries) implies #[trigger] img[j] == with_syms[j] by {}
    lemma_sym_at_kept(with_null, with_syms, symtab_offset(count), 0, 0, 0);
    lemma_sym_at_kept(with_syms, img, symtab_offset(count), 0, 0, 0);
    assert forall|i: int| 0 <= i < entries.len() implies sym_at(
        img,
        symtab_offset(count) + 24 * (i + 1),
        names_len(entries, i),
        0x12,
        #[trigger] slot_vaddr_spec(i),
    ) by {
        lemma_sym_at_kept(with_syms, img, symtab_offset(count) + 24 * (i + 1), names_len(entries, i), 0x12, slot_vaddr_spec(i));
    }
    assert forall|i: int| 0 <= i < entries.len() implies img.subrange(
        strtab_offset(count) + #[trigger] names_len(entries, i),
        strtab_offset(count) + names_len(entries, i) + entry_name(entries[i]).len() + 1,
    ) == entry_name(entries[i]) + seq![0u8] by {
        let lo = strtab_offset(count) + names_len(entries, i);
        let hi = lo + entry_name(entries[i]).len() + 1;
        lemma_names_len_mono(entries, i + 1, count);
        lemma_names_len_nonneg(entries, i);
        assert(hi == strtab_offset(count) + names_len(entries, i + 1));
        lemma_same_range(with_syms, img, lo, hi);
    }
}

/// The image writes nothing at or past its length.
proof fn lemma_vdso_unwritten(s: Seq<u8>, entries: Seq<VdsoEntry>)
    requires
        s.len() == VDSO_BUFFER_SIZE,
        vdso_fits(entries),
    ensures
        vdso_image(s, entries).len() == VDSO_BUFFER_SIZE,
        forall|j: int| vdso_len(entries) <= j < VDSO_BUFFER_SIZE ==> #[trigger] vdso_image(s, entries)[j] == s[j],
{
    let count = entries.len() as int;
    lemma_names_len_nonneg(entries, count);
    let header = header_image(s, count);
    lemma_header_image(s, count);
    let phdrs = entry_phdrs(header, entries, count);
    lemma_entry_phdrs(header, entries, count);
    let with_null = sym_image(phdrs, symtab_offset(count), 0, 0, 0);
    lemma_sym_image(phdrs, symtab_offset(count), 0, 0, 0);
    let with_syms = entry_syms(with_null, entries, count, count);
    lemma_entry_syms(with_null, entries, count, count);
    let with_sh = section_image(with_syms, count, shdr_offset(entries), names_len(entries, count));
    lemma_section_image(with_syms, count, shdr_offset(entries), names_len(entries, count));
    let img = put_le(with_sh, 40, shdr_offset(entries), 8);
    lemma_put_le(with_sh, 40, shdr_offset(entries), 8);
    assert(img == vdso_image(s, entries));
    assert forall|j: int| vdso_len(entries) <= j < VDSO_BUFFER_SIZE implies #[trigger] img[j] == s[j] by {
        assert(img[j] == with_sh[j]);
        assert(with_sh[j] == with_syms[j]);
        assert(with_syms[j] == with_null[j]);
        assert(with_null[j] == phdrs[j]);
        assert(phdrs[j] == header[j]);
    }
}

proof fn lemma_names_len_nonneg(entries: Seq<VdsoEntry>, k: int)
    ensures
        names_len(entries, k) >= 0,
    decreases k,
{
    if k > 0 {
        lemma_names_len_nonneg(entries, k - 1);
    }
}

proof fn lemma_names_len_mono(entries: Seq<VdsoEntry>, j: int, k: int)
    requires
        j <= k,
    ensures
        names_len(entries, j) <= names_len(entries, k),
    decreases k - j,
{
    if j < k {
        lemma_names_len_mono(entries, j, k - 1);
    }
}

} // verus!
