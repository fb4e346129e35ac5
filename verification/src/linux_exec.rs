//! `execve`: from the executable's bytes to the pages to map, the stack to
//! set up and the registers to start with.
use vstd::prelude::*;
use crate::linux_fs::{LinuxRuntime, ENOEXEC};
use crate::paging::{page_table_flags, pte_bits};

verus! {

/// A program header as the loader uses it.
#[derive(Clone, Copy, Debug, PartialEq, Eq, Structural)]
pub struct ProgramSegment {
    pub p_type: u32,
    pub p_flags: u32,
    pub p_offset: u64,
    pub p_vaddr: u64,
    pub p_filesz: u64,
    pub p_memsz: u64,
}

/// What the loader reads of a parsed ELF file: its type, entry point and
/// program headers.
#[derive(Clone, Debug)]
pub struct ElfSummary {
    pub e_type: u16,
    pub e_entry: u64,
    pub segments: Vec<ProgramSegment>,
}

/// A program header as plain numbers.
pub open spec fn segment_tuple(s: ProgramSegment) -> (u32, u32, u64, u64, u64, u64) {
    (s.p_type, s.p_flags, s.p_offset, s.p_vaddr, s.p_filesz, s.p_memsz)
}

/// What `goblin::elf::Elf::parse` yields for these bytes: `None` when it
/// refuses them, otherwise the header's type and entry point and the program
/// headers (type, flags, offset, virtual address, file size, memory size).
pub uninterp spec fn goblin_elf_parse(bytes: Seq<u8>) -> Option<(u16, u64, Seq<(u32, u32, u64, u64, u64, u64)>)>;

/// Parse an ELF file with `goblin::elf::Elf::parse`, keeping what the loader
/// reads.  The result is the named parse of the bytes; nothing more is
/// claimed of it.
#[verifier::external_body]
fn elf_parse(data: &[u8]) -> (r: Option<ElfSummary>)
    ensures
        match goblin_elf_parse(data@) {
            None => r is None,
            Some((t, e, phs)) => r matches Some(s) && s.e_type == t && s.e_entry == e
                && s.segments@.map_values(|p: ProgramSegment| segment_tuple(p)) == phs,
        },
{
    match goblin::elf::Elf::parse(data) {
        Ok(elf) => Some(ElfSummary {
            e_type: elf.header.e_type,
            e_entry: elf.header.e_entry,
            segments: elf.program_headers.iter().map(|ph| ProgramSegment {
                p_type: ph.p_type,
                p_flags: ph.p_flags,
                p_offset: ph.p_offset,
                p_vaddr: ph.p_vaddr,
                p_filesz: ph.p_filesz,
                p_memsz: ph.p_memsz,
            }).collect(),
        }),
        Err(_) => None,
    }
}

/// `goblin::elf::header::ET_EXEC`: 2.
#[verifier::external_body]
fn et_exec() -> (r: u16)
    ensures
        r == 2,
{
    goblin::elf::header::ET_EXEC
}

/// `goblin::elf::program_header::PT_LOAD`: 1.
#[verifier::external_body]
fn pt_load() -> (r: u32)
    ensures
        r == 1,
{
    goblin::elf::program_header::PT_LOAD
}

/// `goblin::elf::program_header::PF_W`: 2.
#[verifier::external_body]
fn pf_w() -> (r: u32)
    ensures
        r == 2,
{
    goblin::elf::program_header::PF_W
}

/// `goblin::elf::program_header::PF_X`: 1.
#[verifier::external_body]
fn pf_x() -> (r: u32)
    ensures
        r == 1,
{
    goblin::elf::program_header::PF_X
}

/// The loadable segments of `segs`, in order.
pub open spec fn load_segments(segs: Seq<ProgramSegment>) -> Seq<ProgramSegment> {
    segs.filter(|s: ProgramSegment| s.p_type == 1)
}

/// An executable image ready to load: its entry point and loadable segments.
#[derive(Clone, Debug)]
pub struct ExecImage {
    pub entry: u64,
    pub segments: Vec<ProgramSegment>,
}

/// The loadable image of a parsed ELF file, or `-ENOEXEC` when it is not an
/// executable (`ET_EXEC`).
pub fn exec_image(elf: &ElfSummary) -> (r: Result<ExecImage, i32>)
    ensures
        elf.e_type != 2 ==> r == Err::<ExecImage, i32>(ENOEXEC),
        elf.e_type == 2 ==> (r matches Ok(img) && img.entry == elf.e_entry && img.segments@
            == load_segments(elf.segments@)),
{
    if elf.e_type != et_exec() {
        return Err(ENOEXEC);
    }
    let load = pt_load();
    let mut segments: Vec<ProgramSegment> = Vec::new();
    let mut i: usize = 0;
    while i < elf.segments.len()
        invariant
            load == 1,
            i <= elf.segments@.len(),
            segments@ == load_segments(elf.segments@.subrange(0, i as int)),
        decreases elf.segments@.len() - i,
    {
        let s = elf.segments[i];
        proof {
            let pre = elf.segments@.subrange(0, i as int);
            assert(elf.segments@.subrange(0, i + 1) =~= pre.push(s));
            reveal(Seq::filter);
            assert(pre.push(s).drop_last() =~= pre);
        }
        if s.p_type == load {
            segments.push(s);
        }
        i += 1;
    }
    assert(elf.segments@.subrange(0, i as int) =~= elf.segments@);
    Ok(ExecImage { entry: elf.e_entry, segments })
}

/// Parse the executable's bytes: `-ENOEXEC` when goblin refuses them or
/// they are not an executable.
pub fn parse_exec_image(data: &[u8]) -> (r: Result<ExecImage, i32>)
    ensures
        match goblin_elf_parse(data@) {
            None => r == Err::<ExecImage, i32>(ENOEXEC),
            Some((t, e, phs)) => if t != 2 {
                r == Err::<ExecImage, i32>(ENOEXEC)
            } else {
                r matches Ok(img) && img.entry == e && img.segments@.map_values(
                    |p: ProgramSegment| segment_tuple(p),
                ) == phs.filter(|t: (u32, u32, u64, u64, u64, u64)| t.0 == 1)
            },
        },
{
    match elf_parse(data) {
        None => Err(ENOEXEC),
        Some(elf) => {
            let r = exec_image(&elf);
            proof {
                if elf.e_type == 2 {
                    lemma_filter_map(elf.segments@);
                }
            }
            r
        },
    }
}

proof fn lemma_filter_map(segs: Seq<ProgramSegment>)
    ensures
        load_segments(segs).map_values(|p: ProgramSegment| segment_tuple(p)) == segs.map_values(
            |p: ProgramSegment| segment_tuple(p),
        ).filter(|t: (u32, u32, u64, u64, u64, u64)| t.0 == 1),
    decreases segs.len(),
{
    if segs.len() > 0 {
        let pre = segs.drop_last();
        lemma_filter_map(pre);
        assert(segs =~= pre.push(segs.last()));
        reveal(Seq::filter);
        assert(segs.map_values(|p: ProgramSegment| segment_tuple(p)) =~= pre.map_values(
            |p: ProgramSegment| segment_tuple(p),
        ).push(segment_tuple(segs.last())));
        assert(segs.map_values(|p: ProgramSegment| segment_tuple(p)).drop_last() =~= pre.map_values(
            |p: ProgramSegment| segment_tuple(p),
        ));
        let f = load_segments(pre);
        if segs.last().p_type == 1 {
            assert(f.push(segs.last()).map_values(|p: ProgramSegment| segment_tuple(p))
                =~= f.map_values(|p: ProgramSegment| segment_tuple(p)).push(
                segment_tuple(segs.last()),
            ));
        }
    } else {
        assert(segs.map_values(|p: ProgramSegment| segment_tuple(p)) =~= Seq::empty());
        assert(load_segments(segs) =~= Seq::empty());
    }
}

/// One page of a loadable segment: where it goes, with which flags, and
/// which bytes of the file it starts with (`None`: all zeros).
#[derive(Clone, Copy, Debug)]
pub struct PageLoad {
    pub vaddr: u64,
    pub flags: u64,
    pub copy: Option<(usize, usize)>,
}

/// Flags of a segment's pages: present and user-accessible, writable when
/// the segment is (`PF_W`), not executable unless it is (`PF_X`).
pub open spec fn segment_flags(p_flags: u32) -> int {
    pte_bits(true, (p_flags / 2) % 2 == 1, true, p_flags % 2 == 0)
}

/// Number of pages a segment occupies in memory.
pub fn segment_page_count(seg: &ProgramSegment) -> (r: usize)
    requires
        seg.p_memsz + 4095 <= usize::MAX,
    ensures
        r == (seg.p_memsz + 4095) / 4096,
{
    ((seg.p_memsz as usize) + 4095) / 4096
}

/// Whether page `idx` of `seg` can be computed without overflow.
pub open spec fn segment_page_ok(seg: ProgramSegment, idx: int) -> bool {
    &&& seg.p_vaddr + idx * 4096 <= u64::MAX
    &&& seg.p_offset + idx * 4096 + 4096 <= usize::MAX
    &&& seg.p_filesz <= usize::MAX
    &&& idx * 4096 <= usize::MAX
}

/// Page `idx` of a segment: at `p_vaddr + idx * 4096`; copied from the file
/// (at most one page, from `p_offset + idx * 4096`) while inside the file
/// size, zero-filled beyond it; `-ENOEXEC` when the bytes to copy run past
/// the end of the file.
pub fn segment_page(seg: &ProgramSegment, idx: usize, data_len: usize) -> (r: Result<PageLoad, i32>)
    requires
        segment_page_ok(*seg, idx as int),
    ensures
        ({
            let off = idx * 4096;
            let base = PageLoad {
                vaddr: (seg.p_vaddr + off) as u64,
                flags: segment_flags(seg.p_flags) as u64,
                copy: None,
            };
            if off < seg.p_filesz {
                let len = if seg.p_filesz - off < 4096 { seg.p_filesz - off } else { 4096 };
                let src = seg.p_offset + off;
                if src + len > data_len {
                    r == Err::<PageLoad, i32>(ENOEXEC)
                } else {
                    r == Ok::<PageLoad, i32>(PageLoad { copy: Some((src as usize, len as usize)), ..base })
                }
            } else {
                r == Ok::<PageLoad, i32>(base)
            }
        }),
{
    let w = pf_w();
    let x = pf_x();
    let pf = seg.p_flags;
    proof {
        assert(((pf & 2u32) != 0) == ((pf / 2) % 2 == 1) && ((pf & 1u32) == 0) == (pf % 2 == 0))
            by (bit_vector);
    }
    let flags = page_table_flags(true, (pf & w) != 0, true, (pf & x) == 0);
    let page_offset: usize = idx * 4096;
    let vaddr = seg.p_vaddr + page_offset as u64;
    let file_sz = seg.p_filesz as usize;
    if page_offset < file_sz {
        let rest = file_sz - page_offset;
        let copy_len = if rest < 4096 { rest } else { 4096 };
        let src_offset = seg.p_offset as usize + page_offset;
        if src_offset + copy_len > data_len {
            return Err(ENOEXEC);
        }
        Ok(PageLoad { vaddr, flags, copy: Some((src_offset, copy_len)) })
    } else {
        Ok(PageLoad { vaddr, flags, copy: None })
    }
}

/// Top of the user stack of a freshly executed program.
pub const EXEC_STACK_TOP: u64 = 0x7fff_ffff_f000;

/// Size of that stack: 2 MiB.
pub const EXEC_STACK_SIZE: u64 = 0x20_0000;

/// Number of pages of the user stack.
pub const EXEC_STACK_PAGES: usize = 512;

/// Page `i` of the user stack: above a guard page below the 2 MiB stack,
/// present, writable, user-accessible, not executable.
pub fn exec_stack_page(i: usize) -> (r: (u64, u64))
    requires
        i < EXEC_STACK_PAGES,
    ensures
        r.0 == EXEC_STACK_TOP - EXEC_STACK_SIZE + i * 4096,
        r.1 == pte_bits(true, true, true, true),
{
    let stack_guard: u64 = 4096;
    let stack_base = EXEC_STACK_TOP - EXEC_STACK_SIZE - stack_guard;
    let vaddr = stack_base + stack_guard + (i as u64) * 4096;
    (vaddr, page_table_flags(true, true, true, true))
}

/// The initial stack of the new program: the stack pointer (32 bytes below
/// the top) and the four words stored there, argc = 1 followed by an empty
/// argv and an empty envp.
pub fn exec_initial_stack() -> (r: (u64, [u64; 4]))
    ensures
        r.0 == EXEC_STACK_TOP - 32,
        r.1@ == seq![1u64, 0u64, 0u64, 0u64],
{
    let words: [u64; 4] = [1, 0, 0, 0];
    assert(words@ =~= seq![1u64, 0u64, 0u64, 0u64]);
    (EXEC_STACK_TOP - 32, words)
}

/// Number of heap pages (above the initial break) to unmap before loading.
pub fn exec_brk_pages(rt: &LinuxRuntime) -> (r: u64)
    requires
        rt.program_break - rt.initial_break + 4095 <= u64::MAX,
    ensures
        rt.program_break > rt.initial_break ==> r == (rt.program_break - rt.initial_break + 4095)
            / 4096,
        rt.program_break <= rt.initial_break ==> r == 0,
{
    if rt.program_break > rt.initial_break {
        (rt.program_break - rt.initial_break + 4095) / 4096
    } else {
        0
    }
}

/// Reset the runtime for the new program: the break back at its initial
/// value, no thread-local pointer, no pending signals.
pub fn reset_for_exec(rt: &mut LinuxRuntime)
    ensures
        final(rt).program_break == old(rt).initial_break,
        final(rt).tls_ptr == 0,
        final(rt).signal_pending == 0,
        final(rt).initial_break == old(rt).initial_break,
        final(rt).pid == old(rt).pid,
        final(rt).fd_table.entries@ == old(rt).fd_table.entries@,
        final(rt).child_clear_tid == old(rt).child_clear_tid,
{
    rt.program_break = rt.initial_break;
    rt.tls_ptr = 0;
    rt.signal_pending = 0;
}

} // verus!
