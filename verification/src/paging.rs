//! Page-table entry flags and the kernel's driver-support helpers built on
//! them.
use vstd::prelude::*;

verus! {

/// `x86_64::structures::paging::PageTableFlags::PRESENT`, as bits.  The
/// crate defines it as bit 0.
#[verifier::external_body]
fn pte_present() -> (r: u64)
    ensures
        r == 1,
{
    x86_64::structures::paging::PageTableFlags::PRESENT.bits()
}

/// `x86_64::structures::paging::PageTableFlags::WRITABLE`, as bits: bit 1.
#[verifier::external_body]
fn pte_writable() -> (r: u64)
    ensures
        r == 2,
{
    x86_64::structures::paging::PageTableFlags::WRITABLE.bits()
}

/// `x86_64::structures::paging::PageTableFlags::USER_ACCESSIBLE`, as bits:
/// bit 2.
#[verifier::external_body]
fn pte_user_accessible() -> (r: u64)
    ensures
        r == 4,
{
    x86_64::structures::paging::PageTableFlags::USER_ACCESSIBLE.bits()
}

/// `x86_64::structures::paging::PageTableFlags::NO_EXECUTE`, as bits: bit 63.
#[verifier::external_body]
fn pte_no_execute() -> (r: u64)
    ensures
        r == 0x8000_0000_0000_0000,
{
    x86_64::structures::paging::PageTableFlags::NO_EXECUTE.bits()
}

/// Page-table flag bits from the four flags the kernel sets.
pub open spec fn pte_bits(present: bool, writable: bool, user: bool, no_execute: bool) -> int {
    (if present { 1int } else { 0int }) + (if writable { 2int } else { 0int }) + (if user {
        4int
    } else {
        0int
    }) + (if no_execute { 0x8000_0000_0000_0000int } else { 0int })
}

/// The flag bits of an entry with the given flags set.
pub fn page_table_flags(present: bool, writable: bool, user: bool, no_execute: bool) -> (r: u64)
    ensures
        r == pte_bits(present, writable, user, no_execute),
{
    let p = if present { pte_present() } else { 0 };
    let w = if writable { pte_writable() } else { 0 };
    let u = if user { pte_user_accessible() } else { 0 };
    let nx = if no_execute { pte_no_execute() } else { 0 };
    p + w + u + nx
}

/// Error type for the kernel's memory operations on behalf of drivers.
#[derive(Debug, Clone, Copy, PartialEq, Eq, Structural)]
pub enum MemError {
    OutOfMemory,
    MmioMappingFailed,
}

/// Kernel-virtual address of `phys` in the physical-memory window at `offset`.
pub fn phys_to_virt(phys: u64, offset: u64) -> (r: usize)
    requires
        phys + offset <= usize::MAX,
    ensures
        r == phys + offset,
{
    (phys + offset) as usize
}

/// Flags of a page a driver maps: present, writable when asked, not
/// executable unless asked.
pub fn map_page_flags(writable: bool, executable: bool) -> (r: u64)
    ensures
        r == pte_bits(true, writable, false, !executable),
{
    page_table_flags(true, writable, false, !executable)
}

} // verus!
