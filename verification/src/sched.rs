//! The kernel's idle loop decisions and the Local APIC set-up checks.
//!
//! The loop itself, which renders the desktop, drives the GUI runtime and
//! halts between ticks, and the APIC's MMIO registers are the caller's.
use vstd::prelude::*;

verus! {

/// The shell-launch request the desktop raises and the idle loop takes.
#[derive(Clone, Copy, Debug)]
pub struct ShellLauncher {
    pub requested: bool,
}

impl ShellLauncher {
    /// No launch requested.
    pub fn new() -> (r: Self)
        ensures
            !r.requested,
    {
        ShellLauncher { requested: false }
    }

    /// Request a launch.
    pub fn request_launch(&mut self)
        ensures
            final(self).requested,
    {
        self.requested = true;
    }

    /// Take the request: whether one was pending; none is pending after.
    pub fn take_launch_request(&mut self) -> (r: bool)
        ensures
            r == old(self).requested,
            !final(self).requested,
    {
        let r = self.requested;
        self.requested = false;
        r
    }
}

/// Ask the idle loop to launch the shell.
pub fn request_shell_launch(launcher: &mut ShellLauncher)
    ensures
        final(launcher).requested,
{
    launcher.request_launch();
}

/// The time in microseconds the idle loop publishes: from the time-stamp
/// counter when its rate is known, otherwise the timer tick count.
pub fn now_us(tsc: u64, tsc_per_ms: u64, ticks: u64) -> (r: u64)
    ensures
        tsc_per_ms > 0 ==> r == ((tsc as int * 1000) / (tsc_per_ms as int)) as u64,
        tsc_per_ms == 0 ==> r == ticks,
{
    if tsc_per_ms > 0 {
        let wide: u128 = (tsc as u128) * 1000 / (tsc_per_ms as u128);
        wide as u64
    } else {
        ticks
    }
}

/// The idle loop's tick counter after one more tick (it wraps around).
pub fn next_tick(tick: u64) -> (r: u64)
    ensures
        r == tick.wrapping_add(1),
{
    tick.wrapping_add(1)
}

/// Interrupt vector of the APIC timer.
pub const TIMER_INTERRUPT_INDEX: u32 = 32;

/// Interrupt vector of the keyboard.
pub const KEYBOARD_INTERRUPT_INDEX: u32 = 33;

/// Interrupt vector of the mouse.
pub const MOUSE_INTERRUPT_INDEX: u32 = 44;

/// Physical address of the Local APIC when the base MSR gives none.
pub const DEFAULT_LAPIC_PHYS: u64 = 0xFEE0_0000;

/// Start of the higher half, where the Local APIC must be mapped.
pub const HIGHER_HALF: u64 = 0xFFFF_8000_0000_0000;

/// Whether `virt` can be the Local APIC's mapping: in the higher half and
/// page-aligned.
pub open spec fn lapic_base_usable(virt: u64) -> bool {
    virt >= HIGHER_HALF && virt % 4096 == 0
}

/// The Local APIC's virtual address when no controller was set up before
/// the APIC is initialised: the base from the MSR (or the default) in the
/// physical-memory window at `offset`; `None` when that address cannot be
/// the APIC's, in which case initialisation is skipped.
pub fn lapic_virt_for(msr_base: Option<u64>, offset: u64) -> (r: Option<u64>)
    requires
        (match msr_base {
            Some(p) => p,
            None => DEFAULT_LAPIC_PHYS,
        }) + offset <= u64::MAX,
    ensures
        ({
            let phys = match msr_base {
                Some(p) => p,
                None => DEFAULT_LAPIC_PHYS,
            };
            let virt = (phys + offset) as u64;
            &&& lapic_base_usable(virt) ==> r == Some(virt)
            &&& !lapic_base_usable(virt) ==> r is None
        }),
{
    let phys = match msr_base {
        Some(p) => p,
        None => DEFAULT_LAPIC_PHYS,
    };
    let virt = phys + offset;
    assert(((virt & 0xFFFu64) == 0) == (virt % 4096 == 0)) by (bit_vector);
    if virt >= HIGHER_HALF && (virt & 0xFFF) == 0 {
        Some(virt)
    } else {
        None
    }
}

} // verus!
