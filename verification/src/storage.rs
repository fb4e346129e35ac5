//! Storage and display driver glue of the kernel: the SD card's probe and
//! mount sequence, the list of mounted SD drives, and the placeholders of
//! the drivers that plugins will provide.
//!
//! The card reader, the FAT driver and the virtual file system are the
//! caller's: it performs each step the mount sequence asks for and reports
//! how it went.
use vstd::prelude::*;

verus! {

/// Where a mounted SD card lives in the file system.
pub const SD_MOUNT_POINT: &'static str = "/mnt/sdcard-1";

/// A mounted SD drive.
pub struct SdDrive {
    pub name: String,
    pub mount_point: String,
}

/// The mounted SD drives and their count (a counter that wraps around).
pub struct SdDrives {
    pub drives: Vec<SdDrive>,
    pub count: usize,
}

/// The entry a mounted card gets: its name and mount point.
pub open spec fn card_entry() -> (Seq<char>, Seq<char>) {
    ("SD Card"@, SD_MOUNT_POINT@)
}

impl SdDrives {
    /// Name and mount point of each drive, in mount order.
    pub open spec fn entries(&self) -> Seq<(Seq<char>, Seq<char>)> {
        self.drives@.map_values(|d: SdDrive| (d.name@, d.mount_point@))
    }

    /// No drive mounted.
    pub fn new() -> (r: Self)
        ensures
            r.drives@.len() == 0,
            r.count == 0,
    {
        SdDrives { drives: Vec::new(), count: 0 }
    }

    /// Record the card mounted at `SD_MOUNT_POINT` under the name "SD Card".
    pub fn record_mount(&mut self)
        ensures
            final(self).count == old(self).count.wrapping_add(1),
            final(self).drives@.len() == old(self).drives@.len() + 1,
            final(self).drives@.subrange(0, old(self).drives@.len() as int) == old(self).drives@,
            final(self).drives@.last().name@ == "SD Card"@,
            final(self).drives@.last().mount_point@ == SD_MOUNT_POINT@,
            final(self).entries() == old(self).entries().push(card_entry()),
    {
        let drive = SdDrive {
            name: String::from_str("SD Card"),
            mount_point: String::from_str(SD_MOUNT_POINT),
        };
        self.drives.push(drive);
        self.count = self.count.wrapping_add(1);
        assert(self.drives@.subrange(0, self.drives@.len() - 1) =~= old(self).drives@);
        assert(self.entries() =~= old(self).entries().push(card_entry()));
    }
}

/// The guard against two mounts at once: set while a mount is in progress
/// or done.
#[derive(Clone, Copy, Debug)]
pub struct SdProbeGuard {
    pub probed: bool,
}

impl SdProbeGuard {
    /// Claim the probe.  `false`: it was already claimed, and
    /// `probe_and_mount` reports success at once.
    pub fn claim(&mut self) -> (r: bool)
        ensures
            r == !old(self).probed,
            final(self).probed,
    {
        if self.probed {
            false
        } else {
            self.probed = true;
            true
        }
    }

    /// The probe ended; a failure releases the guard so that it can be
    /// retried.
    pub fn finish(&mut self, ok: bool)
        requires
            old(self).probed,
        ensures
            final(self).probed == ok,
    {
        if !ok {
            self.probed = false;
        }
    }
}

/// `probe_and_mount`'s answer when the guard is already claimed: the card
/// is mounted or a mount is in progress, which counts as success.
pub fn probe_and_mount(guard: &mut SdProbeGuard) -> (r: Option<bool>)
    ensures
        old(guard).probed ==> r == Some(true),
        !old(guard).probed ==> r is None,
        final(guard).probed,
{
    if guard.claim() {
        None
    } else {
        Some(true)
    }
}

/// A step of the SD mount sequence.
#[derive(Clone, Copy, Debug, PartialEq, Eq, Structural)]
pub enum SdMountStep {
    /// Is a card reader present?
    CheckController,
    /// Initialise the card.
    InitCard,
    /// Read the card's geometry.
    ReadCardInfo,
    /// Create `/mnt`, open the FAT file system on the card's blocks.
    OpenFat,
    /// Create the mount point and mount the file system there.
    Mount,
    /// Record the drive; the sequence succeeded.
    Record,
    /// The sequence is over with this result.
    Done(bool),
}

/// The SD mount sequence (`probe_and_mount_impl`): each step that fails
/// ends it with `false`.
#[derive(Clone, Copy, Debug)]
pub struct SdMount {
    pub step: SdMountStep,
    /// Sectors of the card, once known.
    pub total_blocks: u64,
    /// Bytes per sector, once known.
    pub block_size: u32,
}

/// The drives after a step of the mount sequence at `step`: the card is
/// added by the recording step, and by no other.
pub open spec fn drives_after_step(step: SdMountStep, d: Seq<(Seq<char>, Seq<char>)>) -> Seq<(Seq<char>, Seq<char>)> {
    if step == SdMountStep::Record { d.push(card_entry()) } else { d }
}

/// The drive count after a step of the mount sequence at `step`.
pub open spec fn count_after_step(step: SdMountStep, n: usize) -> usize {
    if step == SdMountStep::Record { n.wrapping_add(1) } else { n }
}

/// What a mount sequence at `step`, begun with drives `d0` and count `n0`,
/// has recorded: the card, once, if it succeeded, and nothing otherwise.
pub open spec fn mount_recorded(
    step: SdMountStep,
    d0: Seq<(Seq<char>, Seq<char>)>,
    n0: usize,
    d: Seq<(Seq<char>, Seq<char>)>,
    n: usize,
) -> bool {
    if step == SdMountStep::Done(true) {
        d == d0.push(card_entry()) && n == n0.wrapping_add(1)
    } else {
        d == d0 && n == n0
    }
}

impl SdMount {
    /// The sequence after the current step went as `ok` (checks and calls)
    /// or `info` (sectors, bytes per sector, for the card geometry) says.
    pub open spec fn after(self, ok: bool, info: Option<(u64, u32)>) -> SdMount {
        match self.step {
            SdMountStep::CheckController => SdMount {
                step: if ok { SdMountStep::InitCard } else { SdMountStep::Done(false) },
                ..self
            },
            SdMountStep::InitCard => SdMount {
                step: if ok { SdMountStep::ReadCardInfo } else { SdMountStep::Done(false) },
                ..self
            },
            SdMountStep::ReadCardInfo => match info {
                Some((blocks, size)) => SdMount { step: SdMountStep::OpenFat, total_blocks: blocks, block_size: size },
                None => SdMount { step: SdMountStep::Done(false), ..self },
            },
            SdMountStep::OpenFat => SdMount {
                step: if ok { SdMountStep::Mount } else { SdMountStep::Done(false) },
                ..self
            },
            SdMountStep::Mount => SdMount {
                step: if ok { SdMountStep::Record } else { SdMountStep::Done(false) },
                ..self
            },
            SdMountStep::Record => SdMount { step: SdMountStep::Done(true), ..self },
            SdMountStep::Done(_) => self,
        }
    }

    /// The sequence, at its first step.
    pub fn new() -> (r: Self)
        ensures
            r.step == SdMountStep::CheckController,
    {
        SdMount { step: SdMountStep::CheckController, total_blocks: 0, block_size: 0 }
    }

    /// Report how the current step went: `ok` for the checks and calls,
    /// `info` (sectors, bytes per sector) for the card geometry.  The
    /// recording step adds the card to `drives`.
    pub fn feed(&mut self, drives: &mut SdDrives, ok: bool, info: Option<(u64, u32)>)
        ensures
            *final(self) == old(self).after(ok, info),
            final(drives).entries() == drives_after_step(old(self).step, old(drives).entries()),
            final(drives).count == count_after_step(old(self).step, old(drives).count),
    {
        match self.step {
            SdMountStep::CheckController => {
                self.step = if ok { SdMountStep::InitCard } else { SdMountStep::Done(false) };
            },
            SdMountStep::InitCard => {
                self.step = if ok { SdMountStep::ReadCardInfo } else { SdMountStep::Done(false) };
            },
            SdMountStep::ReadCardInfo => {
                match info {
                    Some((blocks, size)) => {
                        self.total_blocks = blocks;
                        self.block_size = size;
                        self.step = SdMountStep::OpenFat;
                    },
                    None => {
                        self.step = SdMountStep::Done(false);
                    },
                }
            },
            SdMountStep::OpenFat => {
                self.step = if ok { SdMountStep::Mount } else { SdMountStep::Done(false) };
            },
            SdMountStep::Mount => {
                self.step = if ok { SdMountStep::Record } else { SdMountStep::Done(false) };
            },
            SdMountStep::Record => {
                drives.record_mount();
                self.step = SdMountStep::Done(true);
            },
            SdMountStep::Done(_) => {},
        }
    }
}

/// A mount records the card exactly when it succeeds: begun with drives
/// `d0` and count `n0`, the sequence starts having recorded nothing and
/// every step keeps [`mount_recorded`], so a failed probe leaves the drives
/// and their count as they were and a successful one adds the card once
/// and counts it.  (With [`SdProbeGuard::finish`], the guard then stays
/// set exactly when the mount succeeded, and a failure can be retried.)
pub proof fn lemma_mount_records_on_success(
    m: SdMount,
    ok: bool,
    info: Option<(u64, u32)>,
    d0: Seq<(Seq<char>, Seq<char>)>,
    n0: usize,
    d: Seq<(Seq<char>, Seq<char>)>,
    n: usize,
)
    requires
        mount_recorded(m.step, d0, n0, d, n),
    ensures
        mount_recorded(SdMountStep::CheckController, d0, n0, d0, n0),
        mount_recorded(m.after(ok, info).step, d0, n0, drives_after_step(m.step, d), count_after_step(m.step, n)),
{
}

/// `probe_and_mount` as a whole.  With the guard already set it answers
/// `true` and nothing changes.  Otherwise the guard is claimed, the mount
/// sequence runs from its first step to `Done(ok)` and the guard is
/// finished with `ok`: the answer is `ok`, the guard stays set exactly when
/// the mount succeeded (so a failure can be retried), the drives gain the
/// card once and the count grows by one on success, and both stay as they
/// were on failure; a count that matched the number of drives still does.
///
/// `before`, `claimed` and `after` are the guard before the call, after
/// [`probe_and_mount`] answered `answer`, and after [`SdProbeGuard::finish`];
/// `m` is the sequence when it ended, and `d0`, `n0` and `d`, `n` the drives
/// and their count before and after.
pub proof fn lemma_probe_and_mount(
    before: SdProbeGuard,
    answer: Option<bool>,
    claimed: SdProbeGuard,
    m: SdMount,
    after: SdProbeGuard,
    d0: Seq<(Seq<char>, Seq<char>)>,
    n0: usize,
    d: Seq<(Seq<char>, Seq<char>)>,
    n: usize,
)
    requires
        before.probed ==> answer == Some(true) && after == claimed && d == d0 && n == n0,
        !before.probed ==> answer is None,
        claimed.probed,
        answer is None ==> (m.step matches SdMountStep::Done(ok) && after.probed == ok),
        answer is None ==> mount_recorded(m.step, d0, n0, d, n),
    ensures
        ({
            let result = match answer {
                Some(r) => r,
                None => m.step->Done_0,
            };
            &&& before.probed ==> result && after.probed && d == d0 && n == n0
            &&& !before.probed ==> after.probed == result
            &&& !before.probed && result ==> d == d0.push(card_entry()) && n == n0.wrapping_add(1)
            &&& !before.probed && !result ==> d == d0 && n == n0
            &&& n0 == d0.len() && d0.len() < usize::MAX ==> n == d.len()
        }),
{
}

/// The geometry the SD block device reports: bytes per sector.
pub fn sector_size(mount: &SdMount) -> (r: u32)
    ensures
        r == mount.block_size,
{
    mount.block_size
}

/// The geometry the SD block device reports: number of sectors.
pub fn total_sectors(mount: &SdMount) -> (r: u64)
    ensures
        r == mount.total_blocks,
{
    mount.total_blocks
}

/// Mass-storage initialisation at boot: the driver plugins do it, so there
/// is nothing to do here yet.
pub fn init_storage_devices() {
}

/// Whether a VirtIO GPU driver is present: not until a display plugin
/// provides one.
pub fn is_available() -> (r: bool)
    ensures
        !r,
{
    false
}

/// The VirtIO GPU framebuffer: none without a driver.
pub fn get_framebuffer() -> (r: Option<&'static mut [u8]>)
    ensures
        r is None,
{
    None
}

} // verus!
