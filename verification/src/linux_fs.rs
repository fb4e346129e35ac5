//! Linux file-descriptor system calls over the per-process descriptor table.
//!
//! Descriptors 0, 1 and 2 are the console and live outside the table; every
//! other descriptor names an open file of the virtual file system.  Calls
//! that need the file system or user memory return what the caller must do
//! with them; the caller performs it and, where the call continues, reports
//! back.
use vstd::prelude::*;
use std::collections::BTreeMap;

verus! {

// ── errno values ─────────────────────────────────────────────────
pub const ENOENT: i32 = 2;
pub const ESRCH: i32 = 3;
pub const ENOEXEC: i32 = 8;
pub const EBADF: i32 = 9;
pub const ENOMEM: i32 = 12;
pub const EFAULT: i32 = 14;
pub const ENOTDIR: i32 = 20;
pub const EINVAL: i32 = 22;
pub const EMFILE: i32 = 24;
pub const ENOTTY: i32 = 25;
pub const ESPIPE: i32 = 29;
pub const ERANGE: i32 = 34;
pub const ENOSYS: i32 = 38;

// ── open flags ───────────────────────────────────────────────────
pub const O_RDONLY: i32 = 0;
pub const O_WRONLY: i32 = 1;
pub const O_RDWR: i32 = 2;
pub const O_CREAT: i32 = 0o100;
pub const O_TRUNC: i32 = 0o1000;
pub const O_APPEND: i32 = 0o2000;

// ── fcntl commands ───────────────────────────────────────────────
pub const F_DUPFD: i32 = 0;
pub const F_GETFD: i32 = 1;
pub const F_SETFD: i32 = 2;
pub const F_GETFL: i32 = 3;
pub const F_SETFL: i32 = 4;

/// The value a system call returns to report error `e`: `-e` as a 64-bit
/// two's-complement word.
pub open spec fn errno_spec(e: i32) -> u64 {
    (0 - e) as u64
}

/// The system-call return value for error `e`.
pub fn errno_code(e: i32) -> (r: u64)
    ensures
        r == errno_spec(e),
{
    (-(e as i64)) as u64
}

/// An open file as a Linux process sees it.
#[derive(Clone, Copy, Debug, PartialEq, Eq, Structural)]
pub struct LinuxFileDesc {
    /// Descriptor of the file in the virtual file system.
    pub vfs_fd: u32,
    /// Index of the mount the file lives on.
    pub mount_index: usize,
    /// Open flags (`O_*`).
    pub flags: i32,
    /// Current file position.
    pub offset: u64,
}

/// The lowest descriptor at or above `fd` that the table leaves free.
pub open spec fn lowest_free_from(m: Map<i32, LinuxFileDesc>, fd: int) -> Option<i32>
    decreases i32::MAX + 1 - fd,
{
    if fd > i32::MAX || fd < i32::MIN {
        None
    } else if !m.contains_key(fd as i32) {
        Some(fd as i32)
    } else {
        lowest_free_from(m, fd + 1)
    }
}

/// The descriptor table of a Linux process.
pub struct FdTable {
    pub entries: BTreeMap<i32, LinuxFileDesc>,
}

impl FdTable {
    /// An empty table.
    pub fn new() -> (r: Self)
        ensures
            r.entries@ == Map::<i32, LinuxFileDesc>::empty(),
    {
        FdTable { entries: BTreeMap::new() }
    }

    /// The file open as `fd`.
    pub fn get(&self, fd: i32) -> (r: Option<LinuxFileDesc>)
        ensures
            self.entries@.contains_key(fd) ==> r == Some(self.entries@[fd]),
            !self.entries@.contains_key(fd) ==> r is None,
    {
        match self.entries.get(&fd) {
            Some(d) => Some(*d),
            None => None,
        }
    }

    /// Whether `fd` is open.
    pub fn contains(&self, fd: i32) -> (r: bool)
        ensures
            r == self.entries@.contains_key(fd),
    {
        self.entries.contains_key(&fd)
    }

    /// Close `fd`, returning the file it named.
    pub fn remove(&mut self, fd: i32) -> (r: Option<LinuxFileDesc>)
        ensures
            final(self).entries@ == old(self).entries@.remove(fd),
            old(self).entries@.contains_key(fd) ==> r == Some(old(self).entries@[fd]),
            !old(self).entries@.contains_key(fd) ==> r is None,
    {
        self.entries.remove(&fd)
    }

    /// Make `fd` name `desc`, replacing whatever it named.
    pub fn insert(&mut self, fd: i32, desc: LinuxFileDesc)
        ensures
            final(self).entries@ == old(self).entries@.insert(fd, desc),
    {
        self.entries.insert(fd, desc);
    }

    /// Open a file under the lowest free descriptor from 3 on, at offset 0;
    /// `None` when no descriptor is free.
    pub fn allocate(&mut self, vfs_fd: u32, mount_index: usize, flags: i32) -> (r: Option<i32>)
        ensures
            r == lowest_free_from(old(self).entries@, 3),
            r matches Some(fd) ==> final(self).entries@ == old(self).entries@.insert(
                fd,
                LinuxFileDesc { vfs_fd, mount_index, flags, offset: 0 },
            ),
            r is None ==> final(self).entries@ == old(self).entries@,
    {
        let mut fd: i32 = 3;
        while fd < i32::MAX && self.entries.contains_key(&fd)
            invariant
                3 <= fd <= i32::MAX,
                lowest_free_from(self.entries@, 3) == lowest_free_from(self.entries@, fd as int),
            decreases i32::MAX - fd,
        {
            fd += 1;
        }
        if self.entries.contains_key(&fd) {
            assert(lowest_free_from(self.entries@, fd + 1) is None);
            return None;
        }
        self.entries.insert(fd, LinuxFileDesc { vfs_fd, mount_index, flags, offset: 0 });
        Some(fd)
    }
}

/// Per-process state of the Linux personality.
pub struct LinuxRuntime {
    pub pid: u64,
    pub fd_table: FdTable,
    pub initial_break: u64,
    pub program_break: u64,
    pub tls_ptr: u64,
    pub signal_pending: u64,
    pub child_clear_tid: u64,
}

/// Whether `fd` is one of the console descriptors 0, 1, 2.
pub open spec fn is_std_fd_spec(fd: i32) -> bool {
    0 <= fd <= 2
}

impl LinuxRuntime {
    /// A fresh runtime for process `pid` with an empty descriptor table and
    /// the program break at `initial_break`.
    pub fn new(pid: u64, initial_break: u64) -> (r: Self)
        ensures
            r.pid == pid,
            r.fd_table.entries@ == Map::<i32, LinuxFileDesc>::empty(),
            r.initial_break == initial_break,
            r.program_break == initial_break,
            r.tls_ptr == 0 && r.signal_pending == 0 && r.child_clear_tid == 0,
    {
        LinuxRuntime {
            pid,
            fd_table: FdTable::new(),
            initial_break,
            program_break: initial_break,
            tls_ptr: 0,
            signal_pending: 0,
            child_clear_tid: 0,
        }
    }

    /// Whether `fd` is one of the console descriptors 0, 1, 2.
    pub fn is_std_fd(fd: i32) -> (r: bool)
        ensures
            r == is_std_fd_spec(fd),
    {
        0 <= fd && fd <= 2
    }

    /// The runtime of a child created by `clone`: process `child_pid`, the
    /// parent's initial break, and a copy of the parent's descriptors.
    pub fn child_runtime(&self, child_pid: u64) -> (r: Self)
        ensures
            r.pid == child_pid,
            r.fd_table.entries@ == self.fd_table.entries@,
            r.initial_break == self.initial_break,
            r.program_break == self.initial_break,
            r.tls_ptr == 0 && r.signal_pending == 0 && r.child_clear_tid == 0,
    {
        let mut child = LinuxRuntime::new(child_pid, self.initial_break);
        child.fd_table.entries = self.fd_table.entries.clone();
        child
    }
}

/// `close(fd)`: the return value, and the file-system descriptor to close.
/// Closing a console descriptor succeeds and does nothing.
pub fn sys_close(rt: &mut LinuxRuntime, args: &[u64; 6]) -> (r: (u64, Option<u32>))
    ensures
        ({
            let fd = args[0] as i32;
            let m = old(rt).fd_table.entries@;
            &&& is_std_fd_spec(fd) ==> r == (0u64, None::<u32>) && final(rt).fd_table.entries@ == m
            &&& !is_std_fd_spec(fd) && m.contains_key(fd) ==> r == (0u64, Some(m[fd].vfs_fd))
                && final(rt).fd_table.entries@ == m.remove(fd)
            &&& !is_std_fd_spec(fd) && !m.contains_key(fd) ==> r == (errno_spec(EBADF), None::<u32>)
                && final(rt).fd_table.entries@ == m
        }),
        final(rt).pid == old(rt).pid,
{
    let fd = args[0] as i32;
    if LinuxRuntime::is_std_fd(fd) {
        return (0, None);
    }
    if let Some(desc) = rt.fd_table.remove(fd) {
        (0, Some(desc.vfs_fd))
    } else {
        (errno_code(EBADF), None)
    }
}

/// The offset `lseek` moves to, or `None` for an unknown `whence`.  The
/// current position is taken as a signed 64-bit number.
/// `SEEK_END` is not supported and yields `-EINVAL`, which the caller
/// rejects as negative.
pub open spec fn lseek_target(whence: i32, current: u64, offset: i64) -> Option<int> {
    if whence == 0 {
        Some(offset as int)
    } else if whence == 1 {
        Some((current as i64) + offset)
    } else if whence == 2 {
        Some(0 - EINVAL)
    } else {
        None
    }
}

/// `lseek(fd, offset, whence)`.
pub fn sys_lseek(rt: &mut LinuxRuntime, args: &[u64; 6]) -> (r: u64)
    requires
        ({
            let fd = args[0] as i32;
            let m = old(rt).fd_table.entries@;
            !is_std_fd_spec(fd) && m.contains_key(fd) && args[2] as i32 == 1 ==> i64::MIN <= (
            m[fd].offset as i64) + (args[1] as i64) <= i64::MAX
        }),
    ensures
        ({
            let fd = args[0] as i32;
            let m = old(rt).fd_table.entries@;
            let t = if m.contains_key(fd) {
                lseek_target(args[2] as i32, m[fd].offset, args[1] as i64)
            } else {
                None
            };
            &&& is_std_fd_spec(fd) ==> r == errno_spec(ESPIPE) && final(rt).fd_table.entries@ == m
            &&& !is_std_fd_spec(fd) && !m.contains_key(fd) ==> r == errno_spec(EBADF)
                && final(rt).fd_table.entries@ == m
            &&& !is_std_fd_spec(fd) && m.contains_key(fd) && (t is None || t->Some_0 < 0) ==> r
                == errno_spec(EINVAL) && final(rt).fd_table.entries@ == m
            &&& !is_std_fd_spec(fd) && m.contains_key(fd) && t is Some && t->Some_0 >= 0 ==> r
                == t->Some_0 && final(rt).fd_table.entries@ == m.insert(
                fd,
                LinuxFileDesc { offset: t->Some_0 as u64, ..m[fd] },
            )
        }),
{
    let fd = args[0] as i32;
    let offset = args[1] as i64;
    let whence = args[2] as i32;
    if LinuxRuntime::is_std_fd(fd) {
        return errno_code(ESPIPE);
    }
    let desc = match rt.fd_table.get(fd) {
        Some(d) => d,
        None => {
            return errno_code(EBADF);
        },
    };
    let new_offset: i64 = if whence == 0 {
        offset
    } else if whence == 1 {
        desc.offset as i64 + offset
    } else if whence == 2 {
        -(EINVAL as i64)
    } else {
        return errno_code(EINVAL);
    };
    if new_offset < 0 {
        return errno_code(EINVAL);
    }
    rt.fd_table.insert(fd, LinuxFileDesc { offset: new_offset as u64, ..desc });
    new_offset as u64
}

/// The value a system call returns for descriptor `fd`: the descriptor as a
/// 64-bit word (sign-extended).
pub open spec fn fd_ret(fd: i32) -> u64 {
    fd as u64
}

/// `dup(oldfd)`: a console descriptor is returned unchanged; otherwise the
/// file is opened again under the lowest free descriptor, at offset 0.
pub fn sys_dup(rt: &mut LinuxRuntime, args: &[u64; 6]) -> (r: u64)
    ensures
        ({
            let fd = args[0] as i32;
            let m = old(rt).fd_table.entries@;
            &&& is_std_fd_spec(fd) ==> r == fd_ret(fd) && final(rt).fd_table.entries@ == m
            &&& !is_std_fd_spec(fd) && !m.contains_key(fd) ==> r == errno_spec(EBADF)
                && final(rt).fd_table.entries@ == m
            &&& !is_std_fd_spec(fd) && m.contains_key(fd) ==> match lowest_free_from(m, 3) {
                Some(n) => r == fd_ret(n) && final(rt).fd_table.entries@ == m.insert(
                    n,
                    LinuxFileDesc { offset: 0, ..m[fd] },
                ),
                None => r == errno_spec(EMFILE) && final(rt).fd_table.entries@ == m,
            }
        }),
{
    let oldfd = args[0] as i32;
    if LinuxRuntime::is_std_fd(oldfd) {
        return oldfd as u64;
    }
    let desc = match rt.fd_table.get(oldfd) {
        Some(d) => d,
        None => {
            return errno_code(EBADF);
        },
    };
    match rt.fd_table.allocate(desc.vfs_fd, desc.mount_index, desc.flags) {
        Some(newfd) => newfd as u64,
        None => errno_code(EMFILE),
    }
}

/// `dup2(oldfd, newfd)`: `newfd` comes to name the same file, at the same
/// offset, as `oldfd`, replacing what it named (without closing that file in
/// the file system).  Two console descriptors, or equal descriptors, return
/// `newfd` and change nothing.
pub fn sys_dup2(rt: &mut LinuxRuntime, args: &[u64; 6]) -> (r: u64)
    ensures
        ({
            let oldfd = args[0] as i32;
            let newfd = args[1] as i32;
            let m = old(rt).fd_table.entries@;
            &&& (is_std_fd_spec(oldfd) && is_std_fd_spec(newfd)) || oldfd == newfd ==> r == fd_ret(
                newfd,
            ) && final(rt).fd_table.entries@ == m
            &&& !((is_std_fd_spec(oldfd) && is_std_fd_spec(newfd)) || oldfd == newfd)
                && !m.contains_key(oldfd) ==> r == errno_spec(EBADF) && final(rt).fd_table.entries@
                == m
            &&& !((is_std_fd_spec(oldfd) && is_std_fd_spec(newfd)) || oldfd == newfd)
                && m.contains_key(oldfd) ==> r == fd_ret(newfd) && final(rt).fd_table.entries@
                == m.insert(newfd, m[oldfd])
        }),
{
    let oldfd = args[0] as i32;
    let newfd = args[1] as i32;
    if LinuxRuntime::is_std_fd(oldfd) && LinuxRuntime::is_std_fd(newfd) {
        return newfd as u64;
    }
    if oldfd == newfd {
        return newfd as u64;
    }
    let desc = match rt.fd_table.get(oldfd) {
        Some(d) => d,
        None => {
            return errno_code(EBADF);
        },
    };
    if rt.fd_table.contains(newfd) {
        rt.fd_table.remove(newfd);
    }
    let linux_fd = LinuxFileDesc {
        vfs_fd: desc.vfs_fd,
        mount_index: desc.mount_index,
        flags: desc.flags,
        offset: desc.offset,
    };
    proof {
        assert(m_remove_insert(old(rt).fd_table.entries@, newfd, linux_fd));
    }
    rt.fd_table.insert(newfd, linux_fd);
    newfd as u64
}

spec fn m_remove_insert(m: Map<i32, LinuxFileDesc>, k: i32, v: LinuxFileDesc) -> bool {
    m.remove(k).insert(k, v) =~= m.insert(k, v)
}

/// `dup3(oldfd, newfd, flags)`: `dup2`, with the flags ignored.
pub fn sys_dup3(rt: &mut LinuxRuntime, args: &[u64; 6]) -> (r: u64)
    ensures
        ({
            let oldfd = args[0] as i32;
            let newfd = args[1] as i32;
            let m = old(rt).fd_table.entries@;
            &&& (is_std_fd_spec(oldfd) && is_std_fd_spec(newfd)) || oldfd == newfd ==> r == fd_ret(
                newfd,
            ) && final(rt).fd_table.entries@ == m
            &&& !((is_std_fd_spec(oldfd) && is_std_fd_spec(newfd)) || oldfd == newfd)
                && !m.contains_key(oldfd) ==> r == errno_spec(EBADF) && final(rt).fd_table.entries@
                == m
            &&& !((is_std_fd_spec(oldfd) && is_std_fd_spec(newfd)) || oldfd == newfd)
                && m.contains_key(oldfd) ==> r == fd_ret(newfd) && final(rt).fd_table.entries@
                == m.insert(newfd, m[oldfd])
        }),
{
    let oldfd = args[0] as i32;
    let newfd = args[1] as i32;
    let a: [u64; 6] = [oldfd as u64, newfd as u64, 0, 0, 0, 0];
    proof {
        assert((oldfd as u64) as i32 == oldfd) by (bit_vector);
        assert((newfd as u64) as i32 == newfd) by (bit_vector);
        assert(a[0] as i32 == oldfd && a[1] as i32 == newfd);
    }
    sys_dup2(rt, &a)
}

/// `fcntl(fd, cmd, arg)`: `F_DUPFD` duplicates as `dup`; `F_GETFD` checks the
/// descriptor; `F_GETFL` and `F_SETFL` read and replace the open flags;
/// every other command returns 0.
pub fn sys_fcntl(rt: &mut LinuxRuntime, args: &[u64; 6]) -> (r: u64)
    ensures
        ({
            let fd = args[0] as i32;
            let cmd = args[1] as i32;
            let m = old(rt).fd_table.entries@;
            &&& cmd == F_DUPFD ==> ({
                &&& is_std_fd_spec(fd) ==> r == fd_ret(fd) && final(rt).fd_table.entries@ == m
                &&& !is_std_fd_spec(fd) && !m.contains_key(fd) ==> r == errno_spec(EBADF)
                    && final(rt).fd_table.entries@ == m
                &&& !is_std_fd_spec(fd) && m.contains_key(fd) ==> match lowest_free_from(m, 3) {
                    Some(n) => r == fd_ret(n) && final(rt).fd_table.entries@ == m.insert(
                        n,
                        LinuxFileDesc { offset: 0, ..m[fd] },
                    ),
                    None => r == errno_spec(EMFILE) && final(rt).fd_table.entries@ == m,
                }
            })
            &&& cmd == F_GETFD ==> final(rt).fd_table.entries@ == m && r == (if m.contains_key(fd)
                || is_std_fd_spec(fd) {
                0u64
            } else {
                errno_spec(EBADF)
            })
            &&& cmd == F_GETFL ==> final(rt).fd_table.entries@ == m && r == (if m.contains_key(fd) {
                m[fd].flags as u64
            } else {
                0u64
            })
            &&& cmd == F_SETFL ==> (if m.contains_key(fd) {
                r == 0 && final(rt).fd_table.entries@ == m.insert(
                    fd,
                    LinuxFileDesc { flags: args[2] as i32, ..m[fd] },
                )
            } else {
                r == errno_spec(EBADF) && final(rt).fd_table.entries@ == m
            })
            &&& cmd != F_DUPFD && cmd != F_GETFD && cmd != F_GETFL && cmd != F_SETFL ==> r == 0
                && final(rt).fd_table.entries@ == m
        }),
{
    let fd = args[0] as i32;
    let cmd = args[1] as i32;
    let arg = args[2];
    if cmd == F_DUPFD {
        let a: [u64; 6] = [fd as u64, 0, 0, 0, 0, 0];
        proof {
            assert((fd as u64) as i32 == fd) by (bit_vector);
            assert(a[0] as i32 == fd);
        }
        sys_dup(rt, &a)
    } else if cmd == F_GETFD {
        if rt.fd_table.contains(fd) || LinuxRuntime::is_std_fd(fd) {
            0
        } else {
            errno_code(EBADF)
        }
    } else if cmd == F_SETFD {
        0
    } else if cmd == F_GETFL {
        match rt.fd_table.get(fd) {
            Some(d) => d.flags as u64,
            None => 0,
        }
    } else if cmd == F_SETFL {
        match rt.fd_table.get(fd) {
            Some(d) => {
                rt.fd_table.insert(fd, LinuxFileDesc { flags: arg as i32, ..d });
                0
            },
            None => errno_code(EBADF),
        }
    } else {
        0
    }
}

/// `pread64` and `pwrite64` before the transfer: `-EINVAL` for a negative
/// offset, `-EBADF` for a descriptor outside the table; otherwise the file
/// position is moved to the requested offset and the previous position is
/// returned, to be restored with [`restore_offset`] after the transfer.
pub fn sys_pread64(rt: &mut LinuxRuntime, args: &[u64; 6]) -> (r: Result<u64, u64>)
    ensures
        ({
            let fd = args[0] as i32;
            let off = args[3] as i64;
            let m = old(rt).fd_table.entries@;
            &&& off < 0 ==> r == Err::<u64, u64>(errno_spec(EINVAL)) && final(rt).fd_table.entries@
                == m
            &&& off >= 0 && !m.contains_key(fd) ==> r == Err::<u64, u64>(errno_spec(EBADF))
                && final(rt).fd_table.entries@ == m
            &&& off >= 0 && m.contains_key(fd) ==> r == Ok::<u64, u64>(m[fd].offset)
                && final(rt).fd_table.entries@ == m.insert(
                fd,
                LinuxFileDesc { offset: off as u64, ..m[fd] },
            )
        }),
{
    positioned_begin(rt, args)
}

/// `pwrite64` before the transfer; see [`sys_pread64`].
pub fn sys_pwrite64(rt: &mut LinuxRuntime, args: &[u64; 6]) -> (r: Result<u64, u64>)
    ensures
        ({
            let fd = args[0] as i32;
            let off = args[3] as i64;
            let m = old(rt).fd_table.entries@;
            &&& off < 0 ==> r == Err::<u64, u64>(errno_spec(EINVAL)) && final(rt).fd_table.entries@
                == m
            &&& off >= 0 && !m.contains_key(fd) ==> r == Err::<u64, u64>(errno_spec(EBADF))
                && final(rt).fd_table.entries@ == m
            &&& off >= 0 && m.contains_key(fd) ==> r == Ok::<u64, u64>(m[fd].offset)
                && final(rt).fd_table.entries@ == m.insert(
                fd,
                LinuxFileDesc { offset: off as u64, ..m[fd] },
            )
        }),
{
    positioned_begin(rt, args)
}

fn positioned_begin(rt: &mut LinuxRuntime, args: &[u64; 6]) -> (r: Result<u64, u64>)
    ensures
        ({
            let fd = args[0] as i32;
            let off = args[3] as i64;
            let m = old(rt).fd_table.entries@;
            &&& off < 0 ==> r == Err::<u64, u64>(errno_spec(EINVAL)) && final(rt).fd_table.entries@
                == m
            &&& off >= 0 && !m.contains_key(fd) ==> r == Err::<u64, u64>(errno_spec(EBADF))
                && final(rt).fd_table.entries@ == m
            &&& off >= 0 && m.contains_key(fd) ==> r == Ok::<u64, u64>(m[fd].offset)
                && final(rt).fd_table.entries@ == m.insert(
                fd,
                LinuxFileDesc { offset: off as u64, ..m[fd] },
            )
        }),
{
    let fd = args[0] as i32;
    let offset = args[3] as i64;
    if offset < 0 {
        return Err(errno_code(EINVAL));
    }
    let desc = match rt.fd_table.get(fd) {
        Some(d) => d,
        None => {
            return Err(errno_code(EBADF));
        },
    };
    let saved = desc.offset;
    rt.fd_table.insert(fd, LinuxFileDesc { offset: offset as u64, ..desc });
    Ok(saved)
}

/// After a positioned transfer: put the saved position back, when `fd` is
/// still open.
pub fn restore_offset(rt: &mut LinuxRuntime, fd: i32, saved: u64)
    ensures
        ({
            let m = old(rt).fd_table.entries@;
            &&& m.contains_key(fd) ==> final(rt).fd_table.entries@ == m.insert(
                fd,
                LinuxFileDesc { offset: saved, ..m[fd] },
            )
            &&& !m.contains_key(fd) ==> final(rt).fd_table.entries@ == m
        }),
{
    if let Some(d) = rt.fd_table.get(fd) {
        rt.fd_table.insert(fd, LinuxFileDesc { offset: saved, ..d });
    }
}

/// A positioned transfer leaves the file position where it was: whatever the
/// transfer in between did to the position, restoring the position saved by
/// `pread64`/`pwrite64` gives back the table from before the call.
pub proof fn lemma_positioned_io_keeps_offset(
    before: Map<i32, LinuxFileDesc>,
    fd: i32,
    off: u64,
    after_io_offset: u64,
)
    requires
        before.contains_key(fd),
    ensures
        ({
            let moved = before.insert(fd, LinuxFileDesc { offset: off, ..before[fd] });
            let after_io = moved.insert(fd, LinuxFileDesc { offset: after_io_offset, ..moved[fd] });
            after_io.insert(fd, LinuxFileDesc { offset: before[fd].offset, ..after_io[fd] })
                == before
        }),
{
    let moved = before.insert(fd, LinuxFileDesc { offset: off, ..before[fd] });
    let after_io = moved.insert(fd, LinuxFileDesc { offset: after_io_offset, ..moved[fd] });
    assert(after_io.insert(fd, LinuxFileDesc { offset: before[fd].offset, ..after_io[fd] })
        =~= before);
}

/// The descriptor `lowest_free_from` picks is free in the table and not
/// below where the search began.
pub proof fn lemma_lowest_free_is_free(m: Map<i32, LinuxFileDesc>, from: int)
    ensures
        lowest_free_from(m, from) matches Some(n) ==> !m.contains_key(n) && from <= n,
    decreases i32::MAX + 1 - from,
{
    if from > i32::MAX || from < i32::MIN {
    } else if !m.contains_key(from as i32) {
    } else {
        lemma_lowest_free_is_free(m, from + 1);
    }
}

/// Duplicating a descriptor and closing the duplicate gives back the table
/// from before: `dup` only adds the new descriptor, and `close` removes it.
pub proof fn lemma_dup_then_close_restores(m: Map<i32, LinuxFileDesc>, fd: i32)
    requires
        m.contains_key(fd),
    ensures
        lowest_free_from(m, 3) matches Some(n) ==> 3 <= n && m.insert(
            n,
            LinuxFileDesc { offset: 0, ..m[fd] },
        ).remove(n) == m,
{
    lemma_lowest_free_is_free(m, 3);
    if let Some(n) = lowest_free_from(m, 3) {
        assert(m.insert(n, LinuxFileDesc { offset: 0, ..m[fd] }).remove(n) =~= m);
    }
}

/// Seeking to an offset from the start and then asking for the current
/// position gives that offset back.
pub proof fn lemma_seek_set_then_current(current: u64, off: i64)
    requires
        off >= 0,
    ensures
        lseek_target(0, current, off) == Some(off as int),
        lseek_target(1, off as u64, 0) == Some(off as int),
{
    assert((off as u64) as i64 == off) by (bit_vector)
        requires
            off >= 0,
    ;
}

/// `readlink`: symbolic links are not supported.
pub fn sys_readlink(_rt: &mut LinuxRuntime, _args: &[u64; 6]) -> (r: u64)
    ensures
        r == errno_spec(EINVAL),
{
    errno_code(EINVAL)
}

/// `readlinkat`: symbolic links are not supported.
pub fn sys_readlinkat(_rt: &mut LinuxRuntime, _args: &[u64; 6]) -> (r: u64)
    ensures
        r == errno_spec(EINVAL),
{
    errno_code(EINVAL)
}

/// `pipe(pipefd)`: `-EFAULT` for a null array; otherwise two descriptors are
/// opened, a read end (file-system descriptor 1, `O_RDONLY`) and a write end
/// (file-system descriptor 2, `O_WRONLY`), to be stored at `pipefd` and
/// `pipefd + 4`.
pub fn sys_pipe(rt: &mut LinuxRuntime, args: &[u64; 6]) -> (r: (u64, Option<(i32, i32)>))
    ensures
        args[0] == 0 ==> r == (errno_spec(EFAULT), None::<(i32, i32)>)
            && final(rt).fd_table.entries@ == old(rt).fd_table.entries@,
        args[0] != 0 ==> ({
            let m = old(rt).fd_table.entries@;
            match lowest_free_from(m, 3) {
                None => r == (errno_spec(EMFILE), None::<(i32, i32)>) && final(rt).fd_table.entries@
                    == m,
                Some(rd) => {
                    let m1 = m.insert(
                        rd,
                        LinuxFileDesc { vfs_fd: 1, mount_index: 0, flags: O_RDONLY, offset: 0 },
                    );
                    match lowest_free_from(m1, 3) {
                        None => r == (errno_spec(EMFILE), None::<(i32, i32)>)
                            && final(rt).fd_table.entries@ == m1,
                        Some(wr) => r == (0u64, Some((rd, wr))) && final(rt).fd_table.entries@
                            == m1.insert(
                            wr,
                            LinuxFileDesc { vfs_fd: 2, mount_index: 0, flags: O_WRONLY, offset: 0 },
                        ),
                    }
                },
            }
        }),
{
    let pipefd = args[0];
    if pipefd == 0 {
        return (errno_code(EFAULT), None);
    }
    let read_fd = match rt.fd_table.allocate(1, 0, O_RDONLY) {
        Some(fd) => fd,
        None => {
            return (errno_code(EMFILE), None);
        },
    };
    let write_fd = match rt.fd_table.allocate(2, 0, O_WRONLY) {
        Some(fd) => fd,
        None => {
            return (errno_code(EMFILE), None);
        },
    };
    (0, Some((read_fd, write_fd)))
}

/// `pipe2(pipefd, flags)`: `pipe`, with the flags ignored.
pub fn sys_pipe2(rt: &mut LinuxRuntime, args: &[u64; 6]) -> (r: (u64, Option<(i32, i32)>))
    ensures
        args[0] == 0 ==> r == (errno_spec(EFAULT), None::<(i32, i32)>)
            && final(rt).fd_table.entries@ == old(rt).fd_table.entries@,
        args[0] != 0 ==> ({
            let m = old(rt).fd_table.entries@;
            match lowest_free_from(m, 3) {
                None => r == (errno_spec(EMFILE), None::<(i32, i32)>) && final(rt).fd_table.entries@
                    == m,
                Some(rd) => {
                    let m1 = m.insert(
                        rd,
                        LinuxFileDesc { vfs_fd: 1, mount_index: 0, flags: O_RDONLY, offset: 0 },
                    );
                    match lowest_free_from(m1, 3) {
                        None => r == (errno_spec(EMFILE), None::<(i32, i32)>)
                            && final(rt).fd_table.entries@ == m1,
                        Some(wr) => r == (0u64, Some((rd, wr))) && final(rt).fd_table.entries@
                            == m1.insert(
                            wr,
                            LinuxFileDesc { vfs_fd: 2, mount_index: 0, flags: O_WRONLY, offset: 0 },
                        ),
                    }
                },
            }
        }),
{
    let a: [u64; 6] = [args[0], 0, 0, 0, 0, 0];
    sys_pipe(rt, &a)
}

/// What an `open` in progress asks the file system to do with its path next.
#[derive(Clone, Copy, Debug, PartialEq, Eq, Structural)]
pub enum OpenAction {
    /// Create the file; report with [`OpenCall::feed_create`].
    Create,
    /// Remove the file; report with [`OpenCall::feed_unlink`].
    Unlink,
    /// Open the existing file; report with [`OpenCall::feed_open`].
    Open,
    /// The call is over and returns this value.
    Done(u64),
}

/// Where an `open` in progress stands.
#[derive(Clone, Copy, Debug, PartialEq, Eq, Structural)]
pub enum OpenStage {
    /// First attempt to create the file (`O_CREAT`).
    Create,
    /// Removing an existing file before creating it afresh (`O_CREAT|O_TRUNC`).
    Unlink,
    /// Second attempt to create the file, after the removal.
    Recreate,
    /// Opening an existing file after creation failed.
    OpenExisting,
    /// Opening for writing without `O_CREAT`.
    OpenForWrite,
    /// Opening read-only.
    OpenForRead,
    Done,
}

/// An `open`/`openat` in progress: the decoded flags, where it stands, the
/// error of the first creation attempt and, once done, the return value.
#[derive(Clone, Copy, Debug)]
pub struct OpenCall {
    pub flags: i32,
    pub stage: OpenStage,
    pub create_error: i32,
    pub result: u64,
}

/// Access mode bits of the open flags.
pub open spec fn access_mode(flags: i32) -> int {
    (flags as u32 % 4) as int
}

/// Whether `open` writes: any of create, truncate, write-only, read-write,
/// append.
pub open spec fn opens_for_write(flags: i32) -> bool {
    flags_has(flags, O_CREAT) || flags_has(flags, O_TRUNC) || access_mode(flags) == 1
        || access_mode(flags) == 2 || flags_has(flags, O_APPEND)
}

/// Whether flag bit `bit` is set.
pub open spec fn flags_has(flags: i32, bit: i32) -> bool {
    flags & bit != 0
}

/// The stage an `open` with `flags` starts in.
pub open spec fn open_start(flags: i32) -> OpenStage {
    if opens_for_write(flags) {
        if flags_has(flags, O_CREAT) {
            OpenStage::Create
        } else {
            OpenStage::OpenForWrite
        }
    } else if access_mode(flags) == 0 {
        OpenStage::OpenForRead
    } else {
        OpenStage::Done
    }
}

/// The table after opening a file as the lowest free descriptor, and the
/// value the call returns for it.
pub open spec fn opened(m: Map<i32, LinuxFileDesc>, vfs_fd: u32, flags: i32) -> (u64, Map<i32, LinuxFileDesc>) {
    match lowest_free_from(m, 3) {
        Some(n) => (fd_ret(n), m.insert(n, LinuxFileDesc { vfs_fd, mount_index: 0, flags, offset: 0 })),
        None => (errno_spec(EMFILE), m),
    }
}

impl OpenCall {
    /// The call's next action.
    pub open spec fn action_spec(&self) -> OpenAction {
        match self.stage {
            OpenStage::Create | OpenStage::Recreate => OpenAction::Create,
            OpenStage::Unlink => OpenAction::Unlink,
            OpenStage::OpenExisting | OpenStage::OpenForWrite | OpenStage::OpenForRead => OpenAction::Open,
            OpenStage::Done => OpenAction::Done(self.result),
        }
    }

    /// Start an `open` with `flags`: creating (`O_CREAT`), opening for
    /// writing, opening read-only, or failing with `-EINVAL` for access mode 3.
    pub fn start(flags: i32) -> (r: Self)
        ensures
            r.flags == flags,
            r.stage == open_start(flags),
            r.stage == OpenStage::Done ==> r.result == errno_spec(EINVAL),
    {
        assert((flags & 0x3i32) == (flags as u32 % 4) as i32) by (bit_vector);
        let mode = flags & 0x3;
        let read_only = mode == O_RDONLY;
        let write_only = mode == O_WRONLY;
        let read_write = mode == O_RDWR;
        let create = (flags & O_CREAT) != 0;
        let truncate = (flags & O_TRUNC) != 0;
        let append = (flags & O_APPEND) != 0;
        let stage = if create || truncate || write_only || read_write || append {
            if create {
                OpenStage::Create
            } else {
                OpenStage::OpenForWrite
            }
        } else if read_only {
            OpenStage::OpenForRead
        } else {
            OpenStage::Done
        };
        OpenCall { flags, stage, create_error: 0, result: errno_code(EINVAL) }
    }

    /// What the call needs next.
    pub fn action(&self) -> (r: OpenAction)
        ensures
            r == self.action_spec(),
    {
        match self.stage {
            OpenStage::Create | OpenStage::Recreate => OpenAction::Create,
            OpenStage::Unlink => OpenAction::Unlink,
            OpenStage::OpenExisting | OpenStage::OpenForWrite | OpenStage::OpenForRead => OpenAction::Open,
            OpenStage::Done => OpenAction::Done(self.result),
        }
    }

    fn finish_opened(&mut self, rt: &mut LinuxRuntime, vfs_fd: u32)
        ensures
            final(self).stage == OpenStage::Done,
            final(self).flags == old(self).flags,
            (final(self).result, final(rt).fd_table.entries@) == opened(
                old(rt).fd_table.entries@,
                vfs_fd,
                old(self).flags,
            ),
    {
        let r = match rt.fd_table.allocate(vfs_fd, 0, self.flags) {
            Some(fd) => fd as u64,
            None => errno_code(EMFILE),
        };
        self.result = r;
        self.stage = OpenStage::Done;
    }

    /// Report the outcome of a `Create` (the new file-system descriptor, or an
    /// errno).  Success opens the file.  A first failure is followed, for a
    /// truncating write open, by removal and a second creation, and otherwise
    /// by an attempt to open the existing file; a second failure ends the call
    /// with its error.
    pub fn feed_create(&mut self, rt: &mut LinuxRuntime, outcome: Result<u32, i32>)
        requires
            old(self).stage == OpenStage::Create || old(self).stage == OpenStage::Recreate,
        ensures
            final(self).flags == old(self).flags,
            outcome matches Ok(v) ==> final(self).stage == OpenStage::Done && (
            final(self).result,
            final(rt).fd_table.entries@,
            ) == opened(old(rt).fd_table.entries@, v, old(self).flags),
            outcome matches Err(e) ==> final(rt).fd_table.entries@ == old(rt).fd_table.entries@,
            outcome is Err && old(self).stage == OpenStage::Recreate ==> final(self).stage
                == OpenStage::Done && final(self).result == errno_spec(outcome->Err_0),
            outcome is Err && old(self).stage == OpenStage::Create ==> final(self).create_error
                == outcome->Err_0 && final(self).stage == (if flags_has(old(self).flags, O_TRUNC) && (access_mode(
                old(self).flags) == 1 || access_mode(old(self).flags) == 2) {
                OpenStage::Unlink
            } else {
                OpenStage::OpenExisting
            }),
    {
        match outcome {
            Ok(vfs_fd) => self.finish_opened(rt, vfs_fd),
            Err(e) => {
                if self.stage == OpenStage::Recreate {
                    self.result = errno_code(e);
                    self.stage = OpenStage::Done;
                } else {
                    self.create_error = e;
                    let flags = self.flags;
                    assert((flags & 0x3i32) == (flags as u32 % 4) as i32) by (bit_vector);
                    let mode = flags & 0x3;
                    let truncate = (flags & O_TRUNC) != 0;
                    if truncate && (mode == O_WRONLY || mode == O_RDWR) {
                        self.stage = OpenStage::Unlink;
                    } else {
                        self.stage = OpenStage::OpenExisting;
                    }
                }
            },
        }
    }

    /// Report that the `Unlink` was done (its outcome is ignored): the file
    /// is created again.
    pub fn feed_unlink(&mut self)
        requires
            old(self).stage == OpenStage::Unlink,
        ensures
            *final(self) == (OpenCall { stage: OpenStage::Recreate, ..*old(self) }),
    {
        self.stage = OpenStage::Recreate;
    }

    /// Report the outcome of an `Open`.  Success opens the file.  Failure ends
    /// the call with the creation error (after a failed creation), `-ENOENT`
    /// (write open) or the open error (read-only open).
    pub fn feed_open(&mut self, rt: &mut LinuxRuntime, outcome: Result<u32, i32>)
        requires
            old(self).stage == OpenStage::OpenExisting || old(self).stage == OpenStage::OpenForWrite
                || old(self).stage == OpenStage::OpenForRead,
        ensures
            final(self).stage == OpenStage::Done,
            outcome matches Ok(v) ==> (final(self).result, final(rt).fd_table.entries@) == opened(
                old(rt).fd_table.entries@,
                v,
                old(self).flags,
            ),
            outcome matches Err(e) ==> final(rt).fd_table.entries@ == old(rt).fd_table.entries@
                && final(self).result == (if old(self).stage == OpenStage::OpenExisting {
                errno_spec(old(self).create_error)
            } else if old(self).stage == OpenStage::OpenForWrite {
                errno_spec(ENOENT)
            } else {
                errno_spec(e)
            }),
    {
        match outcome {
            Ok(vfs_fd) => self.finish_opened(rt, vfs_fd),
            Err(e) => {
                self.result = if self.stage == OpenStage::OpenExisting {
                    errno_code(self.create_error)
                } else if self.stage == OpenStage::OpenForWrite {
                    errno_code(ENOENT)
                } else {
                    errno_code(e)
                };
                self.stage = OpenStage::Done;
            },
        }
    }
}

/// `creat(path)` once the file was created (or not): the new descriptor,
/// opened write-only, created and truncated, or the creation error.
pub fn sys_creat(rt: &mut LinuxRuntime, created: Result<u32, i32>) -> (r: u64)
    ensures
        created matches Ok(v) ==> (r, final(rt).fd_table.entries@) == opened(
            old(rt).fd_table.entries@,
            v,
            O_WRONLY | O_CREAT | O_TRUNC,
        ),
        created matches Err(e) ==> r == errno_spec(e) && final(rt).fd_table.entries@ == old(
            rt,
        ).fd_table.entries@,
{
    match created {
        Ok(vfs_fd) => match rt.fd_table.allocate(vfs_fd, 0, O_WRONLY | O_CREAT | O_TRUNC) {
            Some(fd) => fd as u64,
            None => errno_code(EMFILE),
        },
        Err(e) => errno_code(e),
    }
}

} // verus!
