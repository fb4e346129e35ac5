//! Data and metadata system calls of the Linux personality: `read`,
//! `write`, their vectored forms, `fstat`/`stat`, `getdents64`, `getcwd`,
//! `ioctl` on the console and the path calls.
//!
//! Each call is split where it touches user memory or the virtual file
//! system: a plan says what to read, copy or call, and a completion turns
//! the outcome into the return value and the descriptor table's new state.
//! File-system failures arrive as Linux error numbers.
use vstd::prelude::*;
use crate::linux_fs::{
    LinuxFileDesc, LinuxRuntime, errno_code, errno_spec, is_std_fd_spec, EBADF, EFAULT, ENOENT,
    ENOSYS, ENOTDIR, ENOTTY, ERANGE,
};

verus! {

/// Most bytes moved between user memory and a file per call.
pub const IO_LIMIT: usize = 65536;

/// Most bytes written to the console per call.
pub const CONSOLE_LIMIT: usize = 4096;

/// What a `read` or `write` does next.
#[derive(Clone, Copy, Debug, PartialEq, Eq, Structural)]
pub enum IoPlan {
    /// The call is over and returns this value.
    Return(u64),
    /// Write at most `len` bytes of the user buffer to the serial console.
    Console { len: usize },
    /// Move at most `limit` bytes between the user buffer and file-system
    /// descriptor `vfs_fd`.
    File { vfs_fd: u32, limit: usize },
}

/// `a` or `b`, whichever is smaller.
pub open spec fn min_usize(a: usize, b: usize) -> usize {
    if a <= b { a } else { b }
}

/// `read(fd, buf, count)`: nothing to read returns 0; the console's output
/// descriptors and unknown descriptors give `-EBADF`; otherwise at most
/// 64 KiB are read from the file.
pub fn sys_read(rt: &LinuxRuntime, args: &[u64; 6]) -> (r: IoPlan)
    ensures
        ({
            let fd = args[0] as i32;
            let count = args[2] as usize;
            let m = rt.fd_table.entries@;
            if count == 0 {
                r == IoPlan::Return(0)
            } else if fd == 1 || fd == 2 || !m.contains_key(fd) {
                r == IoPlan::Return(errno_spec(EBADF))
            } else {
                r == IoPlan::File { vfs_fd: m[fd].vfs_fd, limit: min_usize(count, IO_LIMIT) }
            }
        }),
{
    let fd = args[0] as i32;
    let count = args[2] as usize;
    if count == 0 {
        return IoPlan::Return(0);
    }
    if fd == 1 || fd == 2 {
        return IoPlan::Return(errno_code(EBADF));
    }
    match rt.fd_table.get(fd) {
        None => IoPlan::Return(errno_code(EBADF)),
        Some(d) => IoPlan::File { vfs_fd: d.vfs_fd, limit: if count <= IO_LIMIT { count } else { IO_LIMIT } },
    }
}

/// The table after `n` bytes were moved through `fd`: its position
/// advanced by `n` when `fd` is open.
pub open spec fn advanced(m: Map<i32, LinuxFileDesc>, fd: i32, n: int) -> Map<i32, LinuxFileDesc> {
    if m.contains_key(fd) {
        m.insert(fd, LinuxFileDesc { offset: (m[fd].offset + n) as u64, ..m[fd] })
    } else {
        m
    }
}

/// Advance the position of `fd` by `n`.
fn advance_offset(rt: &mut LinuxRuntime, fd: i32, n: usize)
    requires
        old(rt).fd_table.entries@.contains_key(fd) ==> old(rt).fd_table.entries@[fd].offset + n
            <= u64::MAX,
    ensures
        final(rt).fd_table.entries@ == advanced(old(rt).fd_table.entries@, fd, n as int),
        final(rt).pid == old(rt).pid,
        final(rt).initial_break == old(rt).initial_break,
        final(rt).program_break == old(rt).program_break,
        final(rt).tls_ptr == old(rt).tls_ptr,
        final(rt).signal_pending == old(rt).signal_pending,
        final(rt).child_clear_tid == old(rt).child_clear_tid,
{
    match rt.fd_table.get(fd) {
        Some(d) => {
            rt.fd_table.insert(fd, LinuxFileDesc { offset: d.offset + n as u64, ..d });
        },
        None => {},
    }
}

/// The end of a file `read` on `fd`: the file system read `n` bytes, or
/// failed with an error number; `copied` tells whether the bytes reached
/// the user buffer.  A read of nothing, or one that did not reach the user,
/// gives `-EFAULT`; otherwise the position advances and `n` is returned.
pub fn read_complete(rt: &mut LinuxRuntime, fd: i32, outcome: Result<usize, i32>, copied: bool) -> (r: u64)
    requires
        outcome matches Ok(n) ==> (n > 0 && copied && old(rt).fd_table.entries@.contains_key(fd)
            ==> old(rt).fd_table.entries@[fd].offset + n <= u64::MAX),
    ensures
        match outcome {
            Ok(n) => if n > 0 && copied {
                r == n && final(rt).fd_table.entries@ == advanced(old(rt).fd_table.entries@, fd, n as int)
            } else {
                r == errno_spec(EFAULT) && final(rt).fd_table.entries@ == old(rt).fd_table.entries@
            },
            Err(e) => r == errno_spec(e) && final(rt).fd_table.entries@ == old(rt).fd_table.entries@,
        },
{
    match outcome {
        Ok(n) => {
            if n > 0 && copied {
                advance_offset(rt, fd, n);
                n as u64
            } else {
                errno_code(EFAULT)
            }
        },
        Err(e) => errno_code(e),
    }
}

/// `write(fd, buf, count)`: nothing to write returns 0; the console's
/// output descriptors take at most 4 KiB; standard input and unknown
/// descriptors give `-EBADF`; otherwise at most 64 KiB go to the file.
pub fn sys_write(rt: &LinuxRuntime, args: &[u64; 6]) -> (r: IoPlan)
    ensures
        ({
            let fd = args[0] as i32;
            let count = args[2] as usize;
            let m = rt.fd_table.entries@;
            if count == 0 {
                r == IoPlan::Return(0)
            } else if fd == 1 || fd == 2 {
                r == IoPlan::Console { len: min_usize(count, CONSOLE_LIMIT) }
            } else if fd == 0 || !m.contains_key(fd) {
                r == IoPlan::Return(errno_spec(EBADF))
            } else {
                r == IoPlan::File { vfs_fd: m[fd].vfs_fd, limit: min_usize(count, IO_LIMIT) }
            }
        }),
{
    let fd = args[0] as i32;
    let count = args[2] as usize;
    if count == 0 {
        return IoPlan::Return(0);
    }
    if fd == 1 || fd == 2 {
        return IoPlan::Console { len: if count <= CONSOLE_LIMIT { count } else { CONSOLE_LIMIT } };
    }
    if fd == 0 {
        return IoPlan::Return(errno_code(EBADF));
    }
    match rt.fd_table.get(fd) {
        None => IoPlan::Return(errno_code(EBADF)),
        Some(d) => IoPlan::File { vfs_fd: d.vfs_fd, limit: if count <= IO_LIMIT { count } else { IO_LIMIT } },
    }
}

/// The end of a console `write`: the bytes copied from the user (`None`:
/// the copy faulted) were sent, and their number is returned.
pub fn console_write_complete(copied: Option<usize>) -> (r: u64)
    ensures
        match copied {
            Some(n) => r == n,
            None => r == errno_spec(EFAULT),
        },
{
    match copied {
        Some(n) => n as u64,
        None => errno_code(EFAULT),
    }
}

/// The end of a file `write` on `fd`: `copied` tells whether the user
/// buffer could be read (`-EFAULT` otherwise, before any write); then the
/// file system wrote `n` bytes, advancing the position, or failed.
pub fn write_complete(rt: &mut LinuxRuntime, fd: i32, copied: bool, outcome: Result<usize, i32>) -> (r: u64)
    requires
        outcome matches Ok(n) ==> (copied && old(rt).fd_table.entries@.contains_key(fd)
            ==> old(rt).fd_table.entries@[fd].offset + n <= u64::MAX),
    ensures
        !copied ==> r == errno_spec(EFAULT) && final(rt).fd_table.entries@ == old(rt).fd_table.entries@,
        copied ==> match outcome {
            Ok(n) => r == n && final(rt).fd_table.entries@ == advanced(old(rt).fd_table.entries@, fd, n as int),
            Err(e) => r == errno_spec(e) && final(rt).fd_table.entries@ == old(rt).fd_table.entries@,
        },
{
    if !copied {
        return errno_code(EFAULT);
    }
    match outcome {
        Ok(n) => {
            advance_offset(rt, fd, n);
            n as u64
        },
        Err(e) => errno_code(e),
    }
}

/// Size in bytes of one `iovec` (base address and length).
pub const IOVEC_SIZE: u64 = 16;

/// Address of the `i`-th `iovec` of the array at `iov`.
pub fn iovec_address(iov: u64, i: u64) -> (r: u64)
    requires
        iov + i * IOVEC_SIZE <= u64::MAX,
    ensures
        r == iov + i * IOVEC_SIZE,
{
    iov + i * IOVEC_SIZE
}

/// The running total of a `readv` or `writev`.
#[derive(Clone, Copy, Debug)]
pub struct VectorIo {
    /// Bytes moved so far.
    pub total: u64,
    /// The return value, once the call is over.
    pub result: Option<u64>,
    /// Whether a short transfer ends the call (`readv`).
    pub stop_on_short: bool,
}

impl VectorIo {
    /// A `readv` (`stop_on_short`) or `writev` with nothing moved yet.
    pub fn new(stop_on_short: bool) -> (r: Self)
        ensures
            r.total == 0,
            r.result is None,
            r.stop_on_short == stop_on_short,
    {
        VectorIo { total: 0, result: None, stop_on_short }
    }

    /// The `iovec` could not be read from user memory: the call returns
    /// what was moved, or `-EFAULT` when nothing was.
    pub fn fault(&mut self)
        requires
            old(self).result is None,
        ensures
            final(self).total == old(self).total,
            final(self).stop_on_short == old(self).stop_on_short,
            final(self).result == Some(if old(self).total > 0 { old(self).total } else { errno_spec(EFAULT) }),
    {
        self.result = Some(if self.total > 0 { self.total } else { errno_code(EFAULT) });
    }

    /// The transfer of an `iovec` of `len` bytes returned `n`.  An error
    /// ends the call with what was moved, or with the error when nothing
    /// was; otherwise `n` is added, and for `readv` a short read ends it.
    pub fn transferred(&mut self, n: u64, len: u64)
        requires
            old(self).result is None,
            (n as i64) >= 0 ==> old(self).total + n <= u64::MAX,
        ensures
            final(self).stop_on_short == old(self).stop_on_short,
            (n as i64) < 0 ==> final(self).total == old(self).total && final(self).result == Some(
                if old(self).total > 0 { old(self).total } else { n },
            ),
            (n as i64) >= 0 ==> final(self).total == old(self).total + n && final(self).result == (
            if old(self).stop_on_short && n < len {
                Some((old(self).total + n) as u64)
            } else {
                None
            }),
    {
        if (n as i64) < 0 {
            self.result = Some(if self.total > 0 { self.total } else { n });
            return;
        }
        self.total = self.total + n;
        if self.stop_on_short && n < len {
            self.result = Some(self.total);
        }
    }

    /// The call's return value: the result when it ended early, else the
    /// total.
    pub fn finish(&self) -> (r: u64)
        ensures
            r == match self.result {
                Some(v) => v,
                None => self.total,
            },
    {
        match self.result {
            Some(v) => v,
            None => self.total,
        }
    }
}

/// Mode bits of a character device.
pub const S_IFCHR: u32 = 0o020000;

/// Mode bits of a regular file.
pub const S_IFREG: u32 = 0o100000;

/// `struct stat` as Linux on x86-64 lays it out.
#[derive(Clone, Copy, Debug, PartialEq, Eq, Structural)]
pub struct LinuxStat {
    pub st_dev: u64,
    pub st_ino: u64,
    pub st_nlink: u64,
    pub st_mode: u32,
    pub st_uid: u32,
    pub st_gid: u32,
    pub pad0: u32,
    pub st_rdev: u64,
    pub st_size: i64,
    pub st_blksize: i64,
    pub st_blocks: i64,
    pub st_atime: i64,
    pub st_atime_nsec: i64,
    pub st_mtime: i64,
    pub st_mtime_nsec: i64,
    pub st_ctime: i64,
    pub st_ctime_nsec: i64,
    pub unused0: i64,
    pub unused1: i64,
    pub unused2: i64,
}

/// A stat record with every field zero.
pub open spec fn zero_stat() -> LinuxStat {
    LinuxStat {
        st_dev: 0,
        st_ino: 0,
        st_nlink: 0,
        st_mode: 0,
        st_uid: 0,
        st_gid: 0,
        pad0: 0,
        st_rdev: 0,
        st_size: 0,
        st_blksize: 0,
        st_blocks: 0,
        st_atime: 0,
        st_atime_nsec: 0,
        st_mtime: 0,
        st_mtime_nsec: 0,
        st_ctime: 0,
        st_ctime_nsec: 0,
        unused0: 0,
        unused1: 0,
        unused2: 0,
    }
}

/// The stat of console descriptor `fd`: a terminal character device
/// (`0x8803`), readable and writable by all, one link, inode `fd`.
pub fn console_stat(fd: i32) -> (r: LinuxStat)
    requires
        0 <= fd,
    ensures
        r == (LinuxStat {
            st_ino: fd as u64,
            st_nlink: 1,
            st_mode: S_IFCHR | 0o666,
            st_rdev: 0x8803,
            st_blksize: 4096,
            ..zero_stat()
        }),
{
    LinuxStat {
        st_dev: 0,
        st_ino: fd as u64,
        st_nlink: 1,
        st_mode: S_IFCHR | 0o666,
        st_uid: 0,
        st_gid: 0,
        pad0: 0,
        st_rdev: 0x8803,
        st_size: 0,
        st_blksize: 4096,
        st_blocks: 0,
        st_atime: 0,
        st_atime_nsec: 0,
        st_mtime: 0,
        st_mtime_nsec: 0,
        st_ctime: 0,
        st_ctime_nsec: 0,
        unused0: 0,
        unused1: 0,
        unused2: 0,
    }
}

/// The stat of a file: inode `ino`, mode `mode`, one link, `size` bytes
/// in 512-byte blocks (rounded up), 4 KiB I/O blocks.
pub fn file_stat(ino: u64, mode: u32, size: usize) -> (r: LinuxStat)
    requires
        size + 511 <= i64::MAX,
    ensures
        r == (LinuxStat {
            st_ino: ino,
            st_nlink: 1,
            st_mode: mode,
            st_size: size as i64,
            st_blksize: 4096,
            st_blocks: ((size + 511) / 512) as i64,
            ..zero_stat()
        }),
{
    let s = size as i64;
    LinuxStat {
        st_dev: 0,
        st_ino: ino,
        st_nlink: 1,
        st_mode: mode,
        st_uid: 0,
        st_gid: 0,
        pad0: 0,
        st_rdev: 0,
        st_size: s,
        st_blksize: 4096,
        st_blocks: (s + 511) / 512,
        st_atime: 0,
        st_atime_nsec: 0,
        st_mtime: 0,
        st_mtime_nsec: 0,
        st_ctime: 0,
        st_ctime_nsec: 0,
        unused0: 0,
        unused1: 0,
        unused2: 0,
    }
}

/// Measures a file by reading it to the end.
#[derive(Clone, Copy, Debug)]
pub struct SizeProbe {
    /// Bytes read so far.
    pub total: usize,
    /// Whether the end (or an error) was reached.
    pub done: bool,
}

impl SizeProbe {
    /// Nothing read yet.
    pub fn new() -> (r: Self)
        ensures
            r.total == 0 && !r.done,
    {
        SizeProbe { total: 0, done: false }
    }

    /// A read returned `n` bytes (`None`: it failed).  Nothing read, or a
    /// failure, ends the probe.
    pub fn feed(&mut self, read: Option<usize>)
        requires
            !old(self).done,
            read matches Some(n) ==> old(self).total + n <= usize::MAX,
        ensures
            match read {
                Some(n) if n > 0 => final(self).total == old(self).total + n && !final(self).done,
                _ => final(self).total == old(self).total && final(self).done,
            },
    {
        match read {
            Some(n) => {
                if n > 0 {
                    self.total = self.total + n;
                } else {
                    self.done = true;
                }
            },
            None => {
                self.done = true;
            },
        }
    }
}

/// What `fstat` does next.
#[derive(Clone, Copy, Debug, PartialEq, Eq, Structural)]
pub enum FstatPlan {
    /// Store this record and return 0.
    Store(LinuxStat),
    /// Return this value.
    Return(u64),
    /// Measure file-system descriptor `vfs_fd`, then store
    /// `file_stat(vfs_fd, S_IFREG | 0o644, size)`.
    Measure(u32),
}

/// `fstat(fd, statbuf)`: a console descriptor has its terminal record; an
/// unknown descriptor gives `-EBADF`; a file is measured.
pub fn sys_fstat(rt: &LinuxRuntime, args: &[u64; 6]) -> (r: FstatPlan)
    ensures
        ({
            let fd = args[0] as i32;
            let m = rt.fd_table.entries@;
            if is_std_fd_spec(fd) {
                r == FstatPlan::Store(
                    LinuxStat {
                        st_ino: fd as u64,
                        st_nlink: 1,
                        st_mode: S_IFCHR | 0o666,
                        st_rdev: 0x8803,
                        st_blksize: 4096,
                        ..zero_stat()
                    },
                )
            } else if !m.contains_key(fd) {
                r == FstatPlan::Return(errno_spec(EBADF))
            } else {
                r == FstatPlan::Measure(m[fd].vfs_fd)
            }
        }),
{
    let fd = args[0] as i32;
    if LinuxRuntime::is_std_fd(fd) {
        return FstatPlan::Store(console_stat(fd));
    }
    match rt.fd_table.get(fd) {
        None => FstatPlan::Return(errno_code(EBADF)),
        Some(d) => FstatPlan::Measure(d.vfs_fd),
    }
}

/// The stat of a regular file open as file-system descriptor `vfs_fd`.
pub fn regular_file_stat(vfs_fd: u32, size: usize) -> (r: LinuxStat)
    requires
        size + 511 <= i64::MAX,
    ensures
        r == (LinuxStat {
            st_ino: vfs_fd as u64,
            st_nlink: 1,
            st_mode: S_IFREG | 0o644,
            st_size: size as i64,
            st_blksize: 4096,
            st_blocks: ((size + 511) / 512) as i64,
            ..zero_stat()
        }),
{
    file_stat(vfs_fd as u64, S_IFREG | 0o644, size)
}

/// The result of `stat` and `newfstatat`: 0 when the path's record was
/// stored, the error otherwise (`-ENOENT` when it cannot be opened).
pub fn stat_result(filled: Result<(), i32>) -> (r: u64)
    ensures
        match filled {
            Ok(()) => r == 0,
            Err(e) => r == errno_spec(e),
        },
{
    match filled {
        Ok(()) => 0,
        Err(e) => errno_code(e),
    }
}

/// Directory entry type of a directory.
pub const DT_DIR: u8 = 4;

/// Directory entry type of a regular file.
pub const DT_REG: u8 = 8;

/// What `getdents64` does next.
#[derive(Clone, Copy, Debug, PartialEq, Eq, Structural)]
pub enum GetdentsPlan {
    /// Return this value.
    Return(u64),
    /// List the root directory.
    ListRoot,
}

/// `getdents64(fd, buf, count)`: console descriptors are not directories;
/// unknown descriptors give `-EBADF`; any other descriptor lists the root
/// directory.
pub fn sys_getdents64(rt: &LinuxRuntime, args: &[u64; 6]) -> (r: GetdentsPlan)
    ensures
        ({
            let fd = args[0] as i32;
            if is_std_fd_spec(fd) {
                r == GetdentsPlan::Return(errno_spec(ENOTDIR))
            } else if !rt.fd_table.entries@.contains_key(fd) {
                r == GetdentsPlan::Return(errno_spec(EBADF))
            } else {
                r == GetdentsPlan::ListRoot
            }
        }),
{
    let fd = args[0] as i32;
    if LinuxRuntime::is_std_fd(fd) {
        return GetdentsPlan::Return(errno_code(ENOTDIR));
    }
    if !rt.fd_table.contains(fd) {
        return GetdentsPlan::Return(errno_code(EBADF));
    }
    GetdentsPlan::ListRoot
}

/// How many of `entries` records of `reclen` bytes fit in `count` bytes,
/// and the bytes they take.
pub fn dirent_fit(count: u32, reclen: u16, entries: usize) -> (r: (usize, u32))
    requires
        reclen > 0,
    ensures
        r.0 == if entries <= (count as int) / (reclen as int) { entries as int } else { (count as int) / (reclen as int) },
        r.1 == r.0 * reclen,
        r.1 <= count,
{
    let mut k: usize = 0;
    let mut written: u32 = 0;
    while k < entries
        invariant
            reclen > 0,
            k <= entries,
            written == k * reclen,
            written <= count,
            k <= (count as int) / (reclen as int),
        decreases entries - k,
    {
        assert((k + 1) * reclen == k * reclen + reclen) by (nonlinear_arith);
        if (written as u64) + (reclen as u64) > (count as u64) {
            proof {
                assert((k + 1) * reclen > count);
                assert((count as int) / (reclen as int) < k + 1) by (nonlinear_arith)
                    requires
                        (k + 1) * reclen > count,
                        reclen > 0,
                ;
            }
            return (k, written);
        }
        proof {
            assert(k + 1 <= (count as int) / (reclen as int)) by (nonlinear_arith)
                requires
                    (k + 1) * reclen <= count,
                    reclen > 0,
            ;
        }
        written = written + reclen as u32;
        k += 1;
    }
    (k, written)
}

/// The name field of a directory entry: the first 255 bytes of `name`,
/// padded with zeros.
pub fn dirent_name(name: &[u8]) -> (r: [u8; 256])
    ensures
        forall|i: int| 0 <= i < 256 ==> #[trigger] r@[i] == if i < name@.len() && i < 255 {
            name@[i]
        } else {
            0u8
        },
{
    let mut buf: [u8; 256] = [0u8; 256];
    let n = if name.len() < 255 { name.len() } else { 255 };
    let mut i: usize = 0;
    while i < n
        invariant
            n <= 255,
            n <= name@.len(),
            i <= n,
            buf@.len() == 256,
            forall|j: int| 0 <= j < i ==> #[trigger] buf@[j] == name@[j],
            forall|j: int| i <= j < 256 ==> #[trigger] buf@[j] == 0u8,
        decreases n - i,
    {
        buf.set(i, name[i]);
        i += 1;
    }
    buf
}

/// The entry type of a directory entry.
pub fn dirent_type(is_dir: bool) -> (r: u8)
    ensures
        r == if is_dir { DT_DIR } else { DT_REG },
{
    if is_dir { DT_DIR } else { DT_REG }
}

/// `getcwd(buf, size)` once the working directory (`len` bytes, or an
/// error) is known: `-ERANGE` when it and its terminating zero do not fit
/// in `size` bytes, otherwise `None`: copy it to `buf` and return `buf`.
pub fn getcwd_check(cwd: Result<usize, i32>, size: u64) -> (r: Option<u64>)
    ensures
        match cwd {
            Err(e) => r == Some(errno_spec(e)),
            Ok(len) => if len + 1 > size { r == Some(errno_spec(ERANGE)) } else { r is None },
        },
{
    match cwd {
        Err(e) => Some(errno_code(e)),
        Ok(len) => {
            if (len as u64) >= size {
                Some(errno_code(ERANGE))
            } else {
                None
            }
        },
    }
}

/// `ioctl` request: get the terminal attributes.
pub const TCGETS: u64 = 0x5401;

/// `ioctl` request: get the foreground process group.
pub const TIOCGPGRP: u64 = 0x540F;

/// `ioctl` request: set the foreground process group.
pub const TIOCSPGRP: u64 = 0x5410;

/// `ioctl` request: get the window size.
pub const TIOCGWINSZ: u64 = 0x5413;

/// `ioctl` request: bytes available to read.
pub const FIONREAD: u64 = 0x541B;

/// A terminal window size.
#[derive(Clone, Copy, Debug, PartialEq, Eq, Structural)]
pub struct LinuxWinsize {
    pub ws_row: u16,
    pub ws_col: u16,
    pub ws_xpixel: u16,
    pub ws_ypixel: u16,
}

/// What an `ioctl` stores in user memory.
#[derive(Clone, Copy, Debug, PartialEq, Eq, Structural)]
pub enum IoctlStore {
    Nothing,
    /// 36 zero bytes of terminal attributes.
    ZeroTermios,
    /// This window size.
    Winsize(LinuxWinsize),
    /// A zero 32-bit integer.
    ZeroInt,
}

/// `ioctl(fd, request, arg)` on the console: the terminal attributes (all
/// zero), a 25x80 window of 800x600 pixels, foreground group 0, nothing
/// available to read, and setting the group is accepted.  Other requests,
/// and descriptors other than 0, 1, 2, give `-ENOTTY`.  What to store is
/// stored at `arg`.
pub fn sys_ioctl(args: &[u64; 6]) -> (r: (u64, IoctlStore))
    ensures
        ({
            let fd = args[0] as i32;
            let req = args[1];
            if !(0 <= fd <= 2) {
                r == (errno_spec(ENOTTY), IoctlStore::Nothing)
            } else if req == TCGETS {
                r == (0u64, IoctlStore::ZeroTermios)
            } else if req == TIOCGWINSZ {
                r == (0u64, IoctlStore::Winsize(LinuxWinsize { ws_row: 25, ws_col: 80, ws_xpixel: 800, ws_ypixel: 600 }))
            } else if req == TIOCGPGRP || req == FIONREAD {
                r == (0u64, IoctlStore::ZeroInt)
            } else if req == TIOCSPGRP {
                r == (0u64, IoctlStore::Nothing)
            } else {
                r == (errno_spec(ENOTTY), IoctlStore::Nothing)
            }
        }),
{
    let fd = args[0] as i32;
    let req = args[1];
    if !(fd >= 0 && fd <= 2) {
        return (errno_code(ENOTTY), IoctlStore::Nothing);
    }
    if req == TCGETS {
        (0, IoctlStore::ZeroTermios)
    } else if req == TIOCGWINSZ {
        (0, IoctlStore::Winsize(LinuxWinsize { ws_row: 25, ws_col: 80, ws_xpixel: 800, ws_ypixel: 600 }))
    } else if req == TIOCGPGRP || req == FIONREAD {
        (0, IoctlStore::ZeroInt)
    } else if req == TIOCSPGRP {
        (0, IoctlStore::Nothing)
    } else {
        (errno_code(ENOTTY), IoctlStore::Nothing)
    }
}

/// `access`/`faccessat` once it is known whether the path exists: 0, or
/// `-ENOENT`.
pub fn access_result(exists: bool) -> (r: u64)
    ensures
        exists ==> r == 0,
        !exists ==> r == errno_spec(ENOENT),
{
    if exists { 0 } else { errno_code(ENOENT) }
}

/// The return value of a path call (`unlink`, `mkdir`, `rmdir`, `chdir`
/// and their `*at` forms) from the file system's answer.
pub fn path_call_result(outcome: Result<(), i32>) -> (r: u64)
    ensures
        match outcome {
            Ok(()) => r == 0,
            Err(e) => r == errno_spec(e),
        },
{
    match outcome {
        Ok(()) => 0,
        Err(e) => errno_code(e),
    }
}

/// `symlink`: not implemented.
pub fn sys_symlink(_rt: &LinuxRuntime, _args: &[u64; 6]) -> (r: u64)
    ensures
        r == errno_spec(ENOSYS),
{
    errno_code(ENOSYS)
}

/// `rename`: not implemented.
pub fn sys_rename(_rt: &LinuxRuntime, _args: &[u64; 6]) -> (r: u64)
    ensures
        r == errno_spec(ENOSYS),
{
    errno_code(ENOSYS)
}

/// `mount`: not implemented.
pub fn sys_mount(_rt: &LinuxRuntime, _args: &[u64; 6]) -> (r: u64)
    ensures
        r == errno_spec(ENOSYS),
{
    errno_code(ENOSYS)
}

/// `umount2`: not implemented.
pub fn sys_umount2(_rt: &LinuxRuntime, _args: &[u64; 6]) -> (r: u64)
    ensures
        r == errno_spec(ENOSYS),
{
    errno_code(ENOSYS)
}

/// `truncate`: not implemented.
pub fn sys_truncate(_rt: &LinuxRuntime, _args: &[u64; 6]) -> (r: u64)
    ensures
        r == errno_spec(ENOSYS),
{
    errno_code(ENOSYS)
}

/// `ftruncate`: not implemented.
pub fn sys_ftruncate(_rt: &LinuxRuntime, _args: &[u64; 6]) -> (r: u64)
    ensures
        r == errno_spec(ENOSYS),
{
    errno_code(ENOSYS)
}

/// `fsync`: not implemented.
pub fn sys_fsync(_rt: &LinuxRuntime, _args: &[u64; 6]) -> (r: u64)
    ensures
        r == errno_spec(ENOSYS),
{
    errno_code(ENOSYS)
}

/// `fdatasync`: not implemented.
pub fn sys_fdatasync(_rt: &LinuxRuntime, _args: &[u64; 6]) -> (r: u64)
    ensures
        r == errno_spec(ENOSYS),
{
    errno_code(ENOSYS)
}

/// `fchmod`: accepted and ignored.
pub fn sys_fchmod(_rt: &LinuxRuntime, _args: &[u64; 6]) -> (r: u64)
    ensures
        r == 0,
{
    0
}

/// `fchmodat`: accepted and ignored.
pub fn sys_fchmodat(_rt: &LinuxRuntime, _args: &[u64; 6]) -> (r: u64)
    ensures
        r == 0,
{
    0
}

} // verus!
