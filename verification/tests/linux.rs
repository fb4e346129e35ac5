use fullerene::linux_exec::{
    exec_brk_pages, exec_image, exec_initial_stack, exec_stack_page, parse_exec_image, reset_for_exec,
    segment_page, segment_page_count, ElfSummary, ProgramSegment, EXEC_STACK_TOP,
};
use fullerene::linux_fs::{
    errno_code, sys_close, sys_creat, sys_dup, sys_dup2, sys_dup3, sys_fcntl, sys_lseek, sys_pipe,
    sys_pipe2, sys_pread64, sys_pwrite64, sys_readlink, sys_readlinkat, restore_offset, LinuxFileDesc,
    LinuxRuntime, OpenAction, OpenCall, EBADF, EFAULT, EINVAL, ENOENT, ENOEXEC, ESPIPE, O_APPEND,
    O_CREAT, O_RDONLY, O_RDWR, O_TRUNC, O_WRONLY, F_DUPFD, F_GETFD, F_GETFL, F_SETFD, F_SETFL,
};
use fullerene::linux_io::{
    access_result, console_stat, console_write_complete, dirent_fit, dirent_name, dirent_type,
    file_stat, getcwd_check, iovec_address, path_call_result, read_complete, regular_file_stat,
    stat_result, sys_fchmod, sys_fstat, sys_getdents64, sys_ioctl, sys_read, sys_rename, sys_symlink,
    sys_write, write_complete, FstatPlan, GetdentsPlan, IoPlan, IoctlStore, SizeProbe, VectorIo,
    DT_DIR, DT_REG, S_IFCHR, S_IFREG, TCGETS, TIOCGWINSZ, TIOCSPGRP, FIONREAD,
};
use fullerene::linux_process::{
    remove_process, sys_exit, sys_exit_group, sys_fork, sys_getpid, sys_getppid, sys_gettid, sys_kill,
    sys_tgkill, sys_tkill, sys_wait4, wait_status, CloneCall, CloneStage, ProcInfo, SIGCHLD,
};

fn desc(vfs_fd: u32, offset: u64) -> LinuxFileDesc {
    LinuxFileDesc { vfs_fd, mount_index: 0, flags: O_RDWR, offset }
}

fn neg(e: i32) -> u64 {
    (-(e as i64)) as u64
}

#[test]
fn errno_is_negated() {
    assert_eq!(errno_code(EBADF), neg(9));
    assert_eq!(errno_code(EBADF) as i64, -9);
}

#[test]
fn close_console_and_files() {
    let mut rt = LinuxRuntime::new(7, 0x1000);
    rt.fd_table.insert(3, desc(42, 0));
    assert_eq!(sys_close(&mut rt, &[1, 0, 0, 0, 0, 0]), (0, None));
    assert_eq!(sys_close(&mut rt, &[3, 0, 0, 0, 0, 0]), (0, Some(42)));
    assert!(!rt.fd_table.contains(3));
    assert_eq!(sys_close(&mut rt, &[3, 0, 0, 0, 0, 0]), (neg(EBADF), None));
}

#[test]
fn lseek_whence() {
    let mut rt = LinuxRuntime::new(1, 0);
    rt.fd_table.insert(3, desc(1, 10));
    assert_eq!(sys_lseek(&mut rt, &[0, 5, 0, 0, 0, 0]), neg(ESPIPE));
    assert_eq!(sys_lseek(&mut rt, &[9, 5, 0, 0, 0, 0]), neg(EBADF));
    assert_eq!(sys_lseek(&mut rt, &[3, 100, 0, 0, 0, 0]), 100);
    assert_eq!(sys_lseek(&mut rt, &[3, 0, 1, 0, 0, 0]), 100);
    assert_eq!(sys_lseek(&mut rt, &[3, (-30i64) as u64, 1, 0, 0, 0]), 70);
    assert_eq!(rt.fd_table.get(3).unwrap().offset, 70);
    assert_eq!(sys_lseek(&mut rt, &[3, 0, 2, 0, 0, 0]), neg(EINVAL));
    assert_eq!(sys_lseek(&mut rt, &[3, 0, 7, 0, 0, 0]), neg(EINVAL));
    assert_eq!(sys_lseek(&mut rt, &[3, (-1i64) as u64, 0, 0, 0, 0]), neg(EINVAL));
    assert_eq!(rt.fd_table.get(3).unwrap().offset, 70);
}

#[test]
fn dup_family() {
    let mut rt = LinuxRuntime::new(1, 0);
    rt.fd_table.insert(3, desc(5, 99));
    assert_eq!(sys_dup(&mut rt, &[2, 0, 0, 0, 0, 0]), 2);
    assert_eq!(sys_dup(&mut rt, &[8, 0, 0, 0, 0, 0]), neg(EBADF));
    assert_eq!(sys_dup(&mut rt, &[3, 0, 0, 0, 0, 0]), 4);
    assert_eq!(rt.fd_table.get(4).unwrap(), LinuxFileDesc { offset: 0, ..desc(5, 99) });
    assert_eq!(sys_close(&mut rt, &[4, 0, 0, 0, 0, 0]), (0, Some(5)));
    assert_eq!(sys_dup2(&mut rt, &[3, 10, 0, 0, 0, 0]), 10);
    assert_eq!(rt.fd_table.get(10).unwrap(), desc(5, 99));
    assert_eq!(sys_dup2(&mut rt, &[1, 2, 0, 0, 0, 0]), 2);
    assert_eq!(sys_dup2(&mut rt, &[11, 11, 0, 0, 0, 0]), 11);
    assert_eq!(sys_dup2(&mut rt, &[12, 13, 0, 0, 0, 0]), neg(EBADF));
    assert_eq!(sys_dup3(&mut rt, &[3, 1, 0, 0, 0, 0]), 1);
    assert_eq!(rt.fd_table.get(1).unwrap(), desc(5, 99));
}

#[test]
fn fcntl_commands() {
    let mut rt = LinuxRuntime::new(1, 0);
    rt.fd_table.insert(3, LinuxFileDesc { vfs_fd: 1, mount_index: 0, flags: O_WRONLY, offset: 0 });
    assert_eq!(sys_fcntl(&mut rt, &[3, F_DUPFD as u64, 0, 0, 0, 0]), 4);
    assert_eq!(sys_fcntl(&mut rt, &[3, F_GETFD as u64, 0, 0, 0, 0]), 0);
    assert_eq!(sys_fcntl(&mut rt, &[0, F_GETFD as u64, 0, 0, 0, 0]), 0);
    assert_eq!(sys_fcntl(&mut rt, &[9, F_GETFD as u64, 0, 0, 0, 0]), neg(EBADF));
    assert_eq!(sys_fcntl(&mut rt, &[9, F_SETFD as u64, 0, 0, 0, 0]), 0);
    assert_eq!(sys_fcntl(&mut rt, &[3, F_GETFL as u64, 0, 0, 0, 0]), O_WRONLY as u64);
    assert_eq!(sys_fcntl(&mut rt, &[9, F_GETFL as u64, 0, 0, 0, 0]), 0);
    assert_eq!(sys_fcntl(&mut rt, &[3, F_SETFL as u64, O_APPEND as u64, 0, 0, 0]), 0);
    assert_eq!(rt.fd_table.get(3).unwrap().flags, O_APPEND);
    assert_eq!(sys_fcntl(&mut rt, &[9, F_SETFL as u64, 0, 0, 0, 0]), neg(EBADF));
    assert_eq!(sys_fcntl(&mut rt, &[3, 99, 0, 0, 0, 0]), 0);
}

#[test]
fn positioned_io_keeps_offset() {
    let mut rt = LinuxRuntime::new(1, 0);
    rt.fd_table.insert(3, desc(5, 40));
    assert_eq!(sys_pread64(&mut rt, &[3, 0, 10, (-1i64) as u64, 0, 0]), Err(neg(EINVAL)));
    assert_eq!(sys_pread64(&mut rt, &[4, 0, 10, 0, 0, 0]), Err(neg(EBADF)));
    let saved = sys_pread64(&mut rt, &[3, 0, 10, 1000, 0, 0]).unwrap();
    assert_eq!(saved, 40);
    assert_eq!(rt.fd_table.get(3).unwrap().offset, 1000);
    // The read in between advances the position; restoring undoes both.
    assert_eq!(read_complete(&mut rt, 3, Ok(10), true), 10);
    assert_eq!(rt.fd_table.get(3).unwrap().offset, 1010);
    restore_offset(&mut rt, 3, saved);
    assert_eq!(rt.fd_table.get(3).unwrap(), desc(5, 40));
    let saved = sys_pwrite64(&mut rt, &[3, 0, 10, 7, 0, 0]).unwrap();
    restore_offset(&mut rt, 3, saved);
    assert_eq!(rt.fd_table.get(3).unwrap(), desc(5, 40));
}

#[test]
fn readlink_unsupported() {
    let mut rt = LinuxRuntime::new(1, 0);
    assert_eq!(sys_readlink(&mut rt, &[0; 6]), neg(EINVAL));
    assert_eq!(sys_readlinkat(&mut rt, &[0; 6]), neg(EINVAL));
}

#[test]
fn pipe_opens_two_ends() {
    let mut rt = LinuxRuntime::new(1, 0);
    assert_eq!(sys_pipe(&mut rt, &[0; 6]), (neg(EFAULT), None));
    assert_eq!(sys_pipe(&mut rt, &[0x1000, 0, 0, 0, 0, 0]), (0, Some((3, 4))));
    assert_eq!(rt.fd_table.get(3).unwrap().flags, O_RDONLY);
    assert_eq!(rt.fd_table.get(4).unwrap().flags, O_WRONLY);
    assert_eq!(sys_pipe2(&mut rt, &[0x1000, 1, 0, 0, 0, 0]), (0, Some((5, 6))));
}

fn run_open(rt: &mut LinuxRuntime, flags: i32, create: Vec<Result<u32, i32>>, open: Vec<Result<u32, i32>>) -> u64 {
    let mut create = create.into_iter();
    let mut open = open.into_iter();
    let mut call = OpenCall::start(flags);
    loop {
        match call.action() {
            OpenAction::Create => call.feed_create(rt, create.next().unwrap()),
            OpenAction::Unlink => call.feed_unlink(),
            OpenAction::Open => call.feed_open(rt, open.next().unwrap()),
            OpenAction::Done(r) => return r,
        }
    }
}

#[test]
fn open_paths() {
    let mut rt = LinuxRuntime::new(1, 0);
    assert_eq!(run_open(&mut rt, O_RDONLY, vec![], vec![Ok(20)]), 3);
    assert_eq!(run_open(&mut rt, O_RDONLY, vec![], vec![Err(ENOENT)]), neg(ENOENT));
    assert_eq!(run_open(&mut rt, 3, vec![], vec![]), neg(EINVAL));
    assert_eq!(run_open(&mut rt, O_WRONLY | O_CREAT, vec![Ok(21)], vec![]), 4);
    // Creation fails, the existing file opens.
    assert_eq!(run_open(&mut rt, O_WRONLY | O_CREAT, vec![Err(17)], vec![Ok(22)]), 5);
    // Creation fails and so does opening: the creation error.
    assert_eq!(run_open(&mut rt, O_WRONLY | O_CREAT, vec![Err(17)], vec![Err(2)]), neg(17));
    // Truncating create: removed and created again.
    assert_eq!(run_open(&mut rt, O_RDWR | O_CREAT | O_TRUNC, vec![Err(17), Ok(23)], vec![]), 6);
    assert_eq!(run_open(&mut rt, O_RDWR | O_CREAT | O_TRUNC, vec![Err(17), Err(28)], vec![]), neg(28));
    // Write open without create of a missing file.
    assert_eq!(run_open(&mut rt, O_WRONLY, vec![], vec![Err(13)]), neg(ENOENT));
    assert_eq!(run_open(&mut rt, O_APPEND, vec![], vec![Ok(24)]), 7);
    assert_eq!(rt.fd_table.get(7).unwrap().vfs_fd, 24);
}

#[test]
fn creat_opens_write_only() {
    let mut rt = LinuxRuntime::new(1, 0);
    assert_eq!(sys_creat(&mut rt, Ok(30)), 3);
    assert_eq!(rt.fd_table.get(3).unwrap().flags, O_WRONLY | O_CREAT | O_TRUNC);
    assert_eq!(sys_creat(&mut rt, Err(13)), neg(13));
}

#[test]
fn child_runtime_copies_descriptors() {
    let mut rt = LinuxRuntime::new(1, 0x5000);
    rt.program_break = 0x9000;
    rt.fd_table.insert(3, desc(5, 1));
    let child = rt.child_runtime(2);
    assert_eq!(child.pid, 2);
    assert_eq!(child.program_break, 0x5000);
    assert_eq!(child.fd_table.get(3).unwrap(), desc(5, 1));
}

#[test]
fn read_and_write_plans() {
    let mut rt = LinuxRuntime::new(1, 0);
    rt.fd_table.insert(3, desc(9, 0));
    assert_eq!(sys_read(&rt, &[3, 0, 0, 0, 0, 0]), IoPlan::Return(0));
    assert_eq!(sys_read(&rt, &[1, 0, 5, 0, 0, 0]), IoPlan::Return(neg(EBADF)));
    assert_eq!(sys_read(&rt, &[0, 0, 5, 0, 0, 0]), IoPlan::Return(neg(EBADF)));
    assert_eq!(sys_read(&rt, &[3, 0, 100_000, 0, 0, 0]), IoPlan::File { vfs_fd: 9, limit: 65536 });
    assert_eq!(sys_write(&rt, &[2, 0, 10_000, 0, 0, 0]), IoPlan::Console { len: 4096 });
    assert_eq!(sys_write(&rt, &[0, 0, 1, 0, 0, 0]), IoPlan::Return(neg(EBADF)));
    assert_eq!(sys_write(&rt, &[3, 0, 7, 0, 0, 0]), IoPlan::File { vfs_fd: 9, limit: 7 });
    assert_eq!(read_complete(&mut rt, 3, Ok(0), true), neg(EFAULT));
    assert_eq!(read_complete(&mut rt, 3, Ok(5), false), neg(EFAULT));
    assert_eq!(read_complete(&mut rt, 3, Err(5), true), neg(5));
    assert_eq!(read_complete(&mut rt, 3, Ok(5), true), 5);
    assert_eq!(write_complete(&mut rt, 3, false, Ok(5)), neg(EFAULT));
    assert_eq!(write_complete(&mut rt, 3, true, Ok(6)), 6);
    assert_eq!(write_complete(&mut rt, 3, true, Err(28)), neg(28));
    assert_eq!(rt.fd_table.get(3).unwrap().offset, 11);
    assert_eq!(console_write_complete(Some(12)), 12);
    assert_eq!(console_write_complete(None), neg(EFAULT));
}

#[test]
fn vectored_io() {
    let mut v = VectorIo::new(true);
    v.transferred(10, 10);
    v.transferred(4, 10);
    assert_eq!(v.finish(), 14);
    let mut v = VectorIo::new(false);
    v.transferred(10, 10);
    v.transferred(4, 10);
    v.transferred(1, 1);
    assert_eq!(v.finish(), 15);
    let mut v = VectorIo::new(true);
    v.fault();
    assert_eq!(v.finish(), neg(EFAULT));
    let mut v = VectorIo::new(false);
    v.transferred(3, 3);
    v.fault();
    assert_eq!(v.finish(), 3);
    let mut v = VectorIo::new(false);
    v.transferred(neg(EBADF), 3);
    assert_eq!(v.finish(), neg(EBADF));
    let mut v = VectorIo::new(false);
    v.transferred(2, 3);
    v.transferred(neg(EBADF), 3);
    assert_eq!(v.finish(), 2);
    assert_eq!(iovec_address(0x1000, 3), 0x1030);
}

#[test]
fn stat_records() {
    let mut rt = LinuxRuntime::new(1, 0);
    rt.fd_table.insert(3, desc(9, 0));
    let s = console_stat(1);
    assert_eq!((s.st_ino, s.st_mode, s.st_rdev, s.st_nlink, s.st_blksize), (1, S_IFCHR | 0o666, 0x8803, 1, 4096));
    assert_eq!(sys_fstat(&rt, &[2, 0, 0, 0, 0, 0]), FstatPlan::Store(console_stat(2)));
    assert_eq!(sys_fstat(&rt, &[5, 0, 0, 0, 0, 0]), FstatPlan::Return(neg(EBADF)));
    assert_eq!(sys_fstat(&rt, &[3, 0, 0, 0, 0, 0]), FstatPlan::Measure(9));
    let s = regular_file_stat(9, 1025);
    assert_eq!((s.st_ino, s.st_mode, s.st_size, s.st_blocks), (9, S_IFREG | 0o644, 1025, 3));
    let s = file_stat(4, 0o040755, 0);
    assert_eq!((s.st_size, s.st_blocks, s.st_mode), (0, 0, 0o040755));
    let mut p = SizeProbe::new();
    p.feed(Some(512));
    p.feed(Some(100));
    assert!(!p.done);
    p.feed(Some(0));
    assert!(p.done);
    assert_eq!(p.total, 612);
    let mut p = SizeProbe::new();
    p.feed(None);
    assert!(p.done && p.total == 0);
    assert_eq!(stat_result(Ok(())), 0);
    assert_eq!(stat_result(Err(ENOENT)), neg(ENOENT));
}

#[test]
fn getdents_records() {
    let mut rt = LinuxRuntime::new(1, 0);
    rt.fd_table.insert(3, desc(9, 0));
    assert_eq!(sys_getdents64(&rt, &[1, 0, 0, 0, 0, 0]), GetdentsPlan::Return(neg(20)));
    assert_eq!(sys_getdents64(&rt, &[4, 0, 0, 0, 0, 0]), GetdentsPlan::Return(neg(EBADF)));
    assert_eq!(sys_getdents64(&rt, &[3, 0, 0, 0, 0, 0]), GetdentsPlan::ListRoot);
    assert_eq!(dirent_fit(1000, 280, 10), (3, 840));
    assert_eq!(dirent_fit(1000, 280, 2), (2, 560));
    assert_eq!(dirent_fit(100, 280, 2), (0, 0));
    let n = dirent_name(b"abc");
    assert_eq!(&n[..4], b"abc\0");
    let long = [b'x'; 300];
    let n = dirent_name(&long);
    assert_eq!(n[254], b'x');
    assert_eq!(n[255], 0);
    assert_eq!((dirent_type(true), dirent_type(false)), (DT_DIR, DT_REG));
}

#[test]
fn getcwd_and_path_calls() {
    assert_eq!(getcwd_check(Ok(4), 5), None);
    assert_eq!(getcwd_check(Ok(5), 5), Some(neg(34)));
    assert_eq!(getcwd_check(Err(2), 5), Some(neg(2)));
    assert_eq!(access_result(true), 0);
    assert_eq!(access_result(false), neg(ENOENT));
    assert_eq!(path_call_result(Ok(())), 0);
    assert_eq!(path_call_result(Err(30)), neg(30));
    let rt = LinuxRuntime::new(1, 0);
    assert_eq!(sys_symlink(&rt, &[0; 6]), neg(38));
    assert_eq!(sys_rename(&rt, &[0; 6]), neg(38));
    assert_eq!(sys_fchmod(&rt, &[0; 6]), 0);
}

#[test]
fn ioctl_console() {
    assert_eq!(sys_ioctl(&[1, TCGETS, 0x100, 0, 0, 0]), (0, IoctlStore::ZeroTermios));
    match sys_ioctl(&[0, TIOCGWINSZ, 0x100, 0, 0, 0]) {
        (0, IoctlStore::Winsize(w)) => assert_eq!((w.ws_row, w.ws_col, w.ws_xpixel, w.ws_ypixel), (25, 80, 800, 600)),
        other => panic!("unexpected {:?}", other),
    }
    assert_eq!(sys_ioctl(&[2, FIONREAD, 0x100, 0, 0, 0]), (0, IoctlStore::ZeroInt));
    assert_eq!(sys_ioctl(&[2, TIOCSPGRP, 0x100, 0, 0, 0]), (0, IoctlStore::Nothing));
    assert_eq!(sys_ioctl(&[2, 0x9999, 0x100, 0, 0, 0]), (neg(25), IoctlStore::Nothing));
    assert_eq!(sys_ioctl(&[3, TCGETS, 0x100, 0, 0, 0]), (neg(25), IoctlStore::Nothing));
}

#[test]
fn process_identity_and_exit() {
    let mut rt = LinuxRuntime::new(1, 0);
    assert_eq!(sys_getpid(&rt, &[0; 6], Some(5)), 5);
    assert_eq!(sys_getpid(&rt, &[0; 6], None), 0);
    assert_eq!(sys_gettid(&rt, &[0; 6], Some(6)), 6);
    let procs = vec![
        ProcInfo { id: 5, parent: Some(1), terminated: false, exit_code: None },
        ProcInfo { id: 6, parent: None, terminated: false, exit_code: None },
    ];
    assert_eq!(sys_getppid(&rt, &[0; 6], &procs, Some(5)), 1);
    assert_eq!(sys_getppid(&rt, &[0; 6], &procs, Some(6)), 0);
    assert_eq!(sys_getppid(&rt, &[0; 6], &procs, Some(9)), 0);
    assert_eq!(sys_exit(&rt, &[0x1_0000_0003, 0, 0, 0, 0, 0]), (3, None));
    rt.child_clear_tid = 0x7000;
    assert_eq!(sys_exit_group(&rt, &[1, 0, 0, 0, 0, 0]), (1, Some(0x7000)));
    assert_eq!((sys_kill(&rt, &[0; 6]), sys_tkill(&rt, &[0; 6]), sys_tgkill(&rt, &[0; 6])), (0, 0, 0));
    assert_eq!(sys_fork(&rt, &[0; 6]), [SIGCHLD as u64, 0, 0, 0, 0, 0]);
}

#[test]
fn wait4_reaps_children() {
    let mut procs = vec![
        ProcInfo { id: 2, parent: Some(1), terminated: false, exit_code: None },
        ProcInfo { id: 3, parent: Some(1), terminated: true, exit_code: Some(0x1_07) },
        ProcInfo { id: 4, parent: Some(1), terminated: true, exit_code: Some(1) },
    ];
    let r = sys_wait4(&mut procs, &[(-1i64) as u64, 0x500, 0, 0, 0, 0], 1);
    assert_eq!((r.ret, r.status, r.block), (3, Some((0x500, 0x700)), false));
    assert_eq!(procs.len(), 2);
    let r = sys_wait4(&mut procs, &[4, 0, 0, 0, 0, 0], 1);
    assert_eq!((r.ret, r.status), (4, None));
    let r = sys_wait4(&mut procs, &[0, 0x500, 1, 0, 0, 0], 1);
    assert_eq!((r.ret, r.status, r.block), (0, None, false));
    let r = sys_wait4(&mut procs, &[0, 0x500, 0, 0, 0, 0], 1);
    assert_eq!((r.ret, r.block), (0, true));
    let r = sys_wait4(&mut procs, &[9, 0x500, 0, 0, 0, 0], 1);
    assert_eq!((r.ret, r.status), (9, Some((0x500, 0))));
    assert_eq!(wait_status(-1), 0xff00);
    let mut v = vec![ProcInfo { id: 1, parent: None, terminated: false, exit_code: None }; 3];
    remove_process(&mut v, 1);
    assert!(v.is_empty());
}

#[test]
fn clone_steps() {
    let c = CloneCall::start(None);
    assert_eq!(c.stage, CloneStage::Done(neg(3)));
    let mut c = CloneCall::start(Some(1));
    c.feed_address_space(true);
    c.feed_kernel_stack(true);
    c.feed_pid(8);
    assert!(!c.feed_frame_allocator(true));
    c.feed_add(true);
    assert_eq!(c.stage, CloneStage::Done(8));
    let mut c = CloneCall::start(Some(1));
    c.feed_address_space(true);
    c.feed_kernel_stack(true);
    c.feed_pid(8);
    assert!(c.feed_frame_allocator(false));
    assert_eq!(c.stage, CloneStage::Done(neg(12)));
    let mut c = CloneCall::start(Some(1));
    c.feed_address_space(false);
    assert_eq!(c.stage, CloneStage::Done(neg(12)));
}

fn tiny_elf(e_type: u16) -> Vec<u8> {
    let mut b = vec![0u8; 64 + 2 * 56];
    b[..4].copy_from_slice(b"\x7fELF");
    b[4] = 2;
    b[5] = 1;
    b[6] = 1;
    b[16..18].copy_from_slice(&e_type.to_le_bytes());
    b[18..20].copy_from_slice(&0x3eu16.to_le_bytes());
    b[20..24].copy_from_slice(&1u32.to_le_bytes());
    b[24..32].copy_from_slice(&0x40_1000u64.to_le_bytes());
    b[32..40].copy_from_slice(&64u64.to_le_bytes());
    b[52..54].copy_from_slice(&64u16.to_le_bytes());
    b[54..56].copy_from_slice(&56u16.to_le_bytes());
    b[56..58].copy_from_slice(&2u16.to_le_bytes());
    b[58..60].copy_from_slice(&64u16.to_le_bytes());
    // PT_NOTE first, then PT_LOAD (R+X) of 0x100 bytes in file, 0x2000 in memory.
    let ph = 64;
    b[ph..ph + 4].copy_from_slice(&4u32.to_le_bytes());
    let ph = 64 + 56;
    b[ph..ph + 4].copy_from_slice(&1u32.to_le_bytes());
    b[ph + 4..ph + 8].copy_from_slice(&5u32.to_le_bytes());
    b[ph + 16..ph + 24].copy_from_slice(&0x40_0000u64.to_le_bytes());
    b[ph + 32..ph + 40].copy_from_slice(&0x100u64.to_le_bytes());
    b[ph + 40..ph + 48].copy_from_slice(&0x2000u64.to_le_bytes());
    b
}

#[test]
fn exec_image_from_bytes() {
    let data = tiny_elf(2);
    let img = parse_exec_image(&data).expect("executable");
    assert_eq!(img.entry, 0x40_1000);
    assert_eq!(img.segments.len(), 1);
    let seg = img.segments[0];
    assert_eq!((seg.p_type, seg.p_flags, seg.p_vaddr, seg.p_filesz, seg.p_memsz), (1, 5, 0x40_0000, 0x100, 0x2000));
    assert_eq!(segment_page_count(&seg), 2);
    // The segment's file bytes run past the end of this file.
    assert_eq!(segment_page(&seg, 0, data.len()).unwrap_err(), ENOEXEC);
    let p = segment_page(&seg, 0, 4096).unwrap();
    assert_eq!((p.vaddr, p.copy), (0x40_0000, Some((0, 0x100))));
    assert_eq!(p.flags, 1 | 4);
    let p = segment_page(&seg, 1, 4096).unwrap();
    assert_eq!((p.vaddr, p.copy), (0x40_1000, None));
    assert_eq!(parse_exec_image(&tiny_elf(3)).unwrap_err(), ENOEXEC);
    assert_eq!(parse_exec_image(b"not an elf").unwrap_err(), ENOEXEC);
}

#[test]
fn exec_image_filters_loadable() {
    let s = |t: u32| ProgramSegment { p_type: t, p_flags: 6, p_offset: 0, p_vaddr: 0, p_filesz: 0, p_memsz: 0 };
    let elf = ElfSummary { e_type: 2, e_entry: 7, segments: vec![s(1), s(3), s(1)] };
    let img = exec_image(&elf).unwrap();
    assert_eq!(img.segments.len(), 2);
    let elf = ElfSummary { e_type: 3, e_entry: 7, segments: vec![] };
    assert_eq!(exec_image(&elf).unwrap_err(), ENOEXEC);
    let w = segment_page(&s(1), 0, 0).unwrap();
    assert_eq!(w.flags, 1 | 2 | 4 | (1 << 63));
}

#[test]
fn exec_stack_and_reset() {
    let (v, f) = exec_stack_page(0);
    assert_eq!(v, EXEC_STACK_TOP - 0x20_0000);
    assert_eq!(f, 1 | 2 | 4 | (1 << 63));
    assert_eq!(exec_stack_page(511).0, EXEC_STACK_TOP - 4096);
    assert_eq!(exec_initial_stack(), (EXEC_STACK_TOP - 32, [1, 0, 0, 0]));
    let mut rt = LinuxRuntime::new(1, 0x10_0000);
    assert_eq!(exec_brk_pages(&rt), 0);
    rt.program_break = 0x10_2001;
    assert_eq!(exec_brk_pages(&rt), 3);
    rt.tls_ptr = 5;
    rt.signal_pending = 1;
    reset_for_exec(&mut rt);
    assert_eq!((rt.program_break, rt.tls_ptr, rt.signal_pending), (0x10_0000, 0, 0));
}
