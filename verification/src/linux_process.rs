//! Process system calls of the Linux personality: identities, `exit`,
//! `clone`/`fork`, `wait4` and the signal calls.
//!
//! The process manager is the caller's; it hands over what these calls
//! read of it (the current process, a snapshot of the process list) and
//! applies what they decide.
use vstd::prelude::*;
use crate::linux_fs::{LinuxRuntime, errno_code, errno_spec, ENOMEM, ESRCH};

verus! {

/// Signal number of `SIGCHLD`.
pub const SIGCHLD: i32 = 17;

/// `wait4` option: return at once when no child has exited.
pub const WNOHANG: i32 = 1;

/// `exit(code)`: the exit code (the low 32 bits of the first argument) and
/// the user address of the child-TID word to clear first, if one is set.
pub fn sys_exit(rt: &LinuxRuntime, args: &[u64; 6]) -> (r: (i32, Option<u64>))
    ensures
        r.0 == args[0] as i32,
        rt.child_clear_tid != 0 ==> r.1 == Some(rt.child_clear_tid),
        rt.child_clear_tid == 0 ==> r.1 is None,
{
    let code = args[0] as i32;
    if rt.child_clear_tid != 0 {
        (code, Some(rt.child_clear_tid))
    } else {
        (code, None)
    }
}

/// `exit_group(code)`: the same as `exit`.
pub fn sys_exit_group(rt: &LinuxRuntime, args: &[u64; 6]) -> (r: (i32, Option<u64>))
    ensures
        r.0 == args[0] as i32,
        rt.child_clear_tid != 0 ==> r.1 == Some(rt.child_clear_tid),
        rt.child_clear_tid == 0 ==> r.1 is None,
{
    sys_exit(rt, args)
}

/// `getpid()`: the current process's id, 0 when there is none.
pub fn sys_getpid(_rt: &LinuxRuntime, _args: &[u64; 6], current: Option<u64>) -> (r: u64)
    ensures
        r == match current {
            Some(pid) => pid,
            None => 0,
        },
{
    match current {
        Some(pid) => pid,
        None => 0,
    }
}

/// `gettid()`: threads are processes here, so the process id.
pub fn sys_gettid(rt: &LinuxRuntime, args: &[u64; 6], current: Option<u64>) -> (r: u64)
    ensures
        r == match current {
            Some(pid) => pid,
            None => 0,
        },
{
    sys_getpid(rt, args, current)
}

/// `kill`: signals are not delivered yet; succeeds.
pub fn sys_kill(_rt: &LinuxRuntime, _args: &[u64; 6]) -> (r: u64)
    ensures
        r == 0,
{
    0
}

/// `tkill`: as `kill`.
pub fn sys_tkill(_rt: &LinuxRuntime, _args: &[u64; 6]) -> (r: u64)
    ensures
        r == 0,
{
    0
}

/// `tgkill`: as `kill`.
pub fn sys_tgkill(_rt: &LinuxRuntime, _args: &[u64; 6]) -> (r: u64)
    ensures
        r == 0,
{
    0
}

/// What the process calls read of a process.
#[derive(Clone, Copy, Debug, PartialEq, Eq, Structural)]
pub struct ProcInfo {
    pub id: u64,
    pub parent: Option<u64>,
    pub terminated: bool,
    pub exit_code: Option<i32>,
}

/// Whether `p` is the first process of `procs` with id `id`.
pub open spec fn first_with_id(procs: Seq<ProcInfo>, id: u64, p: ProcInfo) -> bool {
    exists|i: int|
        0 <= i < procs.len() && #[trigger] procs[i] == p && p.id == id && forall|j: int|
            0 <= j < i ==> (#[trigger] procs[j]).id != id
}

/// Whether no process of `procs` has id `id`.
pub open spec fn no_id(procs: Seq<ProcInfo>, id: u64) -> bool {
    forall|j: int| 0 <= j < procs.len() ==> (#[trigger] procs[j]).id != id
}

/// The first process of the list with id `id`.
pub fn lookup_process(procs: &Vec<ProcInfo>, id: u64) -> (r: Option<ProcInfo>)
    ensures
        r is None <==> no_id(procs@, id),
        r matches Some(p) ==> first_with_id(procs@, id, p),
{
    let mut i: usize = 0;
    while i < procs.len()
        invariant
            i <= procs@.len(),
            forall|j: int| 0 <= j < i ==> (#[trigger] procs@[j]).id != id,
        decreases procs@.len() - i,
    {
        if procs[i].id == id {
            assert(procs@[i as int] == procs[i as int]);
            return Some(procs[i]);
        }
        i += 1;
    }
    None
}

/// `getppid()`: the parent of the current process (process 0 when there
/// is none), 0 when that process is unknown or has no parent.
pub fn sys_getppid(_rt: &LinuxRuntime, _args: &[u64; 6], procs: &Vec<ProcInfo>, current: Option<u64>) -> (r: u64)
    ensures
        ({
            let pid = match current {
                Some(p) => p,
                None => 0,
            };
            &&& no_id(procs@, pid) ==> r == 0
            &&& forall|p: ProcInfo| #[trigger] first_with_id(procs@, pid, p) ==> r == match p.parent {
                Some(q) => q,
                None => 0,
            }
        }),
{
    let pid = match current {
        Some(p) => p,
        None => 0,
    };
    let r = match lookup_process(procs, pid) {
        Some(p) => match p.parent {
            Some(q) => q,
            None => 0,
        },
        None => 0,
    };
    proof {
        assert forall|p: ProcInfo| #[trigger] first_with_id(procs@, pid, p) implies r == match p.parent {
            Some(q) => q,
            None => 0,
        } by {
            lemma_first_with_id_unique(procs@, pid, p);
        }
    }
    r
}

/// The first process of a list with a given id is unique.
proof fn lemma_first_with_id_unique(procs: Seq<ProcInfo>, id: u64, p: ProcInfo)
    requires
        first_with_id(procs, id, p),
    ensures
        forall|q: ProcInfo| #[trigger] first_with_id(procs, id, q) ==> q == p,
{
    assert forall|q: ProcInfo| #[trigger] first_with_id(procs, id, q) implies q == p by {
        let i = choose|i: int|
            0 <= i < procs.len() && #[trigger] procs[i] == p && p.id == id && forall|j: int|
                0 <= j < i ==> (#[trigger] procs[j]).id != id;
        let k = choose|k: int|
            0 <= k < procs.len() && #[trigger] procs[k] == q && q.id == id && forall|j: int|
                0 <= j < k ==> (#[trigger] procs[j]).id != id;
        if i < k {
            assert(procs[i].id != id);
        } else if k < i {
            assert(procs[k].id != id);
        }
    }
}

/// Whether `p` is an exited child of `parent`.
pub open spec fn is_exited_child(p: ProcInfo, parent: u64) -> bool {
    p.parent == Some(parent) && p.terminated
}

/// Whether `id` is the id of the first exited child of `parent` in the
/// list.
pub open spec fn is_first_exited_child(procs: Seq<ProcInfo>, parent: u64, id: u64) -> bool {
    exists|i: int|
        0 <= i < procs.len() && is_exited_child(#[trigger] procs[i], parent) && procs[i].id == id
            && forall|j: int| 0 <= j < i ==> !is_exited_child(#[trigger] procs[j], parent)
}

/// The first exited child of `parent` in the list.
pub fn find_exited_child(procs: &Vec<ProcInfo>, parent: u64) -> (r: Option<u64>)
    ensures
        r is None <==> forall|j: int| 0 <= j < procs@.len() ==> !is_exited_child(#[trigger] procs@[j], parent),
        r matches Some(id) ==> is_first_exited_child(procs@, parent, id),
{
    let mut i: usize = 0;
    while i < procs.len()
        invariant
            i <= procs@.len(),
            forall|j: int| 0 <= j < i ==> !is_exited_child(#[trigger] procs@[j], parent),
        decreases procs@.len() - i,
    {
        let p = procs[i];
        if p.parent == Some(parent) && p.terminated {
            assert(is_exited_child(procs@[i as int], parent));
            return Some(p.id);
        }
        i += 1;
    }
    None
}

/// The status word `wait4` stores for exit code `code`: exited normally,
/// with the low byte of the code as exit status (bits 8 to 15).
pub fn wait_status(code: i32) -> (r: i32)
    ensures
        r == (code % 256) * 256,
{
    let r = (code & 0xff) << 8u32;
    assert((code & 0xff) << 8u32 == (code % 256) * 256) by (bit_vector);
    r
}

/// The exit code recorded for process `id`, 0 when unknown.
pub open spec fn exit_code_of(procs: Seq<ProcInfo>, id: u64) -> i32 {
    if no_id(procs, id) {
        0
    } else {
        let p = choose|p: ProcInfo| first_with_id(procs, id, p);
        match p.exit_code {
            Some(c) => c,
            None => 0,
        }
    }
}

/// The list without process `id`.
pub open spec fn without_process(procs: Seq<ProcInfo>, id: u64) -> Seq<ProcInfo> {
    procs.filter(|p: ProcInfo| p.id != id)
}

/// Remove every process with id `id` from the list.
pub fn remove_process(procs: &mut Vec<ProcInfo>, id: u64)
    ensures
        final(procs)@ == without_process(old(procs)@, id),
{
    let ghost orig = procs@;
    let mut kept: Vec<ProcInfo> = Vec::new();
    let mut i: usize = 0;
    while i < procs.len()
        invariant
            procs@ == orig,
            i <= orig.len(),
            kept@ == without_process(orig.subrange(0, i as int), id),
        decreases orig.len() - i,
    {
        let p = procs[i];
        proof {
            let pre = orig.subrange(0, i as int);
            assert(orig.subrange(0, i + 1) =~= pre.push(p));
            reveal(Seq::filter);
            assert(pre.push(p).drop_last() =~= pre);
        }
        if p.id != id {
            kept.push(p);
        }
        i += 1;
    }
    assert(orig.subrange(0, orig.len() as int) =~= orig);
    *procs = kept;
}

/// What `wait4` did: its return value, the status word to store (at the
/// given user address), and whether the caller blocks.
#[derive(Clone, Copy, Debug)]
pub struct Wait4Result {
    pub ret: u64,
    pub status: Option<(u64, i32)>,
    pub block: bool,
}

/// `wait4(pid, status, options)`.  A positive `pid` names the child to
/// reap; otherwise the first exited child of the current process is
/// reaped, and when there is none the call returns 0 (blocking unless
/// `WNOHANG`).  A reaped process leaves the list; its exit code (0 when
/// unknown) is stored as a status word when `status` is not null; the
/// call returns its id.
pub fn sys_wait4(procs: &mut Vec<ProcInfo>, args: &[u64; 6], current: u64) -> (r: Wait4Result)
    ensures
        ({
            let pid = args[0] as i64;
            let target: Option<u64> = if pid > 0 {
                Some(pid as u64)
            } else if forall|j: int| 0 <= j < old(procs)@.len() ==> !is_exited_child(
                #[trigger] old(procs)@[j],
                current,
            ) {
                None
            } else {
Some(choose|id: u64| is_first_exited_child(old(procs)@, current, id))
            };
            match target {
                None => r.ret == 0 && r.status is None && r.block == ((args[2] as i32) & WNOHANG == 0)
                    && final(procs)@ == old(procs)@,
                Some(t) => r.ret == t && !r.block && final(procs)@ == without_process(old(procs)@, t)
                    && (args[1] == 0 ==> r.status is None) && (args[1] != 0 ==> (r.status matches Some((a, w)) && a == args[1]
                    && w == (exit_code_of(old(procs)@, t) % 256) * 256)),
            }
        }),
{
    let pid = args[0] as i64;
    let status = args[1];
    let options = args[2] as i32;
    let target = if pid > 0 {
        pid as u64
    } else {
        match find_exited_child(procs, current) {
            Some(id) => {
                proof {
                    lemma_first_exited_child_unique(procs@, current, id);
                }
                id
            },
            None => {
                return Wait4Result { ret: 0, status: None, block: (options & WNOHANG) == 0 };
            },
        }
    };
    let code = match lookup_process(procs, target) {
        Some(p) => {
            proof {
                lemma_first_with_id_unique(procs@, target, p);
            }
            match p.exit_code {
                Some(c) => c,
                None => 0,
            }
        },
        None => 0,
    };
    assert(code == exit_code_of(procs@, target));
    let st = if status != 0 {
        Some((status, wait_status(code)))
    } else {
        None
    };
    remove_process(procs, target);
    Wait4Result { ret: target, status: st, block: false }
}

/// The first exited child of a process is unique.
proof fn lemma_first_exited_child_unique(procs: Seq<ProcInfo>, parent: u64, id: u64)
    requires
        is_first_exited_child(procs, parent, id),
    ensures
        (choose|x: u64| is_first_exited_child(procs, parent, x)) == id,
{
    let x = choose|x: u64| is_first_exited_child(procs, parent, x);
    assert(is_first_exited_child(procs, parent, x));
    let i = choose|i: int|
        0 <= i < procs.len() && is_exited_child(#[trigger] procs[i], parent) && procs[i].id == id
            && forall|j: int| 0 <= j < i ==> !is_exited_child(#[trigger] procs[j], parent);
    let k = choose|k: int|
        0 <= k < procs.len() && is_exited_child(#[trigger] procs[k], parent) && procs[k].id == x
            && forall|j: int| 0 <= j < k ==> !is_exited_child(#[trigger] procs[j], parent);
    if i < k {
        assert(!is_exited_child(procs[i], parent));
    } else if k < i {
        assert(!is_exited_child(procs[k], parent));
    }
}

/// `fork()`: the `clone(SIGCHLD, 0, NULL, NULL, 0)` it stands for.
pub fn sys_fork(_rt: &LinuxRuntime, _args: &[u64; 6]) -> (r: [u64; 6])
    ensures
        r@ == seq![SIGCHLD as u64, 0u64, 0u64, 0u64, 0u64, 0u64],
{
    let a: [u64; 6] = [SIGCHLD as u64, 0, 0, 0, 0, 0];
    assert(a@ =~= seq![SIGCHLD as u64, 0u64, 0u64, 0u64, 0u64, 0u64]);
    a
}

/// Where a `clone` stands.
#[derive(Clone, Copy, Debug, PartialEq, Eq, Structural)]
pub enum CloneStage {
    /// Copy the parent's page table; report with `feed_address_space`.
    CloneAddressSpace,
    /// Allocate the child's kernel stack; report with `feed_kernel_stack`.
    AllocateKernelStack,
    /// Take a fresh process id; report with `feed_pid`.
    AllocatePid,
    /// Check that the frame allocator is up; report with
    /// `feed_frame_allocator`.
    CheckFrameAllocator,
    /// Add the child to the process list; report with `feed_add`.
    AddChild,
    /// The call is over and returns this value.
    Done(u64),
}

/// A `clone` in progress.
#[derive(Clone, Copy, Debug)]
pub struct CloneCall {
    pub stage: CloneStage,
    /// The child's process id, once taken.
    pub child_pid: u64,
}

impl CloneCall {
    /// Start a `clone` from the current process; `-ESRCH` when there is
    /// none.
    pub fn start(current: Option<u64>) -> (r: Self)
        ensures
            current is None ==> r.stage == CloneStage::Done(errno_spec(ESRCH)),
            current is Some ==> r.stage == CloneStage::CloneAddressSpace,
            r.child_pid == 0,
    {
        match current {
            None => CloneCall { stage: CloneStage::Done(errno_code(ESRCH)), child_pid: 0 },
            Some(_) => CloneCall { stage: CloneStage::CloneAddressSpace, child_pid: 0 },
        }
    }

    /// The page table was copied (`ok`) or not (`-ENOMEM`).
    pub fn feed_address_space(&mut self, ok: bool)
        requires
            old(self).stage == CloneStage::CloneAddressSpace,
        ensures
            final(self).child_pid == old(self).child_pid,
            ok ==> final(self).stage == CloneStage::AllocateKernelStack,
            !ok ==> final(self).stage == CloneStage::Done(errno_spec(ENOMEM)),
    {
        self.stage = if ok { CloneStage::AllocateKernelStack } else { CloneStage::Done(errno_code(ENOMEM)) };
    }

    /// The kernel stack was allocated (`ok`) or not (`-ENOMEM`).
    pub fn feed_kernel_stack(&mut self, ok: bool)
        requires
            old(self).stage == CloneStage::AllocateKernelStack,
        ensures
            final(self).child_pid == old(self).child_pid,
            ok ==> final(self).stage == CloneStage::AllocatePid,
            !ok ==> final(self).stage == CloneStage::Done(errno_spec(ENOMEM)),
    {
        self.stage = if ok { CloneStage::AllocatePid } else { CloneStage::Done(errno_code(ENOMEM)) };
    }

    /// The child's process id.
    pub fn feed_pid(&mut self, pid: u64)
        requires
            old(self).stage == CloneStage::AllocatePid,
        ensures
            final(self).child_pid == pid,
            final(self).stage == CloneStage::CheckFrameAllocator,
    {
        self.child_pid = pid;
        self.stage = CloneStage::CheckFrameAllocator;
    }

    /// Whether the frame allocator is up.  When it is not, the call fails
    /// with `-ENOMEM` and the returned `true` asks the caller to release
    /// the kernel stack and the copied page table.
    pub fn feed_frame_allocator(&mut self, present: bool) -> (release: bool)
        requires
            old(self).stage == CloneStage::CheckFrameAllocator,
        ensures
            release == !present,
            final(self).child_pid == old(self).child_pid,
            present ==> final(self).stage == CloneStage::AddChild,
            !present ==> final(self).stage == CloneStage::Done(errno_spec(ENOMEM)),
    {
        if present {
            self.stage = CloneStage::AddChild;
            false
        } else {
            self.stage = CloneStage::Done(errno_code(ENOMEM));
            true
        }
    }

    /// The child was added to the process list (`ok`): the call returns
    /// its id; otherwise `-ENOMEM`.
    pub fn feed_add(&mut self, ok: bool)
        requires
            old(self).stage == CloneStage::AddChild,
        ensures
            final(self).child_pid == old(self).child_pid,
            ok ==> final(self).stage == CloneStage::Done(old(self).child_pid),
            !ok ==> final(self).stage == CloneStage::Done(errno_spec(ENOMEM)),
    {
        self.stage = if ok { CloneStage::Done(self.child_pid) } else { CloneStage::Done(errno_code(ENOMEM)) };
    }
}

} // verus!
