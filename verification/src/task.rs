//! Task bookkeeping: thread data, exit codes, `arch_prctl`, waiting for
//! children, `clone`, and the names of executables.
use vstd::prelude::*;
use crate::errno::SysError;

verus! {

/// Data a thread keeps for itself.
#[derive(Debug)]
pub struct ThreadData {
    clear_child_tid: usize,
}

impl ThreadData {
    pub closed spec fn spec_clear_child_tid(&self) -> usize {
        self.clear_child_tid
    }

    /// Thread data with no address to clear at exit.
    pub fn new() -> (d: Self)
        ensures
            d.spec_clear_child_tid() == 0,
    {
        ThreadData { clear_child_tid: 0 }
    }

    /// The address whose word is cleared when the thread exits; 0 for none.
    pub fn clear_child_tid(&self) -> (a: usize)
        ensures
            a == self.spec_clear_child_tid(),
    {
        self.clear_child_tid
    }

    /// Sets the address whose word is cleared when the thread exits.
    pub fn set_clear_child_tid(&mut self, clear_child_tid: usize)
        ensures
            final(self).spec_clear_child_tid() == clear_child_tid,
    {
        self.clear_child_tid = clear_child_tid;
    }
}

/// `set_tid_address`: records `clear_child_tid` and returns the caller's
/// thread id. It always succeeds.
pub fn sys_set_tid_address(data: &mut ThreadData, clear_child_tid: usize, tid: u64) -> (r: isize)
    ensures
        final(data).spec_clear_child_tid() == clear_child_tid,
        r == tid as isize,
{
    data.set_clear_child_tid(clear_child_tid);
    tid as isize
}

/// How a thread leaves: the status it exits with, and whether the whole
/// thread group exits.
#[derive(Debug, Clone, Copy, PartialEq, Eq, Structural)]
pub struct ExitRequest {
    pub exit_code: i32,
    pub group_exit: bool,
}

/// `exit`: the thread exits with `exit_code` in the status's second byte.
pub fn sys_exit(exit_code: i32) -> (r: ExitRequest)
    ensures
        r.exit_code == exit_code << 8u32,
        !r.group_exit,
{
    ExitRequest { exit_code: exit_code << 8u32, group_exit: false }
}

/// `exit_group`: the thread group exits with `exit_code` in the status's
/// second byte.
pub fn sys_exit_group(exit_code: i32) -> (r: ExitRequest)
    ensures
        r.exit_code == exit_code << 8u32,
        r.group_exit,
{
    ExitRequest { exit_code: exit_code << 8u32, group_exit: true }
}

/// What exiting does besides ending the thread.
#[derive(Debug, Clone, Copy, PartialEq, Eq, Structural)]
pub struct ExitPlan {
    /// Clear the word at the thread's clear-child-tid address.
    pub clear_tid: bool,
    /// End the process: the exiting thread was its last.
    pub exit_process: bool,
    /// End the thread group, which has not ended yet.
    pub exit_group: bool,
}

/// What exiting does: the word at the clear-child-tid address is cleared
/// when that address can be written; the process ends with its last thread;
/// and a group exit ends the group unless it has ended already.
pub fn do_exit_plan(req: ExitRequest, clear_tid_writable: bool, last_thread: bool, group_exited: bool) -> (p: ExitPlan)
    ensures
        p.clear_tid == clear_tid_writable,
        p.exit_process == last_thread,
        p.exit_group == (req.group_exit && !group_exited),
{
    ExitPlan { clear_tid: clear_tid_writable, exit_process: last_thread, exit_group: req.group_exit && !group_exited }
}

/// An `arch_prctl` request.
#[derive(Debug, Clone, Copy, PartialEq, Eq, Structural)]
pub enum ArchPrctlCode {
    /// Set the GS segment base.
    SetGs,
    /// Set the FS segment base.
    SetFs,
    /// Get the FS segment base.
    GetFs,
    /// Get the GS segment base.
    GetGs,
    /// Get the setting of the CPUID flag.
    GetCpuid,
    /// Enable or disable the `cpuid` instruction.
    SetCpuid,
}

/// The request that a number names.
pub open spec fn arch_prctl_code_of(code: i32) -> Option<ArchPrctlCode> {
    if code == 0x1001 {
        Some(ArchPrctlCode::SetGs)
    } else if code == 0x1002 {
        Some(ArchPrctlCode::SetFs)
    } else if code == 0x1003 {
        Some(ArchPrctlCode::GetFs)
    } else if code == 0x1004 {
        Some(ArchPrctlCode::GetGs)
    } else if code == 0x1011 {
        Some(ArchPrctlCode::GetCpuid)
    } else if code == 0x1012 {
        Some(ArchPrctlCode::SetCpuid)
    } else {
        None
    }
}

impl ArchPrctlCode {
    /// The request that `code` names; `EINVAL` for any other number.
    pub fn try_from_code(code: i32) -> (r: Result<ArchPrctlCode, SysError>)
        ensures
            r == match arch_prctl_code_of(code) {
                Some(c) => Ok::<ArchPrctlCode, SysError>(c),
                None => Err(SysError::EINVAL),
            },
    {
        if code == 0x1001 {
            Ok(ArchPrctlCode::SetGs)
        } else if code == 0x1002 {
            Ok(ArchPrctlCode::SetFs)
        } else if code == 0x1003 {
            Ok(ArchPrctlCode::GetFs)
        } else if code == 0x1004 {
            Ok(ArchPrctlCode::GetGs)
        } else if code == 0x1011 {
            Ok(ArchPrctlCode::GetCpuid)
        } else if code == 0x1012 {
            Ok(ArchPrctlCode::SetCpuid)
        } else {
            Err(SysError::EINVAL)
        }
    }

    /// The number of this request.
    pub fn code(&self) -> (c: i32)
        ensures
            arch_prctl_code_of(c) == Some(*self),
    {
        match self {
            ArchPrctlCode::SetGs => 0x1001,
            ArchPrctlCode::SetFs => 0x1002,
            ArchPrctlCode::GetFs => 0x1003,
            ArchPrctlCode::GetGs => 0x1004,
            ArchPrctlCode::GetCpuid => 0x1011,
            ArchPrctlCode::SetCpuid => 0x1012,
        }
    }
}

/// `arch_prctl`'s decision: the request to carry out, which then returns 0;
/// `EINVAL` for an unknown code and `ENODEV` for setting the CPUID flag.
pub fn sys_arch_prctl(code: i32) -> (r: Result<ArchPrctlCode, SysError>)
    ensures
        r == match arch_prctl_code_of(code) {
            Some(ArchPrctlCode::SetCpuid) => Err(SysError::ENODEV),
            Some(c) => Ok::<ArchPrctlCode, SysError>(c),
            None => Err(SysError::EINVAL),
        },
{
    let c = ArchPrctlCode::try_from_code(code)?;
    match c {
        ArchPrctlCode::SetCpuid => Err(SysError::ENODEV),
        _ => Ok(c),
    }
}

/// Which children a wait is for.
#[derive(Debug, Clone, Copy, PartialEq, Eq, Structural)]
pub enum WaitPid {
    /// Any child.
    Any,
    /// The child with this process id.
    Pid(i32),
    /// Any child in this process group.
    Pgid(i32),
}

/// What a wait needs to know of a child process.
#[derive(Debug, Clone, Copy, PartialEq, Eq, Structural)]
pub struct ChildInfo {
    pub pid: i32,
    pub pgid: i32,
    pub zombie: bool,
    pub exit_code: i32,
}

/// Whether a wait for `w` is for `child`.
pub open spec fn wait_applies(w: WaitPid, child: ChildInfo) -> bool {
    match w {
        WaitPid::Any => true,
        WaitPid::Pid(pid) => child.pid == pid,
        WaitPid::Pgid(pgid) => child.pgid == pgid,
    }
}

impl WaitPid {
    /// The children that `pid` selects: -1 any child, 0 those in the
    /// caller's own process group, a positive number the child with that
    /// id, and a negative number those in the group with the negated id.
    pub fn from_pid(pid: i32, own_pgid: i32) -> (w: WaitPid)
        requires
            pid != i32::MIN,
        ensures
            w == if pid == -1 {
                WaitPid::Any
            } else if pid == 0 {
                WaitPid::Pgid(own_pgid)
            } else if pid > 0 {
                WaitPid::Pid(pid)
            } else {
                WaitPid::Pgid((-pid) as i32)
            },
    {
        if pid == -1 {
            WaitPid::Any
        } else if pid == 0 {
            WaitPid::Pgid(own_pgid)
        } else if pid > 0 {
            WaitPid::Pid(pid)
        } else {
            WaitPid::Pgid(-pid)
        }
    }

    /// Whether this wait is for `child`.
    pub fn apply(&self, child: &ChildInfo) -> (r: bool)
        ensures
            r == wait_applies(*self, *child),
    {
        match self {
            WaitPid::Any => true,
            WaitPid::Pid(pid) => child.pid == *pid,
            WaitPid::Pgid(pgid) => child.pgid == *pgid,
        }
    }
}

/// Do not block when no child has ended.
pub const WNOHANG: u32 = 1;

/// Report stopped children.
pub const WUNTRACED: u32 = 2;

/// Report children that ended.
pub const WEXITED: u32 = 4;

/// Report children continued from a stop.
pub const WCONTINUED: u32 = 8;

/// Report without reaping.
pub const WNOWAIT: u32 = 0x0100_0000;

/// Do not wait for the children of other threads of the group.
pub const WNOTHREAD: u32 = 0x2000_0000;

/// Wait for all children, whatever their kind.
pub const WALL: u32 = 0x4000_0000;

/// Wait for clone children only.
pub const WCLONE: u32 = 0x8000_0000;

/// Every wait option known.
pub const WAIT_OPTIONS_ALL: u32 = WNOHANG | WUNTRACED | WEXITED | WCONTINUED | WNOWAIT | WNOTHREAD | WALL | WCLONE;

/// The children a wait is for, in the order given.
pub open spec fn selected(w: WaitPid, children: Seq<ChildInfo>) -> Seq<ChildInfo> {
    children.filter(|c: ChildInfo| wait_applies(w, c))
}

/// The children that a wait is for; `ECHILD` when there is none.
pub fn select_children(w: WaitPid, children: &Vec<ChildInfo>) -> (r: Result<Vec<ChildInfo>, SysError>)
    ensures
        selected(w, children@).len() == 0 ==> r == Err::<Vec<ChildInfo>, SysError>(SysError::ECHILD),
        selected(w, children@).len() > 0 ==> r is Ok && r->Ok_0@ == selected(w, children@),
{
    let mut out: Vec<ChildInfo> = Vec::new();
    let mut i: usize = 0;
    while i < children.len()
        invariant
            i <= children@.len(),
            out@ == children@.take(i as int).filter(|c: ChildInfo| wait_applies(w, c)),
        decreases children@.len() - i,
    {
        let c = children[i];
        let ghost prev = children@.take(i as int);
        proof {
            prev.lemma_filter_push(c, |c: ChildInfo| wait_applies(w, c));
            assert(children@.take(i + 1) =~= prev.push(c));
        }
        if w.apply(&c) {
            out.push(c);
        }
        i = i + 1;
    }
    assert(children@.take(children@.len() as int) =~= children@);
    if out.len() == 0 {
        return Err(SysError::ECHILD);
    }
    Ok(out)
}

/// One look at the children a wait is for.
#[derive(Debug, Clone, Copy, PartialEq, Eq, Structural)]
pub enum WaitStep {
    /// Report this child, which has ended; reap it if `free`.
    Reap { index: usize, pid: i32, exit_code: i32, free: bool },
    /// No child has ended, and the wait does not block: report 0.
    NoneReady,
    /// No child has ended: yield and look again.
    Block,
}

/// Whether no child before `n` has ended.
pub open spec fn none_ended_before(children: Seq<ChildInfo>, n: int) -> bool {
    forall|k: int| 0 <= k < n ==> !(#[trigger] children[k]).zombie
}

/// `wait4`'s look at the children it waits for: the first that has ended
/// is reported, and reaped unless `WNOWAIT` is given; when none has ended,
/// `WNOHANG` makes the wait report 0, and otherwise it blocks.
pub fn waitpid_step(children: &Vec<ChildInfo>, options: u32) -> (s: WaitStep)
    ensures
        match s {
            WaitStep::Reap { index, pid, exit_code, free } => {
                &&& index < children@.len()
                &&& children@[index as int].zombie
                &&& none_ended_before(children@, index as int)
                &&& pid == children@[index as int].pid
                &&& exit_code == children@[index as int].exit_code
                &&& free == (options & WAIT_OPTIONS_ALL & WNOWAIT == 0)
            },
            WaitStep::NoneReady => none_ended_before(children@, children@.len() as int) && options
                & WAIT_OPTIONS_ALL & WNOHANG != 0,
            WaitStep::Block => none_ended_before(children@, children@.len() as int) && options & WAIT_OPTIONS_ALL
                & WNOHANG == 0,
        },
{
    let opts = options & WAIT_OPTIONS_ALL;
    let mut i: usize = 0;
    while i < children.len()
        invariant
            i <= children@.len(),
            opts == options & WAIT_OPTIONS_ALL,
            none_ended_before(children@, i as int),
        decreases children@.len() - i,
    {
        if children[i].zombie {
            return WaitStep::Reap {
                index: i,
                pid: children[i].pid,
                exit_code: children[i].exit_code,
                free: opts & WNOWAIT == 0,
            };
        }
        i = i + 1;
    }
    if opts & WNOHANG != 0 {
        WaitStep::NoneReady
    } else {
        WaitStep::Block
    }
}

/// What looking for an ended child found.
#[derive(Debug, Clone, Copy, PartialEq, Eq, Structural)]
pub enum WaitStatus {
    /// The child has ended.
    Exited,
    /// The child is running.
    Running,
    /// There is no such child.
    NotExist,
}

/// The options `wait4` accepts besides `WNOHANG`.
pub const WAIT_FLAGS_ALL: u32 = 1 | (1 << 1) | (1 << 3) | (1 << 30) | (1 << 31);

/// `wait4`'s decision once it has looked for the child: the id of an ended
/// child; `ECHILD` when there is no such child; for a running child 0 under
/// `WNOHANG`, and another look otherwise (`None`).
pub fn wait4_step(option: u32, answer: Result<i32, WaitStatus>) -> (r: Option<Result<isize, SysError>>)
    requires
        option & !WAIT_FLAGS_ALL == 0,
        answer != Err::<i32, WaitStatus>(WaitStatus::Exited),
    ensures
        r == match answer {
            Ok(pid) => Some(Ok::<isize, SysError>(pid as isize)),
            Err(WaitStatus::NotExist) => Some(Err(SysError::ECHILD)),
            _ => if option & WNOHANG != 0 { Some(Ok(0)) } else { None },
        },
{
    match answer {
        Ok(pid) => Some(Ok(pid as isize)),
        Err(WaitStatus::NotExist) => Some(Err(SysError::ECHILD)),
        _ => {
            if option & WNOHANG != 0 {
                Some(Ok(0))
            } else {
                None
            }
        },
    }
}

/// `clone`'s stack: none when the user stack is 0.
pub fn clone_stack(user_stack: usize) -> (s: Option<usize>)
    ensures
        s == if user_stack == 0 { None } else { Some(user_stack) },
{
    if user_stack == 0 {
        None
    } else {
        Some(user_stack)
    }
}

/// What `clone` reports: the new task's id, or `ENOMEM` when it could not be
/// made.
pub fn clone_result(new_task: Option<u64>) -> (r: Result<isize, SysError>)
    ensures
        r == match new_task {
            Some(id) => Ok::<isize, SysError>(id as isize),
            None => Err(SysError::ENOMEM),
        },
{
    match new_task {
        Some(id) => Ok(id as isize),
        None => Err(SysError::ENOMEM),
    }
}

/// The byte `/`.
pub const SLASH: u8 = 0x2f;

/// The index of the last `b` in `s`, or -1 when there is none.
pub open spec fn last_index_of(s: Seq<u8>, b: u8) -> int
    decreases s.len(),
{
    if s.len() == 0 {
        -1
    } else if s.last() == b {
        s.len() - 1
    } else {
        last_index_of(s.drop_last(), b)
    }
}

proof fn lemma_last_index_of(s: Seq<u8>, b: u8)
    ensures
        -1 <= last_index_of(s, b) < s.len(),
        last_index_of(s, b) >= 0 ==> s[last_index_of(s, b)] == b,
        forall|k: int| last_index_of(s, b) < k < s.len() ==> s[k] != b,
    decreases s.len(),
{
    if s.len() > 0 && s.last() != b {
        lemma_last_index_of(s.drop_last(), b);
        assert forall|k: int| last_index_of(s, b) < k < s.len() implies s[k] != b by {
            if k < s.len() - 1 {
                assert(s.drop_last()[k] == s[k]);
            }
        }
    }
}

/// The index of the last `/` in `path`, if any.
fn last_slash(path: &[u8]) -> (r: Option<usize>)
    ensures
        r == if last_index_of(path@, SLASH) >= 0 {
            Some(last_index_of(path@, SLASH) as usize)
        } else {
            None::<usize>
        },
{
    let mut i: usize = path.len();
    assert(path@.take(i as int) =~= path@);
    while i > 0
        invariant
            i <= path@.len(),
            last_index_of(path@.take(i as int), SLASH) == last_index_of(path@, SLASH),
        decreases i,
    {
        let ghost cur = path@.take(i as int);
        assert(cur.drop_last() =~= path@.take(i - 1));
        if path[i - 1] == SLASH {
            return Some(i - 1);
        }
        i = i - 1;
    }
    None
}

/// The bytes of `s` from `start` to `end`.
fn copy_range(s: &[u8], start: usize, end: usize) -> (v: Vec<u8>)
    requires
        start <= end <= s@.len(),
    ensures
        v@ == s@.subrange(start as int, end as int),
{
    let mut v: Vec<u8> = Vec::new();
    let mut i: usize = start;
    while i < end
        invariant
            start <= i <= end,
            end <= s@.len(),
            v@ == s@.subrange(start as int, i as int),
        decreases end - i,
    {
        v.push(s[i]);
        i = i + 1;
        assert(v@ =~= s@.subrange(start as int, i as int));
    }
    v
}

/// The name an executable runs under: its path after the last `/`, or the
/// whole path when it has none.
pub fn exe_name(path: &[u8]) -> (name: Vec<u8>)
    ensures
        name@ == if last_index_of(path@, SLASH) >= 0 {
            path@.subrange(last_index_of(path@, SLASH) + 1, path@.len() as int)
        } else {
            path@
        },
{
    proof { lemma_last_index_of(path@, SLASH); }
    let n = path.len();
    match last_slash(path) {
        Some(i) => copy_range(path, i + 1, n),
        None => {
            let v = copy_range(path, 0, path.len());
            assert(path@.subrange(0, path@.len() as int) =~= path@);
            v
        },
    }
}

/// An executable's path split at its last `/` into directory and name; a
/// path with no `/` is a name in the directory "".
pub fn split_exe_path(path: &[u8]) -> (r: (Vec<u8>, Vec<u8>))
    ensures
        last_index_of(path@, SLASH) >= 0 ==> r.0@ == path@.take(last_index_of(path@, SLASH)) && r.1@
            == path@.subrange(last_index_of(path@, SLASH) + 1, path@.len() as int),
        last_index_of(path@, SLASH) < 0 ==> r.0@ == Seq::<u8>::empty() && r.1@ == path@,
{
    proof { lemma_last_index_of(path@, SLASH); }
    let n = path.len();
    match last_slash(path) {
        Some(i) => (copy_range(path, 0, i), copy_range(path, i + 1, n)),
        None => {
            let v = copy_range(path, 0, path.len());
            assert(path@.subrange(0, path@.len() as int) =~= path@);
            (Vec::new(), v)
        },
    }
}

/// `execve` runs only in a process with one thread: `EAGAIN` otherwise.
pub fn execve_thread_check(thread_count: usize) -> (r: Result<(), SysError>)
    ensures
        r == if thread_count > 1 { Err(SysError::EAGAIN) } else { Ok::<(), SysError>(()) },
{
    if thread_count > 1 {
        Err(SysError::EAGAIN)
    } else {
        Ok(())
    }
}

} // verus!

verus! {

/// Which tables a new thread's relatives are added to.
#[derive(Debug, Clone, Copy, PartialEq, Eq, Structural)]
pub struct TableInserts {
    pub process: bool,
    pub group: bool,
    pub session: bool,
}

/// Which tables a new thread's relatives enter, given which of them are
/// known already.
pub open spec fn thread_plan(process_known: bool, group_known: bool, session_known: bool) -> TableInserts {
    TableInserts {
        process: !process_known,
        group: !process_known && !group_known,
        session: !process_known && !group_known && !session_known,
    }
}

/// A new thread always enters the thread table. Its process enters the
/// process table unless it is there already, in which case nothing more is
/// added; likewise its process group, and then its session.
pub fn add_thread_plan(process_known: bool, group_known: bool, session_known: bool) -> (p: TableInserts)
    ensures
        p == thread_plan(process_known, group_known, session_known),
{
    if process_known {
        return TableInserts { process: false, group: false, session: false };
    }
    if group_known {
        return TableInserts { process: true, group: false, session: false };
    }
    if session_known {
        return TableInserts { process: true, group: true, session: false };
    }
    TableInserts { process: true, group: true, session: true }
}

} // verus!

verus! {

/// Whether the process, group and session tables hang together: each
/// process in the table has its group there, and each group its session.
pub open spec fn tables_consistent(
    processes: Set<i32>,
    groups: Set<i32>,
    sessions: Set<i32>,
    group_of: spec_fn(i32) -> i32,
    session_of: spec_fn(i32) -> i32,
) -> bool {
    &&& forall|p: i32| #[trigger] processes.contains(p) ==> groups.contains(group_of(p))
    &&& forall|g: i32| #[trigger] groups.contains(g) ==> sessions.contains(session_of(g))
}

/// `s`, with `x` added when `add` holds.
pub open spec fn insert_if(s: Set<i32>, add: bool, x: i32) -> Set<i32> {
    if add {
        s.insert(x)
    } else {
        s
    }
}

/// Adding a thread as the plan says, to tables that hang together, leaves
/// its process, the process's group and the group's session each in its
/// table, adds nothing else, and leaves the tables hanging together.
pub proof fn lemma_add_thread_keeps_tables(
    processes: Set<i32>,
    groups: Set<i32>,
    sessions: Set<i32>,
    group_of: spec_fn(i32) -> i32,
    session_of: spec_fn(i32) -> i32,
    pid: i32,
)
    requires
        tables_consistent(processes, groups, sessions, group_of, session_of),
    ensures
        ({
            let pgid = group_of(pid);
            let sid = session_of(pgid);
            let plan = thread_plan(processes.contains(pid), groups.contains(pgid), sessions.contains(sid));
            let processes2 = insert_if(processes, plan.process, pid);
            let groups2 = insert_if(groups, plan.group, pgid);
            let sessions2 = insert_if(sessions, plan.session, sid);
            &&& processes2.contains(pid)
            &&& groups2.contains(pgid)
            &&& sessions2.contains(sid)
            &&& processes2 == processes.insert(pid)
            &&& groups2 == groups.insert(pgid)
            &&& sessions2 == sessions.insert(sid)
            &&& tables_consistent(processes2, groups2, sessions2, group_of, session_of)
        }),
{
    let pgid = group_of(pid);
    let sid = session_of(pgid);
    if processes.contains(pid) {
        assert(groups.contains(pgid));
        assert(sessions.contains(sid));
    } else if groups.contains(pgid) {
        assert(sessions.contains(sid));
    }
    assert(processes.contains(pid) ==> processes.insert(pid) =~= processes);
    assert(groups.contains(pgid) ==> groups.insert(pgid) =~= groups);
    assert(sessions.contains(sid) ==> sessions.insert(sid) =~= sessions);
}

} // verus!

verus! {

/// Which children a wait is for depends on their ids alone, never on whether
/// they have ended: a wait for any child is for every child, so it selects
/// all of them and fails with `ECHILD` only when there are none; a wait for
/// a process id is for exactly the child with that id, and a wait for a
/// group for exactly the children in it.
pub proof fn lemma_wait_selects_by_id(children: Seq<ChildInfo>, c: ChildInfo, id: i32)
    ensures
        wait_applies(WaitPid::Any, c),
        wait_applies(WaitPid::Pid(id), c) <==> c.pid == id,
        wait_applies(WaitPid::Pgid(id), c) <==> c.pgid == id,
        wait_applies(WaitPid::Any, c) == wait_applies(WaitPid::Any, ChildInfo { zombie: !c.zombie, ..c }),
        selected(WaitPid::Any, children) == children,
        selected(WaitPid::Any, children).len() == 0 <==> children.len() == 0,
    decreases children.len(),
{
    broadcast use Seq::lemma_filter_push;

    if children.len() == 0 {
        reveal(Seq::filter);
        assert(selected(WaitPid::Any, children) =~= children);
    } else {
        let init = children.drop_last();
        lemma_wait_selects_by_id(init, c, id);
        assert(children =~= init.push(children.last()));
        assert(wait_applies(WaitPid::Any, children.last()));
    }
}

} // verus!
