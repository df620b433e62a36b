use vstd::prelude::*;
use vstd::pervasive::VecAdditionalExecFns;
use crate::errno::LinuxError;
use crate::manager::{
    ProcessSignalManager, ThreadSignalManager, spec_signal_sent, spec_thread_signal_sent,
};
use crate::signal::{MAX_SIGNO, SignalInfo};

verus! {

/// Delivery code: the signal was raised by an ordinary user `kill`-style
/// call.
pub const SI_USER: u32 = 0;

/// Delivery code: the signal was raised by a `tkill`/`tgkill`-style call.
pub const SI_TKILL: u32 = 0xfffffffa;

/// One process as the signal layer sees it: its identity, its group, whether
/// it is the root/init process, and its process-wide signal state.
pub struct Process {
    /// Process identifier.
    pub pid: u32,
    /// Identifier of the process group this process belongs to.
    pub pgid: u32,
    /// Whether this is the system's root/init process.
    pub is_init: bool,
    /// The process-wide signal manager.
    pub signal: ProcessSignalManager,
}

impl Process {
    /// Creates a process entry with a fresh signal manager.
    pub fn new(pid: u32, pgid: u32, is_init: bool) -> (r: Process)
        ensures
            r.pid == pid && r.pgid == pgid && r.is_init == is_init,
            r.signal.wf(),
            forall|n: u32| 1 <= n <= MAX_SIGNO ==> !r.signal.pending.set.spec_has(n),
    {
        Process { pid, pgid, is_init, signal: ProcessSignalManager::new() }
    }
}

/// One thread as the signal layer sees it: its identity, the process it
/// belongs to, and its thread-local signal state.
pub struct Thread {
    /// Thread identifier.
    pub tid: u32,
    /// Identifier of the owning process.
    pub pid: u32,
    /// The thread-level signal manager.
    pub signal: ThreadSignalManager,
}

impl Thread {
    /// Creates a thread entry with a fresh signal manager.
    pub fn new(tid: u32, pid: u32) -> (r: Thread)
        ensures
            r.tid == tid && r.pid == pid,
            r.signal.wf(),
            forall|n: u32| 1 <= n <= MAX_SIGNO ==> !r.signal.pending.set.spec_has(n),
    {
        Thread { tid, pid, signal: ThreadSignalManager::new() }
    }
}

/// The set of live processes, looked up by identifier and enumerated by
/// `kill`-style fan-out.
pub struct ProcessTable {
    /// The live processes, in no particular order.
    pub procs: Vec<Process>,
}

/// The set of live threads, looked up by identifier.
pub struct ThreadTable {
    /// The live threads, in no particular order.
    pub threads: Vec<Thread>,
}

impl ProcessTable {
    /// Identifiers are unique and every signal manager is well formed.
    pub open spec fn wf(self) -> bool {
        &&& forall|i: int, j: int|
            0 <= i < j < self.procs@.len() ==> self.procs@[i].pid != self.procs@[j].pid
        &&& forall|i: int| 0 <= i < self.procs@.len() ==> (#[trigger] self.procs@[i]).signal.wf()
    }

    /// Creates an empty table.
    pub fn new() -> (r: ProcessTable)
        ensures
            r.wf(),
            r.procs@.len() == 0,
    {
        ProcessTable { procs: Vec::new() }
    }

    /// Registers a process; rejected when its identifier is already taken.
    pub fn register(&mut self, proc: Process) -> (r: Result<(), LinuxError>)
        requires
            old(self).wf(),
            proc.signal.wf(),
        ensures
            final(self).wf(),
            match r {
                Ok(()) => final(self).procs@ == old(self).procs@.push(proc) && (forall|i: int|
                    0 <= i < old(self).procs@.len() ==> old(self).procs@[i].pid != proc.pid),
                Err(e) => e == LinuxError::EEXIST && *final(self) == *old(self) && (exists|i: int|
                    0 <= i < old(self).procs@.len() && old(self).procs@[i].pid == proc.pid),
            },
    {
        let n = self.procs.len();
        let mut i: usize = 0;
        while i < n
            invariant
                old(self).wf(),
                *self == *old(self),
                i <= n,
                n == self.procs@.len(),
                forall|j: int| 0 <= j < i ==> self.procs@[j].pid != proc.pid,
            decreases n - i,
        {
            if self.procs[i].pid == proc.pid {
                return Err(LinuxError::EEXIST);
            }
            i += 1;
        }
        self.procs.push(proc);
        Ok(())
    }
}

impl ThreadTable {
    /// Identifiers are unique and every signal manager is well formed.
    pub open spec fn wf(self) -> bool {
        &&& forall|i: int, j: int|
            0 <= i < j < self.threads@.len() ==> self.threads@[i].tid != self.threads@[j].tid
        &&& forall|i: int|
            0 <= i < self.threads@.len() ==> (#[trigger] self.threads@[i]).signal.wf()
    }

    /// Creates an empty table.
    pub fn new() -> (r: ThreadTable)
        ensures
            r.wf(),
            r.threads@.len() == 0,
    {
        ThreadTable { threads: Vec::new() }
    }

    /// Registers a thread; rejected when its identifier is already taken.
    pub fn register(&mut self, thread: Thread) -> (r: Result<(), LinuxError>)
        requires
            old(self).wf(),
            thread.signal.wf(),
        ensures
            final(self).wf(),
            match r {
                Ok(()) => final(self).threads@ == old(self).threads@.push(thread) && (forall|
                    i: int,
                |
                    0 <= i < old(self).threads@.len() ==> old(self).threads@[i].tid
                        != thread.tid),
                Err(e) => e == LinuxError::EEXIST && *final(self) == *old(self) && (exists|i: int|
                    0 <= i < old(self).threads@.len() && old(self).threads@[i].tid == thread.tid),
            },
    {
        let n = self.threads.len();
        let mut i: usize = 0;
        while i < n
            invariant
                old(self).wf(),
                *self == *old(self),
                i <= n,
                n == self.threads@.len(),
                forall|j: int| 0 <= j < i ==> self.threads@[j].tid != thread.tid,
            decreases n - i,
        {
            if self.threads[i].tid == thread.tid {
                return Err(LinuxError::EEXIST);
            }
            i += 1;
        }
        self.threads.push(thread);
        Ok(())
    }
}

/// Sends a signal to one thread: recorded in its thread-local pending set,
/// one waiter on its wait queue woken.
pub fn send_signal_thread(thread: &mut Thread, sig: SignalInfo)
    requires
        old(thread).signal.wf(),
        1 <= sig.signo <= MAX_SIGNO,
    ensures
        final(thread).signal.wf(),
        final(thread).tid == old(thread).tid,
        final(thread).pid == old(thread).pid,
        spec_thread_signal_sent(old(thread).signal, final(thread).signal, sig),
{
    thread.signal.send_signal(sig);
}

/// Sends a signal to one process: recorded in its process-wide pending set,
/// one waiter on its wait queue woken.
pub fn send_signal_process(proc: &mut Process, sig: SignalInfo)
    requires
        old(proc).signal.wf(),
        1 <= sig.signo <= MAX_SIGNO,
    ensures
        final(proc).signal.wf(),
        final(proc).pid == old(proc).pid,
        final(proc).pgid == old(proc).pgid,
        final(proc).is_init == old(proc).is_init,
        spec_signal_sent(old(proc).signal, final(proc).signal, sig),
{
    proc.signal.send_signal(sig);
}

/// Which processes a `kill`-style call with target `pid` reaches: a positive
/// target names one process, zero the caller's own group, `-1` every process
/// but root/init, and anything below `-1` the group named by its negation.
pub open spec fn spec_kill_targets(p: Process, pid: i32, caller_pgid: u32) -> bool {
    if pid >= 1 {
        p.pid == pid as u32
    } else if pid == 0 {
        p.pgid == caller_pgid
    } else if pid == -1 {
        !p.is_init
    } else {
        p.pgid == (-(pid as int)) as u32
    }
}

/// How many of the processes in `s` a `kill` with target `pid` reaches.
pub open spec fn spec_count_targets(s: Seq<Process>, pid: i32, caller_pgid: u32) -> int
    decreases s.len(),
{
    if s.len() == 0 {
        0
    } else {
        spec_count_targets(s.drop_last(), pid, caller_pgid) + if spec_kill_targets(
            s.last(),
            pid,
            caller_pgid,
        ) {
            1int
        } else {
            0int
        }
    }
}

/// The count never exceeds the number of processes.
proof fn lemma_count_le_len(s: Seq<Process>, pid: i32, caller_pgid: u32)
    ensures
        0 <= spec_count_targets(s, pid, caller_pgid) <= s.len(),
    decreases s.len(),
{
    if s.len() > 0 {
        lemma_count_le_len(s.drop_last(), pid, caller_pgid);
    }
}

/// When no process is a target, the count is zero, and the other way round.
proof fn lemma_count_zero(s: Seq<Process>, pid: i32, caller_pgid: u32)
    ensures
        (spec_count_targets(s, pid, caller_pgid) == 0) <==> (forall|i: int|
            0 <= i < s.len() ==> !spec_kill_targets(s[i], pid, caller_pgid)),
    decreases s.len(),
{
    lemma_count_le_len(s, pid, caller_pgid);
    if s.len() > 0 {
        lemma_count_zero(s.drop_last(), pid, caller_pgid);
        lemma_count_le_len(s.drop_last(), pid, caller_pgid);
        assert(forall|i: int| 0 <= i < s.len() - 1 ==> s.drop_last()[i] == s[i]);
    }
}

/// With unique identifiers and a positive target, at most one process is
/// reached.
proof fn lemma_count_unique_pid(s: Seq<Process>, pid: i32, caller_pgid: u32)
    requires
        pid >= 1,
        forall|i: int, j: int| 0 <= i < j < s.len() ==> s[i].pid != s[j].pid,
    ensures
        spec_count_targets(s, pid, caller_pgid) <= 1,
    decreases s.len(),
{
    if s.len() > 0 {
        lemma_count_unique_pid(s.drop_last(), pid, caller_pgid);
        if spec_kill_targets(s.last(), pid, caller_pgid) {
            assert forall|i: int| 0 <= i < s.len() - 1 implies !spec_kill_targets(
                #[trigger] s.drop_last()[i],
                pid,
                caller_pgid,
            ) by {
                assert(s[i].pid != s[s.len() - 1].pid);
            }
            lemma_count_zero(s.drop_last(), pid, caller_pgid);
        }
    }
}

/// Builds the record a `kill`-class entry point queues: `None` for the null
/// signal (a permission probe that delivers nothing), an error for a number
/// out of range.
pub fn make_siginfo(signo: i32, code: u32) -> (r: Result<Option<SignalInfo>, LinuxError>)
    ensures
        match r {
            Ok(opt) => match opt {
                Some(sig) => 1 <= signo < MAX_SIGNO && sig.signo == signo as u32 && sig.code
                    == code,
                None => signo == 0,
            },
            Err(e) => e == LinuxError::EINVAL && signo != 0 && !(1 <= signo < MAX_SIGNO),
        },
{
    if signo == 0 {
        return Ok(None);
    }
    if signo < 1 || signo >= 64 {
        return Err(LinuxError::EINVAL);
    }
    Ok(Some(SignalInfo::new(signo as u32, code)))
}

/// Sends `sig` to every process that `pid` targets, returning how many were
/// reached.
fn fan_out_signal(table: &mut ProcessTable, pid: i32, caller_pgid: u32, sig: SignalInfo) -> (cnt:
    usize)
    requires
        old(table).wf(),
        1 <= sig.signo <= MAX_SIGNO,
    ensures
        final(table).wf(),
        final(table).procs@.len() == old(table).procs@.len(),
        cnt == spec_count_targets(old(table).procs@, pid, caller_pgid),
        cnt == 0 ==> *final(table) == *old(table),
        forall|i: int|
            0 <= i < old(table).procs@.len() && spec_kill_targets(
                #[trigger] old(table).procs@[i],
                pid,
                caller_pgid,
            ) ==> {
                &&& final(table).procs@[i].pid == old(table).procs@[i].pid
                &&& final(table).procs@[i].pgid == old(table).procs@[i].pgid
                &&& final(table).procs@[i].is_init == old(table).procs@[i].is_init
                &&& spec_signal_sent(
                    old(table).procs@[i].signal,
                    final(table).procs@[i].signal,
                    sig,
                )
            },
        forall|i: int|
            0 <= i < old(table).procs@.len() && !spec_kill_targets(
                #[trigger] old(table).procs@[i],
                pid,
                caller_pgid,
            ) ==> final(table).procs@[i] == old(table).procs@[i],
{
    let n = table.procs.len();
    let mut cnt: usize = 0;
    let mut i: usize = 0;
    proof {
        assert(old(table).procs@.take(0) =~= Seq::<Process>::empty());
    }
    while i < n
        invariant
            old(table).wf(),
            i <= n,
            n == table.procs@.len(),
            n == old(table).procs@.len(),
            1 <= sig.signo <= MAX_SIGNO,
            cnt <= i,
            cnt == spec_count_targets(old(table).procs@.take(i as int), pid, caller_pgid),
            cnt == 0 ==> *table == *old(table),
            forall|j: int| i <= j < n ==> table.procs@[j] == old(table).procs@[j],
            forall|j: int|
                0 <= j < i && spec_kill_targets(
                    #[trigger] old(table).procs@[j],
                    pid,
                    caller_pgid,
                ) ==> {
                    &&& table.procs@[j].pid == old(table).procs@[j].pid
                    &&& table.procs@[j].pgid == old(table).procs@[j].pgid
                    &&& table.procs@[j].is_init == old(table).procs@[j].is_init
                    &&& spec_signal_sent(
                        old(table).procs@[j].signal,
                        table.procs@[j].signal,
                        sig,
                    )
                },
            forall|j: int|
                0 <= j < i && !spec_kill_targets(
                    #[trigger] old(table).procs@[j],
                    pid,
                    caller_pgid,
                ) ==> table.procs@[j] == old(table).procs@[j],
            forall|j: int| 0 <= j < n ==> (#[trigger] table.procs@[j]).pid == old(table).procs@[j].pid && table.procs@[j].signal.wf(),
        decreases n - i,
    {
        let p = &table.procs[i];
        let targeted = if pid >= 1 {
            p.pid == pid as u32
        } else if pid == 0 {
            p.pgid == caller_pgid
        } else if pid == -1 {
            !p.is_init
        } else {
            let group = (-(pid as i64)) as u64;
            p.pgid as u64 == group
        };
        if targeted {
            let mut taken = Process::new(0, 0, false);
            table.procs.set_and_swap(i, &mut taken);
            taken.signal.send_signal(sig);
            table.procs.set_and_swap(i, &mut taken);
            cnt += 1;
        }
        proof {
            assert(old(table).procs@.take(i + 1).drop_last() =~= old(table).procs@.take(i as int));
            assert(old(table).procs@.take(i + 1).last() == old(table).procs@[i as int]);
        }
        i += 1;
    }
    proof {
        assert(old(table).procs@.take(n as int) =~= old(table).procs@);
    }
    cnt
}

/// The `kill`-class entry point, keyed by a signed target identifier:
/// positive targets one process by identity, zero the caller's own process
/// group, `-1` every process except root/init, and values below `-1` the
/// process group identified by the negated value. Returns how many processes
/// were signaled; the null signal probes without delivering.
pub fn sys_kill(table: &mut ProcessTable, caller_pgid: u32, pid: i32, signo: i32) -> (r: Result<
    isize,
    LinuxError,
>)
    requires
        old(table).wf(),
        old(table).procs@.len() <= 0x7fffffff,
    ensures
        final(table).wf(),
        match r {
            Ok(cnt) => {
                if signo == 0 {
                    cnt == 0 && *final(table) == *old(table)
                } else {
                    &&& 1 <= signo < MAX_SIGNO
                    &&& final(table).procs@.len() == old(table).procs@.len()
                    &&& cnt == spec_count_targets(old(table).procs@, pid, caller_pgid)
                    &&& (pid >= 1 ==> cnt == 1)
                    &&& forall|i: int|
                        0 <= i < old(table).procs@.len() && spec_kill_targets(
                            #[trigger] old(table).procs@[i],
                            pid,
                            caller_pgid,
                        ) ==> spec_signal_sent(
                            old(table).procs@[i].signal,
                            final(table).procs@[i].signal,
                            (SignalInfo { signo: signo as u32, code: SI_USER }),
                        )
                    &&& forall|i: int|
                        0 <= i < old(table).procs@.len() && !spec_kill_targets(
                            #[trigger] old(table).procs@[i],
                            pid,
                            caller_pgid,
                        ) ==> final(table).procs@[i] == old(table).procs@[i]
                }
            },
            Err(e) => {
                &&& *final(table) == *old(table)
                &&& if e == LinuxError::EINVAL {
                    signo != 0 && !(1 <= signo < MAX_SIGNO)
                } else {
                    e == LinuxError::ESRCH && (pid >= 1 || pid < -1) && (forall|i: int|
                        0 <= i < old(table).procs@.len() ==> !spec_kill_targets(
                            #[trigger] old(table).procs@[i],
                            pid,
                            caller_pgid,
                        ))
                }
            },
        },
{
    let sig = match make_siginfo(signo, SI_USER)? {
        Some(sig) => sig,
        None => {
            return Ok(0);
        },
    };
    let ghost pre = *table;
    let cnt = fan_out_signal(table, pid, caller_pgid, sig);
    if (pid >= 1 || pid < -1) && cnt == 0 {
        proof {
            lemma_count_zero(pre.procs@, pid, caller_pgid);
        }
        return Err(LinuxError::ESRCH);
    }
    proof {
        if pid >= 1 {
            lemma_count_unique_pid(pre.procs@, pid, caller_pgid);
        }
        lemma_count_le_len(pre.procs@, pid, caller_pgid);
    }
    Ok(cnt as isize)
}

/// Sends a signal to every process of the group `pgid`, returning how many
/// processes were signaled.
pub fn send_signal_process_group(table: &mut ProcessTable, pgid: u32, sig: SignalInfo) -> (cnt:
    usize)
    requires
        old(table).wf(),
        1 <= sig.signo <= MAX_SIGNO,
    ensures
        final(table).wf(),
        final(table).procs@.len() == old(table).procs@.len(),
        cnt == spec_count_targets(old(table).procs@, 0, pgid),
        forall|i: int|
            0 <= i < old(table).procs@.len() && old(table).procs@[i].pgid == pgid
                ==> spec_signal_sent(
                (#[trigger] old(table).procs@[i]).signal,
                final(table).procs@[i].signal,
                sig,
            ),
        forall|i: int|
            0 <= i < old(table).procs@.len() && old(table).procs@[i].pgid != pgid ==> final(table).procs@[i] == (#[trigger] old(table).procs@[i]),
{
    fan_out_signal(table, 0, pgid, sig)
}

/// Sends a signal to the thread named `tid`.
pub fn sys_tkill(table: &mut ThreadTable, tid: i32, signo: i32) -> (r: Result<isize, LinuxError>)
    requires
        old(table).wf(),
    ensures
        final(table).wf(),
        final(table).threads@.len() == old(table).threads@.len(),
        match r {
            Ok(cnt) => {
                if signo == 0 {
                    cnt == 0 && *final(table) == *old(table)
                } else {
                    &&& 1 <= signo < MAX_SIGNO
                    &&& cnt == 0
                    &&& exists|i: int|
                        0 <= i < old(table).threads@.len() && (#[trigger] old(table).threads@[i]).tid == tid as u32 && spec_thread_signal_sent(
                            old(table).threads@[i].signal,
                            final(table).threads@[i].signal,
                            (SignalInfo { signo: signo as u32, code: SI_USER }),
                        ) && (forall|j: int|
                            0 <= j < old(table).threads@.len() && j != i ==> final(table).threads@[j] == old(table).threads@[j])
                }
            },
            Err(e) => {
                &&& *final(table) == *old(table)
                &&& if e == LinuxError::EINVAL {
                    signo != 0 && !(1 <= signo < MAX_SIGNO)
                } else {
                    e == LinuxError::ESRCH && (forall|i: int|
                        0 <= i < old(table).threads@.len() ==> (#[trigger] old(table).threads@[i]).tid != tid as u32)
                }
            },
        },
{
    let sig = match make_siginfo(signo, SI_USER)? {
        Some(sig) => sig,
        None => {
            return Ok(0);
        },
    };
    let n = table.threads.len();
    let mut i: usize = 0;
    while i < n
        invariant
            old(table).wf(),
            *table == *old(table),
            i <= n,
            n == table.threads@.len(),
            1 <= signo < 64,
            sig.signo == signo as u32,
            sig.code == SI_USER,
            forall|j: int| 0 <= j < i ==> (#[trigger] table.threads@[j]).tid != tid as u32,
        decreases n - i,
    {
        if table.threads[i].tid == tid as u32 {
            let mut taken = Thread::new(0, 0);
            table.threads.set_and_swap(i, &mut taken);
            taken.signal.send_signal(sig);
            table.threads.set_and_swap(i, &mut taken);
            proof {
                let w = i as int;
                assert(sig == (SignalInfo { signo: signo as u32, code: SI_USER }));
                assert(old(table).threads@[w].tid == tid as u32);
                assert(spec_thread_signal_sent(
                    old(table).threads@[w].signal,
                    table.threads@[w].signal,
                    sig,
                ));
                assert(forall|j: int|
                    0 <= j < old(table).threads@.len() && j != w ==> table.threads@[j] == old(
                        table,
                    ).threads@[j]);
            }
            return Ok(0);
        }
        i += 1;
    }
    Err(LinuxError::ESRCH)
}

/// Sends a signal to the thread named `tid`, checking that it belongs to the
/// thread group (process) named `tgid`.
pub fn sys_tgkill(table: &mut ThreadTable, tgid: i32, tid: i32, signo: i32) -> (r: Result<
    isize,
    LinuxError,
>)
    requires
        old(table).wf(),
    ensures
        final(table).wf(),
        final(table).threads@.len() == old(table).threads@.len(),
        match r {
            Ok(cnt) => {
                if signo == 0 {
                    cnt == 0 && *final(table) == *old(table)
                } else {
                    &&& 1 <= signo < MAX_SIGNO
                    &&& cnt == 0
                    &&& exists|i: int|
                        0 <= i < old(table).threads@.len() && (#[trigger] old(table).threads@[i]).tid == tid as u32 && old(table).threads@[i].pid == tgid
                            as u32 && spec_thread_signal_sent(
                            old(table).threads@[i].signal,
                            final(table).threads@[i].signal,
                            (SignalInfo { signo: signo as u32, code: SI_TKILL }),
                        ) && (forall|j: int|
                            0 <= j < old(table).threads@.len() && j != i ==> final(table).threads@[j] == old(table).threads@[j])
                }
            },
            Err(e) => {
                &&& *final(table) == *old(table)
                &&& if e == LinuxError::EINVAL {
                    signo != 0 && !(1 <= signo < MAX_SIGNO)
                } else {
                    e == LinuxError::ESRCH && (forall|i: int|
                        0 <= i < old(table).threads@.len() ==> !((#[trigger] old(table).threads@[i]).tid == tid as u32 && old(table).threads@[i].pid == tgid
                            as u32))
                }
            },
        },
{
    let sig = match make_siginfo(signo, SI_TKILL)? {
        Some(sig) => sig,
        None => {
            return Ok(0);
        },
    };
    let n = table.threads.len();
    let mut i: usize = 0;
    while i < n
        invariant
            old(table).wf(),
            *table == *old(table),
            i <= n,
            n == table.threads@.len(),
            1 <= signo < 64,
            sig.signo == signo as u32,
            sig.code == SI_TKILL,
            forall|j: int| 0 <= j < i ==> (#[trigger] table.threads@[j]).tid != tid as u32,
        decreases n - i,
    {
        if table.threads[i].tid == tid as u32 {
            if table.threads[i].pid != tgid as u32 {
                proof {
                    assert forall|j: int|
                        0 <= j < n implies !((#[trigger] table.threads@[j]).tid == tid as u32
                        && table.threads@[j].pid == tgid as u32) by {
                        if j != i as int && table.threads@[j].tid == tid as u32 {
                            assert(table.threads@[i as int].tid == table.threads@[j].tid);
                        }
                    }
                }
                return Err(LinuxError::ESRCH);
            }
            let mut taken = Thread::new(0, 0);
            table.threads.set_and_swap(i, &mut taken);
            taken.signal.send_signal(sig);
            table.threads.set_and_swap(i, &mut taken);
            proof {
                let w = i as int;
                assert(sig == (SignalInfo { signo: signo as u32, code: SI_TKILL }));
                assert(old(table).threads@[w].tid == tid as u32);
                assert(spec_thread_signal_sent(
                    old(table).threads@[w].signal,
                    table.threads@[w].signal,
                    sig,
                ));
                assert(forall|j: int|
                    0 <= j < old(table).threads@.len() && j != w ==> table.threads@[j] == old(
                        table,
                    ).threads@[j]);
            }
            return Ok(0);
        }
        i += 1;
    }
    Err(LinuxError::ESRCH)
}

} // verus!
