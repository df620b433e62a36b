use vstd::prelude::*;
use crate::errno::LinuxError;
use crate::signal::{
    MAX_SIGNO, PendingSignals, SIG_BLOCK, SIG_SETMASK, SIG_UNBLOCK, SIGSET_SIZE, SignalAction,
    SignalActions, SignalInfo, SignalSet, spec_unmaskable,
};

verus! {

/// A scheduler wait queue, modelled by the number of wake events issued so
/// far. Each event resumes at most one blocked waiter; the blocking itself
/// belongs to the task runtime, not to this crate.
#[derive(Debug, Clone, Copy, PartialEq, Eq, Structural)]
pub struct WaitQueue {
    /// How many single-waiter wake events have been issued.
    pub wake_events: u64,
}

impl WaitQueue {
    /// The event count after one more wake, saturating at its bound.
    pub open spec fn spec_notified(self) -> WaitQueue {
        if self.wake_events == u64::MAX {
            self
        } else {
            WaitQueue { wake_events: (self.wake_events + 1) as u64 }
        }
    }

    /// Creates a wait queue with no events issued.
    pub fn new() -> (r: WaitQueue)
        ensures
            r.wake_events == 0,
    {
        WaitQueue { wake_events: 0 }
    }

    /// Issues one wake event: exactly one blocked waiter, if any, is resumed.
    pub fn notify_one(&mut self)
        ensures
            *final(self) == old(self).spec_notified(),
    {
        if self.wake_events < u64::MAX {
            self.wake_events = self.wake_events + 1;
        }
    }
}

/// Alternate signal stack descriptor of one thread.
#[derive(Debug, Clone, Copy, PartialEq, Eq, Structural)]
pub struct SignalStack {
    /// Base address of the stack.
    pub sp: usize,
    /// Size of the stack in bytes.
    pub size: usize,
    /// Stack state flags.
    pub flags: u32,
}

impl Default for SignalStack {
    /// No alternate stack installed.
    fn default() -> (r: Self)
        ensures
            r.sp == 0 && r.size == 0 && r.flags == 0,
    {
        SignalStack { sp: 0, size: 0, flags: 0 }
    }
}

/// Process-level signal manager: the process-wide pending set, the shared
/// action table, and the wait queue that threads blocking on delivery sleep
/// on.
pub struct ProcessSignalManager {
    /// The process-level shared pending signals.
    pub pending: PendingSignals,
    /// The signal actions.
    pub actions: SignalActions,
    /// The wait queue for signal delivery.
    pub wq: WaitQueue,
    /// The default restorer function address.
    pub default_restorer: usize,
}

impl ProcessSignalManager {
    /// Both composed tables are well formed.
    pub open spec fn wf(self) -> bool {
        self.pending.wf() && self.actions.wf()
    }

    /// Creates a new process signal manager with nothing pending and every
    /// action at its default.
    pub fn new() -> (r: Self)
        ensures
            r.wf(),
            forall|n: u32| 1 <= n <= MAX_SIGNO ==> !r.pending.set.spec_has(n),
            r.wq.wake_events == 0,
            r.default_restorer == 0,
    {
        ProcessSignalManager {
            pending: PendingSignals::new(),
            actions: SignalActions::new(),
            wq: WaitQueue::new(),
            default_restorer: 0,
        }
    }

    /// Takes the queued record of the lowest pending signal also in `mask`.
    pub fn dequeue_signal(&mut self, mask: &SignalSet) -> (r: Option<SignalInfo>)
        requires
            old(self).wf(),
        ensures
            final(self).wf(),
            final(self).actions == old(self).actions,
            final(self).wq == old(self).wq,
            match r {
                Some(sig) => {
                    &&& 1 <= sig.signo <= MAX_SIGNO
                    &&& old(self).pending.set.spec_has(sig.signo)
                    &&& mask.spec_has(sig.signo)
                    &&& !final(self).pending.set.spec_has(sig.signo)
                    &&& forall|n: u32|
                        1 <= n < sig.signo ==> !(old(self).pending.set.spec_has(n)
                            && mask.spec_has(n))
                    &&& forall|n: u32|
                        1 <= n <= MAX_SIGNO && n != sig.signo ==> final(self).pending.set.spec_has(n) == old(self).pending.set.spec_has(n)
                },
                None => {
                    &&& *final(self) == *old(self)
                    &&& forall|n: u32|
                        1 <= n <= MAX_SIGNO ==> !(old(self).pending.set.spec_has(n)
                            && mask.spec_has(n))
                },
            },
    {
        self.pending.dequeue_signal(mask)
    }

    /// Sends a signal to the process: records it as pending and wakes exactly
    /// one waiter on the process wait queue.
    ///
    /// See [`send_signal_thread`] for the thread-level version.
    pub fn send_signal(&mut self, sig: SignalInfo)
        requires
            old(self).wf(),
            1 <= sig.signo <= MAX_SIGNO,
        ensures
            final(self).wf(),
            spec_signal_sent(*old(self), *final(self), sig),
            final(self).pending.set.spec_has(sig.signo),
            forall|n: u32| 1 <= n <= MAX_SIGNO && n != sig.signo ==> final(self).pending.set.spec_has(n) == old(self).pending.set.spec_has(n),
    {
        self.pending.put_signal(sig);
        self.wq.notify_one();
    }

    /// Gets currently pending signals.
    pub fn pending(&self) -> (r: SignalSet)
        ensures
            r == self.pending.set,
    {
        self.pending.set
    }
}

/// Thread-level signal manager: a thread-local pending set, the thread's
/// blocked mask, its wait queue and its alternate signal stack.
pub struct ThreadSignalManager {
    /// The thread-local pending signals.
    pub pending: PendingSignals,
    /// The set of signals currently blocked from delivery.
    pub blocked: SignalSet,
    /// The wait queue this thread's blocking signal waits sleep on.
    pub wq: WaitQueue,
    /// The stack used by signal handlers.
    pub stack: SignalStack,
}

impl ThreadSignalManager {
    /// The pending table is well formed and the blocked mask never holds a
    /// non-maskable signal.
    pub open spec fn wf(self) -> bool {
        self.pending.wf() && self.blocked.0 & spec_unmaskable() == 0
    }

    /// Creates a new thread signal manager with nothing pending and nothing
    /// blocked.
    pub fn new() -> (r: Self)
        ensures
            r.wf(),
            r.blocked.0 == 0,
            forall|n: u32| 1 <= n <= MAX_SIGNO ==> !r.pending.set.spec_has(n),
            r.wq.wake_events == 0,
    {
        proof {
            assert(0u64 & ((1u64 << 8) | (1u64 << 18)) == 0) by (bit_vector);
        }
        ThreadSignalManager {
            pending: PendingSignals::new(),
            blocked: SignalSet(0),
            wq: WaitQueue::new(),
            stack: SignalStack { sp: 0, size: 0, flags: 0 },
        }
    }

    /// The thread's current blocked mask.
    pub fn blocked(&self) -> (r: SignalSet)
        ensures
            r == self.blocked,
    {
        self.blocked
    }

    /// Sends a signal to this thread: records it as pending and wakes exactly
    /// one waiter on the thread's wait queue.
    pub fn send_signal(&mut self, sig: SignalInfo)
        requires
            old(self).wf(),
            1 <= sig.signo <= MAX_SIGNO,
        ensures
            final(self).wf(),
            spec_thread_signal_sent(*old(self), *final(self), sig),
            final(self).pending.set.spec_has(sig.signo),
            forall|n: u32| 1 <= n <= MAX_SIGNO && n != sig.signo ==> final(self).pending.set.spec_has(n) == old(self).pending.set.spec_has(n),
    {
        self.pending.put_signal(sig);
        self.wq.notify_one();
    }

    /// Takes the lowest-numbered deliverable signal: pending for the thread
    /// (or, failing that, for the process) and not in the blocked mask.
    ///
    /// A pending signal in the blocked mask is left pending, not discarded.
    pub fn dequeue_signal(&mut self, proc: &mut ProcessSignalManager) -> (r: Option<SignalInfo>)
        requires
            old(self).wf(),
            old(proc).wf(),
        ensures
            final(self).wf(),
            final(proc).wf(),
            final(self).blocked == old(self).blocked,
            final(proc).actions == old(proc).actions,
            match r {
                Some(sig) => {
                    &&& !old(self).blocked.spec_has(sig.signo)
                    &&& spec_signal_taken(
                        *old(self),
                        *final(self),
                        *old(proc),
                        *final(proc),
                        SignalSet(!old(self).blocked.0),
                        sig,
                    )
                },
                None => {
                    &&& *final(self) == *old(self)
                    &&& *final(proc) == *old(proc)
                    &&& forall|n: u32|
                        1 <= n <= MAX_SIGNO && !old(self).blocked.spec_has(n) ==> !old(self).pending.set.spec_has(n) && !old(proc).pending.set.spec_has(n)
                },
            },
    {
        let mask = SignalSet(!self.blocked.0);
        proof {
            let b = self.blocked.0;
            assert forall|n: u32| 1 <= n <= MAX_SIGNO implies (SignalSet(!b).spec_has(n) <==> !(
            #[trigger] SignalSet(b).spec_has(n))) by {
                let k = (n - 1) as u64;
                assert((!b) & (1u64 << k) != 0 <==> b & (1u64 << k) == 0) by (bit_vector)
                    requires
                        k < 64,
                ;
            }
        }
        match self.pending.dequeue_signal(&mask) {
            Some(sig) => Some(sig),
            None => proc.pending.dequeue_signal(&mask),
        }
    }

    /// Takes the lowest-numbered signal pending for the thread (or, failing
    /// that, for the process) that lies in the explicit wait set `want`,
    /// regardless of the blocked mask, as a blocking signal wait consumes it.
    pub fn dequeue_waited(&mut self, proc: &mut ProcessSignalManager, want: &SignalSet) -> (r:
        Option<SignalInfo>)
        requires
            old(self).wf(),
            old(proc).wf(),
        ensures
            final(self).wf(),
            final(proc).wf(),
            final(self).blocked == old(self).blocked,
            final(proc).actions == old(proc).actions,
            match r {
                Some(sig) => spec_signal_taken(
                    *old(self),
                    *final(self),
                    *old(proc),
                    *final(proc),
                    *want,
                    sig,
                ),
                None => {
                    &&& *final(self) == *old(self)
                    &&& *final(proc) == *old(proc)
                    &&& forall|n: u32|
                        1 <= n <= MAX_SIGNO && want.spec_has(n) ==> !old(self).pending.set.spec_has(n) && !old(proc).pending.set.spec_has(n)
                },
            },
    {
        match self.pending.dequeue_signal(want) {
            Some(sig) => Some(sig),
            None => proc.pending.dequeue_signal(want),
        }
    }
}


/// The relation between thread- and process-scope signal state before and
/// after one signal was taken under the selection set `sel` (the
/// complement of the blocked mask for delivery, or an explicit wait set):
/// the thread's own pending set is consulted first, the lowest selected
/// pending number is dequeued from the scope it was found in — removed
/// there, every other number untouched — and the other scope is untouched.
pub open spec fn spec_signal_taken(
    t0: ThreadSignalManager,
    t1: ThreadSignalManager,
    p0: ProcessSignalManager,
    p1: ProcessSignalManager,
    sel: SignalSet,
    sig: SignalInfo,
) -> bool {
    &&& 1 <= sig.signo <= MAX_SIGNO
    &&& sel.spec_has(sig.signo)
    &&& t1.blocked == t0.blocked
    &&& t1.stack == t0.stack
    &&& t1.wq == t0.wq
    &&& p1.actions == p0.actions
    &&& p1.wq == p0.wq
    &&& p1.default_restorer == p0.default_restorer
    &&& if exists|n: u32|
        1 <= n <= MAX_SIGNO && #[trigger] t0.pending.set.spec_has(n) && sel.spec_has(n) {
        &&& t0.pending.set.spec_has(sig.signo)
        &&& t0.pending.infos@[sig.signo - 1] == Some(sig)
        &&& forall|n: u32|
            1 <= n < sig.signo ==> !(t0.pending.set.spec_has(n) && sel.spec_has(n))
        &&& !t1.pending.set.spec_has(sig.signo)
        &&& forall|n: u32|
            1 <= n <= MAX_SIGNO && n != sig.signo ==> t1.pending.set.spec_has(n)
                == t0.pending.set.spec_has(n)
        &&& p1.pending.set == p0.pending.set
        &&& p1.pending.infos@ == p0.pending.infos@
    } else {
        &&& t1.pending.set == t0.pending.set
        &&& t1.pending.infos@ == t0.pending.infos@
        &&& p0.pending.set.spec_has(sig.signo)
        &&& p0.pending.infos@[sig.signo - 1] == Some(sig)
        &&& forall|n: u32|
            1 <= n < sig.signo ==> !(p0.pending.set.spec_has(n) && sel.spec_has(n))
        &&& !p1.pending.set.spec_has(sig.signo)
        &&& forall|n: u32|
            1 <= n <= MAX_SIGNO && n != sig.signo ==> p1.pending.set.spec_has(n)
                == p0.pending.set.spec_has(n)
    }
}

/// The relation between a process signal manager before and after a signal
/// `sig` was sent to it: the signal is recorded as pending (keeping the first
/// record if it already was), one wake event is issued, and nothing else
/// moves.
pub open spec fn spec_signal_sent(
    pre: ProcessSignalManager,
    post: ProcessSignalManager,
    sig: SignalInfo,
) -> bool {
    &&& post.actions == pre.actions
    &&& post.default_restorer == pre.default_restorer
    &&& post.wq == pre.wq.spec_notified()
    &&& if pre.pending.set.spec_has(sig.signo) {
        post.pending.set == pre.pending.set && post.pending.infos@ == pre.pending.infos@
    } else {
        post.pending.set.0 == pre.pending.set.0 | crate::signal::spec_sig_bit(sig.signo)
            && post.pending.infos@ == pre.pending.infos@.update(sig.signo - 1, Some(sig))
    }
}

/// The same relation for a thread signal manager: pending updated, one wake
/// event issued, blocked mask and stack untouched.
pub open spec fn spec_thread_signal_sent(
    pre: ThreadSignalManager,
    post: ThreadSignalManager,
    sig: SignalInfo,
) -> bool {
    &&& post.blocked == pre.blocked
    &&& post.stack == pre.stack
    &&& post.wq == pre.wq.spec_notified()
    &&& if pre.pending.set.spec_has(sig.signo) {
        post.pending.set == pre.pending.set && post.pending.infos@ == pre.pending.infos@
    } else {
        post.pending.set.0 == pre.pending.set.0 | crate::signal::spec_sig_bit(sig.signo)
            && post.pending.infos@ == pre.pending.infos@.update(sig.signo - 1, Some(sig))
    }
}

/// Rejects a signal-set size argument that does not match the ABI record.
pub fn check_sigsetsize(sigsetsize: usize) -> (r: Result<(), LinuxError>)
    ensures
        r is Ok <==> sigsetsize == SIGSET_SIZE,
        r is Err ==> r->Err_0 == LinuxError::EINVAL,
{
    if sigsetsize != SIGSET_SIZE {
        return Err(LinuxError::EINVAL);
    }
    Ok(())
}

/// Atomically reads the thread's blocked mask and, guarded by the `how` mode
/// selector, adds to it, removes from it, or wholesale-replaces it from the
/// optional input set. The previous mask is returned; the caller decides
/// whether to hand it out.
///
/// An attempt to block or unblock either non-maskable signal is rejected with
/// no side effect, as is an unknown mode or a wrong set size.
pub fn sys_rt_sigprocmask(
    tsm: &mut ThreadSignalManager,
    how: u32,
    set: Option<&SignalSet>,
    sigsetsize: usize,
) -> (r: Result<SignalSet, LinuxError>)
    requires
        old(tsm).wf(),
    ensures
        final(tsm).wf(),
        final(tsm).pending == old(tsm).pending,
        final(tsm).wq == old(tsm).wq,
        final(tsm).stack == old(tsm).stack,
        match r {
            Ok(oldmask) => {
                &&& sigsetsize == SIGSET_SIZE
                &&& oldmask == old(tsm).blocked
                &&& match set {
                    Some(s) => {
                        &&& s.0 & spec_unmaskable() == 0
                        &&& (how == SIG_BLOCK || how == SIG_UNBLOCK || how == SIG_SETMASK)
                        &&& (how == SIG_BLOCK ==> final(tsm).blocked.0 == old(tsm).blocked.0
                            | s.0)
                        &&& (how == SIG_UNBLOCK ==> final(tsm).blocked.0 == old(tsm).blocked.0
                            & !s.0)
                        &&& (how == SIG_SETMASK ==> final(tsm).blocked == *s)
                    },
                    None => final(tsm).blocked == old(tsm).blocked,
                }
            },
            Err(e) => {
                &&& e == LinuxError::EINVAL
                &&& *final(tsm) == *old(tsm)
                &&& (sigsetsize != SIGSET_SIZE || (set matches Some(s) && (s.0
                    & spec_unmaskable() != 0 || (how != SIG_BLOCK && how != SIG_UNBLOCK && how
                    != SIG_SETMASK))))
            },
        },
{
    check_sigsetsize(sigsetsize)?;
    let oldmask = tsm.blocked;
    if let Some(s) = set {
        if s.0 & ((1u64 << (crate::signal::SIGKILL - 1)) | (1u64 << (crate::signal::SIGSTOP - 1)))
            != 0 {
            return Err(LinuxError::EINVAL);
        }
        let ghost b = tsm.blocked.0;
        let ghost sv = s.0;
        let ghost m = spec_unmaskable();
        if how == SIG_BLOCK {
            tsm.blocked.add_from(s);
            proof {
                assert((b | sv) & m == 0) by (bit_vector)
                    requires
                        b & m == 0 && sv & m == 0,
                ;
            }
        } else if how == SIG_UNBLOCK {
            tsm.blocked.remove_from(s);
            proof {
                assert((b & !sv) & m == 0) by (bit_vector)
                    requires
                        b & m == 0,
                ;
            }
        } else if how == SIG_SETMASK {
            tsm.blocked = *s;
        } else {
            return Err(LinuxError::EINVAL);
        }
    }
    Ok(oldmask)
}

/// Atomically reads the process's current action for a signal number and,
/// when a new record is given, replaces it. The previous action is returned.
///
/// Signal numbers outside 1..=64 and any attempt to touch the two
/// non-maskable signals are rejected with no side effect.
pub fn sys_rt_sigaction(
    psm: &mut ProcessSignalManager,
    signum: i32,
    act: Option<&SignalAction>,
    sigsetsize: usize,
) -> (r: Result<SignalAction, LinuxError>)
    requires
        old(psm).wf(),
    ensures
        final(psm).wf(),
        final(psm).pending == old(psm).pending,
        final(psm).wq == old(psm).wq,
        final(psm).default_restorer == old(psm).default_restorer,
        match r {
            Ok(oldact) => {
                &&& sigsetsize == SIGSET_SIZE
                &&& 1 <= signum <= MAX_SIGNO
                &&& signum != crate::signal::SIGKILL as i32
                &&& signum != crate::signal::SIGSTOP as i32
                &&& oldact == old(psm).actions.actions@[signum - 1]
                &&& match act {
                    Some(a) => final(psm).actions.actions@ == old(psm).actions.actions@.update(
                        signum - 1,
                        *a,
                    ),
                    None => final(psm).actions == old(psm).actions,
                }
            },
            Err(e) => {
                &&& e == LinuxError::EINVAL
                &&& *final(psm) == *old(psm)
                &&& (sigsetsize != SIGSET_SIZE || !(1 <= signum <= MAX_SIGNO) || signum
                    == crate::signal::SIGKILL as i32 || signum == crate::signal::SIGSTOP as i32)
            },
        },
{
    check_sigsetsize(sigsetsize)?;
    if signum < 1 || signum > 64 {
        return Err(LinuxError::EINVAL);
    }
    if signum == 9 || signum == 19 {
        return Err(LinuxError::EINVAL);
    }
    let signo = signum as u32;
    let oldact = psm.actions.get(signo);
    if let Some(a) = act {
        psm.actions.set(signo, *a);
    }
    Ok(oldact)
}

/// One poll of a `sigtimedwait`-style blocking wait: dequeues and returns the
/// lowest-numbered signal of the wait set that is pending for the thread or
/// its process; when none is, fails with the transient "try again" code, on
/// which the caller is expected to keep waiting or give up at its timeout.
pub fn sys_rt_sigtimedwait(
    tsm: &mut ThreadSignalManager,
    psm: &mut ProcessSignalManager,
    want: &SignalSet,
    sigsetsize: usize,
) -> (r: Result<SignalInfo, LinuxError>)
    requires
        old(tsm).wf(),
        old(psm).wf(),
    ensures
        final(tsm).wf(),
        final(psm).wf(),
        final(tsm).blocked == old(tsm).blocked,
        final(psm).actions == old(psm).actions,
        match r {
            Ok(sig) => {
                &&& sigsetsize == SIGSET_SIZE
                &&& spec_signal_taken(*old(tsm), *final(tsm), *old(psm), *final(psm), *want, sig)
            },
            Err(e) => {
                &&& *final(tsm) == *old(tsm)
                &&& *final(psm) == *old(psm)
                &&& if sigsetsize != SIGSET_SIZE {
                    e == LinuxError::EINVAL
                } else {
                    e == LinuxError::EAGAIN && (forall|n: u32|
                        1 <= n <= MAX_SIGNO && want.spec_has(n) ==> !old(
                            tsm,
                        ).pending.set.spec_has(n) && !old(psm).pending.set.spec_has(n))
                }
            },
        },
{
    check_sigsetsize(sigsetsize)?;
    match tsm.dequeue_waited(psm, want) {
        Some(sig) => Ok(sig),
        None => Err(LinuxError::EAGAIN),
    }
}

/// A signal in the blocked mask is not in the deliverable mask: delivery
/// skips it, so a pending blocked signal stays pending.
pub proof fn lemma_blocked_not_deliverable(blocked: SignalSet, s: u32)
    requires
        1 <= s <= MAX_SIGNO,
        blocked.spec_has(s),
    ensures
        !SignalSet(!blocked.0).spec_has(s),
{
    let b = blocked.0;
    let k = (s - 1) as u64;
    assert(b & (1u64 << k) != 0 ==> (!b) & (1u64 << k) == 0) by (bit_vector);
}

/// A signal outside the blocked mask is in the deliverable mask: once
/// unblocked, a pending signal becomes deliverable.
pub proof fn lemma_unblocked_deliverable(blocked: SignalSet, s: u32)
    requires
        1 <= s <= MAX_SIGNO,
        !blocked.spec_has(s),
    ensures
        SignalSet(!blocked.0).spec_has(s),
{
    let b = blocked.0;
    let k = (s - 1) as u64;
    assert(b & (1u64 << k) == 0 ==> (!b) & (1u64 << k) != 0) by (bit_vector)
        requires
            k < 64,
    ;
}


/// Restoring the caller's signal frame is not implemented in this layer;
/// the call is accepted and does nothing.
pub fn sys_rt_sigreturn() -> (r: Result<isize, LinuxError>)
    ensures
        r == Ok::<isize, LinuxError>(0),
{
    Ok(0)
}

/// Reporting the pending set to userspace is not implemented in this
/// layer; the call is accepted and does nothing.
pub fn sys_rt_sigpending() -> (r: Result<isize, LinuxError>)
    ensures
        r == Ok::<isize, LinuxError>(0),
{
    Ok(0)
}

/// Queueing a signal with a caller-supplied record is not implemented in
/// this layer; the call is accepted and does nothing.
pub fn sys_rt_sigqueueinfo() -> (r: Result<isize, LinuxError>)
    ensures
        r == Ok::<isize, LinuxError>(0),
{
    Ok(0)
}

/// Suspending with a temporary mask is not implemented in this layer; the
/// call is accepted and does nothing.
pub fn sys_rt_sigsuspend() -> (r: Result<isize, LinuxError>)
    ensures
        r == Ok::<isize, LinuxError>(0),
{
    Ok(0)
}

/// Installing an alternate signal stack is not implemented in this layer;
/// the call is accepted and does nothing.
pub fn sys_sigaltstack() -> (r: Result<isize, LinuxError>)
    ensures
        r == Ok::<isize, LinuxError>(0),
{
    Ok(0)
}

} // verus!

