use vstd::prelude::*;

verus! {

/// Signal number of SIGKILL, one of the two non-maskable signals.
pub const SIGKILL: u32 = 9;

/// Signal number of SIGSTOP, the other non-maskable signal.
pub const SIGSTOP: u32 = 19;

/// Largest valid signal number.
pub const MAX_SIGNO: u32 = 64;

/// `sigprocmask` mode selector: add the given set to the blocked mask.
pub const SIG_BLOCK: u32 = 0;

/// `sigprocmask` mode selector: remove the given set from the blocked mask.
pub const SIG_UNBLOCK: u32 = 1;

/// `sigprocmask` mode selector: replace the blocked mask with the given set.
pub const SIG_SETMASK: u32 = 2;

/// The size in bytes of the signal-set ABI record that callers must pass.
pub const SIGSET_SIZE: usize = 8;

/// A set of signal numbers 1..=64, kept as a bit per signal: bit `n - 1`
/// stands for signal `n`.
#[derive(Debug, Clone, Copy, PartialEq, Eq, Structural)]
pub struct SignalSet(pub u64);

/// The bit standing for signal `signo`.
pub open spec fn spec_sig_bit(signo: u32) -> u64 {
    1u64 << ((signo - 1) as u64)
}

/// The two non-maskable signals (SIGKILL and SIGSTOP) as a bit mask.
pub open spec fn spec_unmaskable() -> u64 {
    spec_sig_bit(SIGKILL) | spec_sig_bit(SIGSTOP)
}

impl SignalSet {
    /// Whether `signo` is in the set.
    pub open spec fn spec_has(self, signo: u32) -> bool {
        self.0 & spec_sig_bit(signo) != 0
    }

    /// The empty set.
    pub fn empty() -> (r: SignalSet)
        ensures
            r.0 == 0,
            forall|n: u32| 1 <= n <= MAX_SIGNO ==> !r.spec_has(n),
    {
        proof {
            assert forall|n: u32| 1 <= n <= MAX_SIGNO implies 0u64 & #[trigger] spec_sig_bit(n)
                == 0 by {
                let k = (n - 1) as u64;
                assert(0u64 & (1u64 << k) == 0) by (bit_vector);
            }
        }
        SignalSet(0)
    }

    /// The set holding exactly `signo`.
    pub fn just(signo: u32) -> (r: SignalSet)
        requires
            1 <= signo <= MAX_SIGNO,
        ensures
            r.0 == spec_sig_bit(signo),
            r.spec_has(signo),
            forall|n: u32| 1 <= n <= MAX_SIGNO && n != signo ==> !r.spec_has(n),
    {
        proof {
            let k = (signo - 1) as u64;
            assert((1u64 << k) & (1u64 << k) != 0) by (bit_vector)
                requires
                    k < 64,
            ;
            assert forall|n: u32| 1 <= n <= MAX_SIGNO && n != signo implies spec_sig_bit(signo)
                & #[trigger] spec_sig_bit(n) == 0 by {
                let j = (n - 1) as u64;
                assert((1u64 << k) & (1u64 << j) == 0) by (bit_vector)
                    requires
                        k < 64 && j < 64 && k != j,
                ;
            }
        }
        SignalSet(1u64 << (signo - 1))
    }

    /// Whether `signo` is in the set.
    pub fn has(&self, signo: u32) -> (r: bool)
        requires
            1 <= signo <= MAX_SIGNO,
        ensures
            r == self.spec_has(signo),
    {
        self.0 & (1u64 << (signo - 1)) != 0
    }

    /// Adds `signo` to the set.
    pub fn add(&mut self, signo: u32)
        requires
            1 <= signo <= MAX_SIGNO,
        ensures
            final(self).0 == old(self).0 | spec_sig_bit(signo),
            final(self).spec_has(signo),
            forall|n: u32| 1 <= n <= MAX_SIGNO && n != signo ==> final(self).spec_has(n) == old(self).spec_has(n),
    {
        let ghost pre = self.0;
        let ghost k = (signo - 1) as u64;
        self.0 = self.0 | (1u64 << (signo - 1));
        proof {
            assert((pre | (1u64 << k)) & (1u64 << k) != 0) by (bit_vector)
                requires
                    k < 64,
            ;
            assert forall|n: u32| 1 <= n <= MAX_SIGNO && n != signo implies (pre | spec_sig_bit(
                signo,
            )) & #[trigger] spec_sig_bit(n) == pre & spec_sig_bit(n) by {
                let j = (n - 1) as u64;
                assert((pre | (1u64 << k)) & (1u64 << j) == pre & (1u64 << j)) by (bit_vector)
                    requires
                        k < 64 && j < 64 && k != j,
                ;
            }
        }
    }

    /// Removes `signo` from the set.
    pub fn remove(&mut self, signo: u32)
        requires
            1 <= signo <= MAX_SIGNO,
        ensures
            final(self).0 == old(self).0 & !spec_sig_bit(signo),
            !final(self).spec_has(signo),
            forall|n: u32| 1 <= n <= MAX_SIGNO && n != signo ==> final(self).spec_has(n) == old(self).spec_has(n),
    {
        let ghost pre = self.0;
        let ghost k = (signo - 1) as u64;
        self.0 = self.0 & !(1u64 << (signo - 1));
        proof {
            assert((pre & !(1u64 << k)) & (1u64 << k) == 0) by (bit_vector)
                requires
                    k < 64,
            ;
            assert forall|n: u32| 1 <= n <= MAX_SIGNO && n != signo implies (pre & !spec_sig_bit(
                signo,
            )) & #[trigger] spec_sig_bit(n) == pre & spec_sig_bit(n) by {
                let j = (n - 1) as u64;
                assert((pre & !(1u64 << k)) & (1u64 << j) == pre & (1u64 << j)) by (bit_vector)
                    requires
                        k < 64 && j < 64 && k != j,
                ;
            }
        }
    }

    /// Adds every signal of `other` to the set.
    pub fn add_from(&mut self, other: &SignalSet)
        ensures
            final(self).0 == old(self).0 | other.0,
    {
        self.0 = self.0 | other.0;
    }

    /// Removes every signal of `other` from the set.
    pub fn remove_from(&mut self, other: &SignalSet)
        ensures
            final(self).0 == old(self).0 & !other.0,
    {
        self.0 = self.0 & !other.0;
    }
}

/// A queued record of one delivered-but-not-yet-processed signal: its number
/// and the delivery code describing the sender.
#[derive(Debug, Clone, Copy, PartialEq, Eq, Structural)]
pub struct SignalInfo {
    /// The signal number, in 1..=64.
    pub signo: u32,
    /// The delivery code (who or what raised the signal).
    pub code: u32,
}

impl SignalInfo {
    /// Creates a new record.
    pub fn new(signo: u32, code: u32) -> (r: SignalInfo)
        requires
            1 <= signo <= MAX_SIGNO,
        ensures
            r == (SignalInfo { signo, code }),
    {
        SignalInfo { signo, code }
    }

    /// The signal number.
    pub fn signo(&self) -> (r: u32)
        ensures
            r == self.signo,
    {
        self.signo
    }
}

/// The pending-signal state of one scope (a thread or a whole process): the
/// set of pending numbers plus the queued info record of each.
///
/// A signal number is either absent or pending; sending an already-pending
/// signal keeps the first queued record (standard signals do not queue
/// multiple instances).
pub struct PendingSignals {
    /// Which signal numbers are pending.
    pub set: SignalSet,
    /// The queued record for each pending number; slot `n - 1` belongs to
    /// signal `n`.
    pub infos: Vec<Option<SignalInfo>>,
}

impl PendingSignals {
    /// Slots and set agree: exactly the pending numbers hold a record, and a
    /// record queued for signal `n` carries number `n`.
    pub open spec fn wf(self) -> bool {
        &&& self.infos@.len() == 64
        &&& forall|n: u32|
            1 <= n <= 64 ==> (self.set.spec_has(n) <==> (#[trigger] self.infos@[n - 1]) is Some)
        &&& forall|n: u32|
            1 <= n <= 64 && (#[trigger] self.infos@[n - 1]) is Some ==> self.infos@[n
                - 1]->0.signo == n
    }

    /// Creates an empty pending set.
    pub fn new() -> (r: PendingSignals)
        ensures
            r.wf(),
            r.set.0 == 0,
            forall|n: u32| 1 <= n <= MAX_SIGNO ==> !r.set.spec_has(n),
    {
        let mut infos: Vec<Option<SignalInfo>> = Vec::new();
        let mut i: usize = 0;
        while i < 64
            invariant
                i <= 64,
                infos@.len() == i,
                forall|j: int| 0 <= j < i ==> infos@[j] is None,
            decreases 64 - i,
        {
            infos.push(None);
            i += 1;
        }
        PendingSignals { set: SignalSet::empty(), infos }
    }

    /// Records `sig` as pending. Returns `true` if the signal was newly
    /// recorded, `false` if it was already pending (the new record is
    /// dropped).
    pub fn put_signal(&mut self, sig: SignalInfo) -> (r: bool)
        requires
            old(self).wf(),
            1 <= sig.signo <= MAX_SIGNO,
        ensures
            final(self).wf(),
            final(self).set.spec_has(sig.signo),
            r == !old(self).set.spec_has(sig.signo),
            forall|n: u32| 1 <= n <= MAX_SIGNO && n != sig.signo ==> final(self).set.spec_has(n)
                == old(self).set.spec_has(n),
            r ==> final(self).set.0 == old(self).set.0 | spec_sig_bit(sig.signo),
            r ==> final(self).infos@ == old(self).infos@.update(sig.signo - 1, Some(sig)),
            !r ==> final(self).infos@ == old(self).infos@ && final(self).set == old(self).set,
    {
        if self.set.has(sig.signo) {
            return false;
        }
        self.set.add(sig.signo);
        let idx = (sig.signo - 1) as usize;
        self.infos[idx] = Some(sig);
        true
    }

    /// Takes the queued record of the lowest-numbered pending signal that is
    /// also in `mask`, removing it; `None` when no pending signal is in
    /// `mask`.
    pub fn dequeue_signal(&mut self, mask: &SignalSet) -> (r: Option<SignalInfo>)
        requires
            old(self).wf(),
        ensures
            final(self).wf(),
            match r {
                Some(sig) => {
                    &&& 1 <= sig.signo <= MAX_SIGNO
                    &&& old(self).set.spec_has(sig.signo)
                    &&& mask.spec_has(sig.signo)
                    &&& old(self).infos@[sig.signo - 1] == Some(sig)
                    &&& !final(self).set.spec_has(sig.signo)
                    &&& forall|n: u32|
                        1 <= n < sig.signo ==> !(old(self).set.spec_has(n) && mask.spec_has(n))
                    &&& forall|n: u32|
                        1 <= n <= MAX_SIGNO && n != sig.signo ==> final(self).set.spec_has(n)
                            == old(self).set.spec_has(n)
                },
                None => {
                    &&& *final(self) == *old(self)
                    &&& forall|n: u32|
                        1 <= n <= MAX_SIGNO ==> !(old(self).set.spec_has(n) && mask.spec_has(n))
                },
            },
    {
        let mut n: u32 = 1;
        while n <= 64
            invariant
                old(self).wf(),
                *self == *old(self),
                1 <= n <= 65,
                forall|m: u32| 1 <= m < n ==> !(self.set.spec_has(m) && mask.spec_has(m)),
            decreases 65 - n,
        {
            if self.set.has(n) && mask.has(n) {
                let idx = (n - 1) as usize;
                let info = self.infos[idx];
                self.infos[idx] = None;
                self.set.remove(n);
                match info {
                    Some(sig) => {
                        return Some(sig);
                    },
                    None => {
                        proof {
                            assert(false);
                        }
                    },
                }
            }
            n += 1;
        }
        None
    }
}

/// One entry of the process-wide signal disposition table: handler address,
/// flags and the mask applied while the handler runs.
#[derive(Debug, Clone, Copy, PartialEq, Eq, Structural)]
pub struct SignalAction {
    /// Address of the registered handler, or 0 for the default disposition.
    pub handler: usize,
    /// Behaviour flags of the action.
    pub flags: u64,
    /// Signals blocked while the handler runs.
    pub mask: SignalSet,
}

impl Default for SignalAction {
    /// The default disposition: no handler, no flags, nothing masked.
    fn default() -> (r: Self)
        ensures
            r.handler == 0 && r.flags == 0 && r.mask.0 == 0,
    {
        SignalAction { handler: 0, flags: 0, mask: SignalSet(0) }
    }
}

/// Signal actions for a process: one disposition per signal number 1..=64.
pub struct SignalActions {
    /// Slot `n - 1` holds the action of signal `n`.
    pub actions: Vec<SignalAction>,
}

impl SignalActions {
    /// The table holds exactly 64 entries.
    pub open spec fn wf(self) -> bool {
        self.actions@.len() == 64
    }

    /// Creates a table with every signal at its default disposition.
    pub fn new() -> (r: SignalActions)
        ensures
            r.wf(),
            forall|n: u32| 1 <= n <= MAX_SIGNO ==> (#[trigger] r.actions@[n - 1])
                == (SignalAction { handler: 0, flags: 0, mask: SignalSet(0) }),
    {
        let mut actions: Vec<SignalAction> = Vec::new();
        let mut i: usize = 0;
        while i < 64
            invariant
                i <= 64,
                actions@.len() == i,
                forall|j: int| 0 <= j < i ==> actions@[j] == (SignalAction {
                    handler: 0,
                    flags: 0,
                    mask: SignalSet(0),
                }),
            decreases 64 - i,
        {
            actions.push(SignalAction { handler: 0, flags: 0, mask: SignalSet(0) });
            i += 1;
        }
        SignalActions { actions }
    }

    /// The action registered for signal `signo`.
    pub fn get(&self, signo: u32) -> (r: SignalAction)
        requires
            self.wf(),
            1 <= signo <= MAX_SIGNO,
        ensures
            r == self.actions@[signo - 1],
    {
        self.actions[(signo - 1) as usize]
    }

    /// Replaces the action registered for signal `signo`.
    pub fn set(&mut self, signo: u32, act: SignalAction)
        requires
            old(self).wf(),
            1 <= signo <= MAX_SIGNO,
        ensures
            final(self).wf(),
            final(self).actions@ == old(self).actions@.update(signo - 1, act),
    {
        self.actions[(signo - 1) as usize] = act;
    }
}

} // verus!
