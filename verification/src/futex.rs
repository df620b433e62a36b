use vstd::prelude::*;
use crate::manager::WaitQueue;

verus! {

/// The wait-queue registration of one futex address: how many guard handles
/// are currently held on it, how many threads are waiting on it, and its
/// wake-event counter.
pub struct FutexEntry {
    /// The userspace address this queue serves.
    pub addr: usize,
    /// Outstanding guard handles (a wait in the window of being registered,
    /// or a wake operation holding the queue).
    pub guards: u64,
    /// Threads currently waiting on the queue.
    pub waiters: u64,
    /// The wait queue itself.
    pub wq: WaitQueue,
}

/// Maps futex addresses to their wait queues for efficient thread
/// synchronization.
///
/// Invariant: an entry exists for an address exactly as long as it is alive —
/// somebody holds a guard on it or waits on it. Releasing the last guard of
/// an empty queue removes the entry, so one-shot futex addresses cannot grow
/// the table without bound.
pub struct FutexTable {
    /// The live registrations, in no particular order.
    pub entries: Vec<FutexEntry>,
}

impl FutexTable {
    /// The index of the entry for `addr`, if one exists.
    pub open spec fn spec_index_of(self, addr: usize) -> int {
        choose|i: int| 0 <= i < self.entries@.len() && self.entries@[i].addr == addr
    }

    /// Whether the table holds an entry for `addr`.
    pub open spec fn spec_contains(self, addr: usize) -> bool {
        exists|i: int| 0 <= i < self.entries@.len() && (#[trigger] self.entries@[i]).addr == addr
    }

    /// Addresses are unique and every entry is alive: guarded or waited on.
    pub open spec fn wf(self) -> bool {
        &&& forall|i: int, j: int|
            0 <= i < j < self.entries@.len() ==> self.entries@[i].addr != self.entries@[j].addr
        &&& forall|i: int|
            0 <= i < self.entries@.len() ==> (#[trigger] self.entries@[i]).guards > 0
                || self.entries@[i].waiters > 0
    }

    /// Creates a new empty futex table.
    pub fn new() -> (r: FutexTable)
        ensures
            r.wf(),
            r.entries@.len() == 0,
            forall|a: usize| !r.spec_contains(a),
    {
        FutexTable { entries: Vec::new() }
    }

    /// Looks up the entry for `addr` and takes a guard on it; `false` when no
    /// queue is registered for the address. A "wake" operation uses this, as
    /// it must not create a queue for an address nobody is waiting on.
    pub fn get(&mut self, addr: usize) -> (r: bool)
        requires
            old(self).wf(),
            forall|i: int|
                0 <= i < old(self).entries@.len() ==> (#[trigger] old(self).entries@[i]).guards < u64::MAX,
        ensures
            final(self).wf(),
            r == old(self).spec_contains(addr),
            final(self).entries@.len() == old(self).entries@.len(),
            r ==> exists|i: int|
                0 <= i < old(self).entries@.len() && (#[trigger] old(self).entries@[i]).addr
                    == addr && final(self).entries@ == old(self).entries@.update(
                    i,
                    (FutexEntry {
                        guards: (old(self).entries@[i].guards + 1) as u64,
                        ..old(self).entries@[i]
                    }),
                ),
            !r ==> *final(self) == *old(self),
    {
        let n = self.entries.len();
        let mut i: usize = 0;
        while i < n
            invariant
                old(self).wf(),
                *self == *old(self),
                i <= n,
                n == self.entries@.len(),
                forall|j: int| 0 <= j < i ==> (#[trigger] self.entries@[j]).addr != addr,
                forall|j: int|
                    0 <= j < n ==> (#[trigger] self.entries@[j]).guards < u64::MAX,
            decreases n - i,
        {
            if self.entries[i].addr == addr {
                let e = FutexEntry {
                    addr: self.entries[i].addr,
                    guards: self.entries[i].guards + 1,
                    waiters: self.entries[i].waiters,
                    wq: self.entries[i].wq,
                };
                self.entries[i] = e;
                return true;
            }
            i += 1;
        }
        false
    }

    /// Gets the queue for `addr`, registering an empty one if absent, and
    /// takes a guard on it.
    pub fn get_or_insert(&mut self, addr: usize)
        requires
            old(self).wf(),
            forall|i: int|
                0 <= i < old(self).entries@.len() ==> (#[trigger] old(self).entries@[i]).guards < u64::MAX,
            old(self).entries@.len() < usize::MAX,
        ensures
            final(self).wf(),
            final(self).spec_contains(addr),
            old(self).spec_contains(addr) ==> exists|i: int|
                0 <= i < old(self).entries@.len() && (#[trigger] old(self).entries@[i]).addr
                    == addr && final(self).entries@ == old(self).entries@.update(
                    i,
                    (FutexEntry {
                        guards: (old(self).entries@[i].guards + 1) as u64,
                        ..old(self).entries@[i]
                    }),
                ),
            !old(self).spec_contains(addr) ==> final(self).entries@ == old(self).entries@.push(
                (FutexEntry { addr, guards: 1, waiters: 0, wq: (WaitQueue { wake_events: 0 }) }),
            ),
    {
        let found = self.get(addr);
        if !found {
            self.entries.push(
                FutexEntry { addr, guards: 1, waiters: 0, wq: WaitQueue::new() },
            );
            proof {
                let w = old(self).entries@.len() as int;
                assert(final(self).entries@[w].addr == addr);
            }
        } else {
            proof {
                let w = choose|i: int|
                    0 <= i < old(self).entries@.len() && (#[trigger] old(self).entries@[i]).addr
                        == addr && final(self).entries@ == old(self).entries@.update(
                        i,
                        (FutexEntry {
                            guards: (old(self).entries@[i].guards + 1) as u64,
                            ..old(self).entries@[i]
                        }),
                    );
                assert(final(self).entries@[w].addr == addr);
            }
        }
    }

    /// Records one more thread as waiting on the queue of `addr`, which the
    /// caller must hold a guard on.
    pub fn add_waiter(&mut self, addr: usize)
        requires
            old(self).wf(),
            old(self).spec_contains(addr),
            forall|i: int|
                0 <= i < old(self).entries@.len() ==> (#[trigger] old(self).entries@[i]).waiters < u64::MAX,
        ensures
            final(self).wf(),
            exists|i: int|
                0 <= i < old(self).entries@.len() && (#[trigger] old(self).entries@[i]).addr
                    == addr && final(self).entries@ == old(self).entries@.update(
                    i,
                    (FutexEntry {
                        waiters: (old(self).entries@[i].waiters + 1) as u64,
                        ..old(self).entries@[i]
                    }),
                ),
    {
        let n = self.entries.len();
        let mut i: usize = 0;
        while i < n
            invariant
                old(self).wf(),
                old(self).spec_contains(addr),
                *self == *old(self),
                i <= n,
                n == self.entries@.len(),
                forall|j: int| 0 <= j < i ==> (#[trigger] self.entries@[j]).addr != addr,
                forall|j: int|
                    0 <= j < n ==> (#[trigger] self.entries@[j]).waiters < u64::MAX,
            decreases n - i,
        {
            if self.entries[i].addr == addr {
                let e = FutexEntry {
                    addr: self.entries[i].addr,
                    guards: self.entries[i].guards,
                    waiters: self.entries[i].waiters + 1,
                    wq: self.entries[i].wq,
                };
                self.entries[i] = e;
                return;
            }
            i += 1;
        }
        proof {
            assert(false);
        }
    }

    /// Wakes one waiter of the queue of `addr`: issues one wake event and
    /// unregisters one waiter. Returns `true` when a waiter was woken.
    pub fn wake_one(&mut self, addr: usize) -> (r: bool)
        requires
            old(self).wf(),
            old(self).spec_contains(addr),
            forall|i: int|
                0 <= i < old(self).entries@.len() && (#[trigger] old(self).entries@[i]).addr
                    == addr ==> old(self).entries@[i].guards >= 1,
        ensures
            final(self).wf(),
            r ==> exists|i: int|
                0 <= i < old(self).entries@.len() && (#[trigger] old(self).entries@[i]).addr
                    == addr && old(self).entries@[i].waiters > 0 && final(self).entries@ == old(self).entries@.update(
                    i,
                    (FutexEntry {
                        waiters: (old(self).entries@[i].waiters - 1) as u64,
                        wq: old(self).entries@[i].wq.spec_notified(),
                        ..old(self).entries@[i]
                    }),
                ),
            !r ==> *final(self) == *old(self) && exists|i: int|
                0 <= i < old(self).entries@.len() && (#[trigger] old(self).entries@[i]).addr
                    == addr && old(self).entries@[i].waiters == 0,
    {
        let n = self.entries.len();
        let mut i: usize = 0;
        while i < n
            invariant
                old(self).wf(),
                old(self).spec_contains(addr),
                forall|k: int|
                    0 <= k < old(self).entries@.len() && (#[trigger] old(self).entries@[k]).addr
                        == addr ==> old(self).entries@[k].guards >= 1,
                *self == *old(self),
                i <= n,
                n == self.entries@.len(),
                forall|j: int| 0 <= j < i ==> (#[trigger] self.entries@[j]).addr != addr,
            decreases n - i,
        {
            if self.entries[i].addr == addr {
                if self.entries[i].waiters == 0 {
                    return false;
                }
                let mut wq = self.entries[i].wq;
                wq.notify_one();
                let e = FutexEntry {
                    addr: self.entries[i].addr,
                    guards: self.entries[i].guards,
                    waiters: self.entries[i].waiters - 1,
                    wq,
                };
                self.entries[i] = e;
                return true;
            }
            i += 1;
        }
        proof {
            assert(false);
        }
        false
    }

    /// Releases one guard on the queue of `addr`. When this was the last
    /// guard and no thread waits on the queue, the entry is removed from the
    /// table, so the address no longer appears in it.
    pub fn release_guard(&mut self, addr: usize)
        requires
            old(self).wf(),
            old(self).spec_contains(addr),
            forall|i: int|
                0 <= i < old(self).entries@.len() && (#[trigger] old(self).entries@[i]).addr
                    == addr ==> old(self).entries@[i].guards >= 1,
        ensures
            final(self).wf(),
            exists|i: int|
                0 <= i < old(self).entries@.len() && (#[trigger] old(self).entries@[i]).addr
                    == addr && (if old(self).entries@[i].guards == 1 && old(self).entries@[i].waiters == 0 {
                    final(self).entries@ == old(self).entries@.remove(i)
                } else {
                    final(self).entries@ == old(self).entries@.update(
                        i,
                        (FutexEntry {
                            guards: (old(self).entries@[i].guards - 1) as u64,
                            ..old(self).entries@[i]
                        }),
                    )
                }),
            (forall|i: int|
                0 <= i < old(self).entries@.len() && (#[trigger] old(self).entries@[i]).addr
                    == addr ==> old(self).entries@[i].guards == 1 && old(self).entries@[i].waiters == 0) ==> !final(self).spec_contains(addr),
    {
        let n = self.entries.len();
        let mut i: usize = 0;
        while i < n
            invariant
                old(self).wf(),
                old(self).spec_contains(addr),
                forall|k: int|
                    0 <= k < old(self).entries@.len() && (#[trigger] old(self).entries@[k]).addr
                        == addr ==> old(self).entries@[k].guards >= 1,
                *self == *old(self),
                i <= n,
                n == self.entries@.len(),
                forall|j: int| 0 <= j < i ==> (#[trigger] self.entries@[j]).addr != addr,
            decreases n - i,
        {
            if self.entries[i].addr == addr {
                if self.entries[i].guards == 1 && self.entries[i].waiters == 0 {
                    self.entries.remove(i);
                    proof {
                        assert forall|j: int|
                            0 <= j < final(self).entries@.len() implies (#[trigger] final(self).entries@[j]).addr != addr by {
                            if j < i as int {
                                assert(final(self).entries@[j] == old(self).entries@[j]);
                            } else {
                                assert(final(self).entries@[j] == old(self).entries@[j + 1]);
                            }
                        }
                    }
                } else {
                    let e = FutexEntry {
                        addr: self.entries[i].addr,
                        guards: self.entries[i].guards - 1,
                        waiters: self.entries[i].waiters,
                        wq: self.entries[i].wq,
                    };
                    self.entries[i] = e;
                }
                return;
            }
            i += 1;
        }
        proof {
            assert(false);
        }
    }
}


/// The table's registrations never outlive their use: an address appears
/// in the table exactly as long as its queue is guarded or waited on, so
/// once the last waiter is gone and the last guard released, the address
/// is no longer registered.
pub proof fn lemma_entry_iff_alive(t: FutexTable, addr: usize)
    requires
        t.wf(),
    ensures
        t.spec_contains(addr) ==> exists|i: int|
            0 <= i < t.entries@.len() && (#[trigger] t.entries@[i]).addr == addr && (
            t.entries@[i].guards > 0 || t.entries@[i].waiters > 0),
{
    if t.spec_contains(addr) {
        let i = choose|i: int| 0 <= i < t.entries@.len() && (#[trigger] t.entries@[i]).addr
            == addr;
        assert(t.entries@[i].guards > 0 || t.entries@[i].waiters > 0);
    }
}

} // verus!
