use vstd::prelude::*;
use crate::errno::LinuxError;

verus! {

/// Number of resource kinds a process carries limits for.
pub const RLIM_NLIMITS: u32 = 16;

/// Resource kind: data segment size.
pub const RLIMIT_DATA: u32 = 2;

/// Resource kind: stack size.
pub const RLIMIT_STACK: u32 = 3;

/// Resource kind: number of open files.
pub const RLIMIT_NOFILE: u32 = 7;

/// Default stack size limit a fresh process starts with, in bytes.
pub const DEFAULT_USER_STACK_SIZE: u64 = 0x10000;

/// Resource limit structure representing soft and hard limits.
///
/// Each resource limit has two components:
/// - `current`: The soft limit, which is the current value the process may consume.
///   If a process reaches its soft limit, it may receive a signal but can continue execution.
/// - `max`: The hard limit, which is the ceiling for the soft limit.
///   A process may only raise its soft limit up to the hard limit, and only privileged
///   processes may raise the hard limit.
#[derive(Clone, Copy, Debug, PartialEq, Eq, Structural)]
pub struct Rlimit {
    /// The current (soft) limit
    pub current: u64,
    /// The maximum (hard) limit
    pub max: u64,
}

impl Rlimit {
    /// Creates a new resource limit with specified soft and hard limits.
    pub fn new(soft: u64, hard: u64) -> (r: Self)
        ensures
            r.current == soft && r.max == hard,
    {
        Self { current: soft, max: hard }
    }
}

impl Default for Rlimit {
    /// A limit of zero for both components.
    fn default() -> (r: Self)
        ensures
            r.current == 0 && r.max == 0,
    {
        Self { current: 0, max: 0 }
    }
}

impl From<u64> for Rlimit {
    /// Creates a resource limit where both soft and hard limits are set to
    /// the same value.
    fn from(value: u64) -> (r: Self) {
        Self { current: value, max: value }
    }
}

impl vstd::std_specs::convert::FromSpecImpl<u64> for Rlimit {
    open spec fn obeys_from_spec() -> bool {
        true
    }

    open spec fn from_spec(value: u64) -> Self {
        Rlimit { current: value, max: value }
    }
}

/// Process resource limits collection: one soft/hard pair per resource kind.
pub struct Rlimits {
    /// Slot `k` holds the limits of resource kind `k`.
    pub limits: Vec<Rlimit>,
}

impl Rlimits {
    /// The table holds one entry per resource kind.
    pub open spec fn wf(self) -> bool {
        self.limits@.len() == RLIM_NLIMITS
    }

    /// Creates the default set of resource limits: the stack size and
    /// open-file limits at their configured defaults, everything else zero.
    pub fn new() -> (r: Self)
        ensures
            r.wf(),
            r.limits@[RLIMIT_STACK as int].current == DEFAULT_USER_STACK_SIZE,
            r.limits@[RLIMIT_STACK as int].max == DEFAULT_USER_STACK_SIZE,
            r.limits@[RLIMIT_NOFILE as int].current == crate::AX_FILE_LIMIT as u64,
            r.limits@[RLIMIT_NOFILE as int].max == crate::AX_FILE_LIMIT as u64,
            forall|k: int|
                0 <= k < RLIM_NLIMITS && k != RLIMIT_STACK && k != RLIMIT_NOFILE ==> (
                #[trigger] r.limits@[k]).current == 0 && r.limits@[k].max == 0,
    {
        let mut limits: Vec<Rlimit> = Vec::new();
        let mut i: u32 = 0;
        while i < 16
            invariant
                i <= 16,
                limits@.len() == i,
                forall|k: int| 0 <= k < i ==> (#[trigger] limits@[k]).current == 0
                    && limits@[k].max == 0,
            decreases 16 - i,
        {
            limits.push(Rlimit { current: 0, max: 0 });
            i += 1;
        }
        limits[3] = Rlimit { current: DEFAULT_USER_STACK_SIZE, max: DEFAULT_USER_STACK_SIZE };
        limits[7] = Rlimit {
            current: crate::AX_FILE_LIMIT as u64,
            max: crate::AX_FILE_LIMIT as u64,
        };
        Rlimits { limits }
    }

    /// The limit pair of resource kind `resource`.
    pub fn get(&self, resource: u32) -> (r: Rlimit)
        requires
            self.wf(),
            resource < RLIM_NLIMITS,
        ensures
            r == self.limits@[resource as int],
    {
        self.limits[resource as usize]
    }

    /// Replaces the limit pair of resource kind `resource`.
    pub fn set(&mut self, resource: u32, limit: Rlimit)
        requires
            old(self).wf(),
            resource < RLIM_NLIMITS,
        ensures
            final(self).wf(),
            final(self).limits@ == old(self).limits@.update(resource as int, limit),
    {
        self.limits[resource as usize] = limit;
    }
}

/// Gets or sets one resource limit of a process, with `prlimit`-style rules:
/// an out-of-range resource kind or a new soft limit above the new hard limit
/// is invalid, and raising the hard limit is refused outright. The previous
/// pair is returned on success; a refused call leaves the table untouched.
pub fn sys_prlimit64(rlimits: &mut Rlimits, resource: u32, new_limit: Option<Rlimit>) -> (r:
    Result<Rlimit, LinuxError>)
    requires
        old(rlimits).wf(),
    ensures
        final(rlimits).wf(),
        match r {
            Ok(old_limit) => {
                &&& resource < RLIM_NLIMITS
                &&& old_limit == old(rlimits).limits@[resource as int]
                &&& match new_limit {
                    Some(nl) => {
                        &&& nl.current <= nl.max
                        &&& nl.max <= old_limit.max
                        &&& final(rlimits).limits@ == old(rlimits).limits@.update(
                            resource as int,
                            nl,
                        )
                    },
                    None => *final(rlimits) == *old(rlimits),
                }
            },
            Err(e) => {
                &&& *final(rlimits) == *old(rlimits)
                &&& match e {
                    LinuxError::EINVAL => resource >= RLIM_NLIMITS || (new_limit matches Some(nl)
                        && nl.current > nl.max),
                    LinuxError::EPERM => resource < RLIM_NLIMITS && (new_limit matches Some(nl)
                        && nl.current <= nl.max && nl.max > old(
                        rlimits,
                    ).limits@[resource as int].max),
                    _ => false,
                }
            },
        },
{
    if resource >= 16 {
        return Err(LinuxError::EINVAL);
    }
    let old_limit = rlimits.get(resource);
    if let Some(nl) = new_limit {
        if nl.current > nl.max {
            return Err(LinuxError::EINVAL);
        }
        if nl.max > old_limit.max {
            return Err(LinuxError::EPERM);
        }
        rlimits.set(resource, nl);
    }
    Ok(old_limit)
}

/// Reads one resource limit of the calling process; an out-of-range resource
/// kind is invalid.
pub fn sys_getrlimit(rlimits: &Rlimits, resource: u32) -> (r: Result<Rlimit, LinuxError>)
    requires
        rlimits.wf(),
    ensures
        match r {
            Ok(limit) => resource < RLIM_NLIMITS && limit == rlimits.limits@[resource as int],
            Err(e) => e == LinuxError::EINVAL && resource >= RLIM_NLIMITS,
        },
{
    if resource >= 16 {
        return Err(LinuxError::EINVAL);
    }
    Ok(rlimits.get(resource))
}

/// Sets one resource limit of the calling process, under the same rules as
/// the cross-process call.
pub fn sys_setrlimit(rlimits: &mut Rlimits, resource: u32, limit: Rlimit) -> (r: Result<
    (),
    LinuxError,
>)
    requires
        old(rlimits).wf(),
    ensures
        final(rlimits).wf(),
        match r {
            Ok(()) => {
                &&& resource < RLIM_NLIMITS
                &&& limit.current <= limit.max
                &&& limit.max <= old(rlimits).limits@[resource as int].max
                &&& final(rlimits).limits@ == old(rlimits).limits@.update(resource as int, limit)
            },
            Err(e) => {
                &&& *final(rlimits) == *old(rlimits)
                &&& match e {
                    LinuxError::EINVAL => resource >= RLIM_NLIMITS || limit.current > limit.max,
                    LinuxError::EPERM => resource < RLIM_NLIMITS && limit.current <= limit.max
                        && limit.max > old(rlimits).limits@[resource as int].max,
                    _ => false,
                }
            },
        },
{
    match sys_prlimit64(rlimits, resource, Some(limit)) {
        Ok(_) => Ok(()),
        Err(e) => Err(e),
    }
}

} // verus!
