//! Process-resource and signal-delivery core of a Linux-syscall-compatible
//! personality: per-process descriptor tables, a global hardlink registry with
//! reference-counted deletion, process- and thread-scoped signal state, and an
//! address-keyed futex wait-queue registry, together with the path and
//! file-node bookkeeping they rest on.

pub mod ctl;
pub mod errno;
pub mod fd;
pub mod file;
pub mod futex;
pub mod io;
pub mod manager;
pub mod memfs;
pub mod path;
pub mod proc;
pub mod resource;
pub mod signal;
pub mod strmap;
pub mod time;
pub mod vfs;

use vstd::prelude::*;

verus! {

/// Hard cap on the number of descriptors a process can hold.
pub const AX_FILE_LIMIT: usize = 1024;

} // verus!
