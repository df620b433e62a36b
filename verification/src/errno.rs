use vstd::prelude::*;

verus! {

/// POSIX-style error codes surfaced by every fallible operation of this crate.
#[derive(Clone, Copy, PartialEq, Eq, Structural, Debug)]
pub enum LinuxError {
    /// Bad file descriptor
    EBADF,
    /// Too many open files
    EMFILE,
    /// Try again (transient; e.g. a timed wait that timed out)
    EAGAIN,
    /// Invalid argument
    EINVAL,
    /// No such file or directory
    ENOENT,
    /// Operation not permitted
    EPERM,
    /// No such process
    ESRCH,
    /// Not a directory
    ENOTDIR,
    /// Is a directory
    EISDIR,
    /// Result too large for the provided buffer
    ERANGE,
    /// Illegal seek
    ESPIPE,
    /// File exists
    EEXIST,
}

impl LinuxError {
    /// A short name for the code, for diagnostics.
    pub fn as_str(&self) -> (r: &'static str)
        ensures
            r@.len() > 0,
    {
        proof {
            reveal_strlit("EBADF");
            reveal_strlit("EMFILE");
            reveal_strlit("EAGAIN");
            reveal_strlit("EINVAL");
            reveal_strlit("ENOENT");
            reveal_strlit("EPERM");
            reveal_strlit("ESRCH");
            reveal_strlit("ENOTDIR");
            reveal_strlit("EISDIR");
            reveal_strlit("ERANGE");
            reveal_strlit("ESPIPE");
            reveal_strlit("EEXIST");
        }
        match self {
            LinuxError::EBADF => "EBADF",
            LinuxError::EMFILE => "EMFILE",
            LinuxError::EAGAIN => "EAGAIN",
            LinuxError::EINVAL => "EINVAL",
            LinuxError::ENOENT => "ENOENT",
            LinuxError::EPERM => "EPERM",
            LinuxError::ESRCH => "ESRCH",
            LinuxError::ENOTDIR => "ENOTDIR",
            LinuxError::EISDIR => "EISDIR",
            LinuxError::ERANGE => "ERANGE",
            LinuxError::ESPIPE => "ESPIPE",
            LinuxError::EEXIST => "EEXIST",
        }
    }
}

/// A generic success/failure result carrying a POSIX error code on failure.
pub type LinuxResult<T> = Result<T, LinuxError>;

} // verus!
