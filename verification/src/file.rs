use vstd::prelude::*;
use crate::errno::LinuxError;
use crate::memfs::{Vfs, VfsNode};
use crate::vfs::{TimesMask, VfsNodeTimes, VfsNodeType};

verus! {

/// Static readiness of a file-like object: nothing at this layer tracks
/// asynchronous events, so truthy and falsy stand for "never blocks".
#[derive(Debug, Clone, Copy, PartialEq, Eq, Structural)]
pub struct PollState {
    /// Whether a read would not block.
    pub readable: bool,
    /// Whether a write would not block.
    pub writable: bool,
}

/// Normalized `stat`-style metadata record.
#[derive(Debug, Clone, Copy, PartialEq, Eq, Structural)]
pub struct Kstat {
    /// Inode number (a placeholder in this layer).
    pub ino: u64,
    /// Number of hard links.
    pub nlink: u32,
    /// Owning user.
    pub uid: u32,
    /// Owning group.
    pub gid: u32,
    /// Type tag in the high bits, permission bits below.
    pub mode: u32,
    /// Size in bytes.
    pub size: u64,
    /// Occupied 512-byte blocks.
    pub blocks: u64,
    /// Preferred I/O block size.
    pub blksize: u32,
    /// Access time, seconds.
    pub atime_sec: isize,
    /// Access time, nanoseconds.
    pub atime_nsec: isize,
    /// Modification time, seconds.
    pub mtime_sec: isize,
    /// Modification time, nanoseconds.
    pub mtime_nsec: isize,
    /// Change time, seconds.
    pub ctime_sec: isize,
    /// Change time, nanoseconds.
    pub ctime_nsec: isize,
}

impl Default for Kstat {
    /// The baseline record: inode and identity placeholders at one, a
    /// 4096-byte block size, everything else zero.
    fn default() -> (r: Self)
        ensures
            r == (Kstat {
                ino: 1,
                nlink: 1,
                uid: 1,
                gid: 1,
                mode: 0,
                size: 0,
                blocks: 0,
                blksize: 4096,
                atime_sec: 0,
                atime_nsec: 0,
                mtime_sec: 0,
                mtime_nsec: 0,
                ctime_sec: 0,
                ctime_nsec: 0,
            }),
    {
        Kstat {
            ino: 1,
            nlink: 1,
            uid: 1,
            gid: 1,
            mode: 0,
            size: 0,
            blocks: 0,
            blksize: 4096,
            atime_sec: 0,
            atime_nsec: 0,
            mtime_sec: 0,
            mtime_nsec: 0,
            ctime_sec: 0,
            ctime_nsec: 0,
        }
    }
}


/// What a successful read through a handle means: a file hands out the
/// bytes at its cursor and advances it, a stream hands out end-of-input, a
/// directory never succeeds.
pub open spec fn spec_read_result(
    pre: FileLikeHandle,
    post: FileLikeHandle,
    vfs: Vfs,
    len: usize,
    out: Seq<u8>,
) -> bool {
    match pre {
        FileLikeHandle::File { path, cursor } => {
            &&& vfs.nodes@.contains_key(path@)
            &&& cursor + out.len() <= usize::MAX
            &&& vfs.nodes@[path@] matches VfsNode::File { data, .. } && out == data@.subrange(
                vstd::math::min(cursor as int, data@.len() as int),
                vstd::math::min(cursor + len, data@.len() as int),
            ) && post == (FileLikeHandle::File { path, cursor: (cursor + out.len()) as usize })
        },
        FileLikeHandle::Directory { .. } => false,
        _ => out.len() == 0 && post == pre,
    }
}

/// What a failed read through a handle means.
pub open spec fn spec_read_fail(pre: FileLikeHandle, vfs: Vfs, e: LinuxError) -> bool {
    match pre {
        FileLikeHandle::Directory { .. } => e == LinuxError::EBADF,
        FileLikeHandle::File { path, .. } => (e == LinuxError::ENOENT
            && !vfs.nodes@.contains_key(path@)) || (e == LinuxError::EISDIR
            && vfs.nodes@.contains_key(path@) && vfs.nodes@[path@] is Dir),
        _ => false,
    }
}

/// What a successful write through a handle means: a file takes the bytes
/// at its cursor (zero-padding any gap) and advances it, a stream accepts
/// and discards everything, a directory never succeeds.
pub open spec fn spec_write_result(
    pre: FileLikeHandle,
    post: FileLikeHandle,
    v0: Vfs,
    v1: Vfs,
    buf: Seq<u8>,
    n: usize,
) -> bool {
    match pre {
        FileLikeHandle::File { path, cursor } => {
            &&& n == buf.len()
            &&& cursor + buf.len() <= usize::MAX
            &&& v0.nodes@.contains_key(path@)
            &&& v0.nodes@[path@] matches VfsNode::File { data: d0, perm, times } && v1.nodes@
                =~= v0.nodes@.insert(
                path@,
                (VfsNode::File { data: v1.nodes@[path@]->File_data, perm, times }),
            ) && v1.nodes@[path@]->File_data@ =~= crate::memfs::spec_write_bytes(
                d0@,
                cursor as int,
                buf,
            )
            &&& post == (FileLikeHandle::File { path, cursor: (cursor + n) as usize })
        },
        FileLikeHandle::Directory { .. } => false,
        _ => n == buf.len() && post == pre && v1.nodes@ == v0.nodes@,
    }
}

/// What a failed write through a handle means; the filesystem is untouched.
pub open spec fn spec_write_fail(pre: FileLikeHandle, v0: Vfs, buf: Seq<u8>, e: LinuxError) -> bool {
    match pre {
        FileLikeHandle::Directory { .. } => e == LinuxError::EBADF,
        FileLikeHandle::File { path, cursor } => (e == LinuxError::ENOENT
            && !v0.nodes@.contains_key(path@)) || (e == LinuxError::EISDIR
            && v0.nodes@.contains_key(path@) && v0.nodes@[path@] is Dir) || (e
            == LinuxError::EINVAL && cursor + buf.len() > usize::MAX),
        _ => false,
    }
}

/// A capability object a descriptor names: a regular file with its shared
/// cursor, a directory with its enumeration position, or one of the
/// standard streams. A closed tagged sum replaces runtime downcasting: a
/// caller asking "is this concretely a file?" matches on the variant.
pub enum FileLikeHandle {
    /// An open regular file: its recorded canonical path and its cursor.
    File {
        /// The canonical path the file was opened by.
        path: String,
        /// The read/write position, shared by every descriptor aliasing
        /// this handle.
        cursor: usize,
    },
    /// An open directory: its recorded canonical path and the enumeration
    /// position used for continued directory listing.
    Directory {
        /// The canonical path the directory was opened by.
        path: String,
        /// How many entries have been handed out so far.
        dir_pos: usize,
    },
    /// The standard input stream.
    Stdin,
    /// The standard output or error stream.
    Stdout,
}

impl FileLikeHandle {
    /// The recorded path of a file or directory handle; the streams have
    /// none.
    pub open spec fn spec_path(self) -> Option<Seq<char>> {
        match self {
            FileLikeHandle::File { path, .. } => Some(path@),
            FileLikeHandle::Directory { path, .. } => Some(path@),
            _ => None,
        }
    }

    /// Reads up to `len` bytes. A file reads at its cursor and advances it;
    /// a stream reads nothing (end of input); a directory refuses with
    /// "bad descriptor" rather than faking an empty file.
    pub fn read(&mut self, vfs: &Vfs, len: usize) -> (r: Result<Vec<u8>, LinuxError>)
        requires
            vfs.wf(),
        ensures
            match r {
                Ok(out) => spec_read_result(*old(self), *final(self), *vfs, len, out@),
                Err(e) => *final(self) == *old(self) && spec_read_fail(*old(self), *vfs, e),
            },
    {
        match self {
            FileLikeHandle::Directory { .. } => Err(LinuxError::EBADF),
            FileLikeHandle::Stdin => Ok(Vec::new()),
            FileLikeHandle::Stdout => Ok(Vec::new()),
            FileLikeHandle::File { path, cursor } => {
                let out = vfs.read_at(path, *cursor, len)?;
                if *cursor > usize::MAX - out.len() {
                    proof {
                        assert(false);
                    }
                    return Err(LinuxError::EINVAL);
                }
                *cursor = *cursor + out.len();
                Ok(out)
            },
        }
    }

    /// Writes `buf`. A file writes at its cursor and advances it; a stream
    /// accepts everything; a directory refuses with "bad descriptor".
    pub fn write(&mut self, vfs: &mut Vfs, buf: &Vec<u8>) -> (r: Result<usize, LinuxError>)
        requires
            old(vfs).wf(),
        ensures
            final(vfs).wf(),
            final(vfs).cwd == old(vfs).cwd,
            match r {
                Ok(n) => spec_write_result(*old(self), *final(self), *old(vfs), *final(vfs), buf@, n),
                Err(e) => *final(self) == *old(self) && final(vfs).nodes@ == old(vfs).nodes@
                    && spec_write_fail(*old(self), *old(vfs), buf@, e),
            },
    {
        match self {
            FileLikeHandle::Directory { .. } => Err(LinuxError::EBADF),
            FileLikeHandle::Stdin => Ok(buf.len()),
            FileLikeHandle::Stdout => Ok(buf.len()),
            FileLikeHandle::File { path, cursor } => {
                if *cursor > usize::MAX - buf.len() {
                    return Err(LinuxError::EINVAL);
                }
                let n = vfs.write_at(path, *cursor, buf)?;
                *cursor = *cursor + n;
                Ok(n)
            },
        }
    }

    /// The normalized metadata of the underlying node: a file packs its
    /// type tag above the permission bits and reports a 512-byte block
    /// size; a directory receives a fixed mode and zeroed size; the streams
    /// report the baseline record.
    pub fn stat(&self, vfs: &Vfs) -> (r: Result<Kstat, LinuxError>)
        requires
            vfs.wf(),
        ensures
            match r {
                Ok(st) => match *self {
                    FileLikeHandle::File { path, .. } => {
                        &&& vfs.nodes@.contains_key(path@)
                        &&& vfs.nodes@[path@] matches VfsNode::File { data, perm, times } && st
                            == (Kstat {
                            mode: ((VfsNodeType::File.spec_as_u8() as u32) << 12) | (
                            perm.0 as u32),
                            size: data@.len() as u64,
                            blocks: (data@.len() / 512 + (if data@.len() % 512 == 0 {
                                0int
                            } else {
                                1int
                            })) as u64,
                            blksize: 512,
                            atime_sec: times.atime_sec as isize,
                            atime_nsec: times.atime_nsec as isize,
                            mtime_sec: times.mtime_sec as isize,
                            mtime_nsec: times.mtime_nsec as isize,
                            ctime_sec: times.ctime_sec as isize,
                            ctime_nsec: times.ctime_nsec as isize,
                            ..Kstat {
                                ino: 1,
                                nlink: 1,
                                uid: 1,
                                gid: 1,
                                mode: 0,
                                size: 0,
                                blocks: 0,
                                blksize: 4096,
                                atime_sec: 0,
                                atime_nsec: 0,
                                mtime_sec: 0,
                                mtime_nsec: 0,
                                ctime_sec: 0,
                                ctime_nsec: 0,
                            }
                        })
                    },
                    FileLikeHandle::Directory { path, .. } => {
                        &&& vfs.nodes@.contains_key(path@)
                        &&& vfs.nodes@[path@] matches VfsNode::Dir { times, .. } && st == (Kstat {
                            mode: 0o40755u32,
                            atime_sec: times.atime_sec as isize,
                            atime_nsec: times.atime_nsec as isize,
                            mtime_sec: times.mtime_sec as isize,
                            mtime_nsec: times.mtime_nsec as isize,
                            ctime_sec: times.ctime_sec as isize,
                            ctime_nsec: times.ctime_nsec as isize,
                            ..Kstat {
                                ino: 1,
                                nlink: 1,
                                uid: 1,
                                gid: 1,
                                mode: 0,
                                size: 0,
                                blocks: 0,
                                blksize: 4096,
                                atime_sec: 0,
                                atime_nsec: 0,
                                mtime_sec: 0,
                                mtime_nsec: 0,
                                ctime_sec: 0,
                                ctime_nsec: 0,
                            }
                        })
                    },
                    _ => st == Kstat::spec_baseline(),
                },
                Err(e) => e == LinuxError::ENOENT && (match *self {
                    FileLikeHandle::File { path, .. } => !vfs.nodes@.contains_key(path@)
                        || vfs.nodes@[path@] is Dir,
                    FileLikeHandle::Directory { path, .. } => !vfs.nodes@.contains_key(path@)
                        || !(vfs.nodes@[path@] is Dir),
                    _ => false,
                }),
            },
    {
        match self {
            FileLikeHandle::Stdin => Ok(Kstat::default()),
            FileLikeHandle::Stdout => Ok(Kstat::default()),
            FileLikeHandle::File { path, .. } => {
                let attr = vfs.metadata(path)?;
                match vfs.node_is_dir(path) {
                    Some(false) => {},
                    _ => {
                        return Err(LinuxError::ENOENT);
                    },
                }
                let ty = attr.file_type().as_u8();
                let perm = attr.perm();
                let times = attr.times();
                let mut st = Kstat::default();
                st.mode = ((ty as u32) << 12) | (perm.mode());
                st.size = attr.size();
                st.blocks = attr.blocks();
                st.blksize = 512;
                st.atime_sec = times.atime_sec as isize;
                st.atime_nsec = times.atime_nsec as isize;
                st.mtime_sec = times.mtime_sec as isize;
                st.mtime_nsec = times.mtime_nsec as isize;
                st.ctime_sec = times.ctime_sec as isize;
                st.ctime_nsec = times.ctime_nsec as isize;
                Ok(st)
            },
            FileLikeHandle::Directory { path, .. } => {
                let attr = vfs.metadata(path)?;
                match vfs.node_is_dir(path) {
                    Some(true) => {},
                    _ => {
                        return Err(LinuxError::ENOENT);
                    },
                }
                let times = attr.times();
                let mut st = Kstat::default();
                st.mode = 0o40755;
                st.atime_sec = times.atime_sec as isize;
                st.atime_nsec = times.atime_nsec as isize;
                st.mtime_sec = times.mtime_sec as isize;
                st.mtime_nsec = times.mtime_nsec as isize;
                st.ctime_sec = times.ctime_sec as isize;
                st.ctime_nsec = times.ctime_nsec as isize;
                Ok(st)
            },
        }
    }

    /// Static readiness: files and streams are always readable and
    /// writable; a directory reads but never writes.
    pub fn poll(&self) -> (r: Result<PollState, LinuxError>)
        ensures
            match r {
                Ok(p) => {
                    &&& p.readable
                    &&& p.writable == !(*self is Directory)
                },
                Err(_) => false,
            },
    {
        match self {
            FileLikeHandle::Directory { .. } => Ok(
                PollState { readable: true, writable: false },
            ),
            _ => Ok(PollState { readable: true, writable: true }),
        }
    }

    /// Non-blocking mode is accepted and ignored: nothing at this layer
    /// ever blocks.
    pub fn set_nonblocking(&self, nonblocking: bool) -> (r: Result<(), LinuxError>)
        ensures
            r is Ok,
    {
        let _ = nonblocking;
        Ok(())
    }

    /// Updates the underlying node's timestamps under the given mask; the
    /// streams accept and ignore the update.
    pub fn set_times(&self, vfs: &mut Vfs, times: &VfsNodeTimes, mask: TimesMask) -> (r: Result<
        (),
        LinuxError,
    >)
        requires
            old(vfs).wf(),
        ensures
            final(vfs).wf(),
            final(vfs).cwd == old(vfs).cwd,
            match r {
                Ok(()) => match self.spec_path() {
                    Some(p) => old(vfs).nodes@.contains_key(p) && (match old(vfs).nodes@[p] {
                        VfsNode::File { data, perm, times: t0 } => final(vfs).nodes@ =~= old(vfs).nodes@.insert(
                            p,
                            (VfsNode::File {
                                data: final(vfs).nodes@[p]->File_data,
                                perm,
                                times: t0.spec_set_times(*times, mask),
                            }),
                        ) && final(vfs).nodes@[p]->File_data@ =~= data@,
                        VfsNode::Dir { perm, times: t0 } => final(vfs).nodes@ =~= old(vfs).nodes@.insert(
                            p,
                            (VfsNode::Dir { perm, times: t0.spec_set_times(*times, mask) }),
                        ),
                    }),
                    None => final(vfs).nodes@ == old(vfs).nodes@,
                },
                Err(e) => e == LinuxError::ENOENT && final(vfs).nodes@ == old(vfs).nodes@ && (
                match self.spec_path() {
                    Some(p) => !old(vfs).nodes@.contains_key(p),
                    None => false,
                }),
            },
    {
        match self {
            FileLikeHandle::Stdin => Ok(()),
            FileLikeHandle::Stdout => Ok(()),
            FileLikeHandle::File { path, .. } => vfs.set_node_times(path, times, mask),
            FileLikeHandle::Directory { path, .. } => vfs.set_node_times(path, times, mask),
        }
    }
}

impl Kstat {
    /// The record [`Kstat::default`] builds.
    pub open spec fn spec_baseline() -> Kstat {
        Kstat {
            ino: 1,
            nlink: 1,
            uid: 1,
            gid: 1,
            mode: 0,
            size: 0,
            blocks: 0,
            blksize: 4096,
            atime_sec: 0,
            atime_nsec: 0,
            mtime_sec: 0,
            mtime_nsec: 0,
            ctime_sec: 0,
            ctime_nsec: 0,
        }
    }
}

/// One arena slot: a handle plus how many descriptor-table entries and
/// outstanding external references share it.
pub struct HandleSlot {
    /// Outstanding references; zero marks a free slot.
    pub refs: u64,
    /// The handle itself.
    pub obj: FileLikeHandle,
}

/// Shared ownership of file-like handles: descriptor tables hold indices
/// into this arena, and a slot is recycled once its last reference is
/// dropped.
pub struct HandleArena {
    /// The slots; an index into this vector identifies a handle.
    pub slots: Vec<HandleSlot>,
}

impl HandleArena {
    /// Creates an empty arena.
    pub fn new() -> (r: HandleArena)
        ensures
            r.slots@.len() == 0,
    {
        HandleArena { slots: Vec::new() }
    }

    /// Stores `obj` with one reference, reusing a free slot if any, and
    /// returns its handle index.
    pub fn store(&mut self, obj: FileLikeHandle) -> (h: usize)
        requires
            old(self).slots@.len() < usize::MAX,
        ensures
            h < final(self).slots@.len(),
            final(self).slots@[h as int].refs == 1,
            final(self).slots@[h as int].obj == obj,
            old(self).slots@.len() <= final(self).slots@.len() <= old(self).slots@.len() + 1,
            forall|i: int|
                0 <= i < old(self).slots@.len() && i != h ==> final(self).slots@[i] == old(self).slots@[i],
            h < old(self).slots@.len() ==> old(self).slots@[h as int].refs == 0 && final(self).slots@.len() == old(self).slots@.len(),
    {
        let n = self.slots.len();
        let mut i: usize = 0;
        while i < n
            invariant
                *self == *old(self),
                i <= n,
                n == self.slots@.len(),
            decreases n - i,
        {
            if self.slots[i].refs == 0 {
                self.slots.set(i, HandleSlot { refs: 1, obj });
                return i;
            }
            i += 1;
        }
        self.slots.push(HandleSlot { refs: 1, obj });
        n
    }

    /// Adds one reference to the handle at `h`.
    pub fn retain(&mut self, h: usize)
        requires
            h < old(self).slots@.len(),
            old(self).slots@[h as int].refs >= 1,
            old(self).slots@[h as int].refs < u64::MAX,
        ensures
            final(self).slots@ == old(self).slots@.update(
                h as int,
                (HandleSlot {
                    refs: (old(self).slots@[h as int].refs + 1) as u64,
                    obj: old(self).slots@[h as int].obj,
                }),
            ),
    {
        let refs = self.slots[h].refs;
        let mut taken = HandleSlot { refs: refs + 1, obj: FileLikeHandle::Stdin };
        self.slots.set_and_swap(h, &mut taken);
        let obj = match taken {
            HandleSlot { obj, .. } => obj,
        };
        let mut back = HandleSlot { refs: refs + 1, obj };
        self.slots.set_and_swap(h, &mut back);
    }

    /// Drops one reference from the handle at `h`; at zero the slot is
    /// free and the handle is finalized.
    pub fn release(&mut self, h: usize)
        requires
            h < old(self).slots@.len(),
            old(self).slots@[h as int].refs >= 1,
        ensures
            final(self).slots@.len() == old(self).slots@.len(),
            final(self).slots@[h as int].refs == old(self).slots@[h as int].refs - 1,
            old(self).slots@[h as int].refs > 1 ==> final(self).slots@ == old(self).slots@.update(
                h as int,
                (HandleSlot {
                    refs: (old(self).slots@[h as int].refs - 1) as u64,
                    obj: old(self).slots@[h as int].obj,
                }),
            ),
            forall|i: int|
                0 <= i < old(self).slots@.len() && i != h ==> final(self).slots@[i] == old(self).slots@[i],
    {
        let refs = self.slots[h].refs;
        if refs == 1 {
            self.slots.set(h, HandleSlot { refs: 0, obj: FileLikeHandle::Stdin });
        } else {
            let mut taken = HandleSlot { refs: 0, obj: FileLikeHandle::Stdin };
            self.slots.set_and_swap(h, &mut taken);
            let obj = match taken {
                HandleSlot { obj, .. } => obj,
            };
            let mut back = HandleSlot { refs: refs - 1, obj };
            self.slots.set_and_swap(h, &mut back);
        }
    }
}

} // verus!
