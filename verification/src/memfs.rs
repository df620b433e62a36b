use vstd::prelude::*;
use crate::errno::LinuxError;
use crate::strmap::StrMap;
use crate::vfs::{TimesMask, VfsNodeAttr, VfsNodePerm, VfsNodeTimes, VfsNodeType};

verus! {

/// The canonical key of the filesystem root.
pub open spec fn spec_root() -> Seq<char> {
    seq!['/']
}

/// One node of the filesystem: a regular file with its contents, or a
/// directory.
pub enum VfsNode {
    /// A regular file.
    File {
        /// The file's bytes.
        data: Vec<u8>,
        /// Permission bits.
        perm: VfsNodePerm,
        /// Timestamps.
        times: VfsNodeTimes,
    },
    /// A directory.
    Dir {
        /// Permission bits.
        perm: VfsNodePerm,
        /// Timestamps.
        times: VfsNodeTimes,
    },
}

impl VfsNode {
    /// Whether the node is a directory.
    pub open spec fn spec_is_dir(self) -> bool {
        self is Dir
    }
}

/// The contents of a file after writing `buf` at `off`: the file is
/// zero-padded up to `off` when shorter, and grows as needed to hold the
/// written bytes.
pub open spec fn spec_write_bytes(data: Seq<u8>, off: int, buf: Seq<u8>) -> Seq<u8> {
    Seq::new(
        if data.len() >= off + buf.len() {
            data.len()
        } else {
            (off + buf.len()) as nat
        },
        |i: int|
            if off <= i < off + buf.len() {
                buf[i - off]
            } else if i < data.len() {
                data[i]
            } else {
                0u8
            },
    )
}

/// The in-memory model of the filesystem collaborator: a flat map from
/// canonical path strings to nodes, plus the current working directory.
pub struct Vfs {
    /// The nodes, keyed by canonical path (no trailing slash; the root is
    /// the single slash).
    pub nodes: StrMap<VfsNode>,
    /// The current working directory, as a canonical absolute path.
    pub cwd: String,
}

impl Vfs {
    /// The node map is well formed, the root directory exists, and the
    /// working directory is an absolute path.
    pub open spec fn wf(self) -> bool {
        &&& self.nodes.wf()
        &&& self.nodes@.contains_key(spec_root())
        &&& self.nodes@[spec_root()] is Dir
        &&& self.cwd@.len() > 0
        &&& self.cwd@[0] == '/'
    }

    /// Creates a filesystem holding only the root directory, with the root
    /// as working directory.
    pub fn new() -> (r: Vfs)
        ensures
            r.wf(),
            r.nodes@.dom() =~= Set::empty().insert(spec_root()),
            r.cwd@ == spec_root(),
    {
        proof {
            reveal_strlit("/");
        }
        let root: String = String::from_str("/");
        proof {
            assert(root@ =~= spec_root());
        }
        let mut nodes: StrMap<VfsNode> = StrMap::new();
        nodes.insert(
            root.clone(),
            VfsNode::Dir { perm: VfsNodePerm::default_dir(), times: VfsNodeTimes::all_at(0, 0) },
        );
        Vfs { nodes, cwd: root }
    }

    /// The current working directory.
    pub fn cwd(&self) -> (r: &String)
        ensures
            r@ == self.cwd@,
    {
        &self.cwd
    }

    /// Changes the working directory; the target must exist and be a
    /// directory.
    pub fn set_cwd(&mut self, path: String) -> (r: Result<(), LinuxError>)
        requires
            old(self).wf(),
            path@.len() > 0 && path@[0] == '/',
        ensures
            final(self).wf(),
            final(self).nodes@ == old(self).nodes@,
            match r {
                Ok(()) => old(self).nodes@.contains_key(path@) && old(
                    self,
                ).nodes@[path@] is Dir && final(self).cwd@ == path@,
                Err(e) => final(self).cwd == old(self).cwd && (match e {
                    LinuxError::ENOENT => !old(self).nodes@.contains_key(path@),
                    LinuxError::ENOTDIR => old(self).nodes@.contains_key(path@) && !(old(
                        self,
                    ).nodes@[path@] is Dir),
                    _ => false,
                }),
            },
    {
        match self.nodes.get(&path) {
            None => Err(LinuxError::ENOENT),
            Some(node) => match node {
                VfsNode::Dir { .. } => {
                    self.cwd = path;
                    Ok(())
                },
                VfsNode::File { .. } => Err(LinuxError::ENOTDIR),
            },
        }
    }

    /// Whether a node exists at `path`.
    pub fn has_node(&self, path: &String) -> (r: bool)
        requires
            self.wf(),
        ensures
            r == self.nodes@.contains_key(path@),
    {
        self.nodes.contains_key(path)
    }

    /// Whether the node at `path` is a directory; `None` when absent.
    pub fn node_is_dir(&self, path: &String) -> (r: Option<bool>)
        requires
            self.wf(),
        ensures
            match r {
                Some(b) => self.nodes@.contains_key(path@) && b == self.nodes@[path@].spec_is_dir(),
                None => !self.nodes@.contains_key(path@),
            },
    {
        match self.nodes.get(path) {
            None => None,
            Some(node) => match node {
                VfsNode::Dir { .. } => Some(true),
                VfsNode::File { .. } => Some(false),
            },
        }
    }

    /// Creates an empty regular file at `path`; the path must be free.
    pub fn create_file(&mut self, path: String, times: VfsNodeTimes) -> (r: Result<
        (),
        LinuxError,
    >)
        requires
            old(self).wf(),
        ensures
            final(self).wf(),
            final(self).cwd == old(self).cwd,
            match r {
                Ok(()) => !old(self).nodes@.contains_key(path@) && final(self).nodes@ =~= old(
                    self,
                ).nodes@.insert(
                    path@,
                    (VfsNode::File {
                        data: final(self).nodes@[path@]->File_data,
                        perm: VfsNodePerm(0o666),
                        times,
                    }),
                ) && final(self).nodes@[path@]->File_data@ =~= Seq::<u8>::empty(),
                Err(e) => e == LinuxError::EEXIST && *final(self) == *old(self) && old(
                    self,
                ).nodes@.contains_key(path@),
            },
    {
        if self.nodes.contains_key(&path) {
            return Err(LinuxError::EEXIST);
        }
        proof {
            assert(path@ != spec_root());
        }
        self.nodes.insert(
            path,
            VfsNode::File { data: Vec::new(), perm: VfsNodePerm::default_file(), times },
        );
        Ok(())
    }

    /// Creates a directory at `path`; the path must be free.
    pub fn create_dir(&mut self, path: String, times: VfsNodeTimes) -> (r: Result<(), LinuxError>)
        requires
            old(self).wf(),
        ensures
            final(self).wf(),
            final(self).cwd == old(self).cwd,
            match r {
                Ok(()) => !old(self).nodes@.contains_key(path@) && final(self).nodes@ =~= old(
                    self,
                ).nodes@.insert(
                    path@,
                    (VfsNode::Dir { perm: VfsNodePerm(0o755), times }),
                ),
                Err(e) => e == LinuxError::EEXIST && *final(self) == *old(self) && old(
                    self,
                ).nodes@.contains_key(path@),
            },
    {
        if self.nodes.contains_key(&path) {
            return Err(LinuxError::EEXIST);
        }
        proof {
            assert(path@ != spec_root());
        }
        self.nodes.insert(path, VfsNode::Dir { perm: VfsNodePerm::default_dir(), times });
        Ok(())
    }

    /// Removes the regular file at `path`. Fails with "no such file" when
    /// the path is absent and with "is a directory" on a directory.
    pub fn remove_file(&mut self, path: &String) -> (r: Result<(), LinuxError>)
        requires
            old(self).wf(),
        ensures
            final(self).wf(),
            final(self).cwd == old(self).cwd,
            match r {
                Ok(()) => old(self).nodes@.contains_key(path@) && !(old(
                    self,
                ).nodes@[path@] is Dir) && final(self).nodes@ =~= old(self).nodes@.remove(path@),
                Err(e) => *final(self) == *old(self) && (match e {
                    LinuxError::ENOENT => !old(self).nodes@.contains_key(path@),
                    LinuxError::EISDIR => old(self).nodes@.contains_key(path@) && old(
                        self,
                    ).nodes@[path@] is Dir,
                    _ => false,
                }),
            },
    {
        match self.node_is_dir(path) {
            None => Err(LinuxError::ENOENT),
            Some(true) => Err(LinuxError::EISDIR),
            Some(false) => {
                proof {
                    assert(path@ != spec_root());
                }
                self.nodes.remove(path);
                Ok(())
            },
        }
    }

    /// Removes the directory at `path` (the root cannot be removed). This
    /// model does not track directory membership, so emptiness is not
    /// checked here.
    pub fn remove_dir(&mut self, path: &String) -> (r: Result<(), LinuxError>)
        requires
            old(self).wf(),
        ensures
            final(self).wf(),
            final(self).cwd == old(self).cwd,
            match r {
                Ok(()) => old(self).nodes@.contains_key(path@) && old(
                    self,
                ).nodes@[path@] is Dir && path@ != spec_root() && final(self).nodes@ =~= old(
                    self,
                ).nodes@.remove(path@),
                Err(e) => *final(self) == *old(self) && (match e {
                    LinuxError::ENOENT => !old(self).nodes@.contains_key(path@),
                    LinuxError::ENOTDIR => old(self).nodes@.contains_key(path@) && !(old(
                        self,
                    ).nodes@[path@] is Dir),
                    LinuxError::EPERM => path@ == spec_root(),
                    _ => false,
                }),
            },
    {
        proof {
            reveal_strlit("/");
        }
        let root: String = String::from_str("/");
        proof {
            assert(root@ =~= spec_root());
        }
        if path.eq(&root) {
            return Err(LinuxError::EPERM);
        }
        match self.node_is_dir(path) {
            None => Err(LinuxError::ENOENT),
            Some(false) => Err(LinuxError::ENOTDIR),
            Some(true) => {
                self.nodes.remove(path);
                Ok(())
            },
        }
    }

    /// The metadata of the node at `path`: type, permissions, size in bytes,
    /// occupied 512-byte blocks and timestamps. A directory reports size
    /// zero.
    pub fn metadata(&self, path: &String) -> (r: Result<VfsNodeAttr, LinuxError>)
        requires
            self.wf(),
        ensures
            match r {
                Ok(attr) => self.nodes@.contains_key(path@) && attr.size <= usize::MAX && (
                match self.nodes@[path@] {
                    VfsNode::File { data, perm, times } => attr.ty == VfsNodeType::File
                        && attr.mode == perm && attr.size == data@.len() && attr.blocks
                        == data@.len() / 512 + (if data@.len() % 512 == 0 {
                        0int
                    } else {
                        1int
                    }) && attr.times == times,
                    VfsNode::Dir { perm, times } => attr.ty == VfsNodeType::Dir && attr.mode
                        == perm && attr.size == 0 && attr.blocks == 0 && attr.times == times,
                }),
                Err(e) => e == LinuxError::ENOENT && !self.nodes@.contains_key(path@),
            },
    {
        match self.nodes.get(path) {
            None => Err(LinuxError::ENOENT),
            Some(node) => match node {
                VfsNode::File { data, perm, times } => {
                    let len = data.len();
                    let blocks = len / 512 + (if len % 512 == 0 {
                        0
                    } else {
                        1
                    });
                    Ok(
                        VfsNodeAttr::new(
                            *perm,
                            VfsNodeType::File,
                            len as u64,
                            blocks as u64,
                            *times,
                        ),
                    )
                },
                VfsNode::Dir { perm, times } => Ok(
                    VfsNodeAttr::new(*perm, VfsNodeType::Dir, 0, 0, *times),
                ),
            },
        }
    }

    /// Reads up to `len` bytes of the file at `path` starting at byte
    /// `offset`; short when the file ends first, empty when `offset` is at
    /// or past the end.
    pub fn read_at(&self, path: &String, offset: usize, len: usize) -> (r: Result<
        Vec<u8>,
        LinuxError,
    >)
        requires
            self.wf(),
        ensures
            match r {
                Ok(out) => {
                    &&& self.nodes@.contains_key(path@)
                    &&& out@.len() <= len
                    &&& offset + out@.len() <= usize::MAX
                    &&& self.nodes@[path@] matches VfsNode::File { data, .. } && out@
                        =~= data@.subrange(
                        vstd::math::min(offset as int, data@.len() as int),
                        vstd::math::min(offset + len, data@.len() as int),
                    )
                },
                Err(e) => *self == *self && (match e {
                    LinuxError::ENOENT => !self.nodes@.contains_key(path@),
                    LinuxError::EISDIR => self.nodes@.contains_key(path@)
                        && self.nodes@[path@] is Dir,
                    _ => false,
                }),
            },
    {
        match self.nodes.get(path) {
            None => Err(LinuxError::ENOENT),
            Some(node) => match node {
                VfsNode::Dir { .. } => Err(LinuxError::EISDIR),
                VfsNode::File { data, .. } => {
                    let size = data.len();
                    let start = if offset < size {
                        offset
                    } else {
                        size
                    };
                    let end = if len <= size - start {
                        start + len
                    } else {
                        size
                    };
                    let mut out: Vec<u8> = Vec::new();
                    let mut i: usize = start;
                    while i < end
                        invariant
                            start <= i <= end <= data@.len(),
                            out@ =~= data@.subrange(start as int, i as int),
                        decreases end - i,
                    {
                        out.push(data[i]);
                        proof {
                            assert(out@ =~= data@.subrange(start as int, i + 1));
                        }
                        i += 1;
                    }
                    proof {
                        assert(start as int == vstd::math::min(offset as int, data@.len() as int));
                        assert(end as int == vstd::math::min(offset + len, data@.len() as int));
                    }
                    Ok(out)
                },
            },
        }
    }

    /// Writes `buf` into the file at `path` at byte `offset`, zero-padding
    /// any gap and growing the file as needed. Returns the number of bytes
    /// written, which is always the whole buffer.
    pub fn write_at(&mut self, path: &String, offset: usize, buf: &Vec<u8>) -> (r: Result<
        usize,
        LinuxError,
    >)
        requires
            old(self).wf(),
            offset + buf@.len() <= usize::MAX,
        ensures
            final(self).wf(),
            final(self).cwd == old(self).cwd,
            match r {
                Ok(n) => {
                    &&& n == buf@.len()
                    &&& old(self).nodes@.contains_key(path@)
                    &&& old(self).nodes@[path@] matches VfsNode::File { data: old_data, perm, times }
                        && final(self).nodes@ =~= old(self).nodes@.insert(
                        path@,
                        (VfsNode::File {
                            data: final(self).nodes@[path@]->File_data,
                            perm,
                            times,
                        }),
                    ) && final(self).nodes@[path@]->File_data@ =~= spec_write_bytes(
                        old_data@,
                        offset as int,
                        buf@,
                    )
                },
                Err(e) => *final(self) == *old(self) && (match e {
                    LinuxError::ENOENT => !old(self).nodes@.contains_key(path@),
                    LinuxError::EISDIR => old(self).nodes@.contains_key(path@) && old(
                        self,
                    ).nodes@[path@] is Dir,
                    _ => false,
                }),
            },
    {
        match self.node_is_dir(path) {
            None => {
                return Err(LinuxError::ENOENT);
            },
            Some(true) => {
                return Err(LinuxError::EISDIR);
            },
            Some(false) => {},
        }
        let taken = self.nodes.remove(path);
        match taken {
            Some(VfsNode::File { mut data, perm, times }) => {
                let ghost old_data = data@;
                while data.len() < offset
                    invariant
                        old_data.len() >= offset ==> data@ =~= old_data,
                        old_data.len() < offset ==> old_data.len() <= data@.len() <= offset
                            && data@ =~= old_data + Seq::new(
                            (data@.len() - old_data.len()) as nat,
                            |i: int| 0u8,
                        ),
                    decreases offset - data@.len(),
                {
                    data.push(0);
                    proof {
                        assert(data@ =~= old_data + Seq::new(
                            (data@.len() - old_data.len()) as nat,
                            |i: int| 0u8,
                        ));
                    }
                }
                let mut i: usize = 0;
                while i < buf.len()
                    invariant
                        i <= buf@.len(),
                        offset + buf@.len() <= usize::MAX,
                        data@.len() == vstd::math::max(
                            old_data.len() as int,
                            vstd::math::max(offset as int, offset + i),
                        ),
                        forall|j: int|
                            offset <= j < offset + i ==> data@[j] == buf@[j - offset],
                        forall|j: int|
                            0 <= j < data@.len() && (j < offset || j >= offset + i) ==> data@[j]
                                == (if j < old_data.len() {
                                old_data[j]
                            } else {
                                0u8
                            }),
                    decreases buf@.len() - i,
                {
                    if offset + i < data.len() {
                        data[offset + i] = buf[i];
                    } else {
                        data.push(buf[i]);
                    }
                    i += 1;
                }
                proof {
                    assert(data@ =~= spec_write_bytes(old_data, offset as int, buf@));
                }
                let n = buf.len();
                self.nodes.insert(path.clone(), VfsNode::File { data, perm, times });
                proof {
                    assert(final(self).nodes@ =~= old(self).nodes@.insert(
                        path@,
                        final(self).nodes@[path@],
                    ));
                }
                Ok(n)
            },
            _ => {
                proof {
                    assert(false);
                }
                Err(LinuxError::ENOENT)
            },
        }
    }

    /// Updates the timestamps of the node at `path` under the given mask.
    pub fn set_node_times(&mut self, path: &String, times: &VfsNodeTimes, mask: TimesMask) -> (r:
        Result<(), LinuxError>)
        requires
            old(self).wf(),
        ensures
            final(self).wf(),
            final(self).cwd == old(self).cwd,
            match r {
                Ok(()) => {
                    &&& old(self).nodes@.contains_key(path@)
                    &&& match old(self).nodes@[path@] {
                        VfsNode::File { data, perm, times: t0 } => final(self).nodes@ =~= old(
                            self,
                        ).nodes@.insert(
                            path@,
                            (VfsNode::File {
                                data: final(self).nodes@[path@]->File_data,
                                perm,
                                times: t0.spec_set_times(*times, mask),
                            }),
                        ) && final(self).nodes@[path@]->File_data@ =~= data@,
                        VfsNode::Dir { perm, times: t0 } => final(self).nodes@ =~= old(
                            self,
                        ).nodes@.insert(
                            path@,
                            (VfsNode::Dir { perm, times: t0.spec_set_times(*times, mask) }),
                        ),
                    }
                },
                Err(e) => e == LinuxError::ENOENT && *final(self) == *old(self) && !old(
                    self,
                ).nodes@.contains_key(path@),
            },
    {
        let taken = self.nodes.remove(path);
        match taken {
            None => Err(LinuxError::ENOENT),
            Some(VfsNode::File { data, perm, times: mut t }) => {
                t.set_times(times, mask);
                self.nodes.insert(path.clone(), VfsNode::File { data, perm, times: t });
                Ok(())
            },
            Some(VfsNode::Dir { perm, times: mut t }) => {
                t.set_times(times, mask);
                self.nodes.insert(path.clone(), VfsNode::Dir { perm, times: t });
                Ok(())
            },
        }
    }

    /// Moves the node at `from` to `to`, replacing anything at `to` (the
    /// root cannot be moved).
    pub fn rename(&mut self, from: &String, to: String) -> (r: Result<(), LinuxError>)
        requires
            old(self).wf(),
            to@.len() > 0,
        ensures
            final(self).wf(),
            final(self).cwd == old(self).cwd,
            match r {
                Ok(()) => {
                    &&& old(self).nodes@.contains_key(from@)
                    &&& from@ != spec_root() && to@ != spec_root()
                    &&& final(self).nodes@ =~= old(self).nodes@.remove(from@).insert(
                        to@,
                        old(self).nodes@[from@],
                    )
                },
                Err(e) => *final(self) == *old(self) && (match e {
                    LinuxError::ENOENT => !old(self).nodes@.contains_key(from@),
                    LinuxError::EPERM => from@ == spec_root() || to@ == spec_root(),
                    _ => false,
                }),
            },
    {
        proof {
            reveal_strlit("/");
        }
        let root: String = String::from_str("/");
        proof {
            assert(root@ =~= spec_root());
        }
        if from.eq(&root) || to.eq(&root) {
            return Err(LinuxError::EPERM);
        }
        let taken = self.nodes.remove(from);
        match taken {
            None => Err(LinuxError::ENOENT),
            Some(node) => {
                self.nodes.insert(to, node);
                Ok(())
            },
        }
    }
}


/// The key prefix of entries directly inside directory `p`: the directory
/// path with exactly one trailing slash.
pub open spec fn spec_dir_prefix(p: Seq<char>) -> Seq<char> {
    if p == spec_root() {
        p
    } else {
        p + seq!['/']
    }
}

/// Whether `k` names a direct child of the directory whose prefix is `pp`:
/// it extends the prefix by a nonempty name without further slashes.
pub open spec fn spec_child_of(k: Seq<char>, pp: Seq<char>) -> bool {
    &&& k.len() > pp.len()
    &&& k.take(pp.len() as int) == pp
    &&& forall|j: int| pp.len() <= j < k.len() ==> k[j] != '/'
}

/// Whether `k` names a direct child of the directory prefix `pp`.
fn is_child_key(k: &String, pp: &String) -> (r: bool)
    ensures
        r == spec_child_of(k@, pp@),
{
    let klen = k.as_str().unicode_len();
    let pplen = pp.as_str().unicode_len();
    let mut is_child = klen > pplen;
    let mut j: usize = 0;
    while j < pplen && is_child
        invariant
            j <= pplen,
            klen == k@.len(),
            pplen == pp@.len(),
            is_child ==> klen > pplen,
            is_child ==> forall|t: int| 0 <= t < j ==> k@[t] == pp@[t],
            !is_child ==> !spec_child_of(k@, pp@),
        decreases pplen - j,
    {
        if k.as_str().get_char(j) != pp.as_str().get_char(j) {
            proof {
                if klen > pplen && k@.take(pplen as int) == pp@ {
                    assert(k@.take(pplen as int)[j as int] == pp@[j as int]);
                }
            }
            is_child = false;
        }
        j += 1;
    }
    let mut j2: usize = pplen;
    while is_child && j2 < klen
        invariant
            klen == k@.len(),
            pplen == pp@.len(),
            is_child ==> pplen <= j2 <= klen,
            is_child ==> klen > pplen,
            is_child ==> k@.take(pplen as int) =~= pp@,
            is_child ==> forall|t: int| pplen <= t < j2 ==> k@[t] != '/',
            !is_child ==> !spec_child_of(k@, pp@),
        decreases klen - j2,
    {
        if k.as_str().get_char(j2) == '/' {
            is_child = false;
        }
        j2 += 1;
    }
    proof {
        if is_child {
            assert(spec_child_of(k@, pp@));
        }
    }
    is_child
}

impl Vfs {
    /// The entries directly inside the directory at `p`: each child's name
    /// and node type, in unspecified order, each child once.
    #[verifier::rlimit(80)]
    pub fn list_dir(&self, p: &String) -> (r: Vec<(String, VfsNodeType)>)
        requires
            self.wf(),
            p@.len() > 0,
            p@[0] == '/',
        ensures
            forall|i: int, j: int| 0 <= i < j < r@.len() ==> r@[i].0@ != r@[j].0@,
            forall|i: int|
                0 <= i < r@.len() ==> spec_child_of(
                    spec_dir_prefix(p@) + (#[trigger] r@[i]).0@,
                    spec_dir_prefix(p@),
                ) && self.nodes@.contains_key(spec_dir_prefix(p@) + r@[i].0@) && r@[i].1 == (
                if self.nodes@[spec_dir_prefix(p@) + r@[i].0@] is Dir {
                    VfsNodeType::Dir
                } else {
                    VfsNodeType::File
                }),
            forall|k: Seq<char>|
                #[trigger] self.nodes@.contains_key(k) && spec_child_of(k, spec_dir_prefix(p@))
                    ==> exists|i: int|
                    0 <= i < r@.len() && spec_dir_prefix(p@) + r@[i].0@ == k,
    {
        proof {
            reveal_strlit("/");
        }
        let mut pp = p.clone();
        if p.as_str().unicode_len() != 1 {
            pp.append("/");
        } else {
            proof {
                assert(p@ =~= spec_root());
            }
        }
        proof {
            assert(pp@ == spec_dir_prefix(p@));
        }
        let pplen = pp.as_str().unicode_len();
        let keys = self.nodes.keys();
        let n = keys.len();
        let mut out: Vec<(String, VfsNodeType)> = Vec::new();
        let mut i: usize = 0;
        while i < n
            invariant
                self.wf(),
                n == keys@.len(),
                i <= n,
                pp@ == spec_dir_prefix(p@),
                pplen == pp@.len(),
                forall|a: int, b: int| 0 <= a < b < n ==> keys@[a]@ != keys@[b]@,
                forall|a: int| 0 <= a < n ==> self.nodes@.contains_key((#[trigger] keys@[a])@),
                forall|k: Seq<char>|
                    #[trigger] self.nodes@.contains_key(k) ==> exists|a: int|
                        0 <= a < n && keys@[a]@ == k,
                forall|a: int, b: int| 0 <= a < b < out@.len() ==> out@[a].0@ != out@[b].0@,
                forall|a: int|
                    0 <= a < out@.len() ==> spec_child_of(
                        pp@ + (#[trigger] out@[a]).0@,
                        pp@,
                    ) && self.nodes@.contains_key(pp@ + out@[a].0@) && out@[a].1 == (
                    if self.nodes@[pp@ + out@[a].0@] is Dir {
                        VfsNodeType::Dir
                    } else {
                        VfsNodeType::File
                    }),
                forall|a: int|
                    0 <= a < i && spec_child_of((#[trigger] keys@[a])@, pp@) ==> exists|b: int|
                        0 <= b < out@.len() && pp@ + out@[b].0@ == keys@[a]@,
                forall|b: int|
                    0 <= b < out@.len() ==> exists|a: int|
                        0 <= a < i && pp@ + (#[trigger] out@[b]).0@ == keys@[a]@,
            decreases n - i,
        {
            let k = &keys[i];
            let ghost out_pre = out@;
            if is_child_key(k, &pp) {
                let klen = k.as_str().unicode_len();
                let name = String::from_str(k.as_str().substring_char(pplen, klen));
                let ty = match self.nodes.get(k) {
                    Some(node) => match node {
                        VfsNode::Dir { .. } => VfsNodeType::Dir,
                        VfsNode::File { .. } => VfsNodeType::File,
                    },
                    None => {
                        proof {
                            assert(false);
                        }
                        VfsNodeType::File
                    },
                };
                proof {
                    assert(pp@ + name@ =~= k@);
                    assert forall|b: int| 0 <= b < out@.len() implies out@[b].0@ != name@ by {
                        if out@[b].0@ == name@ {
                            let a = choose|a: int|
                                0 <= a < i && pp@ + (#[trigger] out@[b]).0@ == keys@[a]@;
                            assert(keys@[a]@ == keys@[i as int]@);
                        }
                    }
                }
                out.push((name, ty));
                proof {
                    assert(pp@ + out@[out@.len() - 1].0@ =~= keys@[i as int]@);
                    assert forall|a: int|
                        0 <= a < i + 1 && spec_child_of((#[trigger] keys@[a])@, pp@) implies
                        exists|b: int| 0 <= b < out@.len() && pp@ + out@[b].0@ == keys@[a]@ by {
                        if a == i as int {
                            assert(pp@ + out@[out@.len() - 1].0@ == keys@[a]@);
                        } else {
                            let b = choose|b: int|
                                0 <= b < out_pre.len() && pp@ + (#[trigger] out_pre[b]).0@
                                    == keys@[a]@;
                            assert(out@[b] == out_pre[b]);
                            assert(pp@ + out@[b].0@ == keys@[a]@);
                        }
                    }
                }
            } else {
                proof {
                    assert(keys@[i as int]@ == k@);
                }
            }
            i += 1;
        }
        proof {
            assert forall|k2: Seq<char>|
                #[trigger] self.nodes@.contains_key(k2) && spec_child_of(
                    k2,
                    spec_dir_prefix(p@),
                ) implies exists|b: int| 0 <= b < out@.len() && spec_dir_prefix(p@) + out@[b].0@
                == k2 by {
                let a = choose|a: int| 0 <= a < n && (#[trigger] keys@[a])@ == k2;
            }
        }
        out
    }
}

} // verus!
