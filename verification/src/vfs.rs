use vstd::prelude::*;
use vstd::string::StringSliceAdditionalSpecFns;

verus! {

/// Filesystem attributes.
///
/// Currently not used.
#[non_exhaustive]
pub struct FileSystemInfo;

/// Node (file/directory) permission mode, kept as the standard Unix
/// permission bits (the low nine bits of `st_mode`).
#[derive(Debug, Clone, Copy, PartialEq, Eq, Structural)]
pub struct VfsNodePerm(pub u16);

/// Owner has read permission.
pub const OWNER_READ: u16 = 0o400;
/// Owner has write permission.
pub const OWNER_WRITE: u16 = 0o200;
/// Owner has execute permission.
pub const OWNER_EXEC: u16 = 0o100;
/// Group has read permission.
pub const GROUP_READ: u16 = 0o40;
/// Group has write permission.
pub const GROUP_WRITE: u16 = 0o20;
/// Group has execute permission.
pub const GROUP_EXEC: u16 = 0o10;
/// Others have read permission.
pub const OTHER_READ: u16 = 0o4;
/// Others have write permission.
pub const OTHER_WRITE: u16 = 0o2;
/// Others have execute permission.
pub const OTHER_EXEC: u16 = 0o1;

impl VfsNodePerm {
    /// Whether every bit of `flag` is set in the permission.
    pub open spec fn spec_contains(self, flag: u16) -> bool {
        self.0 & flag == flag
    }

    /// Whether every bit of `flag` is set in the permission.
    pub fn contains(&self, flag: u16) -> (r: bool)
        ensures
            r == self.spec_contains(flag),
    {
        self.0 & flag == flag
    }

    /// Returns the default permission for a file.
    ///
    /// The default permission is `0o666` (owner/group/others can read and write).
    pub fn default_file() -> (r: Self)
        ensures
            r.0 == 0o666,
    {
        Self(0o666)
    }

    /// Returns the default permission for a directory.
    ///
    /// The default permission is `0o755` (owner can read, write and execute,
    /// group/others can read and execute).
    pub fn default_dir() -> (r: Self)
        ensures
            r.0 == 0o755,
    {
        Self(0o755)
    }

    /// Returns the underlying raw `st_mode` bits that contain the standard
    /// Unix permissions for this file.
    pub fn mode(&self) -> (r: u32)
        ensures
            r == self.0 as u32,
    {
        self.0 as u32
    }

    /// Returns a 9-bytes string representation of the permission.
    ///
    /// For example, `0o755` is represented as `rwxr-xr-x`.
    pub fn rwx_buf(&self) -> (r: [u8; 9])
        ensures
            r@ =~= seq![
                if self.spec_contains(OWNER_READ) { 114u8 } else { 45u8 },
                if self.spec_contains(OWNER_WRITE) { 119u8 } else { 45u8 },
                if self.spec_contains(OWNER_EXEC) { 120u8 } else { 45u8 },
                if self.spec_contains(GROUP_READ) { 114u8 } else { 45u8 },
                if self.spec_contains(GROUP_WRITE) { 119u8 } else { 45u8 },
                if self.spec_contains(GROUP_EXEC) { 120u8 } else { 45u8 },
                if self.spec_contains(OTHER_READ) { 114u8 } else { 45u8 },
                if self.spec_contains(OTHER_WRITE) { 119u8 } else { 45u8 },
                if self.spec_contains(OTHER_EXEC) { 120u8 } else { 45u8 },
            ],
    {
        let mut perm: [u8; 9] = [45u8; 9];
        if self.contains(OWNER_READ) {
            perm[0] = 114u8;
        }
        if self.contains(OWNER_WRITE) {
            perm[1] = 119u8;
        }
        if self.contains(OWNER_EXEC) {
            perm[2] = 120u8;
        }
        if self.contains(GROUP_READ) {
            perm[3] = 114u8;
        }
        if self.contains(GROUP_WRITE) {
            perm[4] = 119u8;
        }
        if self.contains(GROUP_EXEC) {
            perm[5] = 120u8;
        }
        if self.contains(OTHER_READ) {
            perm[6] = 114u8;
        }
        if self.contains(OTHER_WRITE) {
            perm[7] = 119u8;
        }
        if self.contains(OTHER_EXEC) {
            perm[8] = 120u8;
        }
        perm
    }

    /// Whether the owner has read permission.
    pub fn owner_readable(&self) -> (r: bool)
        ensures
            r == self.spec_contains(OWNER_READ),
    {
        self.contains(OWNER_READ)
    }

    /// Whether the owner has write permission.
    pub fn owner_writable(&self) -> (r: bool)
        ensures
            r == self.spec_contains(OWNER_WRITE),
    {
        self.contains(OWNER_WRITE)
    }

    /// Whether the owner has execute permission.
    pub fn owner_executable(&self) -> (r: bool)
        ensures
            r == self.spec_contains(OWNER_EXEC),
    {
        self.contains(OWNER_EXEC)
    }
}

/// Node (file/directory) type.
#[derive(Debug, Clone, Copy, Eq, PartialEq, Structural)]
pub enum VfsNodeType {
    /// FIFO (named pipe)
    Fifo,
    /// Character device
    CharDevice,
    /// Directory
    Dir,
    /// Block device
    BlockDevice,
    /// Regular file
    File,
    /// Symbolic link
    SymLink,
    /// Socket
    Socket,
}

impl VfsNodeType {
    /// The numeric tag of this type, as stored in the high bits of `st_mode`.
    pub open spec fn spec_as_u8(self) -> u8 {
        match self {
            VfsNodeType::Fifo => 0o1,
            VfsNodeType::CharDevice => 0o2,
            VfsNodeType::Dir => 0o4,
            VfsNodeType::BlockDevice => 0o6,
            VfsNodeType::File => 0o10,
            VfsNodeType::SymLink => 0o12,
            VfsNodeType::Socket => 0o14,
        }
    }

    /// The numeric tag of this type, as stored in the high bits of `st_mode`.
    pub fn as_u8(self) -> (r: u8)
        ensures
            r == self.spec_as_u8(),
    {
        match self {
            VfsNodeType::Fifo => 0o1,
            VfsNodeType::CharDevice => 0o2,
            VfsNodeType::Dir => 0o4,
            VfsNodeType::BlockDevice => 0o6,
            VfsNodeType::File => 0o10,
            VfsNodeType::SymLink => 0o12,
            VfsNodeType::Socket => 0o14,
        }
    }

    /// Tests whether this node type represents a regular file.
    pub fn is_file(self) -> (r: bool)
        ensures
            r == (self == VfsNodeType::File),
    {
        matches!(self, VfsNodeType::File)
    }

    /// Tests whether this node type represents a directory.
    pub fn is_dir(self) -> (r: bool)
        ensures
            r == (self == VfsNodeType::Dir),
    {
        matches!(self, VfsNodeType::Dir)
    }

    /// Tests whether this node type represents a symbolic link.
    pub fn is_symlink(self) -> (r: bool)
        ensures
            r == (self == VfsNodeType::SymLink),
    {
        matches!(self, VfsNodeType::SymLink)
    }

    /// Returns `true` if this node type is a block device.
    pub fn is_block_device(self) -> (r: bool)
        ensures
            r == (self == VfsNodeType::BlockDevice),
    {
        matches!(self, VfsNodeType::BlockDevice)
    }

    /// Returns `true` if this node type is a char device.
    pub fn is_char_device(self) -> (r: bool)
        ensures
            r == (self == VfsNodeType::CharDevice),
    {
        matches!(self, VfsNodeType::CharDevice)
    }

    /// Returns `true` if this node type is a fifo.
    pub fn is_fifo(self) -> (r: bool)
        ensures
            r == (self == VfsNodeType::Fifo),
    {
        matches!(self, VfsNodeType::Fifo)
    }

    /// Returns `true` if this node type is a socket.
    pub fn is_socket(self) -> (r: bool)
        ensures
            r == (self == VfsNodeType::Socket),
    {
        matches!(self, VfsNodeType::Socket)
    }

    /// The character representing the node type.
    pub open spec fn spec_as_char(self) -> char {
        match self {
            VfsNodeType::Fifo => 'p',
            VfsNodeType::CharDevice => 'c',
            VfsNodeType::Dir => 'd',
            VfsNodeType::BlockDevice => 'b',
            VfsNodeType::File => '-',
            VfsNodeType::SymLink => 'l',
            VfsNodeType::Socket => 's',
        }
    }

    /// Returns a character representation of the node type.
    ///
    /// For example, `d` for directory, `-` for regular file, etc.
    pub fn as_char(self) -> (r: char)
        ensures
            r == self.spec_as_char(),
    {
        match self {
            VfsNodeType::Fifo => 'p',
            VfsNodeType::CharDevice => 'c',
            VfsNodeType::Dir => 'd',
            VfsNodeType::BlockDevice => 'b',
            VfsNodeType::File => '-',
            VfsNodeType::SymLink => 'l',
            VfsNodeType::Socket => 's',
        }
    }
}

/// Update mask for [`VfsNodeTimes::set_times`]: each flag selects one
/// timestamp field for updating.
#[derive(Debug, Clone, Copy, PartialEq, Eq, Structural)]
pub struct TimesMask {
    /// Update the access-time seconds field.
    pub atime: bool,
    /// Update the modification-time seconds field.
    pub mtime: bool,
    /// Update the change-time seconds field.
    pub ctime: bool,
    /// Update the access-time nanoseconds field.
    pub atime_nsec: bool,
    /// Update the modification-time nanoseconds field.
    pub mtime_nsec: bool,
    /// Update the change-time nanoseconds field.
    pub ctime_nsec: bool,
}

impl TimesMask {
    /// The mask selecting every field.
    pub fn all() -> (r: TimesMask)
        ensures
            r == (TimesMask {
                atime: true,
                mtime: true,
                ctime: true,
                atime_nsec: true,
                mtime_nsec: true,
                ctime_nsec: true,
            }),
    {
        TimesMask {
            atime: true,
            mtime: true,
            ctime: true,
            atime_nsec: true,
            mtime_nsec: true,
            ctime_nsec: true,
        }
    }

    /// The mask selecting no field.
    pub fn none() -> (r: TimesMask)
        ensures
            r == (TimesMask {
                atime: false,
                mtime: false,
                ctime: false,
                atime_nsec: false,
                mtime_nsec: false,
                ctime_nsec: false,
            }),
    {
        TimesMask {
            atime: false,
            mtime: false,
            ctime: false,
            atime_nsec: false,
            mtime_nsec: false,
            ctime_nsec: false,
        }
    }
}

/// File timestamps, in seconds and nanoseconds for access, modification and
/// change time.
#[derive(Debug, Clone, Copy, PartialEq, Eq, Structural)]
pub struct VfsNodeTimes {
    /// Access time, seconds part.
    pub atime_sec: u64,
    /// Access time, nanoseconds part.
    pub atime_nsec: u64,
    /// Modification time, seconds part.
    pub mtime_sec: u64,
    /// Modification time, nanoseconds part.
    pub mtime_nsec: u64,
    /// Change time, seconds part.
    pub ctime_sec: u64,
    /// Change time, nanoseconds part.
    pub ctime_nsec: u64,
}

impl VfsNodeTimes {
    /// Creates a timestamp with every field given explicitly.
    pub fn new(
        atime_sec: u64,
        atime_nsec: u64,
        mtime_sec: u64,
        mtime_nsec: u64,
        ctime_sec: u64,
        ctime_nsec: u64,
    ) -> (r: Self)
        ensures
            r == (VfsNodeTimes { atime_sec, atime_nsec, mtime_sec, mtime_nsec, ctime_sec, ctime_nsec }),
    {
        Self { atime_sec, atime_nsec, mtime_sec, mtime_nsec, ctime_sec, ctime_nsec }
    }

    /// Creates a timestamp with all three times set to the given instant.
    pub fn all_at(secs: u64, nanos: u64) -> (r: Self)
        ensures
            r == (VfsNodeTimes {
                atime_sec: secs,
                atime_nsec: nanos,
                mtime_sec: secs,
                mtime_nsec: nanos,
                ctime_sec: secs,
                ctime_nsec: nanos,
            }),
    {
        Self {
            atime_sec: secs,
            atime_nsec: nanos,
            mtime_sec: secs,
            mtime_nsec: nanos,
            ctime_sec: secs,
            ctime_nsec: nanos,
        }
    }

    /// The timestamp after updating `self` from `times` under `mask`.
    pub open spec fn spec_set_times(self, times: VfsNodeTimes, mask: TimesMask) -> VfsNodeTimes {
        VfsNodeTimes {
            atime_sec: if mask.atime { times.atime_sec } else { self.atime_sec },
            mtime_sec: if mask.mtime { times.mtime_sec } else { self.mtime_sec },
            ctime_sec: if mask.ctime { times.ctime_sec } else { self.ctime_sec },
            atime_nsec: if mask.atime_nsec { times.atime_nsec } else { self.atime_nsec },
            mtime_nsec: if mask.mtime_nsec { times.mtime_nsec } else { self.mtime_nsec },
            ctime_nsec: if mask.ctime_nsec { times.ctime_nsec } else { self.ctime_nsec },
        }
    }

    /// Updates the timestamps based on the given mask and new times.
    /// Only the fields specified in the mask will be updated.
    pub fn set_times(&mut self, times: &VfsNodeTimes, mask: TimesMask)
        ensures
            *final(self) == old(self).spec_set_times(*times, mask),
    {
        if mask.atime {
            self.atime_sec = times.atime_sec;
        }
        if mask.mtime {
            self.mtime_sec = times.mtime_sec;
        }
        if mask.ctime {
            self.ctime_sec = times.ctime_sec;
        }
        if mask.atime_nsec {
            self.atime_nsec = times.atime_nsec;
        }
        if mask.mtime_nsec {
            self.mtime_nsec = times.mtime_nsec;
        }
        if mask.ctime_nsec {
            self.ctime_nsec = times.ctime_nsec;
        }
    }
}

/// Node (file/directory) attributes.
#[derive(Debug, Clone, Copy)]
pub struct VfsNodeAttr {
    /// File permission mode.
    pub mode: VfsNodePerm,
    /// File type.
    pub ty: VfsNodeType,
    /// Total size, in bytes.
    pub size: u64,
    /// Number of 512B blocks allocated.
    pub blocks: u64,
    /// File timestamps
    pub times: VfsNodeTimes,
}

impl VfsNodeAttr {
    /// Creates a new `VfsNodeAttr` with the given permission mode, type, size
    /// and number of blocks.
    pub fn new(
        mode: VfsNodePerm,
        ty: VfsNodeType,
        size: u64,
        blocks: u64,
        times: VfsNodeTimes,
    ) -> (r: Self)
        ensures
            r.mode == mode && r.ty == ty && r.size == size && r.blocks == blocks && r.times
                == times,
    {
        Self { mode, ty, size, blocks, times }
    }

    /// Creates a new `VfsNodeAttr` for a file, with the default file permission.
    pub fn new_file(size: u64, blocks: u64, times: VfsNodeTimes) -> (r: Self)
        ensures
            r.mode.0 == 0o666 && r.ty == VfsNodeType::File && r.size == size && r.blocks == blocks
                && r.times == times,
    {
        Self {
            mode: VfsNodePerm::default_file(),
            ty: VfsNodeType::File,
            size,
            blocks,
            times,
        }
    }

    /// Creates a new `VfsNodeAttr` for a directory, with the default directory
    /// permission.
    pub fn new_dir(size: u64, blocks: u64, times: VfsNodeTimes) -> (r: Self)
        ensures
            r.mode.0 == 0o755 && r.ty == VfsNodeType::Dir && r.size == size && r.blocks == blocks
                && r.times == times,
    {
        Self {
            mode: VfsNodePerm::default_dir(),
            ty: VfsNodeType::Dir,
            size,
            blocks,
            times,
        }
    }

    /// Returns the size of the node.
    pub fn size(&self) -> (r: u64)
        ensures
            r == self.size,
    {
        self.size
    }

    /// Returns the number of blocks the node occupies on the disk.
    pub fn blocks(&self) -> (r: u64)
        ensures
            r == self.blocks,
    {
        self.blocks
    }

    /// Returns the permission of the node.
    pub fn perm(&self) -> (r: VfsNodePerm)
        ensures
            r == self.mode,
    {
        self.mode
    }

    /// Returns the timestamps of the node.
    pub fn times(&self) -> (r: VfsNodeTimes)
        ensures
            r == self.times,
    {
        self.times
    }

    /// Sets the permission of the node.
    pub fn set_perm(&mut self, perm: VfsNodePerm)
        ensures
            *final(self) == (VfsNodeAttr { mode: perm, ..*old(self) }),
    {
        self.mode = perm
    }

    /// Returns the type of the node.
    pub fn file_type(&self) -> (r: VfsNodeType)
        ensures
            r == self.ty,
    {
        self.ty
    }

    /// Whether the node is a file.
    pub fn is_file(&self) -> (r: bool)
        ensures
            r == (self.ty == VfsNodeType::File),
    {
        self.ty.is_file()
    }

    /// Whether the node is a directory.
    pub fn is_dir(&self) -> (r: bool)
        ensures
            r == (self.ty == VfsNodeType::Dir),
    {
        self.ty.is_dir()
    }
}

/// Directory entry: a node type plus a fixed-size, NUL-padded name.
pub struct VfsDirEntry {
    d_type: VfsNodeType,
    d_name: [u8; 63],
}

impl VfsDirEntry {
    /// The stored node type.
    pub closed spec fn spec_type(self) -> VfsNodeType {
        self.d_type
    }

    /// The raw, NUL-padded name buffer.
    pub closed spec fn spec_raw_name(self) -> Seq<u8> {
        self.d_name@
    }
}

impl VfsDirEntry {
    /// The significant bytes of the stored name: everything before the first
    /// NUL, or the whole buffer if no NUL occurs.
    pub open spec fn spec_name(self) -> Seq<u8> {
        let bytes = self.spec_raw_name();
        if exists|i: int| 0 <= i < bytes.len() && bytes[i] == 0 {
            let end = choose|i: int| 0 <= i < bytes.len() && bytes[i] == 0 && (forall|j: int|
                0 <= j < i ==> bytes[j] != 0);
            bytes.take(end)
        } else {
            bytes
        }
    }

    /// Creates an empty `VfsDirEntry`.
    pub fn default() -> (r: Self)
        ensures
            r.spec_type() == VfsNodeType::File,
            r.spec_raw_name() =~= Seq::new(63, |i: int| 0u8),
    {
        Self { d_type: VfsNodeType::File, d_name: [0; 63] }
    }

    /// Creates a new `VfsDirEntry` with the given name and type.
    pub fn new(name: &str, ty: VfsNodeType) -> (r: Self)
        requires
            name.spec_bytes().len() <= 63,
        ensures
            r.spec_type() == ty,
            r.spec_raw_name().len() == 63,
            r.spec_raw_name().take(name.spec_bytes().len() as int) =~= name.spec_bytes(),
            r.spec_raw_name().skip(name.spec_bytes().len() as int) =~= Seq::new(
                (63 - name.spec_bytes().len()) as nat,
                |i: int| 0u8,
            ),
    {
        let bytes = name.as_bytes();
        let mut d_name: [u8; 63] = [0; 63];
        let mut i: usize = 0;
        while i < bytes.len()
            invariant
                i <= bytes.len(),
                bytes@ == name.spec_bytes(),
                bytes@.len() <= 63,
                d_name@.len() == 63,
                forall|j: int| 0 <= j < i ==> d_name@[j] == bytes@[j],
                forall|j: int| i <= j < 63 ==> d_name@[j] == 0u8,
            decreases bytes.len() - i,
        {
            d_name[i] = bytes[i];
            i += 1;
        }
        Self { d_type: ty, d_name }
    }

    /// Returns the type of the entry.
    pub fn entry_type(&self) -> (r: VfsNodeType)
        ensures
            r == self.spec_type(),
    {
        self.d_type
    }

    /// Converts the name of the entry to a byte slice.
    pub fn name_as_bytes(&self) -> (r: &[u8])
        ensures
            r@ =~= self.spec_name(),
    {
        let mut len: usize = 0;
        while len < 63 && self.d_name[len] != 0
            invariant
                len <= 63,
                self.d_name@.len() == 63,
                forall|j: int| 0 <= j < len ==> self.d_name@[j] != 0,
            decreases 63 - len,
        {
            len += 1;
        }
        proof {
            let bytes = self.d_name@;
            if len < 63 {
                assert(bytes[len as int] == 0);
                assert(exists|k: int| 0 <= k < bytes.len() && bytes[k] == 0);
                let end = choose|k: int| 0 <= k < bytes.len() && bytes[k] == 0 && (forall|j: int|
                    0 <= j < k ==> bytes[j] != 0);
                assert(end == len as int) by {
                    if end < len as int {
                        assert(bytes[end] != 0);
                    }
                    if end > len as int {
                        assert(bytes[len as int] != 0);
                    }
                }
            } else {
                assert(forall|k: int| 0 <= k < bytes.len() ==> bytes[k] != 0);
                assert(!(exists|k: int| 0 <= k < bytes.len() && bytes[k] == 0));
            }
        }
        vstd::slice::slice_subrange(&self.d_name, 0, len)
    }
}

} // verus!
