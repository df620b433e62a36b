use starry_res::ctl::{
    AT_REMOVEDIR, UTIME_NOW, UTIME_OMIT, build_times_update, handle_file_path, sys_chdir,
    sys_getcwd, sys_linkat, sys_mkdirat, sys_readlinkat, sys_renameat2, sys_unlinkat,
    sys_utimensat,
};
use starry_res::errno::LinuxError;
use starry_res::fd::{AT_FDCWD, FdTable, add_file_like, get_file_like_at};
use starry_res::file::{FileLikeHandle, HandleArena, Kstat, PollState};
use starry_res::io::{
    DirBuffer, FileType, SEEK_CUR, SEEK_END, SEEK_SET, sys_getdents64, sys_lseek, sys_sendfile,
    sys_write,
};
use starry_res::memfs::Vfs;
use starry_res::path::HardlinkManager;
use starry_res::resource::Rlimits;
use starry_res::time::{
    TimeSpec, TimeVal, TimeValue, nanosleep_remaining, timespec_to_timevalue,
    timeval_to_timevalue, timevalue_to_timespec, timevalue_to_timeval,
};
use starry_res::vfs::{
    OWNER_EXEC, OWNER_READ, OWNER_WRITE, VfsDirEntry, VfsNodePerm, VfsNodeTimes, VfsNodeType,
};

fn world() -> (Vfs, HardlinkManager, FdTable, HandleArena, Rlimits) {
    (
        Vfs::new(),
        HardlinkManager::new(),
        FdTable::new(),
        HandleArena::new(),
        Rlimits::new(),
    )
}

fn zt() -> VfsNodeTimes {
    VfsNodeTimes::all_at(0, 0)
}

// Permission bits render exactly as the nine-character rwx string.
#[test]
fn perm_rwx_rendering() {
    assert_eq!(&VfsNodePerm(0o755).rwx_buf(), b"rwxr-xr-x");
    assert_eq!(&VfsNodePerm(0o640).rwx_buf(), b"rw-r-----");
    assert_eq!(&VfsNodePerm(0).rwx_buf(), b"---------");
    assert_eq!(VfsNodePerm(0o755).mode(), 0o755);
    assert!(VfsNodePerm(0o400).contains(OWNER_READ));
    assert!(!VfsNodePerm(0o400).contains(OWNER_WRITE));
    assert!(VfsNodePerm::default_file().owner_readable());
    assert!(VfsNodePerm::default_file().owner_writable());
    assert!(!VfsNodePerm::default_dir().contains(OWNER_WRITE >> 3));
    assert!(VfsNodePerm::default_dir().contains(OWNER_EXEC));
}

// Node types know their tags and characters.
#[test]
fn node_type_tags() {
    assert!(VfsNodeType::File.is_file());
    assert!(VfsNodeType::Dir.is_dir());
    assert!(VfsNodeType::SymLink.is_symlink());
    assert!(VfsNodeType::BlockDevice.is_block_device());
    assert!(VfsNodeType::CharDevice.is_char_device());
    assert!(VfsNodeType::Fifo.is_fifo());
    assert!(VfsNodeType::Socket.is_socket());
    assert_eq!(VfsNodeType::File.as_char(), '-');
    assert_eq!(VfsNodeType::Dir.as_char(), 'd');
    assert_eq!(VfsNodeType::SymLink.as_char(), 'l');
    assert_eq!(VfsNodeType::File.as_u8(), 0o10);
    assert_eq!(VfsNodeType::Dir.as_u8(), 0o4);
}

// Directory entries keep their name up to the first NUL.
#[test]
fn dir_entry_names() {
    let e = VfsDirEntry::new("hello", VfsNodeType::File);
    assert_eq!(e.entry_type(), VfsNodeType::File);
    assert_eq!(e.name_as_bytes(), b"hello");
    let d = VfsDirEntry::default();
    assert_eq!(d.name_as_bytes(), b"");
    // A name filling the whole 63-byte field comes back whole: no NUL is
    // stored, so every byte is significant.
    let long = "a".repeat(63);
    let f = VfsDirEntry::new(&long, VfsNodeType::Dir);
    assert_eq!(f.name_as_bytes(), long.as_bytes());
}

// Time conversions are exact, and a sleep remainder is computed from the
// actual elapsed time.
#[test]
fn time_conversions() {
    let tv = TimeValue::new(3, 500_000_000);
    let ts = timevalue_to_timespec(tv);
    assert_eq!((ts.tv_sec, ts.tv_nsec), (3, 500_000_000));
    assert_eq!(timespec_to_timevalue(ts), tv);

    let tval = timevalue_to_timeval(TimeValue::new(1, 2500));
    assert_eq!((tval.tv_sec, tval.tv_usec), (1, 2));
    assert_eq!(
        timeval_to_timevalue(TimeVal { tv_sec: 1, tv_usec: 2 }),
        TimeValue::new(1, 2000)
    );

    let req = TimeSpec { tv_sec: 1, tv_nsec: 0 };
    let rem = nanosleep_remaining(req, TimeValue::new(0, 400_000_000)).unwrap();
    assert_eq!(rem, Some(TimeValue::new(0, 600_000_000)));
    let none = nanosleep_remaining(req, TimeValue::new(2, 0)).unwrap();
    assert_eq!(none, None);
    let bad = TimeSpec { tv_sec: -1, tv_nsec: 0 };
    assert_eq!(
        nanosleep_remaining(bad, TimeValue::new(0, 0)),
        Err(LinuxError::EINVAL)
    );
}

// The baseline stat record and static poll readiness.
#[test]
fn stat_and_poll() {
    let (mut vfs, reg, _t, _a, _r) = world();
    vfs.create_file(String::from("/f"), VfsNodeTimes::all_at(5, 6)).unwrap();
    let f = get_file_like_at(&_t, &_a, &vfs, &reg, AT_FDCWD, "/f").unwrap();
    let st = f.stat(&vfs).unwrap();
    assert_eq!(st.size, 0);
    assert_eq!(st.blksize, 512);
    assert_eq!(st.mode, (0o10 << 12) | 0o666);
    assert_eq!(st.atime_sec, 5);

    let p: PollState = f.poll().unwrap();
    assert!(p.readable && p.writable);

    vfs.create_dir(String::from("/d"), zt()).unwrap();
    let d = get_file_like_at(&_t, &_a, &vfs, &reg, AT_FDCWD, "/d").unwrap();
    let pd = d.poll().unwrap();
    assert!(pd.readable && !pd.writable);
    let std = d.stat(&vfs).unwrap();
    assert_eq!(std.mode, 0o40755);
    assert_eq!(std.size, 0);

    let base = Kstat::default();
    assert_eq!((base.ino, base.nlink, base.blksize), (1, 1, 4096));
}

// link and unlink through the syscall layer: paths resolve through the
// working directory and the registry.
#[test]
fn linkat_unlinkat_flow() {
    let (mut vfs, mut reg, table, arena, _r) = world();
    vfs.create_file(String::from("/data"), zt()).unwrap();

    assert_eq!(
        sys_linkat(&table, &arena, &mut vfs, &mut reg, AT_FDCWD, "/data", AT_FDCWD, "/alias", 0)
            .unwrap(),
        0
    );
    assert_eq!(reg.real_path(&String::from("/alias")), "/data");

    // The registry tracks exactly one reference — the link just created.
    // Removing it drops the count to zero, so the target file itself is
    // deleted along with the registry entry (the file's own existence is
    // never tracked as a reference).
    assert_eq!(
        sys_unlinkat(&table, &arena, &mut vfs, &mut reg, AT_FDCWD, "/alias", 0).unwrap(),
        0
    );
    assert!(!vfs.has_node(&String::from("/data")));
    assert_eq!(
        sys_unlinkat(&table, &arena, &mut vfs, &mut reg, AT_FDCWD, "/data", 0),
        Err(LinuxError::ENOENT)
    );

    // A directory cannot be unlinked without the directory flag.
    vfs.create_dir(String::from("/d"), zt()).unwrap();
    assert_eq!(
        sys_unlinkat(&table, &arena, &mut vfs, &mut reg, AT_FDCWD, "/d", 0),
        Err(LinuxError::EISDIR)
    );
    assert_eq!(
        sys_unlinkat(&table, &arena, &mut vfs, &mut reg, AT_FDCWD, "/d", AT_REMOVEDIR).unwrap(),
        0
    );
    assert!(!vfs.has_node(&String::from("/d")));
}

// mkdir, chdir and getcwd work together over the model filesystem.
#[test]
fn mkdir_chdir_getcwd() {
    let (mut vfs, reg, table, arena, _r) = world();
    assert_eq!(
        sys_mkdirat(&table, &arena, &mut vfs, &reg, AT_FDCWD, "/work", 0, zt()).unwrap(),
        0
    );
    assert_eq!(sys_chdir(&mut vfs, &reg, "/work").unwrap(), 0);
    assert_eq!(sys_getcwd(&vfs, 64).unwrap(), "/work");
    assert_eq!(sys_getcwd(&vfs, 3), Err(LinuxError::ERANGE));

    // Relative resolution now goes through the new working directory.
    assert_eq!(
        sys_mkdirat(&table, &arena, &mut vfs, &reg, AT_FDCWD, "sub", 0, zt()).unwrap(),
        0
    );
    assert!(vfs.has_node(&String::from("/work/sub")));

    assert_eq!(sys_chdir(&mut vfs, &reg, "/nope"), Err(LinuxError::ENOENT));
}

// readlink resolves the synthetic self-executable path from process
// metadata and everything else through the registry.
#[test]
fn readlink_paths() {
    let (mut vfs, mut reg, table, arena, _r) = world();
    let exe = String::from("/bin/init");
    vfs.create_file(String::from("/t"), zt()).unwrap();
    reg.create_link(&mut vfs, &String::from("/l"), &String::from("/t")).unwrap();

    assert_eq!(
        sys_readlinkat(&table, &arena, &vfs, &reg, &exe, AT_FDCWD, "/proc/self/exe").unwrap(),
        "/bin/init"
    );
    // The canonical path of a link source is rewritten to its target
    // before the registry lookup, so the target resolves to itself.
    assert_eq!(
        sys_readlinkat(&table, &arena, &vfs, &reg, &exe, AT_FDCWD, "/t"),
        Err(LinuxError::EINVAL)
    );
}

// rename moves a node and replaces the destination.
#[test]
fn rename_moves_node() {
    let (mut vfs, reg, table, arena, _r) = world();
    vfs.create_file(String::from("/x"), zt()).unwrap();
    assert_eq!(
        sys_renameat2(&table, &arena, &mut vfs, &reg, AT_FDCWD, "/x", AT_FDCWD, "/y", 0).unwrap(),
        0
    );
    assert!(!vfs.has_node(&String::from("/x")));
    assert!(vfs.has_node(&String::from("/y")));
    assert_eq!(
        sys_renameat2(&table, &arena, &mut vfs, &reg, AT_FDCWD, "/x", AT_FDCWD, "/z", 0),
        Err(LinuxError::ENOENT)
    );
}

// The utimens update mask: omit leaves a field, "now" takes the clock, an
// explicit value is taken as given, and no record at all means both times
// become "now".
#[test]
fn utimens_masks() {
    let now = TimeValue::new(100, 7);
    let (vt, mask) = build_times_update(None, now);
    assert!(mask.atime && mask.mtime && !mask.ctime);
    assert_eq!((vt.atime_sec, vt.mtime_sec), (100, 100));

    let a = TimeSpec { tv_sec: 1, tv_nsec: UTIME_OMIT };
    let m = TimeSpec { tv_sec: 2, tv_nsec: UTIME_NOW };
    let (vt2, mask2) = build_times_update(Some((a, m)), now);
    assert!(!mask2.atime && mask2.mtime);
    assert_eq!(vt2.mtime_sec, 100);
    assert_eq!(vt2.mtime_nsec, 7);

    let e = TimeSpec { tv_sec: 9, tv_nsec: 40 };
    let (vt3, mask3) = build_times_update(Some((e, e)), now);
    assert!(mask3.atime && mask3.mtime);
    assert_eq!((vt3.atime_sec, vt3.atime_nsec), (9, 40));
}

// utimensat updates the node's timestamps under the mask.
#[test]
fn utimensat_applies() {
    let (mut vfs, reg, table, mut arena, _r) = world();
    vfs.create_file(String::from("/f"), VfsNodeTimes::all_at(1, 1)).unwrap();
    let now = TimeValue::new(50, 0);
    let a = TimeSpec { tv_sec: 7, tv_nsec: 8 };
    let m = TimeSpec { tv_sec: 0, tv_nsec: UTIME_OMIT };
    assert_eq!(
        sys_utimensat(&table, &mut arena, &mut vfs, &reg, AT_FDCWD, Some("/f"), Some((a, m)), now)
            .unwrap(),
        0
    );
    let attr = vfs.metadata(&String::from("/f")).unwrap();
    assert_eq!(attr.times().atime_sec, 7);
    assert_eq!(attr.times().atime_nsec, 8);
    assert_eq!(attr.times().mtime_sec, 1);
}

// sendfile copies everything from the source position to the end.
#[test]
fn sendfile_copies() {
    let (mut vfs, reg, mut table, mut arena, rlimits) = world();
    vfs.create_file(String::from("/src"), zt()).unwrap();
    vfs.create_file(String::from("/dst"), zt()).unwrap();

    let hs = get_file_like_at(&table, &arena, &vfs, &reg, AT_FDCWD, "/src").unwrap();
    let src_fd = add_file_like(&mut table, &mut arena, &rlimits, hs).unwrap();
    let hd = get_file_like_at(&table, &arena, &vfs, &reg, AT_FDCWD, "/dst").unwrap();
    let dst_fd = add_file_like(&mut table, &mut arena, &rlimits, hd).unwrap();

    let payload: Vec<u8> = vec![9, 8, 7, 6];
    sys_write(&table, &mut arena, &mut vfs, src_fd, &payload).unwrap();
    sys_lseek(&table, &mut arena, &vfs, src_fd, 0, SEEK_SET).unwrap();

    let (copied, off) = sys_sendfile(&table, &mut arena, &mut vfs, dst_fd, src_fd, None).unwrap();
    assert_eq!(copied, 4);
    assert_eq!(off, None);

    sys_lseek(&table, &mut arena, &vfs, dst_fd, 0, SEEK_SET).unwrap();
    let got = starry_res::io::sys_read(&table, &mut arena, &vfs, dst_fd, 8).unwrap();
    assert_eq!(got, payload);

    // With an explicit offset the source cursor is left alone and the
    // advanced offset is handed back.
    let (copied2, off2) =
        sys_sendfile(&table, &mut arena, &mut vfs, dst_fd, src_fd, Some(2)).unwrap();
    assert_eq!(copied2, 2);
    assert_eq!(off2, Some(4));
}

// lseek honours all three origins and rejects the rest.
#[test]
fn lseek_origins() {
    let (mut vfs, reg, mut table, mut arena, rlimits) = world();
    vfs.create_file(String::from("/f"), zt()).unwrap();
    let h = get_file_like_at(&table, &arena, &vfs, &reg, AT_FDCWD, "/f").unwrap();
    let fd = add_file_like(&mut table, &mut arena, &rlimits, h).unwrap();
    let payload: Vec<u8> = vec![1, 2, 3, 4, 5];
    sys_write(&table, &mut arena, &mut vfs, fd, &payload).unwrap();

    assert_eq!(sys_lseek(&table, &mut arena, &vfs, fd, 2, SEEK_SET).unwrap(), 2);
    assert_eq!(sys_lseek(&table, &mut arena, &vfs, fd, 1, SEEK_CUR).unwrap(), 3);
    assert_eq!(sys_lseek(&table, &mut arena, &vfs, fd, -1, SEEK_END).unwrap(), 4);
    assert_eq!(
        sys_lseek(&table, &mut arena, &vfs, fd, 0, 9),
        Err(LinuxError::EINVAL)
    );
    assert_eq!(
        sys_lseek(&table, &mut arena, &vfs, fd, -9, SEEK_SET),
        Err(LinuxError::EINVAL)
    );
}

// A packed directory-entry record has the fixed layout: inode, offset,
// record length, type tag, NUL-terminated name, alignment padding.
#[test]
fn dirbuffer_layout() {
    let mut buf = DirBuffer::new(64);
    assert_eq!(buf.remaining_space(), 64);
    assert!(buf.write_entry(FileType::Reg, b"ab"));
    // 19 header bytes + 2 name bytes + NUL, padded to 24.
    assert_eq!(buf.remaining_space(), 40);
    let bytes = &buf.buf[..24];
    assert_eq!(bytes[0], 1); // inode placeholder, little endian
    assert_eq!(&bytes[1..16], &[0; 15]);
    assert_eq!(bytes[16], 24); // record length
    assert_eq!(bytes[17], 0);
    assert_eq!(bytes[18], 8); // DT_REG
    assert_eq!(&bytes[19..22], b"ab\0");
    assert_eq!(&bytes[22..24], &[0, 0]);

    // A record that does not fit is refused and changes nothing.
    let mut tiny = DirBuffer::new(8);
    assert!(!tiny.write_entry(FileType::Dir, b"x"));
    assert_eq!(tiny.remaining_space(), 8);
}

// Directory enumeration packs every child and remembers its position; a
// buffer too small for even one record is invalid.
#[test]
fn getdents_enumerates() {
    let (mut vfs, reg, mut table, mut arena, rlimits) = world();
    vfs.create_dir(String::from("/d"), zt()).unwrap();
    vfs.create_file(String::from("/d/a"), zt()).unwrap();
    vfs.create_file(String::from("/d/b"), zt()).unwrap();
    vfs.create_dir(String::from("/d/sub"), zt()).unwrap();
    vfs.create_file(String::from("/d/sub/deep"), zt()).unwrap();

    let h = get_file_like_at(&table, &arena, &vfs, &reg, AT_FDCWD, "/d").unwrap();
    let fd = add_file_like(&mut table, &mut arena, &rlimits, h).unwrap();

    let out = sys_getdents64(&table, &mut arena, &vfs, fd, 512).unwrap();
    // Three children (the grandchild is not listed), each a 24-byte record
    // (one-byte names).
    assert_eq!(out.len() % 8, 0);
    let mut names: Vec<String> = Vec::new();
    let mut pos = 0;
    while pos < out.len() {
        let reclen = out[pos + 16] as usize;
        let mut name_end = pos + 19;
        while out[name_end] != 0 {
            name_end += 1;
        }
        names.push(String::from_utf8(out[pos + 19..name_end].to_vec()).unwrap());
        pos += reclen;
    }
    names.sort();
    assert_eq!(names, vec![String::from("a"), String::from("b"), String::from("sub")]);

    // Enumeration is finished: the next call returns nothing.
    let out2 = sys_getdents64(&table, &mut arena, &vfs, fd, 512).unwrap();
    assert!(out2.is_empty());

    // A buffer too small for the first record is invalid.
    let h2 = get_file_like_at(&table, &arena, &vfs, &reg, AT_FDCWD, "/d").unwrap();
    let fd2 = add_file_like(&mut table, &mut arena, &rlimits, h2).unwrap();
    assert_eq!(
        sys_getdents64(&table, &mut arena, &vfs, fd2, 4),
        Err(LinuxError::EINVAL)
    );
}

// Relative resolution through a directory descriptor.
#[test]
fn handle_path_relative_to_dirfd() {
    let (mut vfs, reg, mut table, mut arena, rlimits) = world();
    vfs.create_dir(String::from("/base"), zt()).unwrap();
    vfs.create_file(String::from("/base/file"), zt()).unwrap();

    let dirh = get_file_like_at(&table, &arena, &vfs, &reg, AT_FDCWD, "/base").unwrap();
    let dirfd = add_file_like(&mut table, &mut arena, &rlimits, dirh).unwrap();

    let fp = handle_file_path(&table, &arena, &vfs, &reg, dirfd, "file").unwrap();
    assert_eq!(fp.as_str(), "/base/file");

    let abs = handle_file_path(&table, &arena, &vfs, &reg, dirfd, "/base").unwrap();
    assert_eq!(abs.as_str(), "/base");

    // An empty path names the file behind the descriptor itself — which a
    // directory descriptor is not.
    assert_eq!(
        handle_file_path(&table, &arena, &vfs, &reg, dirfd, ""),
        Err(LinuxError::EINVAL)
    );
}

// Error codes have stable short names for diagnostics.
#[test]
fn error_names() {
    assert_eq!(LinuxError::EBADF.as_str(), "EBADF");
    assert_eq!(LinuxError::EMFILE.as_str(), "EMFILE");
    assert_eq!(LinuxError::EAGAIN.as_str(), "EAGAIN");
}
