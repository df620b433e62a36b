use starry_res::errno::LinuxError;
use starry_res::fd::{
    AT_FDCWD, FdTable, add_file_like, add_file_like_at, close_file_like, copy_inner,
    fd_table_clear, get_file_like_at, init_stdio,
};
use starry_res::file::{FileLikeHandle, HandleArena};
use starry_res::futex::FutexTable;
use starry_res::io::{SEEK_SET, sys_lseek, sys_read, sys_readv, sys_write, sys_writev};
use starry_res::manager::{
    ProcessSignalManager, ThreadSignalManager, check_sigsetsize, sys_rt_sigaction,
    sys_rt_sigprocmask, sys_rt_sigtimedwait,
};
use starry_res::memfs::Vfs;
use starry_res::path::{FilePath, HardlinkManager, canonicalize};
use starry_res::proc::{Process, ProcessTable, Thread, ThreadTable, sys_kill, sys_tgkill, sys_tkill};
use starry_res::resource::{RLIMIT_NOFILE, Rlimit, Rlimits, sys_prlimit64};
use starry_res::signal::{
    SIG_BLOCK, SIG_SETMASK, SIG_UNBLOCK, SIGKILL, SIGSTOP, SignalAction, SignalInfo, SignalSet,
};
use starry_res::vfs::VfsNodeTimes;

fn fresh_fs() -> (Vfs, HardlinkManager) {
    (Vfs::new(), HardlinkManager::new())
}

fn zero_times() -> VfsNodeTimes {
    VfsNodeTimes::all_at(0, 0)
}

// Descriptor table: IDs are assigned lowest-first, the soft limit is
// enforced, and a freed ID is reused first.
#[test]
fn fd_table_lowest_id_and_limit() {
    let mut table = FdTable::new();
    let mut arena = HandleArena::new();
    let mut rlimits = Rlimits::new();
    rlimits.set(RLIMIT_NOFILE, Rlimit::new(4, 10));

    let a = add_file_like(&mut table, &mut arena, &rlimits, FileLikeHandle::Stdin).unwrap();
    let b = add_file_like(&mut table, &mut arena, &rlimits, FileLikeHandle::Stdout).unwrap();
    let c = add_file_like(&mut table, &mut arena, &rlimits, FileLikeHandle::Stdin).unwrap();
    let d = add_file_like(&mut table, &mut arena, &rlimits, FileLikeHandle::Stdout).unwrap();
    assert_eq!((a, b, c, d), (0, 1, 2, 3));

    // The soft limit of 4 is reached: the next add is refused and the table
    // keeps its entries.
    let e = add_file_like(&mut table, &mut arena, &rlimits, FileLikeHandle::Stdin);
    assert_eq!(e, Err(LinuxError::EMFILE));
    assert_eq!(table.count(), 4);

    // Closing the middle descriptor frees exactly that ID, and the next add
    // takes the lowest free one again.
    close_file_like(&mut table, &mut arena, 1).unwrap();
    assert_eq!(table.count(), 3);
    let f = add_file_like(&mut table, &mut arena, &rlimits, FileLikeHandle::Stdin).unwrap();
    assert_eq!(f, 1);

    // Closing an unknown descriptor is a bad-descriptor error.
    assert_eq!(close_file_like(&mut table, &mut arena, 99), Err(LinuxError::EBADF));
}

// Round trip: immediately after create_link, real_path names the target;
// after remove_link, the path resolves to itself again.
#[test]
fn hardlink_roundtrip() {
    let (mut vfs, mut reg) = fresh_fs();
    vfs.create_file(String::from("/b"), zero_times()).unwrap();
    let a = String::from("/a");
    let b = String::from("/b");

    reg.create_link(&mut vfs, &a, &b).unwrap();
    assert_eq!(reg.real_path(&a), "/b");

    let removed = reg.remove_link(&mut vfs, &a);
    assert_eq!(removed, Some(String::from("/b")));
    assert_eq!(reg.real_path(&a), "/a");
}

// Idempotence and re-targeting: linking the same pair twice does not
// double-count, and re-linking to a second target takes exactly one
// reference from the first.
#[test]
fn hardlink_refcounts() {
    let (mut vfs, mut reg) = fresh_fs();
    vfs.create_file(String::from("/t1"), zero_times()).unwrap();
    vfs.create_file(String::from("/t2"), zero_times()).unwrap();
    let a = String::from("/a");
    let a2 = String::from("/a2");
    let t1 = String::from("/t1");
    let t2 = String::from("/t2");

    reg.create_link(&mut vfs, &a, &t1).unwrap();
    assert_eq!(reg.link_count(&vfs, &t1), 1);
    reg.create_link(&mut vfs, &a, &t1).unwrap();
    assert_eq!(reg.link_count(&vfs, &t1), 1);

    // A second link raises the count to two; re-targeting the first link
    // takes exactly one reference away again.
    reg.create_link(&mut vfs, &a2, &t1).unwrap();
    assert_eq!(reg.link_count(&vfs, &t1), 2);
    reg.create_link(&mut vfs, &a, &t2).unwrap();
    assert_eq!(reg.link_count(&vfs, &t1), 1);
    assert_eq!(reg.link_count(&vfs, &t2), 1);
}

// Deletion on zero: once every link to a target is removed, the registry
// holds no entry for it and the underlying file is gone.
#[test]
fn hardlink_deletion_on_zero() {
    let (mut vfs, mut reg) = fresh_fs();
    vfs.create_file(String::from("/t"), zero_times()).unwrap();
    let a = String::from("/a");
    let b = String::from("/b");
    let t = String::from("/t");

    reg.create_link(&mut vfs, &a, &t).unwrap();
    reg.create_link(&mut vfs, &b, &t).unwrap();
    assert_eq!(reg.link_count(&vfs, &t), 2);

    assert_eq!(reg.remove_link(&mut vfs, &a), Some(String::from("/t")));
    assert!(vfs.has_node(&t));
    assert_eq!(reg.link_count(&vfs, &t), 1);

    assert_eq!(reg.remove_link(&mut vfs, &b), Some(String::from("/t")));
    // The file is deleted and the registry holds no entry: the fallback
    // count for a non-existing, untracked path is zero.
    assert!(!vfs.has_node(&t));
    assert_eq!(reg.link_count(&vfs, &t), 0);
}

// A link to a missing target is refused, and the error maps to the POSIX
// not-found code.
#[test]
fn hardlink_missing_target() {
    let (mut vfs, mut reg) = fresh_fs();
    let a = String::from("/a");
    let t = String::from("/missing");
    let err = reg.create_link(&mut vfs, &a, &t).unwrap_err();
    assert_eq!(LinuxError::from(err), LinuxError::ENOENT);
}

// Untracked fallback: after one create_link the target reports exactly one
// tracked reference; an untracked existing file reports one, a missing
// path zero.
#[test]
fn hardlink_count_fallback() {
    let (mut vfs, mut reg) = fresh_fs();
    vfs.create_file(String::from("/b"), zero_times()).unwrap();
    let a = String::from("/a");
    let b = String::from("/b");

    // Untracked but existing: the sane default of one.
    assert_eq!(reg.link_count(&vfs, &b), 1);
    // Untracked and missing: zero.
    assert_eq!(reg.link_count(&vfs, &String::from("/nope")), 0);

    reg.create_link(&mut vfs, &a, &b).unwrap();
    assert_eq!(reg.link_count(&vfs, &b), 1);
}

// Signal masking: a signal sent while blocked stays pending and is not
// delivered; once unblocked it is delivered at once.
#[test]
fn signal_masking_blocks_delivery() {
    let mut tsm = ThreadSignalManager::new();
    let mut psm = ProcessSignalManager::new();
    let ten = SignalSet::just(10);

    sys_rt_sigprocmask(&mut tsm, SIG_BLOCK, Some(&ten), 8).unwrap();
    tsm.send_signal(SignalInfo::new(10, 0));
    assert!(tsm.pending.set.has(10));

    // Blocked: nothing deliverable.
    assert!(tsm.dequeue_signal(&mut psm).is_none());
    assert!(tsm.pending.set.has(10));

    // Unblocked: delivered at once.
    sys_rt_sigprocmask(&mut tsm, SIG_UNBLOCK, Some(&ten), 8).unwrap();
    let sig = tsm.dequeue_signal(&mut psm).unwrap();
    assert_eq!(sig.signo(), 10);
    assert!(!tsm.pending.set.has(10));
}

// An explicit wait with a matching set consumes a blocked pending signal.
#[test]
fn signal_wait_consumes_blocked() {
    let mut tsm = ThreadSignalManager::new();
    let mut psm = ProcessSignalManager::new();
    let ten = SignalSet::just(10);

    sys_rt_sigprocmask(&mut tsm, SIG_BLOCK, Some(&ten), 8).unwrap();
    psm.send_signal(SignalInfo::new(10, 7));

    let sig = sys_rt_sigtimedwait(&mut tsm, &mut psm, &ten, 8).unwrap();
    assert_eq!(sig.signo(), 10);
    assert_eq!(sig.code, 7);

    // Nothing pending any more: the transient try-again code.
    assert_eq!(
        sys_rt_sigtimedwait(&mut tsm, &mut psm, &ten, 8),
        Err(LinuxError::EAGAIN)
    );
}

// Non-maskable signals: installing a handler and blocking or unblocking
// them are rejected without side effect.
#[test]
fn non_maskable_signals_rejected() {
    let mut tsm = ThreadSignalManager::new();
    let mut psm = ProcessSignalManager::new();

    let before = tsm.blocked();
    let kill_set = SignalSet::just(SIGKILL);
    assert_eq!(
        sys_rt_sigprocmask(&mut tsm, SIG_BLOCK, Some(&kill_set), 8),
        Err(LinuxError::EINVAL)
    );
    let stop_set = SignalSet::just(SIGSTOP);
    assert_eq!(
        sys_rt_sigprocmask(&mut tsm, SIG_UNBLOCK, Some(&stop_set), 8),
        Err(LinuxError::EINVAL)
    );
    assert_eq!(tsm.blocked(), before);

    let act = SignalAction { handler: 0x1000, flags: 0, mask: SignalSet(0) };
    assert_eq!(
        sys_rt_sigaction(&mut psm, SIGKILL as i32, Some(&act), 8),
        Err(LinuxError::EINVAL)
    );
    assert_eq!(
        sys_rt_sigaction(&mut psm, SIGSTOP as i32, Some(&act), 8),
        Err(LinuxError::EINVAL)
    );
    // An ordinary signal still takes the handler, and the old action comes
    // back on the next read.
    let old = sys_rt_sigaction(&mut psm, 10, Some(&act), 8).unwrap();
    assert_eq!(old.handler, 0);
    let cur = sys_rt_sigaction(&mut psm, 10, None, 8).unwrap();
    assert_eq!(cur.handler, 0x1000);
}

// The signal-set size argument is checked everywhere.
#[test]
fn sigsetsize_checked() {
    assert!(check_sigsetsize(8).is_ok());
    assert_eq!(check_sigsetsize(4), Err(LinuxError::EINVAL));
    let mut tsm = ThreadSignalManager::new();
    assert_eq!(
        sys_rt_sigprocmask(&mut tsm, SIG_SETMASK, None, 16),
        Err(LinuxError::EINVAL)
    );
}

// Futex table cleanup: after the last waiter is woken and the last guard
// released, the address no longer appears in the table.
#[test]
fn futex_cleanup_on_release() {
    let mut table = FutexTable::new();
    let addr = 0x1000usize;

    table.get_or_insert(addr);
    table.add_waiter(addr);
    assert!(table.get(addr));

    // Wake the single waiter, then drop both guards: the entry must go.
    assert!(table.wake_one(addr));
    table.release_guard(addr);
    table.release_guard(addr);
    assert!(!table.get(addr));

    // A wake on an address nobody waits on must not create a queue.
    assert!(!table.get(0x2000));
}

// kill(-1) delivers to every process except init and reports the count.
#[test]
fn kill_all_but_init() {
    let mut table = ProcessTable::new();
    table.register(Process::new(1, 1, true)).unwrap();
    table.register(Process::new(2, 2, false)).unwrap();
    table.register(Process::new(3, 2, false)).unwrap();
    table.register(Process::new(4, 4, false)).unwrap();

    let n = sys_kill(&mut table, 1, -1, 15).unwrap();
    assert_eq!(n, 3);
    for p in &table.procs {
        if p.is_init {
            assert!(!p.signal.pending().has(15));
        } else {
            assert!(p.signal.pending().has(15));
        }
    }
}

// kill by positive pid targets exactly one process; an unknown pid is "no
// such process"; the null signal probes without delivering.
#[test]
fn kill_single_and_probe() {
    let mut table = ProcessTable::new();
    table.register(Process::new(1, 1, true)).unwrap();
    table.register(Process::new(7, 7, false)).unwrap();

    assert_eq!(sys_kill(&mut table, 1, 7, 10).unwrap(), 1);
    assert!(table.procs[1].signal.pending().has(10));
    assert!(!table.procs[0].signal.pending().has(10));

    assert_eq!(sys_kill(&mut table, 1, 99, 10), Err(LinuxError::ESRCH));
    assert_eq!(sys_kill(&mut table, 1, 7, 0).unwrap(), 0);
    assert_eq!(sys_kill(&mut table, 1, 7, 99), Err(LinuxError::EINVAL));
}

// kill(0) targets the caller's own process group; a negative target below
// -1 names a group by its negation.
#[test]
fn kill_process_groups() {
    let mut table = ProcessTable::new();
    table.register(Process::new(1, 1, true)).unwrap();
    table.register(Process::new(2, 5, false)).unwrap();
    table.register(Process::new(3, 5, false)).unwrap();
    table.register(Process::new(4, 6, false)).unwrap();

    assert_eq!(sys_kill(&mut table, 5, 0, 12).unwrap(), 2);
    assert!(table.procs[1].signal.pending().has(12));
    assert!(table.procs[2].signal.pending().has(12));
    assert!(!table.procs[3].signal.pending().has(12));

    assert_eq!(sys_kill(&mut table, 1, -6, 13).unwrap(), 1);
    assert!(table.procs[3].signal.pending().has(13));
}

// tkill and tgkill name a thread; tgkill also checks the thread group.
#[test]
fn tkill_and_tgkill() {
    let mut table = ThreadTable::new();
    table.register(Thread::new(100, 7)).unwrap();
    table.register(Thread::new(101, 8)).unwrap();

    assert_eq!(sys_tkill(&mut table, 100, 10).unwrap(), 0);
    assert!(table.threads[0].signal.pending.set.has(10));

    assert_eq!(sys_tgkill(&mut table, 8, 101, 11).unwrap(), 0);
    assert!(table.threads[1].signal.pending.set.has(11));

    // Right thread, wrong group.
    assert_eq!(sys_tgkill(&mut table, 7, 101, 11), Err(LinuxError::ESRCH));
    assert_eq!(sys_tkill(&mut table, 999, 10), Err(LinuxError::ESRCH));
}

// Resource limits: the combined get/set call returns the old pair, rejects
// an inverted pair, and refuses to raise the hard limit.
#[test]
fn rlimit_rules() {
    let mut rl = Rlimits::new();
    let old = sys_prlimit64(&mut rl, RLIMIT_NOFILE, None).unwrap();
    assert_eq!(old.current, 1024);
    assert_eq!(old.max, 1024);

    // Lowering is fine and reports the previous pair.
    let old2 = sys_prlimit64(&mut rl, RLIMIT_NOFILE, Some(Rlimit::new(64, 512))).unwrap();
    assert_eq!(old2.current, 1024);
    assert_eq!(rl.get(RLIMIT_NOFILE).current, 64);
    assert_eq!(rl.get(RLIMIT_NOFILE).max, 512);

    // Soft above hard is invalid; raising the hard limit is not permitted;
    // neither changes anything.
    assert_eq!(
        sys_prlimit64(&mut rl, RLIMIT_NOFILE, Some(Rlimit::new(600, 500))),
        Err(LinuxError::EINVAL)
    );
    assert_eq!(
        sys_prlimit64(&mut rl, RLIMIT_NOFILE, Some(Rlimit::new(100, 1024))),
        Err(LinuxError::EPERM)
    );
    assert_eq!(sys_prlimit64(&mut rl, 99, None), Err(LinuxError::EINVAL));
    assert_eq!(rl.get(RLIMIT_NOFILE).current, 64);
    assert_eq!(rl.get(RLIMIT_NOFILE).max, 512);
}

// Scenario: open a file for read-write right after stdio initialization,
// getting descriptor 3; write ten bytes, seek back, and read the same ten
// bytes.
#[test]
fn open_write_seek_read_roundtrip() {
    let (mut vfs, reg) = fresh_fs();
    let mut table = FdTable::new();
    let mut arena = HandleArena::new();
    let rlimits = Rlimits::new();

    init_stdio(&mut table, &mut arena).unwrap();
    vfs.create_dir(String::from("/a"), zero_times()).unwrap();
    vfs.create_file(String::from("/a/b"), zero_times()).unwrap();

    let handle = get_file_like_at(&table, &arena, &vfs, &reg, AT_FDCWD, "/a/b").unwrap();
    let fd = add_file_like(&mut table, &mut arena, &rlimits, handle).unwrap();
    assert_eq!(fd, 3);

    let payload: Vec<u8> = vec![1, 2, 3, 4, 5, 6, 7, 8, 9, 10];
    let written = sys_write(&table, &mut arena, &mut vfs, fd, &payload).unwrap();
    assert_eq!(written, 10);

    assert_eq!(sys_lseek(&table, &mut arena, &vfs, fd, 0, SEEK_SET).unwrap(), 0);
    let back = sys_read(&table, &mut arena, &vfs, fd, 10).unwrap();
    assert_eq!(back, payload);

    // Reading past the end is a short read.
    let rest = sys_read(&table, &mut arena, &vfs, fd, 10).unwrap();
    assert!(rest.is_empty());
}

// Vectored reads and writes honour the chunk boundaries and the early-stop
// rule.
#[test]
fn vectored_read_write() {
    let (mut vfs, reg) = fresh_fs();
    let mut table = FdTable::new();
    let mut arena = HandleArena::new();
    let rlimits = Rlimits::new();
    vfs.create_file(String::from("/f"), zero_times()).unwrap();

    let handle = get_file_like_at(&table, &arena, &vfs, &reg, AT_FDCWD, "/f").unwrap();
    let fd = add_file_like(&mut table, &mut arena, &rlimits, handle).unwrap();

    let bufs: Vec<Vec<u8>> = vec![vec![1, 2, 3], vec![], vec![4, 5]];
    assert_eq!(sys_writev(&table, &mut arena, &mut vfs, fd, &bufs).unwrap(), 5);

    assert_eq!(sys_lseek(&table, &mut arena, &vfs, fd, 0, SEEK_SET).unwrap(), 0);
    let lens: Vec<usize> = vec![2, 0, 2, 4];
    let chunks = sys_readv(&table, &mut arena, &vfs, fd, &lens).unwrap();
    // Two full chunks, then a short final chunk ends the read.
    assert_eq!(chunks, vec![vec![1, 2], vec![3, 4], vec![5]]);
}

// Directory handles refuse plain reads and writes rather than faking empty
// files.
#[test]
fn directory_read_write_refused() {
    let (mut vfs, reg) = fresh_fs();
    let mut table = FdTable::new();
    let mut arena = HandleArena::new();
    let rlimits = Rlimits::new();
    vfs.create_dir(String::from("/d"), zero_times()).unwrap();

    let handle = get_file_like_at(&table, &arena, &vfs, &reg, AT_FDCWD, "/d").unwrap();
    let fd = add_file_like(&mut table, &mut arena, &rlimits, handle).unwrap();
    assert_eq!(sys_read(&table, &mut arena, &vfs, fd, 4), Err(LinuxError::EBADF));
    let buf: Vec<u8> = vec![1];
    assert_eq!(sys_write(&table, &mut arena, &mut vfs, fd, &buf), Err(LinuxError::EBADF));
}

// Path canonicalization resolves dot and dot-dot components lexically and
// keeps the root's parent at the root.
#[test]
fn canonicalize_paths() {
    assert_eq!(canonicalize("/a/b/../c", "/"), "/a/c");
    assert_eq!(canonicalize("/a//.//b/", "/"), "/a/b");
    assert_eq!(canonicalize("/../..", "/"), "/");
    assert_eq!(canonicalize("x/y", "/home"), "/home/x/y");
    assert_eq!(canonicalize("", "/home"), "/home");
}

// FilePath keeps directory intent, splits off parents and names, and
// rewrites through the registry.
#[test]
fn filepath_structure() {
    let (mut vfs, mut reg) = fresh_fs();
    let fp = FilePath::new(&vfs, &reg, "/a/b/c").unwrap();
    assert_eq!(fp.as_str(), "/a/b/c");
    assert_eq!(fp.parent().unwrap(), "/a/b/");
    assert_eq!(fp.name().unwrap(), "c");
    assert!(!fp.is_dir());
    assert!(fp.is_file());

    let dir = FilePath::new(&vfs, &reg, "/a/b/").unwrap();
    assert_eq!(dir.as_str(), "/a/b/");
    assert!(dir.is_dir());
    assert_eq!(dir.components(), vec![String::from("a"), String::from("b")]);

    let root = FilePath::new(&vfs, &reg, "/").unwrap();
    assert!(root.is_root());
    assert_eq!(root.parent().unwrap(), "/");

    // A link source canonicalizes straight to its target.
    vfs.create_file(String::from("/t"), zero_times()).unwrap();
    reg.create_link(&mut vfs, &String::from("/l"), &String::from("/t")).unwrap();
    let through = FilePath::new(&vfs, &reg, "/l").unwrap();
    assert_eq!(through.as_str(), "/t");
}

// Process duplication: the copy shares the underlying handles, so a shared
// open-file cursor stays visible to both tables, while closing in one
// table does not touch the other.
#[test]
fn copy_inner_shares_handles() {
    let (mut vfs, reg) = fresh_fs();
    let mut table = FdTable::new();
    let mut arena = HandleArena::new();
    let rlimits = Rlimits::new();
    vfs.create_file(String::from("/f"), zero_times()).unwrap();

    let h = get_file_like_at(&table, &arena, &vfs, &reg, AT_FDCWD, "/f").unwrap();
    let fd = add_file_like(&mut table, &mut arena, &rlimits, h).unwrap();

    let mut table2 = copy_inner(&table, &mut arena).unwrap();
    assert_eq!(table2.count(), 1);

    // A write through the first table moves the shared cursor; the second
    // table sees the moved cursor at once.
    let payload: Vec<u8> = vec![1, 2, 3];
    starry_res::io::sys_write(&table, &mut arena, &mut vfs, fd, &payload).unwrap();
    let got = starry_res::io::sys_read(&table2, &mut arena, &vfs, fd, 8).unwrap();
    assert!(got.is_empty());

    // Closing the descriptor in the copy leaves the first table intact.
    close_file_like(&mut table2, &mut arena, fd).unwrap();
    assert_eq!(table2.count(), 0);
    assert_eq!(table.count(), 1);
    starry_res::io::sys_lseek(&table, &mut arena, &vfs, fd, 0, SEEK_SET).unwrap();
    assert_eq!(
        starry_res::io::sys_read(&table, &mut arena, &vfs, fd, 8).unwrap(),
        payload
    );
}

// Clearing a table removes every descriptor; a reserved ID can be taken
// explicitly and refuses a second occupant.
#[test]
fn clear_and_add_at() {
    let mut table = FdTable::new();
    let mut arena = HandleArena::new();
    init_stdio(&mut table, &mut arena).unwrap();
    assert_eq!(table.count(), 3);

    fd_table_clear(&mut table, &mut arena);
    assert_eq!(table.count(), 0);
    // Each of the three stdio handles lost its only reference: the slots
    // are free again.
    assert_eq!(arena.slots[0].refs, 0);
    assert_eq!(arena.slots[1].refs, 0);
    assert_eq!(arena.slots[2].refs, 0);

    assert_eq!(
        add_file_like_at(&mut table, &mut arena, 5, FileLikeHandle::Stdin).unwrap(),
        5
    );
    assert_eq!(
        add_file_like_at(&mut table, &mut arena, 5, FileLikeHandle::Stdout),
        Err(LinuxError::EMFILE)
    );
    assert_eq!(
        add_file_like_at(&mut table, &mut arena, 4096, FileLikeHandle::Stdout),
        Err(LinuxError::EMFILE)
    );
}

// Each signal send wakes exactly one waiter on the scope's wait queue.
#[test]
fn send_wakes_one() {
    let mut psm = ProcessSignalManager::new();
    assert_eq!(psm.wq.wake_events, 0);
    psm.send_signal(SignalInfo::new(10, 0));
    assert_eq!(psm.wq.wake_events, 1);
    // Sending the same signal again keeps the first queued record but
    // still wakes one more waiter.
    psm.send_signal(SignalInfo::new(10, 9));
    assert_eq!(psm.wq.wake_events, 2);
    assert!(psm.pending().has(10));
}
