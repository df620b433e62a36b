use vstd::prelude::*;
use crate::errno::LinuxError;
use crate::fd::{AT_FDCWD, FdTable, get_file_like, get_file_like_at};
use crate::file::{FileLikeHandle, HandleArena};
use crate::memfs::{Vfs, VfsNode, spec_root};
use crate::path::{FilePath, HardlinkManager, spec_link_created, spec_trimmed};
use crate::time::{TimeSpec, TimeValue};
use crate::vfs::{TimesMask, VfsNodeTimes};

verus! {

/// Per-field timestamp sentinel: set the field to the current time.
pub const UTIME_NOW: i64 = 0x3fffffff;

/// Per-field timestamp sentinel: leave the field untouched.
pub const UTIME_OMIT: i64 = 0x3ffffffe;

/// Unlink flag: remove a directory instead of a file.
pub const AT_REMOVEDIR: u32 = 0x200;

/// The path that `handle_file_path` resolves for the given arguments: an
/// absolute path stands alone; an empty path names the file behind `dirfd`
/// itself; anything else resolves against the working directory or against
/// the directory behind `dirfd`.
pub open spec fn spec_handle_path(
    table: FdTable,
    arena: HandleArena,
    vfs: Vfs,
    reg: HardlinkManager,
    dirfd: i32,
    path: Seq<char>,
) -> Seq<char> {
    if path.len() > 0 && path[0] == '/' {
        reg.real_path_of(
            crate::path::spec_with_dir_intent(
                crate::path::spec_canonical(crate::path::spec_resolved(path, vfs.cwd@)),
                path,
            ),
        )
    } else if path.len() == 0 {
        let base = arena.slots@[table.view_map()[dirfd as usize] as int].obj->File_path;
        reg.real_path_of(
            crate::path::spec_with_dir_intent(
                crate::path::spec_canonical(crate::path::spec_resolved(base@, vfs.cwd@)),
                base@,
            ),
        )
    } else {
        crate::fd::spec_lookup_path(table, arena, vfs, reg, dirfd, path)
    }
}

/// Why path resolution refuses, exactly: an absolute path never fails; an
/// empty path fails with "bad descriptor" on a bad `dirfd` and with
/// "invalid argument" when the descriptor is no regular file; a relative
/// path fails only when `dirfd` is a real descriptor argument that is bad
/// or no directory.
pub open spec fn spec_resolve_fails(
    table: FdTable,
    arena: HandleArena,
    dirfd: i32,
    path: Seq<char>,
    e: LinuxError,
) -> bool {
    &&& !(path.len() > 0 && path[0] == '/')
    &&& match e {
        LinuxError::EBADF => (path.len() > 0 ==> dirfd != AT_FDCWD) && (dirfd < 0
            || !table.view_map().contains_key(dirfd as usize)),
        LinuxError::EINVAL => path.len() == 0 && dirfd >= 0 && table.view_map().contains_key(
            dirfd as usize,
        ) && !(arena.slots@[table.view_map()[dirfd as usize] as int].obj is File),
        LinuxError::ENOTDIR => path.len() > 0 && dirfd != AT_FDCWD && dirfd >= 0
            && table.view_map().contains_key(dirfd as usize) && !(arena.slots@[table.view_map()[dirfd as usize] as int].obj is Directory),
        _ => false,
    }
}

/// Resolves a `dirfd`-relative path argument to a normalized path: absolute
/// paths stand alone, an empty path names the file behind `dirfd` itself,
/// and a relative path resolves against the working directory (for the
/// current-directory sentinel) or the directory behind `dirfd`.
pub fn handle_file_path(
    table: &FdTable,
    arena: &HandleArena,
    vfs: &Vfs,
    reg: &HardlinkManager,
    dirfd: i32,
    path: &str,
) -> (r: Result<FilePath, LinuxError>)
    requires
        table.wf_with(*arena),
        vfs.wf(),
        reg.wf(),
    ensures
        match r {
            Ok(p) => p@ == spec_handle_path(*table, *arena, *vfs, *reg, dirfd, path@) && p.wf(),
            Err(e) => spec_resolve_fails(*table, *arena, dirfd, path@, e),
        },
{
    let plen = path.unicode_len();
    if plen > 0 && path.get_char(0) == '/' {
        return FilePath::new(vfs, reg, path);
    }
    if plen == 0 {
        let h = match get_file_like(table, dirfd) {
            Ok(h) => h,
            Err(e) => {
                return Err(e);
            },
        };
        let base: String = match &arena.slots[h].obj {
            FileLikeHandle::File { path: p, .. } => p.clone(),
            _ => {
                return Err(LinuxError::EINVAL);
            },
        };
        return FilePath::new(vfs, reg, base.as_str());
    }
    resolve_lookup_path(table, arena, vfs, reg, dirfd, path)
}

/// Resolves a relative path exactly as the open helper does, without
/// opening anything.
fn resolve_lookup_path(
    table: &FdTable,
    arena: &HandleArena,
    vfs: &Vfs,
    reg: &HardlinkManager,
    dirfd: i32,
    path: &str,
) -> (r: Result<FilePath, LinuxError>)
    requires
        table.wf_with(*arena),
        vfs.wf(),
        reg.wf(),
        !(path@.len() > 0 && path@[0] == '/') && path@.len() > 0,
    ensures
        match r {
            Ok(p) => p@ == crate::fd::spec_lookup_path(*table, *arena, *vfs, *reg, dirfd, path@)
                && p.wf(),
            Err(e) => spec_resolve_fails(*table, *arena, dirfd, path@, e),
        },
{
    if dirfd == AT_FDCWD {
        return FilePath::new(vfs, reg, path);
    }
    let h = match get_file_like(table, dirfd) {
        Ok(h) => h,
        Err(e) => {
            return Err(e);
        },
    };
    let mut raw: String = match &arena.slots[h].obj {
        FileLikeHandle::Directory { path: p, .. } => p.clone(),
        _ => {
            return Err(LinuxError::ENOTDIR);
        },
    };
    let ghost base = arena.slots@[table.view_map()[dirfd as usize] as int].obj->Directory_path;
    let bn = raw.as_str().unicode_len();
    if bn == 0 || raw.as_str().get_char(bn - 1) != '/' {
        raw.append("/");
    }
    raw.append(path);
    proof {
        reveal_strlit("/");
        if base@.len() > 0 && base@.last() == '/' {
            assert(raw@ =~= base@ + path@);
        } else {
            assert(raw@ =~= base@ + seq!['/'] + path@);
        }
    }
    FilePath::new(vfs, reg, raw.as_str())
}

/// Create a hardlink: resolve both path arguments, then record
/// `new_path -> old_path` in the registry. Behaviour flags are accepted and
/// not interpreted.
pub fn sys_linkat(
    table: &FdTable,
    arena: &HandleArena,
    vfs: &mut Vfs,
    reg: &mut HardlinkManager,
    old_dirfd: i32,
    old_path: &str,
    new_dirfd: i32,
    new_path: &str,
    flags: i32,
) -> (r: Result<isize, LinuxError>)
    requires
        table.wf_with(*arena),
        old(vfs).wf(),
        old(reg).wf(),
    ensures
        final(vfs).wf(),
        final(reg).wf(),
        final(vfs).cwd == old(vfs).cwd,
        match r {
            Ok(v) => v == 0 && {
                let np = spec_handle_path(*table, *arena, *old(vfs), *old(reg), new_dirfd, new_path@);
                let tp = spec_handle_path(*table, *arena, *old(vfs), *old(reg), old_dirfd, old_path@);
                exists|target: String|
                    target@ == tp && #[trigger] spec_link_created(
                        *old(reg),
                        *final(reg),
                        *old(vfs),
                        *final(vfs),
                        np,
                        target,
                    )
            },
            Err(e) => final(vfs).nodes@ == old(vfs).nodes@ && *final(reg) == *old(reg) && ({
                let tp = spec_handle_path(*table, *arena, *old(vfs), *old(reg), old_dirfd, old_path@);
                ||| spec_resolve_fails(*table, *arena, old_dirfd, old_path@, e)
                ||| spec_resolve_fails(*table, *arena, new_dirfd, new_path@, e)
                ||| (e == LinuxError::ENOENT && !old(vfs).nodes@.contains_key(tp))
                ||| (e == LinuxError::EINVAL && old(vfs).nodes@.contains_key(tp) && tp.last()
                    == '/')
            }),
        },
{
    let _ = flags;
    let old_fp = match handle_file_path(table, arena, vfs, reg, old_dirfd, old_path) {
        Ok(p) => p,
        Err(e) => {
            return Err(e);
        },
    };
    let new_fp = match handle_file_path(table, arena, vfs, reg, new_dirfd, new_path) {
        Ok(p) => p,
        Err(e) => {
            return Err(e);
        },
    };
    let np = String::from_str(new_fp.as_str());
    let tp = String::from_str(old_fp.as_str());
    match reg.create_link(vfs, &np, &tp) {
        Ok(()) => Ok(0),
        Err(e) => Err(LinuxError::from(e)),
    }
}

/// Create a hardlink with both paths relative to the working directory.
pub fn sys_link(
    table: &FdTable,
    arena: &HandleArena,
    vfs: &mut Vfs,
    reg: &mut HardlinkManager,
    old_path: &str,
    new_path: &str,
) -> (r: Result<isize, LinuxError>)
    requires
        table.wf_with(*arena),
        old(vfs).wf(),
        old(reg).wf(),
    ensures
        final(vfs).wf(),
        final(reg).wf(),
        final(vfs).cwd == old(vfs).cwd,
        match r {
            Ok(v) => v == 0 && {
                let np = spec_handle_path(*table, *arena, *old(vfs), *old(reg), AT_FDCWD, new_path@);
                let tp = spec_handle_path(*table, *arena, *old(vfs), *old(reg), AT_FDCWD, old_path@);
                exists|target: String|
                    target@ == tp && #[trigger] spec_link_created(
                        *old(reg),
                        *final(reg),
                        *old(vfs),
                        *final(vfs),
                        np,
                        target,
                    )
            },
            Err(e) => final(vfs).nodes@ == old(vfs).nodes@ && *final(reg) == *old(reg) && ({
                let tp = spec_handle_path(*table, *arena, *old(vfs), *old(reg), AT_FDCWD, old_path@);
                ||| spec_resolve_fails(*table, *arena, AT_FDCWD, old_path@, e)
                ||| spec_resolve_fails(*table, *arena, AT_FDCWD, new_path@, e)
                ||| (e == LinuxError::ENOENT && !old(vfs).nodes@.contains_key(tp))
                ||| (e == LinuxError::EINVAL && old(vfs).nodes@.contains_key(tp) && tp.last()
                    == '/')
            }),
        },
{
    sys_linkat(table, arena, vfs, reg, AT_FDCWD, old_path, AT_FDCWD, new_path, 0)
}

/// Remove a link or directory: with the remove-directory flag the directory
/// is removed; a regular-file path loses its link (deleting the target file
/// at the last reference), falling back to plain deletion for a path that
/// is no link source; a directory without the flag is refused.
pub fn sys_unlinkat(
    table: &FdTable,
    arena: &HandleArena,
    vfs: &mut Vfs,
    reg: &mut HardlinkManager,
    dirfd: i32,
    path: &str,
    flags: u32,
) -> (r: Result<isize, LinuxError>)
    requires
        table.wf_with(*arena),
        old(vfs).wf(),
        old(reg).wf(),
    ensures
        final(vfs).wf(),
        final(reg).wf(),
        final(vfs).cwd == old(vfs).cwd,
        match r {
            Ok(v) => v == 0 && {
                let p = spec_trimmed(
                    spec_handle_path(*table, *arena, *old(vfs), *old(reg), dirfd, path@),
                );
                if flags == AT_REMOVEDIR {
                    &&& *final(reg) == *old(reg)
                    &&& old(vfs).nodes@.contains_key(p) && old(vfs).nodes@[p] is Dir && p
                        != spec_root() && final(vfs).nodes@ =~= old(vfs).nodes@.remove(p)
                } else {
                    &&& old(vfs).nodes@.contains_key(p) && !(old(vfs).nodes@[p] is Dir)
                    &&& if old(reg).links().contains_key(p) {
                        let target = old(reg).links()[p]@;
                        &&& final(reg).links() =~= old(reg).links().remove(p)
                        &&& (old(reg).counts()[target] == 1 ==> !final(reg).counts().contains_key(target))
                        &&& (old(reg).counts()[target] > 1 ==> final(reg).counts()[target]
                            == old(reg).counts()[target] - 1 && final(vfs).nodes@ == old(vfs).nodes@)
                    } else {
                        *final(reg) == *old(reg) && final(vfs).nodes@ =~= old(vfs).nodes@.remove(p)
                    }
                }
            },
            Err(e) => final(vfs).nodes@ == old(vfs).nodes@ && *final(reg) == *old(reg) && ({
                let p = spec_trimmed(
                    spec_handle_path(*table, *arena, *old(vfs), *old(reg), dirfd, path@),
                );
                ||| spec_resolve_fails(*table, *arena, dirfd, path@, e)
                ||| (flags == AT_REMOVEDIR && match e {
                    LinuxError::ENOENT => !old(vfs).nodes@.contains_key(p),
                    LinuxError::ENOTDIR => old(vfs).nodes@.contains_key(p) && !(old(vfs).nodes@[p] is Dir),
                    LinuxError::EPERM => p == spec_root(),
                    _ => false,
                })
                ||| (flags != AT_REMOVEDIR && match e {
                    LinuxError::ENOENT => !old(vfs).nodes@.contains_key(p),
                    LinuxError::EISDIR => old(vfs).nodes@.contains_key(p) && old(vfs).nodes@[p] is Dir,
                    _ => false,
                })
            }),
        },
{
    let fp = match handle_file_path(table, arena, vfs, reg, dirfd, path) {
        Ok(p) => p,
        Err(e) => {
            return Err(e);
        },
    };
    let key = fp.trimmed();
    if flags == AT_REMOVEDIR {
        match vfs.remove_dir(&key) {
            Ok(()) => Ok(0),
            Err(e) => Err(e),
        }
    } else {
        match vfs.node_is_dir(&key) {
            None => Err(LinuxError::ENOENT),
            Some(true) => Err(LinuxError::EISDIR),
            Some(false) => match reg.remove_link(vfs, &key) {
                Some(_) => Ok(0),
                None => {
                    proof {
                        assert(false);
                    }
                    Err(LinuxError::ENOENT)
                },
            },
        }
    }
}

/// Remove the link at a path relative to the working directory.
pub fn sys_unlink(
    table: &FdTable,
    arena: &HandleArena,
    vfs: &mut Vfs,
    reg: &mut HardlinkManager,
    path: &str,
) -> (r: Result<isize, LinuxError>)
    requires
        table.wf_with(*arena),
        old(vfs).wf(),
        old(reg).wf(),
    ensures
        final(vfs).wf(),
        final(reg).wf(),
        final(vfs).cwd == old(vfs).cwd,
        match r {
            Ok(v) => v == 0 && {
                let p = spec_trimmed(
                    spec_handle_path(*table, *arena, *old(vfs), *old(reg), AT_FDCWD, path@),
                );
                &&& old(vfs).nodes@.contains_key(p) && !(old(vfs).nodes@[p] is Dir)
                &&& if old(reg).links().contains_key(p) {
                    let target = old(reg).links()[p]@;
                    &&& final(reg).links() =~= old(reg).links().remove(p)
                    &&& (old(reg).counts()[target] == 1 ==> !final(reg).counts().contains_key(
                        target,
                    ))
                    &&& (old(reg).counts()[target] > 1 ==> final(reg).counts()[target] == old(
                        reg,
                    ).counts()[target] - 1 && final(vfs).nodes@ == old(vfs).nodes@)
                } else {
                    *final(reg) == *old(reg) && final(vfs).nodes@ =~= old(vfs).nodes@.remove(p)
                }
            },
            Err(e) => final(vfs).nodes@ == old(vfs).nodes@ && *final(reg) == *old(reg) && ({
                let p = spec_trimmed(
                    spec_handle_path(*table, *arena, *old(vfs), *old(reg), AT_FDCWD, path@),
                );
                ||| spec_resolve_fails(*table, *arena, AT_FDCWD, path@, e)
                ||| match e {
                    LinuxError::ENOENT => !old(vfs).nodes@.contains_key(p),
                    LinuxError::EISDIR => old(vfs).nodes@.contains_key(p) && old(vfs).nodes@[p] is Dir,
                    _ => false,
                }
            }),
        },
{
    sys_unlinkat(table, arena, vfs, reg, AT_FDCWD, path, 0)
}

/// Create a directory at the resolved path. The permission mode argument
/// is accepted and not interpreted: directories carry the default mode.
pub fn sys_mkdirat(
    table: &FdTable,
    arena: &HandleArena,
    vfs: &mut Vfs,
    reg: &HardlinkManager,
    dirfd: i32,
    path: &str,
    mode: u32,
    times: VfsNodeTimes,
) -> (r: Result<isize, LinuxError>)
    requires
        table.wf_with(*arena),
        old(vfs).wf(),
        reg.wf(),
    ensures
        final(vfs).wf(),
        final(vfs).cwd == old(vfs).cwd,
        match r {
            Ok(v) => v == 0 && {
                let p = spec_trimmed(
                    spec_handle_path(*table, *arena, *old(vfs), *reg, dirfd, path@),
                );
                &&& !old(vfs).nodes@.contains_key(p)
                &&& final(vfs).nodes@ =~= old(vfs).nodes@.insert(
                    p,
                    (VfsNode::Dir { perm: crate::vfs::VfsNodePerm(0o755), times }),
                )
            },
            Err(e) => final(vfs).nodes@ == old(vfs).nodes@ && ({
                let p = spec_trimmed(
                    spec_handle_path(*table, *arena, *old(vfs), *reg, dirfd, path@),
                );
                ||| spec_resolve_fails(*table, *arena, dirfd, path@, e)
                ||| (e == LinuxError::EEXIST && old(vfs).nodes@.contains_key(p))
            }),
        },
{
    let _ = mode;
    let fp = match handle_file_path(table, arena, vfs, reg, dirfd, path) {
        Ok(p) => p,
        Err(e) => {
            return Err(e);
        },
    };
    let key = fp.trimmed();
    match vfs.create_dir(key, times) {
        Ok(()) => Ok(0),
        Err(e) => Err(e),
    }
}

/// Create a directory at a path relative to the working directory.
pub fn sys_mkdir(
    table: &FdTable,
    arena: &HandleArena,
    vfs: &mut Vfs,
    reg: &HardlinkManager,
    path: &str,
    mode: u32,
    times: VfsNodeTimes,
) -> (r: Result<isize, LinuxError>)
    requires
        table.wf_with(*arena),
        old(vfs).wf(),
        reg.wf(),
    ensures
        final(vfs).wf(),
        final(vfs).cwd == old(vfs).cwd,
        match r {
            Ok(v) => v == 0 && {
                let p = spec_trimmed(
                    spec_handle_path(*table, *arena, *old(vfs), *reg, AT_FDCWD, path@),
                );
                &&& !old(vfs).nodes@.contains_key(p)
                &&& final(vfs).nodes@ =~= old(vfs).nodes@.insert(
                    p,
                    (VfsNode::Dir { perm: crate::vfs::VfsNodePerm(0o755), times }),
                )
            },
            Err(e) => final(vfs).nodes@ == old(vfs).nodes@ && ({
                let p = spec_trimmed(
                    spec_handle_path(*table, *arena, *old(vfs), *reg, AT_FDCWD, path@),
                );
                ||| spec_resolve_fails(*table, *arena, AT_FDCWD, path@, e)
                ||| (e == LinuxError::EEXIST && old(vfs).nodes@.contains_key(p))
            }),
        },
{
    sys_mkdirat(table, arena, vfs, reg, AT_FDCWD, path, mode, times)
}

/// The current working directory, when it fits the caller's buffer of
/// `size` bytes (a terminating NUL included).
pub fn sys_getcwd(vfs: &Vfs, size: usize) -> (r: Result<String, LinuxError>)
    requires
        vfs.wf(),
    ensures
        match r {
            Ok(cwd) => cwd@ == vfs.cwd@ && cwd@.len() < size,
            Err(e) => e == LinuxError::ERANGE && vfs.cwd@.len() + 1 > size,
        },
{
    let cwd = vfs.cwd().clone();
    let n = cwd.as_str().unicode_len();
    if n > usize::MAX - 1 || n + 1 > size {
        return Err(LinuxError::ERANGE);
    }
    Ok(cwd)
}

/// Change the working directory to the resolved path, which must name an
/// existing directory.
pub fn sys_chdir(vfs: &mut Vfs, reg: &HardlinkManager, path: &str) -> (r: Result<
    isize,
    LinuxError,
>)
    requires
        old(vfs).wf(),
        reg.wf(),
    ensures
        final(vfs).wf(),
        final(vfs).nodes@ == old(vfs).nodes@,
        match r {
            Ok(v) => v == 0 && {
                let p = spec_trimmed(
                    crate::path::spec_real_path(
                        reg.links(),
                        crate::path::spec_with_dir_intent(
                            crate::path::spec_canonical(
                                crate::path::spec_resolved(path@, old(vfs).cwd@),
                            ),
                            path@,
                        ),
                    ),
                );
                &&& old(vfs).nodes@.contains_key(p)
                &&& old(vfs).nodes@[p] is Dir
                &&& final(vfs).cwd@ == p
            },
            Err(e) => final(vfs).cwd == old(vfs).cwd && ({
                let p = spec_trimmed(
                    crate::path::spec_real_path(
                        reg.links(),
                        crate::path::spec_with_dir_intent(
                            crate::path::spec_canonical(
                                crate::path::spec_resolved(path@, old(vfs).cwd@),
                            ),
                            path@,
                        ),
                    ),
                );
                match e {
                    LinuxError::ENOENT => !old(vfs).nodes@.contains_key(p),
                    LinuxError::ENOTDIR => old(vfs).nodes@.contains_key(p) && !(old(vfs).nodes@[p] is Dir),
                    _ => false,
                }
            }),
        },
{
    let fp = match FilePath::new(vfs, reg, path) {
        Ok(p) => p,
        Err(e) => {
            return Err(e);
        },
    };
    let key = fp.trimmed();
    match vfs.set_cwd(key) {
        Ok(()) => Ok(0),
        Err(e) => Err(e),
    }
}

/// Read the target of a link: the synthetic self-executable path resolves
/// from the process metadata handed in by the caller, and any other path
/// reports the hardlink registry's recorded target — a path that is no link
/// source is invalid.
pub fn sys_readlinkat(
    table: &FdTable,
    arena: &HandleArena,
    vfs: &Vfs,
    reg: &HardlinkManager,
    exe_path: &String,
    dirfd: i32,
    path: &str,
) -> (r: Result<String, LinuxError>)
    requires
        table.wf_with(*arena),
        vfs.wf(),
        reg.wf(),
    ensures
        match r {
            Ok(link) => {
                let p = spec_handle_path(*table, *arena, *vfs, *reg, dirfd, path@);
                if p == "/proc/self/exe"@ {
                    link@ == exe_path@
                } else {
                    link@ == crate::path::spec_real_path(reg.links(), p) && link@ != p
                }
            },
            Err(e) => match e {
                LinuxError::EINVAL => spec_resolve_fails(*table, *arena, dirfd, path@, e) || ({
                    let p = spec_handle_path(*table, *arena, *vfs, *reg, dirfd, path@);
                    p != "/proc/self/exe"@ && crate::path::spec_real_path(reg.links(), p) == p
                }),
                LinuxError::EBADF => spec_resolve_fails(*table, *arena, dirfd, path@, e),
                LinuxError::ENOTDIR => spec_resolve_fails(*table, *arena, dirfd, path@, e),
                _ => false,
            },
        },
{
    let fp = match handle_file_path(table, arena, vfs, reg, dirfd, path) {
        Ok(p) => p,
        Err(e) => {
            return Err(e);
        },
    };
    proof {
        reveal_strlit("/proc/self/exe");
    }
    let probe: String = String::from_str("/proc/self/exe");
    let fps = String::from_str(fp.as_str());
    if fps.eq(&probe) {
        return Ok(exe_path.clone());
    }
    let resolved = reg.real_path(&fps);
    if resolved.eq(&fps) {
        return Err(LinuxError::EINVAL);
    }
    Ok(resolved)
}

/// Read the target of a link at a path relative to the working directory.
pub fn sys_readlink(
    table: &FdTable,
    arena: &HandleArena,
    vfs: &Vfs,
    reg: &HardlinkManager,
    exe_path: &String,
    path: &str,
) -> (r: Result<String, LinuxError>)
    requires
        table.wf_with(*arena),
        vfs.wf(),
        reg.wf(),
    ensures
        match r {
            Ok(link) => {
                let p = spec_handle_path(*table, *arena, *vfs, *reg, AT_FDCWD, path@);
                if p == "/proc/self/exe"@ {
                    link@ == exe_path@
                } else {
                    link@ == crate::path::spec_real_path(reg.links(), p) && link@ != p
                }
            },
            Err(e) => match e {
                LinuxError::EINVAL => spec_resolve_fails(*table, *arena, AT_FDCWD, path@, e) || ({
                    let p = spec_handle_path(*table, *arena, *vfs, *reg, AT_FDCWD, path@);
                    p != "/proc/self/exe"@ && crate::path::spec_real_path(reg.links(), p) == p
                }),
                LinuxError::EBADF => spec_resolve_fails(*table, *arena, AT_FDCWD, path@, e),
                _ => false,
            },
        },
{
    sys_readlinkat(table, arena, vfs, reg, exe_path, AT_FDCWD, path)
}

/// Move the node at the resolved old path to the resolved new path,
/// replacing anything there. Behaviour flags are accepted and not
/// interpreted.
pub fn sys_renameat2(
    table: &FdTable,
    arena: &HandleArena,
    vfs: &mut Vfs,
    reg: &HardlinkManager,
    old_dirfd: i32,
    old_path: &str,
    new_dirfd: i32,
    new_path: &str,
    flags: u32,
) -> (r: Result<isize, LinuxError>)
    requires
        table.wf_with(*arena),
        old(vfs).wf(),
        reg.wf(),
    ensures
        final(vfs).wf(),
        final(vfs).cwd == old(vfs).cwd,
        match r {
            Ok(v) => v == 0 && {
                let po = spec_trimmed(
                    spec_handle_path(*table, *arena, *old(vfs), *reg, old_dirfd, old_path@),
                );
                let pn = spec_trimmed(
                    spec_handle_path(*table, *arena, *old(vfs), *reg, new_dirfd, new_path@),
                );
                &&& old(vfs).nodes@.contains_key(po)
                &&& po != spec_root() && pn != spec_root()
                &&& final(vfs).nodes@ =~= old(vfs).nodes@.remove(po).insert(
                    pn,
                    old(vfs).nodes@[po],
                )
            },
            Err(e) => final(vfs).nodes@ == old(vfs).nodes@ && ({
                let po = spec_trimmed(
                    spec_handle_path(*table, *arena, *old(vfs), *reg, old_dirfd, old_path@),
                );
                let pn = spec_trimmed(
                    spec_handle_path(*table, *arena, *old(vfs), *reg, new_dirfd, new_path@),
                );
                ||| spec_resolve_fails(*table, *arena, old_dirfd, old_path@, e)
                ||| spec_resolve_fails(*table, *arena, new_dirfd, new_path@, e)
                ||| (e == LinuxError::ENOENT && !old(vfs).nodes@.contains_key(po))
                ||| (e == LinuxError::EPERM && (po == spec_root() || pn == spec_root()))
            }),
        },
{
    let _ = flags;
    let old_fp = match handle_file_path(table, arena, vfs, reg, old_dirfd, old_path) {
        Ok(p) => p,
        Err(e) => {
            return Err(e);
        },
    };
    let new_fp = match handle_file_path(table, arena, vfs, reg, new_dirfd, new_path) {
        Ok(p) => p,
        Err(e) => {
            return Err(e);
        },
    };
    let ko = old_fp.trimmed();
    let kn = new_fp.trimmed();
    match vfs.rename(&ko, kn) {
        Ok(()) => Ok(0),
        Err(e) => Err(e),
    }
}

/// Move a node, both paths `dirfd`-relative, with no behaviour flags.
pub fn sys_renameat(
    table: &FdTable,
    arena: &HandleArena,
    vfs: &mut Vfs,
    reg: &HardlinkManager,
    old_dirfd: i32,
    old_path: &str,
    new_dirfd: i32,
    new_path: &str,
) -> (r: Result<isize, LinuxError>)
    requires
        table.wf_with(*arena),
        old(vfs).wf(),
        reg.wf(),
    ensures
        final(vfs).wf(),
        final(vfs).cwd == old(vfs).cwd,
        match r {
            Ok(v) => v == 0 && {
                let po = spec_trimmed(
                    spec_handle_path(*table, *arena, *old(vfs), *reg, old_dirfd, old_path@),
                );
                let pn = spec_trimmed(
                    spec_handle_path(*table, *arena, *old(vfs), *reg, new_dirfd, new_path@),
                );
                &&& old(vfs).nodes@.contains_key(po)
                &&& po != spec_root() && pn != spec_root()
                &&& final(vfs).nodes@ =~= old(vfs).nodes@.remove(po).insert(
                    pn,
                    old(vfs).nodes@[po],
                )
            },
            Err(e) => final(vfs).nodes@ == old(vfs).nodes@,
        },
{
    sys_renameat2(table, arena, vfs, reg, old_dirfd, old_path, new_dirfd, new_path, 0)
}

/// Move a node, both paths relative to the working directory.
pub fn sys_rename(
    table: &FdTable,
    arena: &HandleArena,
    vfs: &mut Vfs,
    reg: &HardlinkManager,
    old_path: &str,
    new_path: &str,
) -> (r: Result<isize, LinuxError>)
    requires
        table.wf_with(*arena),
        old(vfs).wf(),
        reg.wf(),
    ensures
        final(vfs).wf(),
        final(vfs).cwd == old(vfs).cwd,
        match r {
            Ok(v) => v == 0 && {
                let po = spec_trimmed(
                    spec_handle_path(*table, *arena, *old(vfs), *reg, AT_FDCWD, old_path@),
                );
                let pn = spec_trimmed(
                    spec_handle_path(*table, *arena, *old(vfs), *reg, AT_FDCWD, new_path@),
                );
                &&& old(vfs).nodes@.contains_key(po)
                &&& po != spec_root() && pn != spec_root()
                &&& final(vfs).nodes@ =~= old(vfs).nodes@.remove(po).insert(
                    pn,
                    old(vfs).nodes@[po],
                )
            },
            Err(e) => final(vfs).nodes@ == old(vfs).nodes@ && ({
                let po = spec_trimmed(
                    spec_handle_path(*table, *arena, *old(vfs), *reg, AT_FDCWD, old_path@),
                );
                let pn = spec_trimmed(
                    spec_handle_path(*table, *arena, *old(vfs), *reg, AT_FDCWD, new_path@),
                );
                ||| spec_resolve_fails(*table, *arena, AT_FDCWD, old_path@, e)
                ||| spec_resolve_fails(*table, *arena, AT_FDCWD, new_path@, e)
                ||| (e == LinuxError::ENOENT && !old(vfs).nodes@.contains_key(po))
                ||| (e == LinuxError::EPERM && (po == spec_root() || pn == spec_root()))
            }),
        },
{
    sys_renameat2(table, arena, vfs, reg, AT_FDCWD, old_path, AT_FDCWD, new_path, 0)
}

/// The timestamp record and update mask that a `utimens`-style call with
/// the given per-field arguments applies: with no record at all, both
/// access and modification time become "now"; otherwise each of the two
/// fields is omitted, set to "now", or set to its explicit value by its
/// nanosecond sentinel; the change time always follows along as "now".
pub open spec fn spec_times_update(times: Option<(TimeSpec, TimeSpec)>, now: TimeValue) -> (
    VfsNodeTimes,
    TimesMask,
) {
    match times {
        None => (
            VfsNodeTimes {
                atime_sec: now.secs,
                atime_nsec: now.nanos as u64,
                mtime_sec: now.secs,
                mtime_nsec: now.nanos as u64,
                ctime_sec: 0,
                ctime_nsec: 0,
            },
            TimesMask {
                atime: true,
                mtime: true,
                ctime: false,
                atime_nsec: true,
                mtime_nsec: true,
                ctime_nsec: false,
            },
        ),
        Some((a, m)) => {
            let (a_sec, a_nsec, a_on) = if a.tv_nsec == UTIME_OMIT {
                (0u64, 0u64, false)
            } else if a.tv_nsec == UTIME_NOW {
                (now.secs, now.nanos as u64, true)
            } else {
                (a.tv_sec as u64, a.tv_nsec as u64, true)
            };
            let (m_sec, m_nsec, m_on) = if m.tv_nsec == UTIME_OMIT {
                (0u64, 0u64, false)
            } else if m.tv_nsec == UTIME_NOW {
                (now.secs, now.nanos as u64, true)
            } else {
                (m.tv_sec as u64, m.tv_nsec as u64, true)
            };
            (
                VfsNodeTimes {
                    atime_sec: a_sec,
                    atime_nsec: a_nsec,
                    mtime_sec: m_sec,
                    mtime_nsec: m_nsec,
                    ctime_sec: 0,
                    ctime_nsec: 0,
                },
                TimesMask {
                    atime: a_on,
                    mtime: m_on,
                    ctime: false,
                    atime_nsec: a_on,
                    mtime_nsec: m_on,
                    ctime_nsec: false,
                },
            )
        },
    }
}

/// Builds the timestamp record and update mask of a `utimens`-style call.
pub fn build_times_update(times: Option<(TimeSpec, TimeSpec)>, now: TimeValue) -> (r: (
    VfsNodeTimes,
    TimesMask,
))
    ensures
        r == spec_times_update(times, now),
{
    match times {
        None => (
            VfsNodeTimes {
                atime_sec: now.secs,
                atime_nsec: now.nanos as u64,
                mtime_sec: now.secs,
                mtime_nsec: now.nanos as u64,
                ctime_sec: 0,
                ctime_nsec: 0,
            },
            TimesMask {
                atime: true,
                mtime: true,
                ctime: false,
                atime_nsec: true,
                mtime_nsec: true,
                ctime_nsec: false,
            },
        ),
        Some((a, m)) => {
            let (a_sec, a_nsec, a_on): (u64, u64, bool) = if a.tv_nsec == UTIME_OMIT {
                (0, 0, false)
            } else if a.tv_nsec == UTIME_NOW {
                (now.secs, now.nanos as u64, true)
            } else {
                (a.tv_sec as u64, a.tv_nsec as u64, true)
            };
            let (m_sec, m_nsec, m_on): (u64, u64, bool) = if m.tv_nsec == UTIME_OMIT {
                (0, 0, false)
            } else if m.tv_nsec == UTIME_NOW {
                (now.secs, now.nanos as u64, true)
            } else {
                (m.tv_sec as u64, m.tv_nsec as u64, true)
            };
            (
                VfsNodeTimes {
                    atime_sec: a_sec,
                    atime_nsec: a_nsec,
                    mtime_sec: m_sec,
                    mtime_nsec: m_nsec,
                    ctime_sec: 0,
                    ctime_nsec: 0,
                },
                TimesMask {
                    atime: a_on,
                    mtime: m_on,
                    ctime: false,
                    atime_nsec: a_on,
                    mtime_nsec: m_on,
                    ctime_nsec: false,
                },
            )
        },
    }
}

/// Update the timestamps of a file: the file behind `dirfd` itself when no
/// path is given, or the file at the resolved path. Each of the two
/// user-controlled fields is omitted, set to "now", or set to its explicit
/// value by its per-field sentinel; with no record at all, both become
/// "now".
pub fn sys_utimensat(
    table: &FdTable,
    arena: &mut HandleArena,
    vfs: &mut Vfs,
    reg: &HardlinkManager,
    dirfd: i32,
    path: Option<&str>,
    times: Option<(TimeSpec, TimeSpec)>,
    now: TimeValue,
) -> (r: Result<isize, LinuxError>)
    requires
        table.wf_with(*old(arena)),
        old(vfs).wf(),
        reg.wf(),
    ensures
        table.wf_with(*final(arena)),
        final(vfs).wf(),
        final(vfs).cwd == old(vfs).cwd,
        final(arena).slots@ == old(arena).slots@,
        match r {
            Ok(v) => v == 0 && {
                let key = spec_utimensat_key(*table, *old(arena), *old(vfs), *reg, dirfd, path);
                let vt = spec_times_update(times, now).0;
                let mask = spec_times_update(times, now).1;
                match key {
                    Some(p) => old(vfs).nodes@.contains_key(p) && (match old(vfs).nodes@[p] {
                        VfsNode::File { data, perm, times: t0 } => final(vfs).nodes@ =~= old(vfs).nodes@.insert(
                            p,
                            (VfsNode::File {
                                data: final(vfs).nodes@[p]->File_data,
                                perm,
                                times: t0.spec_set_times(vt, mask),
                            }),
                        ) && final(vfs).nodes@[p]->File_data@ =~= data@,
                        VfsNode::Dir { perm, times: t0 } => final(vfs).nodes@ =~= old(vfs).nodes@.insert(
                            p,
                            (VfsNode::Dir { perm, times: t0.spec_set_times(vt, mask) }),
                        ),
                    }),
                    None => final(vfs).nodes@ == old(vfs).nodes@,
                }
            },
            Err(e) => final(vfs).nodes@ == old(vfs).nodes@ && ({
                let use_fd = match path {
                    None => true,
                    Some(p) => p@.len() == 0,
                };
                if use_fd {
                    ||| (e == LinuxError::EBADF && (dirfd < 0 || !table.view_map().contains_key(
                        dirfd as usize,
                    )))
                    ||| (e == LinuxError::ENOENT && dirfd >= 0 && table.view_map().contains_key(
                        dirfd as usize,
                    ) && match old(arena).slots@[table.view_map()[dirfd as usize] as int].obj.spec_path() {
                        Some(p) => !old(vfs).nodes@.contains_key(p),
                        None => false,
                    })
                } else {
                    let raw = match path {
                        Some(p) => p@,
                        None => Seq::empty(),
                    };
                    let key = spec_trimmed(
                        crate::fd::spec_lookup_path(*table, *old(arena), *old(vfs), *reg, dirfd, raw),
                    );
                    match e {
                        LinuxError::ENOENT => !old(vfs).nodes@.contains_key(key),
                        LinuxError::EBADF => !(raw.len() > 0 && raw[0] == '/') && dirfd
                            != AT_FDCWD && (dirfd < 0 || !table.view_map().contains_key(
                            dirfd as usize,
                        )),
                        LinuxError::ENOTDIR => !(raw.len() > 0 && raw[0] == '/') && dirfd
                            != AT_FDCWD && dirfd >= 0 && table.view_map().contains_key(
                            dirfd as usize,
                        ) && !(old(arena).slots@[table.view_map()[dirfd as usize] as int].obj
                            is Directory),
                        _ => false,
                    }
                }
            }),
        },
{
    let use_fd: bool = match path {
        None => true,
        Some(p) => p.unicode_len() == 0,
    };
    let obj: FileLikeHandle = if use_fd {
        let h = match get_file_like(table, dirfd) {
            Ok(h) => h,
            Err(e) => {
                return Err(e);
            },
        };
        match &arena.slots[h].obj {
            FileLikeHandle::File { path: p, cursor } => FileLikeHandle::File {
                path: p.clone(),
                cursor: *cursor,
            },
            FileLikeHandle::Directory { path: p, dir_pos } => FileLikeHandle::Directory {
                path: p.clone(),
                dir_pos: *dir_pos,
            },
            FileLikeHandle::Stdin => FileLikeHandle::Stdin,
            FileLikeHandle::Stdout => FileLikeHandle::Stdout,
        }
    } else {
        let p = match path {
            Some(p) => p,
            None => {
                proof {
                    assert(false);
                }
                ""
            },
        };
        match get_file_like_at(table, arena, vfs, reg, dirfd, p) {
            Ok(o) => o,
            Err(e) => {
                return Err(e);
            },
        }
    };
    let (vt, mask) = build_times_update(times, now);
    match obj.set_times(vfs, &vt, mask) {
        Ok(()) => Ok(0),
        Err(e) => Err(e),
    }
}

/// The node key a `utimensat`-style call updates, when its file selection
/// succeeds: the path recorded in the handle behind `dirfd` when no path
/// argument is given, else the resolved and trimmed path argument; the
/// standard streams have no node.
pub open spec fn spec_utimensat_key(
    table: FdTable,
    arena: HandleArena,
    vfs: Vfs,
    reg: HardlinkManager,
    dirfd: i32,
    path: Option<&str>,
) -> Option<Seq<char>> {
    let use_fd = match path {
        None => true,
        Some(p) => p@.len() == 0,
    };
    if use_fd {
        arena.slots@[table.view_map()[dirfd as usize] as int].obj.spec_path()
    } else {
        Some(
            spec_trimmed(
                crate::fd::spec_lookup_path(
                    table,
                    arena,
                    vfs,
                    reg,
                    dirfd,
                    (match path {
                        Some(p) => p@,
                        None => Seq::empty(),
                    }),
                ),
            ),
        )
    }
}

} // verus!
