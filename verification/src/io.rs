use vstd::prelude::*;
use crate::errno::LinuxError;
use crate::fd::{FdTable, get_file_like};
use crate::file::{
    FileLikeHandle, HandleArena, HandleSlot, spec_read_fail, spec_read_result, spec_write_fail,
    spec_write_result,
};
use crate::memfs::{Vfs, VfsNode};
use vstd::pervasive::VecAdditionalExecFns;

verus! {

/// Seek from the start of the file.
pub const SEEK_SET: i32 = 0;

/// Seek from the current position.
pub const SEEK_CUR: i32 = 1;

/// Seek from the end of the file.
pub const SEEK_END: i32 = 2;

/// The arena after an operation that touched only the object of slot `h`,
/// keeping its reference count.
pub open spec fn spec_only_obj_changed(pre: HandleArena, post: HandleArena, h: int) -> bool {
    &&& post.slots@.len() == pre.slots@.len()
    &&& post.slots@[h].refs == pre.slots@[h].refs
    &&& forall|i: int| 0 <= i < pre.slots@.len() && i != h ==> post.slots@[i] == pre.slots@[i]
}

/// Read up to `len` bytes from the file indicated by `fd`, returning the
/// bytes read.
pub fn sys_read(table: &FdTable, arena: &mut HandleArena, vfs: &Vfs, fd: i32, len: usize) -> (r:
    Result<Vec<u8>, LinuxError>)
    requires
        table.wf_with(*old(arena)),
        vfs.wf(),
    ensures
        table.wf_with(*final(arena)),
        match r {
            Ok(out) => fd >= 0 && table.view_map().contains_key(fd as usize) && {
                let h = table.view_map()[fd as usize] as int;
                &&& spec_read_result(
                    old(arena).slots@[h].obj,
                    final(arena).slots@[h].obj,
                    *vfs,
                    len,
                    out@,
                )
                &&& spec_only_obj_changed(*old(arena), *final(arena), h)
            },
            Err(e) => final(arena).slots@ == old(arena).slots@ && (if fd < 0
                || !table.view_map().contains_key(fd as usize) {
                e == LinuxError::EBADF
            } else {
                spec_read_fail(
                    old(arena).slots@[table.view_map()[fd as usize] as int].obj,
                    *vfs,
                    e,
                )
            }),
        },
{
    let h = match get_file_like(table, fd) {
        Ok(h) => h,
        Err(e) => {
            return Err(e);
        },
    };
    let mut taken = HandleSlot { refs: 0, obj: FileLikeHandle::Stdin };
    arena.slots.set_and_swap(h, &mut taken);
    let HandleSlot { refs, mut obj } = taken;
    let res = obj.read(vfs, len);
    let mut back = HandleSlot { refs, obj };
    arena.slots.set_and_swap(h, &mut back);
    proof {
        if res is Err {
            assert(final(arena).slots@ =~= old(arena).slots@);
        }
    }
    res
}

/// Write the given bytes to the file indicated by `fd`, returning the
/// number of bytes written.
pub fn sys_write(
    table: &FdTable,
    arena: &mut HandleArena,
    vfs: &mut Vfs,
    fd: i32,
    buf: &Vec<u8>,
) -> (r: Result<usize, LinuxError>)
    requires
        table.wf_with(*old(arena)),
        old(vfs).wf(),
    ensures
        table.wf_with(*final(arena)),
        final(vfs).wf(),
        final(vfs).cwd == old(vfs).cwd,
        match r {
            Ok(n) => fd >= 0 && table.view_map().contains_key(fd as usize) && {
                let h = table.view_map()[fd as usize] as int;
                &&& spec_write_result(
                    old(arena).slots@[h].obj,
                    final(arena).slots@[h].obj,
                    *old(vfs),
                    *final(vfs),
                    buf@,
                    n,
                )
                &&& spec_only_obj_changed(*old(arena), *final(arena), h)
            },
            Err(e) => final(arena).slots@ == old(arena).slots@ && final(vfs).nodes@ == old(vfs).nodes@ && (if fd < 0 || !table.view_map().contains_key(fd as usize) {
                e == LinuxError::EBADF
            } else {
                spec_write_fail(
                    old(arena).slots@[table.view_map()[fd as usize] as int].obj,
                    *old(vfs),
                    buf@,
                    e,
                )
            }),
        },
{
    let h = match get_file_like(table, fd) {
        Ok(h) => h,
        Err(e) => {
            return Err(e);
        },
    };
    let mut taken = HandleSlot { refs: 0, obj: FileLikeHandle::Stdin };
    arena.slots.set_and_swap(h, &mut taken);
    let HandleSlot { refs, mut obj } = taken;
    let res = obj.write(vfs, buf);
    let mut back = HandleSlot { refs, obj };
    arena.slots.set_and_swap(h, &mut back);
    proof {
        if res is Err {
            assert(final(arena).slots@ =~= old(arena).slots@);
        }
    }
    res
}

/// Reposition the cursor of the regular file indicated by `fd`: from the
/// start, the current position or the end, by the given signed offset. The
/// new absolute position is returned. A descriptor that is not concretely
/// a regular file cannot seek and fails cleanly.
pub fn sys_lseek(
    table: &FdTable,
    arena: &mut HandleArena,
    vfs: &Vfs,
    fd: i32,
    offset: i64,
    whence: i32,
) -> (r: Result<i64, LinuxError>)
    requires
        table.wf_with(*old(arena)),
        vfs.wf(),
    ensures
        table.wf_with(*final(arena)),
        match r {
            Ok(pos) => fd >= 0 && table.view_map().contains_key(fd as usize) && {
                let h = table.view_map()[fd as usize] as int;
                &&& spec_only_obj_changed(*old(arena), *final(arena), h)
                &&& old(arena).slots@[h].obj matches FileLikeHandle::File { path, cursor } && {
                    &&& vfs.nodes@.contains_key(path@)
                    &&& vfs.nodes@[path@] matches VfsNode::File { data, .. } && pos == (
                    if whence == SEEK_SET {
                        offset as int
                    } else if whence == SEEK_CUR {
                        cursor + offset
                    } else {
                        data@.len() + offset
                    }) && (whence == SEEK_SET || whence == SEEK_CUR || whence == SEEK_END)
                        && 0 <= pos <= usize::MAX && pos <= i64::MAX
                    &&& final(arena).slots@[h].obj == (FileLikeHandle::File {
                        path,
                        cursor: pos as usize,
                    })
                }
            },
            Err(e) => final(arena).slots@ == old(arena).slots@ && (if fd < 0
                || !table.view_map().contains_key(fd as usize) {
                e == LinuxError::EBADF
            } else {
                match old(arena).slots@[table.view_map()[fd as usize] as int].obj {
                    FileLikeHandle::File { path, cursor } => match e {
                        LinuxError::EINVAL => !(whence == SEEK_SET || whence == SEEK_CUR
                            || whence == SEEK_END) || (vfs.nodes@.contains_key(path@)
                            && !(vfs.nodes@[path@] is Dir) && !(0 <= (if whence == SEEK_SET {
                            offset as int
                        } else if whence == SEEK_CUR {
                            cursor + offset
                        } else {
                            vfs.nodes@[path@]->File_data@.len() + offset
                        }) && ((if whence == SEEK_SET {
                            offset as int
                        } else if whence == SEEK_CUR {
                            cursor + offset
                        } else {
                            vfs.nodes@[path@]->File_data@.len() + offset
                        }) <= usize::MAX) && ((if whence == SEEK_SET {
                            offset as int
                        } else if whence == SEEK_CUR {
                            cursor + offset
                        } else {
                            vfs.nodes@[path@]->File_data@.len() + offset
                        }) <= i64::MAX))),
                        LinuxError::ENOENT => !vfs.nodes@.contains_key(path@),
                        LinuxError::EISDIR => vfs.nodes@.contains_key(path@)
                            && vfs.nodes@[path@] is Dir,
                        _ => false,
                    },
                    _ => e == LinuxError::EINVAL,
                }
            }),
        },
{
    let h = match get_file_like(table, fd) {
        Ok(h) => h,
        Err(e) => {
            return Err(e);
        },
    };
    if whence != SEEK_SET && whence != SEEK_CUR && whence != SEEK_END {
        return Err(LinuxError::EINVAL);
    }
    let (path, cursor): (String, usize) = match &arena.slots[h].obj {
        FileLikeHandle::File { path, cursor } => (path.clone(), *cursor),
        _ => {
            return Err(LinuxError::EINVAL);
        },
    };
    let size: usize = match vfs.node_is_dir(&path) {
        None => {
            return Err(LinuxError::ENOENT);
        },
        Some(true) => {
            return Err(LinuxError::EISDIR);
        },
        Some(false) => {
            match vfs.metadata(&path) {
                Ok(attr) => {
                    let sz64 = attr.size();
                    if sz64 > usize::MAX as u64 {
                        proof {
                            assert(false);
                        }
                        return Err(LinuxError::EINVAL);
                    }
                    sz64 as usize
                },
                Err(_) => {
                    proof {
                        assert(false);
                    }
                    return Err(LinuxError::EINVAL);
                },
            }
        },
    };
    let base: i128 = if whence == SEEK_SET {
        0
    } else if whence == SEEK_CUR {
        cursor as i128
    } else {
        size as i128
    };
    let newpos: i128 = base + offset as i128;
    if newpos < 0 || newpos > usize::MAX as i128 || newpos > i64::MAX as i128 {
        return Err(LinuxError::EINVAL);
    }
    let newcursor = newpos as usize;
    let mut taken = HandleSlot { refs: 0, obj: FileLikeHandle::Stdin };
    arena.slots.set_and_swap(h, &mut taken);
    let refs = taken.refs;
    let mut back = HandleSlot {
        refs,
        obj: FileLikeHandle::File { path, cursor: newcursor },
    };
    arena.slots.set_and_swap(h, &mut back);
    Ok(newpos as i64)
}


/// The chunks a vectored read hands back, reading from `data` at `cursor`
/// with the given chunk lengths: zero-length chunks are skipped, and the
/// first short chunk ends the read.
pub open spec fn spec_readv_chunks(data: Seq<u8>, cursor: int, lens: Seq<usize>, i: int) -> Seq<
    Seq<u8>,
>
    decreases lens.len() - i,
{
    if i < 0 || i >= lens.len() {
        Seq::empty()
    } else if lens[i] == 0 {
        spec_readv_chunks(data, cursor, lens, i + 1)
    } else {
        let chunk = data.subrange(
            vstd::math::min(cursor, data.len() as int),
            vstd::math::min(cursor + lens[i], data.len() as int),
        );
        if chunk.len() < lens[i] {
            seq![chunk]
        } else {
            seq![chunk] + spec_readv_chunks(data, cursor + lens[i], lens, i + 1)
        }
    }
}

/// The total length of a sequence of chunks.
pub open spec fn spec_chunks_len(chunks: Seq<Seq<u8>>) -> int
    decreases chunks.len(),
{
    if chunks.len() == 0 {
        0
    } else {
        spec_chunks_len(chunks.drop_last()) + chunks.last().len()
    }
}

/// Read from the file indicated by `fd` into a sequence of chunks of the
/// given lengths (the non-contiguous buffers of a vectored read):
/// zero-length buffers are skipped, and the read stops early at the first
/// chunk that comes back short.
pub fn sys_readv(
    table: &FdTable,
    arena: &mut HandleArena,
    vfs: &Vfs,
    fd: i32,
    lens: &Vec<usize>,
) -> (r: Result<Vec<Vec<u8>>, LinuxError>)
    requires
        table.wf_with(*old(arena)),
        vfs.wf(),
    ensures
        table.wf_with(*final(arena)),
        match r {
            Ok(out) => fd >= 0 && table.view_map().contains_key(fd as usize) && lens@.len()
                <= 1024 && {
                let h = table.view_map()[fd as usize] as int;
                let pre = old(arena).slots@[h].obj;
                &&& spec_only_obj_changed(*old(arena), *final(arena), h)
                &&& match pre {
                    FileLikeHandle::File { path, cursor } => {
                        if vfs.nodes@.contains_key(path@) && vfs.nodes@[path@] is File {
                            &&& out@.map_values(|v: Vec<u8>| v@) == spec_readv_chunks(
                                vfs.nodes@[path@]->File_data@,
                                cursor as int,
                                lens@,
                                0,
                            )
                            &&& final(arena).slots@[h].obj == (FileLikeHandle::File {
                                path,
                                cursor: (cursor + spec_chunks_len(
                                    spec_readv_chunks(
                                        vfs.nodes@[path@]->File_data@,
                                        cursor as int,
                                        lens@,
                                        0,
                                    ),
                                )) as usize,
                            })
                        } else {
                            out@.len() == 0 && (forall|j: int| 0 <= j < lens@.len() ==> lens@[j]
                                == 0) && final(arena).slots@[h].obj == pre
                        }
                    },
                    FileLikeHandle::Directory { .. } => out@.len() == 0 && (forall|j: int|
                        0 <= j < lens@.len() ==> lens@[j] == 0) && final(arena).slots@[h].obj
                        == pre,
                    _ => out@.map_values(|v: Vec<u8>| v@) == spec_readv_chunks(
                        Seq::empty(),
                        0,
                        lens@,
                        0,
                    ) && final(arena).slots@[h].obj == pre,
                }
            },
            Err(e) => final(arena).slots@ == old(arena).slots@ && (if lens@.len() > 1024 {
                e == LinuxError::EINVAL
            } else if fd < 0 || !table.view_map().contains_key(fd as usize) {
                e == LinuxError::EBADF
            } else {
                spec_read_fail(
                    old(arena).slots@[table.view_map()[fd as usize] as int].obj,
                    *vfs,
                    e,
                )
            }),
        },
{
    if lens.len() > 1024 {
        return Err(LinuxError::EINVAL);
    }
    let h = match get_file_like(table, fd) {
        Ok(h) => h,
        Err(e) => {
            return Err(e);
        },
    };
    let mut taken = HandleSlot { refs: 0, obj: FileLikeHandle::Stdin };
    arena.slots.set_and_swap(h, &mut taken);
    let HandleSlot { refs, mut obj } = taken;
    let ghost pre = obj;
    let ghost data: Seq<u8> = match pre {
        FileLikeHandle::File { path, .. } => if vfs.nodes@.contains_key(path@)
            && vfs.nodes@[path@] is File {
            vfs.nodes@[path@]->File_data@
        } else {
            Seq::empty()
        },
        _ => Seq::empty(),
    };
    let ghost c0: int = match pre {
        FileLikeHandle::File { cursor, .. } => cursor as int,
        _ => 0,
    };
    let mut out: Vec<Vec<u8>> = Vec::new();
    let n = lens.len();
    let mut i: usize = 0;
    let mut done: bool = false;
    while i < n && !done
        invariant
            vfs.wf(),
            n == lens@.len(),
            n <= 1024,
            i <= n,
            h < old(arena).slots@.len(),
            h == table.view_map()[fd as usize],
            fd >= 0 && table.view_map().contains_key(fd as usize),
            table.wf_with(*old(arena)),
            refs == old(arena).slots@[h as int].refs,
            pre == old(arena).slots@[h as int].obj,
            arena.slots@ == old(arena).slots@.update(
                h as int,
                (HandleSlot { refs: 0, obj: FileLikeHandle::Stdin }),
            ),
            !(pre is Directory) ==> match pre {
                FileLikeHandle::File { path, cursor } => {
                    &&& c0 == cursor
                    &&& if vfs.nodes@.contains_key(path@) && vfs.nodes@[path@] is File {
                        &&& data == vfs.nodes@[path@]->File_data@
                        &&& spec_readv_chunks(data, c0, lens@, 0) == out@.map_values(
                            |v: Vec<u8>| v@,
                        ) + (if done {
                            Seq::<Seq<u8>>::empty()
                        } else {
                            spec_readv_chunks(
                                data,
                                c0 + spec_chunks_len(out@.map_values(|v: Vec<u8>| v@)),
                                lens@,
                                i as int,
                            )
                        })
                        &&& obj == (FileLikeHandle::File {
                            path,
                            cursor: (c0 + spec_chunks_len(
                                out@.map_values(|v: Vec<u8>| v@),
                            )) as usize,
                        })
                        &&& 0 <= c0 + spec_chunks_len(out@.map_values(|v: Vec<u8>| v@))
                            <= usize::MAX
                        &&& spec_chunks_len(out@.map_values(|v: Vec<u8>| v@)) >= 0
                    } else {
                        obj == pre && out@.len() == 0 && !done && (forall|j: int|
                            0 <= j < i ==> lens@[j] == 0)
                    }
                },
                _ => {
                    &&& obj == pre
                    &&& spec_readv_chunks(Seq::empty(), 0, lens@, 0) == out@.map_values(
                        |v: Vec<u8>| v@,
                    ) + (if done {
                        Seq::<Seq<u8>>::empty()
                    } else {
                        spec_readv_chunks(Seq::empty(), 0, lens@, i as int)
                    })
                    &&& spec_chunks_len(out@.map_values(|v: Vec<u8>| v@)) >= 0
                },
            },
            pre is Directory ==> obj == pre && out@.len() == 0 && !done && (forall|j: int|
                0 <= j < i ==> lens@[j] == 0),
        decreases n - i,
    {
        let want = lens[i];
        if want == 0 {
            proof {
                if !(pre is Directory) {
                    match pre {
                        FileLikeHandle::File { path, .. } => {
                            if vfs.nodes@.contains_key(path@) && vfs.nodes@[path@] is File {
                                assert(spec_readv_chunks(
                                    data,
                                    c0 + spec_chunks_len(out@.map_values(|v: Vec<u8>| v@)),
                                    lens@,
                                    i as int,
                                ) == spec_readv_chunks(
                                    data,
                                    c0 + spec_chunks_len(out@.map_values(|v: Vec<u8>| v@)),
                                    lens@,
                                    i + 1,
                                ));
                            }
                        },
                        _ => {
                            assert(spec_readv_chunks(Seq::empty(), 0, lens@, i as int)
                                == spec_readv_chunks(Seq::empty(), 0, lens@, i + 1));
                        },
                    }
                }
            }
            i += 1;
            continue ;
        }
        let ghost out_pre = out@.map_values(|v: Vec<u8>| v@);
        match obj.read(vfs, want) {
            Ok(chunk) => {
                let got = chunk.len();
                let ghost gchunk = chunk@;
                out.push(chunk);
                proof {
                    let mapped = out@.map_values(|v: Vec<u8>| v@);
                    assert(mapped =~= out_pre.push(gchunk));
                    assert(mapped.drop_last() =~= out_pre);
                    assert(spec_chunks_len(mapped) == spec_chunks_len(out_pre) + gchunk.len());
                    match pre {
                        FileLikeHandle::File { .. } => {
                            let cpos = c0 + spec_chunks_len(out_pre);
                            let rest0 = spec_readv_chunks(data, cpos, lens@, i as int);
                            if gchunk.len() < want {
                                assert(rest0 =~= seq![gchunk]);
                                assert(out_pre + rest0 =~= mapped);
                            } else {
                                let rest1 = spec_readv_chunks(data, cpos + want, lens@, i + 1);
                                assert(rest0 =~= seq![gchunk] + rest1);
                                assert(out_pre + rest0 =~= mapped + rest1);
                            }
                        },
                        FileLikeHandle::Directory { .. } => {},
                        _ => {
                            let rest0 = spec_readv_chunks(Seq::empty(), 0, lens@, i as int);
                            assert(gchunk =~= Seq::<u8>::empty());
                            assert(rest0 =~~= seq![gchunk]);
                            assert(out_pre + rest0 =~~= mapped);
                        },
                    }
                }
                if got < want {
                    done = true;
                }
            },
            Err(e) => {
                proof {
                    match pre {
                        FileLikeHandle::File { .. } => {
                            assert(spec_read_fail(pre, *vfs, e));
                        },
                        _ => {},
                    }
                }
                let mut back = HandleSlot { refs, obj };
                arena.slots.set_and_swap(h, &mut back);
                proof {
                    assert(final(arena).slots@ =~= old(arena).slots@);
                }
                return Err(e);
            },
        }
        i += 1;
    }
    let mut back = HandleSlot { refs, obj };
    arena.slots.set_and_swap(h, &mut back);
    proof {
        assert(final(arena).slots@ =~= old(arena).slots@.update(
            h as int,
            (HandleSlot { refs, obj }),
        ));
    }
    Ok(out)
}


/// The file contents and cursor after the first `k` buffers of a vectored
/// write have gone through, each written at the cursor left by the one
/// before.
pub open spec fn spec_writev_step(
    data: Seq<u8>,
    cursor: int,
    bufs: Seq<Seq<u8>>,
    k: int,
) -> (Seq<u8>, int)
    decreases k,
{
    if k <= 0 {
        (data, cursor)
    } else {
        let (d, c) = spec_writev_step(data, cursor, bufs, k - 1);
        if bufs[k - 1].len() == 0 {
            (d, c)
        } else {
            (crate::memfs::spec_write_bytes(d, c, bufs[k - 1]), c + bufs[k - 1].len())
        }
    }
}

/// The total length of the given buffers.
pub open spec fn spec_bufs_len(bufs: Seq<Seq<u8>>, k: int) -> int
    decreases k,
{
    if k <= 0 {
        0
    } else {
        spec_bufs_len(bufs, k - 1) + bufs[k - 1].len()
    }
}

/// Write a sequence of buffers (the non-contiguous buffers of a vectored
/// write) to the file indicated by `fd`, each at the position the previous
/// one ended at; empty buffers are skipped. Returns the total number of
/// bytes written.
pub fn sys_writev(
    table: &FdTable,
    arena: &mut HandleArena,
    vfs: &mut Vfs,
    fd: i32,
    bufs: &Vec<Vec<u8>>,
) -> (r: Result<usize, LinuxError>)
    requires
        table.wf_with(*old(arena)),
        old(vfs).wf(),
    ensures
        table.wf_with(*final(arena)),
        final(vfs).wf(),
        final(vfs).cwd == old(vfs).cwd,
        match r {
            Ok(total) => fd >= 0 && table.view_map().contains_key(fd as usize) && bufs@.len()
                <= 1024 && {
                let h = table.view_map()[fd as usize] as int;
                let pre = old(arena).slots@[h].obj;
                let gbufs = bufs@.map_values(|v: Vec<u8>| v@);
                &&& spec_only_obj_changed(*old(arena), *final(arena), h)
                &&& total == spec_bufs_len(gbufs, gbufs.len() as int)
                &&& match pre {
                    FileLikeHandle::File { path, cursor } => {
                        if old(vfs).nodes@.contains_key(path@) && old(vfs).nodes@[path@] is File {
                            &&& old(vfs).nodes@[path@] matches VfsNode::File { data: d0, perm, times }
                                && final(vfs).nodes@ =~= old(vfs).nodes@.insert(
                                path@,
                                (VfsNode::File {
                                    data: final(vfs).nodes@[path@]->File_data,
                                    perm,
                                    times,
                                }),
                            ) && final(vfs).nodes@[path@]->File_data@ =~= spec_writev_step(
                                d0@,
                                cursor as int,
                                gbufs,
                                gbufs.len() as int,
                            ).0 && final(arena).slots@[h].obj == (FileLikeHandle::File {
                                path,
                                cursor: (cursor + total) as usize,
                            })
                        } else {
                            total == 0 && final(vfs).nodes@ == old(vfs).nodes@ && final(arena).slots@[h].obj == pre && (forall|j: int|
                                0 <= j < gbufs.len() ==> gbufs[j].len() == 0)
                        }
                    },
                    FileLikeHandle::Directory { .. } => total == 0 && final(vfs).nodes@ == old(vfs).nodes@ && final(arena).slots@[h].obj == pre && (forall|j: int|
                        0 <= j < gbufs.len() ==> gbufs[j].len() == 0),
                    _ => final(vfs).nodes@ == old(vfs).nodes@ && final(arena).slots@[h].obj
                        == pre,
                }
            },
            Err(e) => if bufs@.len() > 1024 {
                e == LinuxError::EINVAL && final(vfs).nodes@ == old(vfs).nodes@ && final(arena).slots@ == old(arena).slots@
            } else if fd < 0 || !table.view_map().contains_key(fd as usize) {
                e == LinuxError::EBADF && final(vfs).nodes@ == old(vfs).nodes@ && final(arena).slots@ == old(arena).slots@
            } else {
                exists|k: int|
                    0 <= k <= bufs@.len() && #[trigger] spec_partial_writev(
                        *old(arena),
                        *final(arena),
                        *old(vfs),
                        *final(vfs),
                        table.view_map()[fd as usize] as int,
                        bufs@,
                        k,
                    ) && spec_writev_stops(
                        old(arena).slots@[table.view_map()[fd as usize] as int].obj,
                        *old(vfs),
                        bufs@,
                        k,
                        e,
                    )
            },
        },
{
    if bufs.len() > 1024 {
        return Err(LinuxError::EINVAL);
    }
    let h = match get_file_like(table, fd) {
        Ok(h) => h,
        Err(e) => {
            return Err(e);
        },
    };
    let mut taken = HandleSlot { refs: 0, obj: FileLikeHandle::Stdin };
    arena.slots.set_and_swap(h, &mut taken);
    let HandleSlot { refs, mut obj } = taken;
    let ghost pre = obj;
    let ghost gbufs = bufs@.map_values(|v: Vec<u8>| v@);
    let ghost v0 = *vfs;
    let n = bufs.len();
    let mut i: usize = 0;
    let mut total: usize = 0;
    while i < n
        invariant
            n == bufs@.len(),
            n <= 1024,
            i <= n,
            gbufs == bufs@.map_values(|v: Vec<u8>| v@),
            h < old(arena).slots@.len(),
            h == table.view_map()[fd as usize],
            fd >= 0 && table.view_map().contains_key(fd as usize),
            table.wf_with(*old(arena)),
            refs == old(arena).slots@[h as int].refs,
            pre == old(arena).slots@[h as int].obj,
            v0 == *old(vfs),
            vfs.wf(),
            vfs.cwd == old(vfs).cwd,
            arena.slots@ == old(arena).slots@.update(
                h as int,
                (HandleSlot { refs: 0, obj: FileLikeHandle::Stdin }),
            ),
            total == spec_bufs_len(gbufs, i as int),
            match pre {
                FileLikeHandle::File { path, cursor } => {
                    &&& v0.nodes@.contains_key(path@) && v0.nodes@[path@] is File ==> {
                        let step = spec_writev_step(
                            v0.nodes@[path@]->File_data@,
                            cursor as int,
                            gbufs,
                            i as int,
                        );
                        &&& vfs.nodes@ =~= v0.nodes@.insert(
                            path@,
                            (VfsNode::File {
                                data: vfs.nodes@[path@]->File_data,
                                perm: v0.nodes@[path@]->File_perm,
                                times: v0.nodes@[path@]->File_times,
                            }),
                        )
                        &&& vfs.nodes@[path@]->File_data@ =~= step.0
                        &&& obj == (FileLikeHandle::File { path, cursor: (cursor + total) as usize })
                        &&& step.1 == cursor + total
                        &&& cursor + total <= usize::MAX
                    }
                    &&& (!(v0.nodes@.contains_key(path@) && v0.nodes@[path@] is File)) ==> obj
                        == pre && total == 0 && vfs.nodes@ == v0.nodes@ && (forall|j: int|
                        0 <= j < i ==> gbufs[j].len() == 0)
                },
                FileLikeHandle::Directory { .. } => obj == pre && total == 0 && vfs.nodes@
                    == v0.nodes@ && (forall|j: int| 0 <= j < i ==> gbufs[j].len() == 0),
                _ => obj == pre && vfs.nodes@ == v0.nodes@,
            },
            total <= usize::MAX,
        decreases n - i,
    {
        let blen = bufs[i].len();
        if blen == 0 {
            proof {
                assert(spec_bufs_len(gbufs, i + 1) == spec_bufs_len(gbufs, i as int));
                match pre {
                    FileLikeHandle::File { path, cursor } => {
                        if v0.nodes@.contains_key(path@) && v0.nodes@[path@] is File {
                            let step = spec_writev_step(
                                v0.nodes@[path@]->File_data@,
                                cursor as int,
                                gbufs,
                                i as int,
                            );
                            let step2 = spec_writev_step(
                                v0.nodes@[path@]->File_data@,
                                cursor as int,
                                gbufs,
                                i + 1,
                            );
                            assert(gbufs[i as int].len() == 0);
                            assert(step2.0 =~= step.0);
                            assert(step2.1 == step.1);
                        }
                    },
                    _ => {},
                }
            }
            i += 1;
            continue ;
        }
        if total > usize::MAX - blen {
            let mut back = HandleSlot { refs, obj };
            arena.slots.set_and_swap(h, &mut back);
            proof {
                assert(arena.slots@ =~= old(arena).slots@.update(
                    h as int,
                    (HandleSlot { refs, obj }),
                ));
                assert(spec_partial_writev(
                    *old(arena),
                    *arena,
                    *old(vfs),
                    *vfs,
                    h as int,
                    bufs@,
                    i as int,
                ));
            }
            return Err(LinuxError::EINVAL);
        }
        match obj.write(vfs, &bufs[i]) {
            Ok(m) => {
                proof {
                    assert(spec_bufs_len(gbufs, i + 1) == spec_bufs_len(gbufs, i as int)
                        + gbufs[i as int].len());
                    match pre {
                        FileLikeHandle::File { path, cursor } => {
                            if v0.nodes@.contains_key(path@) && v0.nodes@[path@] is File {
                                let d0 = v0.nodes@[path@]->File_data@;
                                let step = spec_writev_step(d0, cursor as int, gbufs, i as int);
                                let step2 = spec_writev_step(d0, cursor as int, gbufs, i + 1);
                                assert(step2.0 =~= crate::memfs::spec_write_bytes(
                                    step.0,
                                    step.1,
                                    gbufs[i as int],
                                ));
                                assert(vfs.nodes@[path@]->File_data@ =~= step2.0);
                                assert(vfs.nodes@ =~= v0.nodes@.insert(
                                    path@,
                                    (VfsNode::File {
                                        data: vfs.nodes@[path@]->File_data,
                                        perm: v0.nodes@[path@]->File_perm,
                                        times: v0.nodes@[path@]->File_times,
                                    }),
                                ));
                            }
                        },
                        _ => {},
                    }
                }
                total = total + m;
            },
            Err(e) => {
                let mut back = HandleSlot { refs, obj };
                arena.slots.set_and_swap(h, &mut back);
                proof {
                    assert(arena.slots@ =~= old(arena).slots@.update(
                        h as int,
                        (HandleSlot { refs, obj }),
                    ));
                    assert(spec_partial_writev(
                        *old(arena),
                        *arena,
                        *old(vfs),
                        *vfs,
                        h as int,
                        bufs@,
                        i as int,
                    ));
                    assert(gbufs[i as int].len() > 0);
                    match pre {
                        FileLikeHandle::File { path, cursor } => {
                            if v0.nodes@.contains_key(path@) && v0.nodes@[path@] is File {
                                let step = spec_writev_step(
                                    v0.nodes@[path@]->File_data@,
                                    cursor as int,
                                    gbufs,
                                    i as int,
                                );
                                assert(step.1 == cursor + total);
                            }
                        },
                        _ => {},
                    }
                    assert(spec_writev_stops(pre, v0, bufs@, i as int, e));
                }
                return Err(e);
            },
        }
        i += 1;
    }
    let mut back = HandleSlot { refs, obj };
    arena.slots.set_and_swap(h, &mut back);
    proof {
        assert(final(arena).slots@ =~= old(arena).slots@.update(
            h as int,
            (HandleSlot { refs, obj }),
        ));
    }
    Ok(total)
}

/// A vectored write that stopped after `k` buffers: the slot's handle and
/// the filesystem hold exactly the state those `k` writes produced.
pub open spec fn spec_partial_writev(
    a0: HandleArena,
    a1: HandleArena,
    v0: Vfs,
    v1: Vfs,
    h: int,
    bufs: Seq<Vec<u8>>,
    k: int,
) -> bool {
    let gbufs = bufs.map_values(|v: Vec<u8>| v@);
    let pre = a0.slots@[h].obj;
    &&& spec_only_obj_changed(a0, a1, h)
    &&& match pre {
        FileLikeHandle::File { path, cursor } => {
            if v0.nodes@.contains_key(path@) && v0.nodes@[path@] is File {
                let step = spec_writev_step(
                    v0.nodes@[path@]->File_data@,
                    cursor as int,
                    gbufs,
                    k,
                );
                &&& v1.nodes@[path@]->File_data@ == step.0
                &&& a1.slots@[h].obj == (FileLikeHandle::File {
                    path,
                    cursor: step.1 as usize,
                })
            } else {
                v1.nodes@ == v0.nodes@ && a1.slots@[h].obj == pre
            }
        },
        _ => v1.nodes@ == v0.nodes@ && a1.slots@[h].obj == pre,
    }
}

/// Why a vectored write stopped at buffer `k`: writing that (nonempty)
/// buffer would overflow the file cursor or the running total, or the
/// handle cannot take it at all — a directory refuses outright, and a file
/// whose node is gone or turned into a directory reports that.
pub open spec fn spec_writev_stops(
    pre: FileLikeHandle,
    v0: Vfs,
    bufs: Seq<Vec<u8>>,
    k: int,
    e: LinuxError,
) -> bool {
    let gbufs = bufs.map_values(|v: Vec<u8>| v@);
    &&& 0 <= k < gbufs.len()
    &&& gbufs[k].len() > 0
    &&& match pre {
        FileLikeHandle::File { path, cursor } => {
            if v0.nodes@.contains_key(path@) && v0.nodes@[path@] is File {
                let step = spec_writev_step(
                    v0.nodes@[path@]->File_data@,
                    cursor as int,
                    gbufs,
                    k,
                );
                e == LinuxError::EINVAL && (step.1 + gbufs[k].len() > usize::MAX
                    || spec_bufs_len(gbufs, k) + gbufs[k].len() > usize::MAX)
            } else {
                ||| (e == LinuxError::ENOENT && !v0.nodes@.contains_key(path@))
                ||| (e == LinuxError::EISDIR && v0.nodes@.contains_key(path@) && v0.nodes@[path@]
                    is Dir)
                ||| (e == LinuxError::EINVAL && cursor + gbufs[k].len() > usize::MAX)
            }
        },
        FileLikeHandle::Directory { .. } => e == LinuxError::EBADF,
        _ => e == LinuxError::EINVAL && spec_bufs_len(gbufs, k) + gbufs[k].len() > usize::MAX,
    }
}


/// Copy from the file indicated by `in_fd` to the one indicated by
/// `out_fd`, until the source runs dry. With an explicit source offset the
/// source must concretely be a regular file (a descriptor without
/// positioned reads fails cleanly with "illegal seek") and its cursor is
/// left alone; the advanced offset is handed back instead. Returns the
/// number of bytes copied.
pub fn sys_sendfile(
    table: &FdTable,
    arena: &mut HandleArena,
    vfs: &mut Vfs,
    out_fd: i32,
    in_fd: i32,
    offset: Option<usize>,
) -> (r: Result<(usize, Option<usize>), LinuxError>)
    requires
        table.wf_with(*old(arena)),
        old(vfs).wf(),
    ensures
        table.wf_with(*final(arena)),
        final(vfs).wf(),
        final(vfs).cwd == old(vfs).cwd,
        match r {
            Ok((copied, off2)) => {
                &&& in_fd >= 0 && table.view_map().contains_key(in_fd as usize)
                &&& out_fd >= 0 && table.view_map().contains_key(out_fd as usize)
                &&& {
                    let hs = table.view_map()[in_fd as usize] as int;
                    let hd = table.view_map()[out_fd as usize] as int;
                    let src = old(arena).slots@[hs].obj;
                    let chunk = spec_sendfile_chunk(src, *old(vfs), offset);
                    &&& copied == chunk.len()
                    &&& (offset matches Some(off) ==> src is File && off2 == Some(
                        (off + copied) as usize,
                    ) && off + copied <= usize::MAX)
                    &&& (offset is None ==> off2 is None)
                    &&& (hs != hd || offset is Some || !(src is File) ==> spec_write_result(
                        old(arena).slots@[hd].obj,
                        final(arena).slots@[hd].obj,
                        *old(vfs),
                        *final(vfs),
                        chunk,
                        copied,
                    ))
                    &&& final(arena).slots@.len() == old(arena).slots@.len()
                    &&& forall|i: int|
                        0 <= i < old(arena).slots@.len() ==> (#[trigger] final(arena).slots@[i]).refs == old(arena).slots@[i].refs
                    &&& (offset is None && src is File && hs != hd ==> final(arena).slots@[hs].obj
                        == (FileLikeHandle::File {
                        path: src->File_path,
                        cursor: (src->File_cursor + copied) as usize,
                    }))
                }
            },
            Err(e) => {
                &&& final(vfs).nodes@ == old(vfs).nodes@
                &&& final(arena).slots@.len() == old(arena).slots@.len()
                &&& forall|i: int|
                    0 <= i < old(arena).slots@.len() ==> (#[trigger] final(arena).slots@[i]).refs == old(arena).slots@[i].refs
                &&& if in_fd < 0 || !table.view_map().contains_key(in_fd as usize) || out_fd < 0
                    || !table.view_map().contains_key(out_fd as usize) {
                    e == LinuxError::EBADF && final(arena).slots@ == old(arena).slots@
                } else {
                    let hs = table.view_map()[in_fd as usize] as int;
                    let hd = table.view_map()[out_fd as usize] as int;
                    let src = old(arena).slots@[hs].obj;
                    let chunk = spec_sendfile_chunk(src, *old(vfs), offset);
                    let dsto = if hs == hd && offset is None && src is File {
                        FileLikeHandle::File {
                            path: src->File_path,
                            cursor: (src->File_cursor + chunk.len()) as usize,
                        }
                    } else {
                        old(arena).slots@[hd].obj
                    };
                    &&& forall|i: int|
                        0 <= i < old(arena).slots@.len() && i != hs ==> final(arena).slots@[i]
                            == old(arena).slots@[i]
                    &&& (final(arena).slots@[hs].obj == src || (offset is None && src is File
                        && final(arena).slots@[hs].obj == (FileLikeHandle::File {
                        path: src->File_path,
                        cursor: (src->File_cursor + chunk.len()) as usize,
                    })))
                    &&& ({
                        ||| (offset is Some && !(src is File) && e == LinuxError::ESPIPE && final(arena).slots@ == old(arena).slots@)
                        ||| (spec_read_fail(src, *old(vfs), e) && final(arena).slots@ == old(arena).slots@)
                        ||| spec_write_fail(dsto, *old(vfs), chunk, e)
                    })
                }
            },
        },
{
    let hs = match get_file_like(table, in_fd) {
        Ok(h) => h,
        Err(e) => {
            return Err(e);
        },
    };
    let hd = match get_file_like(table, out_fd) {
        Ok(h) => h,
        Err(e) => {
            return Err(e);
        },
    };
    let chunk: Vec<u8>;
    let mut new_off: Option<usize> = None;
    match offset {
        Some(off) => {
            let path: String = match &arena.slots[hs].obj {
                FileLikeHandle::File { path, .. } => path.clone(),
                _ => {
                    return Err(LinuxError::ESPIPE);
                },
            };
            let size: usize = match vfs.metadata(&path) {
                Ok(attr) => {
                    let sz = attr.size();
                    if sz > usize::MAX as u64 {
                        proof {
                            assert(false);
                        }
                        return Err(LinuxError::EINVAL);
                    }
                    sz as usize
                },
                Err(e) => {
                    return Err(e);
                },
            };
            let want = if off < size {
                size - off
            } else {
                0
            };
            chunk = match vfs.read_at(&path, off, want) {
                Ok(c) => c,
                Err(e) => {
                    return Err(e);
                },
            };
            if off > usize::MAX - chunk.len() {
                proof {
                    assert(false);
                }
                return Err(LinuxError::EINVAL);
            }
            new_off = Some(off + chunk.len());
        },
        None => {
            let want: usize = match &arena.slots[hs].obj {
                FileLikeHandle::File { path, cursor } => {
                    match vfs.metadata(path) {
                        Ok(attr) => {
                            let sz = attr.size();
                            if sz > usize::MAX as u64 {
                                proof {
                                    assert(false);
                                }
                                return Err(LinuxError::EINVAL);
                            }
                            if *cursor < sz as usize {
                                sz as usize - *cursor
                            } else {
                                0
                            }
                        },
                        Err(e) => {
                            return Err(e);
                        },
                    }
                },
                FileLikeHandle::Directory { .. } => {
                    return Err(LinuxError::EBADF);
                },
                _ => 0,
            };
            let mut taken = HandleSlot { refs: 0, obj: FileLikeHandle::Stdin };
            arena.slots.set_and_swap(hs, &mut taken);
            let HandleSlot { refs, mut obj } = taken;
            let res = obj.read(vfs, want);
            let mut back = HandleSlot { refs, obj };
            arena.slots.set_and_swap(hs, &mut back);
            chunk = match res {
                Ok(c) => c,
                Err(e) => {
                    proof {
                        assert(final(arena).slots@ =~= old(arena).slots@);
                    }
                    return Err(e);
                },
            };
        },
    }
    let ghost mid_arena = *arena;
    let mut taken = HandleSlot { refs: 0, obj: FileLikeHandle::Stdin };
    arena.slots.set_and_swap(hd, &mut taken);
    let HandleSlot { refs, mut obj } = taken;
    let res = obj.write(vfs, &chunk);
    let mut back = HandleSlot { refs, obj };
    arena.slots.set_and_swap(hd, &mut back);
    match res {
        Ok(n) => {
            proof {
                let src = old(arena).slots@[table.view_map()[in_fd as usize] as int].obj;
                assert(chunk@ =~= spec_sendfile_chunk(src, *old(vfs), offset));
            }
            Ok((n, new_off))
        },
        Err(e) => Err(e),
    }
}

/// The bytes a `sendfile`-style copy takes from its source: everything
/// from the read position (the explicit offset, or the source's own
/// cursor) to the end of the file; a stream source contributes nothing.
pub open spec fn spec_sendfile_chunk(src: FileLikeHandle, v: Vfs, offset: Option<usize>) -> Seq<
    u8,
> {
    match src {
        FileLikeHandle::File { path, cursor } => {
            if v.nodes@.contains_key(path@) && v.nodes@[path@] is File {
                let data = v.nodes@[path@]->File_data@;
                let pos = match offset {
                    Some(off) => off as int,
                    None => cursor as int,
                };
                data.subrange(
                    vstd::math::min(pos, data.len() as int),
                    data.len() as int,
                )
            } else {
                Seq::empty()
            }
        },
        _ => Seq::empty(),
    }
}


/// Directory-entry type tag: unknown.
pub const DT_UNKNOWN: u8 = 0;

/// Directory-entry type tag: directory.
pub const DT_DIR: u8 = 4;

/// Directory-entry type tag: regular file.
pub const DT_REG: u8 = 8;

/// The type tag of a packed directory entry.
#[derive(Debug, Clone, Copy, PartialEq, Eq, Structural)]
pub enum FileType {
    /// Unknown node kind.
    Unknown,
    /// Named pipe.
    Fifo,
    /// Character device.
    Chr,
    /// Directory.
    Dir,
    /// Block device.
    Blk,
    /// Regular file.
    Reg,
    /// Symbolic link.
    Lnk,
    /// Socket.
    Socket,
}

impl FileType {
    /// The numeric directory-entry tag of this type.
    pub open spec fn spec_as_u8(self) -> u8 {
        match self {
            FileType::Unknown => 0,
            FileType::Fifo => 1,
            FileType::Chr => 2,
            FileType::Dir => 4,
            FileType::Blk => 6,
            FileType::Reg => 8,
            FileType::Lnk => 10,
            FileType::Socket => 12,
        }
    }

    /// The numeric directory-entry tag of this type.
    pub fn as_u8(self) -> (r: u8)
        ensures
            r == self.spec_as_u8(),
    {
        match self {
            FileType::Unknown => 0,
            FileType::Fifo => 1,
            FileType::Chr => 2,
            FileType::Dir => 4,
            FileType::Blk => 6,
            FileType::Reg => 8,
            FileType::Lnk => 10,
            FileType::Socket => 12,
        }
    }
}

impl From<crate::vfs::VfsNodeType> for FileType {
    /// Directories and regular files keep their kind; everything else is
    /// reported unknown.
    fn from(ft: crate::vfs::VfsNodeType) -> (r: Self) {
        match ft {
            crate::vfs::VfsNodeType::Dir => FileType::Dir,
            crate::vfs::VfsNodeType::File => FileType::Reg,
            _ => FileType::Unknown,
        }
    }
}

impl vstd::std_specs::convert::FromSpecImpl<crate::vfs::VfsNodeType> for FileType {
    open spec fn obeys_from_spec() -> bool {
        true
    }

    open spec fn from_spec(ft: crate::vfs::VfsNodeType) -> FileType {
        match ft {
            crate::vfs::VfsNodeType::Dir => FileType::Dir,
            crate::vfs::VfsNodeType::File => FileType::Reg,
            _ => FileType::Unknown,
        }
    }
}

/// Offset of the name field inside a packed directory-entry record: the
/// 8-byte inode number, the 8-byte offset, the 2-byte record length and the
/// type tag come first.
pub const DIRENT_NAME_OFFSET: usize = 19;

/// The length of the packed record of a directory entry with an `n`-byte
/// name: header, name, terminating NUL, padded to 8-byte alignment.
pub open spec fn spec_dirent_reclen(n: int) -> int {
    ((DIRENT_NAME_OFFSET + n + 1) + 7) / 8 * 8
}

/// The packed fixed-layout record of one directory entry: placeholder inode
/// number one, zero offset, little-endian record length, type tag, then the
/// NUL-terminated name and zero padding to 8-byte alignment.
pub open spec fn spec_dirent_record(ty: u8, name: Seq<u8>) -> Seq<u8> {
    Seq::new(
        spec_dirent_reclen(name.len() as int) as nat,
        |i: int|
            if i == 0 {
                1u8
            } else if i < 16 {
                0u8
            } else if i == 16 {
                (spec_dirent_reclen(name.len() as int) % 256) as u8
            } else if i == 17 {
                0u8
            } else if i == 18 {
                ty
            } else if i < 19 + name.len() {
                name[i - 19]
            } else {
                0u8
            },
    )
}

/// A fixed-size byte buffer being filled with packed directory entries.
pub struct DirBuffer {
    /// The destination bytes.
    pub buf: Vec<u8>,
    /// How many bytes have been written so far.
    pub offset: usize,
}

impl DirBuffer {
    /// A zeroed buffer of the given capacity, nothing written yet.
    pub fn new(len: usize) -> (r: DirBuffer)
        ensures
            r.buf@ =~= Seq::new(len as nat, |i: int| 0u8),
            r.offset == 0,
    {
        let mut buf: Vec<u8> = Vec::new();
        let mut i: usize = 0;
        while i < len
            invariant
                i <= len,
                buf@ =~= Seq::new(i as nat, |j: int| 0u8),
            decreases len - i,
        {
            buf.push(0);
            i += 1;
        }
        DirBuffer { buf, offset: 0 }
    }

    /// The bytes still free behind the written entries.
    pub fn remaining_space(&self) -> (r: usize)
        requires
            self.offset <= self.buf@.len(),
        ensures
            r == self.buf@.len() - self.offset,
    {
        self.buf.len() - self.offset
    }

    /// Packs one directory entry behind the ones already written. Returns
    /// `false`, leaving the buffer untouched, when the record does not fit.
    pub fn write_entry(&mut self, d_type: FileType, name: &[u8]) -> (r: bool)
        requires
            old(self).offset <= old(self).buf@.len(),
            name@.len() <= 63,
        ensures
            final(self).buf@.len() == old(self).buf@.len(),
            r == (spec_dirent_reclen(name@.len() as int) <= old(self).buf@.len() - old(self).offset),
            r ==> {
                &&& final(self).offset == old(self).offset + spec_dirent_reclen(
                    name@.len() as int,
                )
                &&& final(self).buf@.subrange(old(self).offset as int, final(self).offset as int)
                    =~= spec_dirent_record(d_type.spec_as_u8(), name@)
                &&& forall|j: int|
                    0 <= j < old(self).buf@.len() && !(old(self).offset <= j < final(self).offset) ==> final(self).buf@[j] == old(self).buf@[j]
            },
            !r ==> *final(self) == *old(self),
    {
        let n = name.len();
        let reclen = (DIRENT_NAME_OFFSET + n + 1 + 7) / 8 * 8;
        if self.buf.len() - self.offset < reclen {
            return false;
        }
        let off = self.offset;
        proof {
            assert(off + reclen <= usize::MAX);
        }
        let mut t: usize = 0;
        while t < reclen
            invariant
                t <= reclen,
                off == old(self).offset,
                off + reclen <= self.buf@.len(),
                off + reclen <= usize::MAX,
                self.buf@.len() == old(self).buf@.len(),
                self.offset == old(self).offset,
                n == name@.len(),
                n <= 63,
                reclen == spec_dirent_reclen(n as int),
                reclen < 256,
                forall|j: int|
                    0 <= j < self.buf@.len() && !(off <= j < off + t) ==> self.buf@[j] == old(self).buf@[j],
                forall|j: int|
                    0 <= j < t ==> self.buf@[off + j] == spec_dirent_record(
                        d_type.spec_as_u8(),
                        name@,
                    )[j],
            decreases reclen - t,
        {
            let b: u8 = if t == 0 {
                1
            } else if t < 16 {
                0
            } else if t == 16 {
                reclen as u8
            } else if t == 17 {
                0
            } else if t == 18 {
                d_type.as_u8()
            } else if t < 19 + n {
                name[t - 19]
            } else {
                0
            };
            self.buf[off + t] = b;
            t += 1;
        }
        self.offset = off + reclen;
        proof {
            assert(final(self).buf@.subrange(off as int, (off + reclen) as int)
                =~= spec_dirent_record(d_type.spec_as_u8(), name@));
        }
        true
    }
}


/// The bytes that directory enumeration emits from `listing`, starting at
/// entry `i` with `cap` buffer bytes left: entries whose names are not
/// ASCII or longer than the fixed name field are skipped, and the first
/// record that does not fit ends the emission.
pub open spec fn spec_dirents_emit(
    listing: Seq<(String, crate::vfs::VfsNodeType)>,
    i: int,
    cap: int,
) -> Seq<u8>
    decreases listing.len() - i,
{
    if i < 0 || i >= listing.len() {
        Seq::empty()
    } else {
        let name = listing[i].0;
        if !vstd::utf8::is_ascii_chars(name@) || name@.len() > 63 {
            spec_dirents_emit(listing, i + 1, cap)
        } else {
            let rec = spec_dirent_record(
                (if listing[i].1 is Dir {
                    DT_DIR
                } else {
                    DT_REG
                }),
                Seq::new(name@.len(), |j: int| name@[j] as u8),
            );
            if rec.len() > cap {
                Seq::empty()
            } else {
                rec + spec_dirents_emit(listing, i + 1, cap - rec.len())
            }
        }
    }
}

/// Where the emission of [`spec_dirents_emit`] stops: the index enumeration
/// resumes from.
pub open spec fn spec_dirents_next(
    listing: Seq<(String, crate::vfs::VfsNodeType)>,
    i: int,
    cap: int,
) -> int
    decreases listing.len() - i,
{
    if i < 0 || i >= listing.len() {
        i
    } else {
        let name = listing[i].0;
        if !vstd::utf8::is_ascii_chars(name@) || name@.len() > 63 {
            spec_dirents_next(listing, i + 1, cap)
        } else {
            let rec_len = spec_dirent_reclen(name@.len() as int);
            if rec_len > cap {
                i
            } else {
                spec_dirents_next(listing, i + 1, cap - rec_len)
            }
        }
    }
}

/// Whether `listing` is a valid enumeration of the children of the
/// directory at `p`: exactly the children, each once, with its node kind.
pub open spec fn spec_listing_of(
    listing: Seq<(String, crate::vfs::VfsNodeType)>,
    v: Vfs,
    p: Seq<char>,
) -> bool {
    let pp = crate::memfs::spec_dir_prefix(p);
    &&& forall|i: int, j: int| 0 <= i < j < listing.len() ==> listing[i].0@ != listing[j].0@
    &&& forall|i: int|
        0 <= i < listing.len() ==> crate::memfs::spec_child_of(
            pp + (#[trigger] listing[i]).0@,
            pp,
        ) && v.nodes@.contains_key(pp + listing[i].0@) && listing[i].1 == (if v.nodes@[pp
            + listing[i].0@] is Dir {
            crate::vfs::VfsNodeType::Dir
        } else {
            crate::vfs::VfsNodeType::File
        })
    &&& forall|k: Seq<char>|
        #[trigger] v.nodes@.contains_key(k) && crate::memfs::spec_child_of(k, pp) ==> exists|
            i: int,
        |
            0 <= i < listing.len() && pp + listing[i].0@ == k
}

/// Directory enumeration: packs fixed-layout directory-entry records for
/// the children of the directory named by `fd` into a buffer of `len`
/// bytes, continuing from where the last call stopped and remembering the
/// first entry that did not fit. Fails with "invalid argument" when the
/// buffer cannot even hold the next record.
pub fn sys_getdents64(
    table: &FdTable,
    arena: &mut HandleArena,
    vfs: &Vfs,
    fd: i32,
    len: usize,
) -> (r: Result<Vec<u8>, LinuxError>)
    requires
        table.wf_with(*old(arena)),
        vfs.wf(),
    ensures
        table.wf_with(*final(arena)),
        match r {
            Ok(out) => fd >= 0 && table.view_map().contains_key(fd as usize) && {
                let h = table.view_map()[fd as usize] as int;
                &&& spec_only_obj_changed(*old(arena), *final(arena), h)
                &&& old(arena).slots@[h].obj matches FileLikeHandle::Directory { path, dir_pos }
                    && path@.len() > 0 && path@[0] == '/' && exists|
                    listing: Seq<(String, crate::vfs::VfsNodeType)>,
                |
                    {
                        &&& #[trigger] spec_listing_of(listing, *vfs, path@)
                        &&& out@ == spec_dirents_emit(listing, dir_pos as int, len as int)
                        &&& final(arena).slots@[h].obj == (FileLikeHandle::Directory {
                            path,
                            dir_pos: spec_dirents_next(
                                listing,
                                dir_pos as int,
                                len as int,
                            ) as usize,
                        })
                        &&& (out@.len() > 0 || spec_dirents_next(
                            listing,
                            dir_pos as int,
                            len as int,
                        ) == listing.len())
                    }
            },
            Err(e) => final(arena).slots@ == old(arena).slots@ && (if fd < 0
                || !table.view_map().contains_key(fd as usize) {
                e == LinuxError::EBADF
            } else if !(old(arena).slots@[table.view_map()[fd as usize] as int].obj
                is Directory) {
                e == LinuxError::ENOTDIR
            } else {
                e == LinuxError::EINVAL && (old(arena).slots@[table.view_map()[fd as usize] as int].obj matches FileLikeHandle::Directory { path, dir_pos } && (
                !(path@.len() > 0 && path@[0] == '/') || exists|
                    listing: Seq<(String, crate::vfs::VfsNodeType)>,
                |
                    #[trigger] spec_listing_of(listing, *vfs, path@) && (dir_pos > listing.len()
                        || (spec_dirents_emit(listing, dir_pos as int, len as int) == Seq::<
                            u8,
                        >::empty() && spec_dirents_next(listing, dir_pos as int, len as int)
                            < listing.len()))))
            }),
        },
{
    let h = match get_file_like(table, fd) {
        Ok(h) => h,
        Err(e) => {
            return Err(e);
        },
    };
    let (path, pos0): (String, usize) = match &arena.slots[h].obj {
        FileLikeHandle::Directory { path, dir_pos } => (path.clone(), *dir_pos),
        _ => {
            return Err(LinuxError::ENOTDIR);
        },
    };
    let plen = path.as_str().unicode_len();
    if plen == 0 || path.as_str().get_char(0) != '/' {
        return Err(LinuxError::EINVAL);
    }
    let listing = vfs.list_dir(&path);
    let ghost glisting = listing@;
    let n = listing.len();
    let mut buffer = DirBuffer::new(len);
    let mut i: usize = pos0;
    let mut fits: bool = true;
    if i > n {
        proof {
            assert(spec_listing_of(glisting, *vfs, path@));
        }
        return Err(LinuxError::EINVAL);
    }
    while i < n && fits
        invariant
            vfs.wf(),
            n == glisting.len(),
            glisting == listing@,
            pos0 <= i <= n,
            buffer.offset <= buffer.buf@.len(),
            buffer.buf@.len() == len,
            spec_dirents_emit(glisting, pos0 as int, len as int) =~= buffer.buf@.take(
                buffer.offset as int,
            ) + (if fits {
                spec_dirents_emit(
                    glisting,
                    i as int,
                    len as int - buffer.offset as int,
                )
            } else {
                Seq::<u8>::empty()
            }),
            fits ==> spec_dirents_next(glisting, pos0 as int, len as int)
                == spec_dirents_next(glisting, i as int, len as int - buffer.offset as int),
            !fits ==> spec_dirents_next(glisting, pos0 as int, len as int) == i - 1,
            !fits ==> i >= 1,
        decreases n - i,
    {
        let name = &listing[i].0;
        let nlen = name.as_str().unicode_len();
        if !name.as_str().is_ascii() || nlen > 63 {
            i += 1;
            continue ;
        }
        let ty: FileType = match listing[i].1 {
            crate::vfs::VfsNodeType::Dir => FileType::Dir,
            _ => FileType::Reg,
        };
        let name_str = name.as_str();
        let bytes = name_str.as_bytes();
        proof {
            vstd::string::is_ascii_spec_bytes(name_str);
            assert(bytes@ =~= Seq::new(name@.len(), |j: int| name@[j] as u8));
        }
        let ghost off_pre = buffer.offset;
        if buffer.write_entry(ty, bytes) {
            proof {
                let rec = spec_dirent_record(ty.spec_as_u8(), bytes@);
                assert(buffer.buf@.take(buffer.offset as int) =~= buffer.buf@.take(
                    off_pre as int,
                ) + rec);
                assert(ty.spec_as_u8() == (if glisting[i as int].1 is Dir {
                    DT_DIR
                } else {
                    DT_REG
                }));
            }
            i += 1;
        } else {
            fits = false;
            i += 1;
        }
    }
    let out = match buffer {
        DirBuffer { buf, offset } => {
            let mut v = buf;
            v.truncate(offset);
            v
        },
    };
    if !fits && out.len() == 0 {
        proof {
            assert(spec_listing_of(glisting, *vfs, path@));
            assert(buffer.offset == 0);
            assert(spec_dirents_emit(glisting, pos0 as int, len as int) =~= Seq::<u8>::empty());
            assert(spec_dirents_next(glisting, pos0 as int, len as int) < glisting.len());
        }
        return Err(LinuxError::EINVAL);
    }
    let next_pos = if fits {
        n
    } else {
        i - 1
    };
    let mut taken = HandleSlot { refs: 0, obj: FileLikeHandle::Stdin };
    arena.slots.set_and_swap(h, &mut taken);
    let refs = taken.refs;
    let mut back = HandleSlot {
        refs,
        obj: FileLikeHandle::Directory { path, dir_pos: next_pos },
    };
    arena.slots.set_and_swap(h, &mut back);
    proof {
        assert(out@ =~= spec_dirents_emit(glisting, pos0 as int, len as int));
        assert(spec_listing_of(glisting, *vfs, path@));
        assert(next_pos == spec_dirents_next(glisting, pos0 as int, len as int));
        assert(final(arena).slots@[h as int].obj == (FileLikeHandle::Directory {
            path,
            dir_pos: spec_dirents_next(glisting, pos0 as int, len as int) as usize,
        }));
    }
    Ok(out)
}

} // verus!



