use vstd::prelude::*;
use flatten_objects::FlattenObjects;
use crate::errno::LinuxError;
use crate::file::{FileLikeHandle, HandleArena};
use crate::memfs::Vfs;
use crate::path::{FilePath, HardlinkManager};
use crate::resource::{RLIMIT_NOFILE, Rlimits};
use crate::AX_FILE_LIMIT;

verus! {

/// The `dirfd` sentinel naming the current working directory.
pub const AT_FDCWD: i32 = -100;

/// The bounded slot container of the outside crate `flatten_objects`, held
/// in an opaque field: its bitmap machinery (the `BitsImpl`/`Bits` bounds)
/// cannot be declared to the verifier, so the container is taken on trust
/// and every method the descriptor table calls goes through a contracted
/// wrapper. Each stored object is the arena index of a file-like handle.
#[verifier::external_body]
pub struct FdSlots {
    inner: FlattenObjects<usize, 1024>,
}

/// What the container holds: each assigned descriptor ID, mapped to its
/// stored arena index.
pub uninterp spec fn slot_map(t: FdSlots) -> Map<usize, usize>;

/// Relies on FlattenObjects::new: the container starts empty.
#[verifier::external_body]
fn slots_new() -> (r: FdSlots)
    ensures
        slot_map(r) =~= Map::empty(),
{
    FdSlots { inner: FlattenObjects::new() }
}

/// Relies on FlattenObjects::count: the tracked number of assigned IDs.
#[verifier::external_body]
fn slots_count(t: &FdSlots) -> (r: usize)
    requires
        slot_map(*t).dom().finite(),
    ensures
        r == slot_map(*t).dom().len(),
{
    t.inner.count()
}

/// Relies on FlattenObjects::add: assigns the smallest free ID below the
/// capacity, or hands the object back when every ID is taken.
#[verifier::external_body]
fn slots_add(t: &mut FdSlots, value: usize) -> (r: Result<usize, usize>)
    ensures
        match r {
            Ok(id) => id < 1024 && !slot_map(*old(t)).contains_key(id) && (forall|j: usize|
                j < id ==> slot_map(*old(t)).contains_key(j)) && slot_map(*final(t)) == slot_map(
                *old(t),
            ).insert(id, value),
            Err(v) => v == value && slot_map(*final(t)) == slot_map(*old(t)) && (forall|j: usize|
                j < 1024 ==> slot_map(*old(t)).contains_key(j)),
        },
{
    t.inner.add(value)
}

/// Relies on FlattenObjects::add_at: assigns exactly the given ID, or hands
/// the object back when the ID is out of range or already taken.
#[verifier::external_body]
fn slots_add_at(t: &mut FdSlots, id: usize, value: usize) -> (r: Result<usize, usize>)
    ensures
        match r {
            Ok(rid) => rid == id && id < 1024 && !slot_map(*old(t)).contains_key(id) && slot_map(
                *final(t),
            ) == slot_map(*old(t)).insert(id, value),
            Err(v) => v == value && slot_map(*final(t)) == slot_map(*old(t)) && (id >= 1024
                || slot_map(*old(t)).contains_key(id)),
        },
{
    t.inner.add_at(id, value)
}

/// Relies on FlattenObjects::get: the object stored under an assigned ID.
/// The stored index is copied out.
#[verifier::external_body]
fn slots_get(t: &FdSlots, id: usize) -> (r: Option<usize>)
    ensures
        match r {
            Some(v) => slot_map(*t).contains_key(id) && v == slot_map(*t)[id],
            None => !slot_map(*t).contains_key(id),
        },
{
    t.inner.get(id).copied()
}

/// Relies on FlattenObjects::remove: frees the ID and returns its object.
#[verifier::external_body]
fn slots_remove(t: &mut FdSlots, id: usize) -> (r: Option<usize>)
    ensures
        match r {
            Some(v) => slot_map(*old(t)).contains_key(id) && v == slot_map(*old(t))[id]
                && slot_map(*final(t)) == slot_map(*old(t)).remove(id),
            None => !slot_map(*old(t)).contains_key(id) && slot_map(*final(t)) == slot_map(
                *old(t),
            ),
        },
{
    t.inner.remove(id)
}

/// Relies on FlattenObjects::ids (a bitmap iterator over assigned IDs, in
/// increasing order): exactly the assigned IDs, each once, ascending.
#[verifier::external_body]
fn slots_ids(t: &FdSlots) -> (r: Vec<usize>)
    ensures
        forall|id: usize| #[trigger] r@.contains(id) <==> slot_map(*t).contains_key(id),
        forall|i: int, j: int| 0 <= i < j < r@.len() ==> r@[i] < r@[j],
        forall|i: int| 0 <= i < r@.len() ==> r@[i] < 1024,
{
    let mut out: Vec<usize> = Vec::new();
    for id in t.inner.ids() {
        out.push(id);
    }
    out
}

/// A process's bounded descriptor table: a sparse mapping from small
/// integer IDs (below the hard cap of 1024) to arena indices of shared
/// file-like handles.
pub struct FdTable {
    /// The underlying bounded slot container.
    pub slots: FdSlots,
}

impl FdTable {
    /// The assigned descriptor IDs, each with its handle's arena index.
    pub open spec fn view_map(self) -> Map<usize, usize> {
        slot_map(self.slots)
    }

    /// Finitely many descriptors, each naming a live arena slot, and no two
    /// descriptors of this table naming the same slot (aliasing between
    /// tables, as fork produces, is tracked by the slots' reference counts).
    pub open spec fn wf_with(self, arena: HandleArena) -> bool {
        &&& self.view_map().dom().finite()
        &&& forall|id: usize|
            #[trigger] self.view_map().contains_key(id) ==> self.view_map()[id]
                < arena.slots@.len() && arena.slots@[self.view_map()[id] as int].refs >= 1
        &&& forall|a: usize, b: usize|
            #[trigger] self.view_map().contains_key(a) && #[trigger] self.view_map().contains_key(
                b,
            ) && a != b ==> self.view_map()[a] != self.view_map()[b]
        &&& forall|id: usize| #[trigger] self.view_map().contains_key(id) ==> id < 1024
    }

    /// Creates an empty table.
    pub fn new() -> (r: FdTable)
        ensures
            r.view_map() =~= Map::empty(),
            forall|a: HandleArena| r.wf_with(a),
    {
        FdTable { slots: slots_new() }
    }

    /// The number of open descriptors.
    pub fn count(&self) -> (r: usize)
        requires
            self.view_map().dom().finite(),
        ensures
            r == self.view_map().dom().len(),
    {
        slots_count(&self.slots)
    }
}

/// Get the arena index of the handle behind descriptor `fd`.
pub fn get_file_like(table: &FdTable, fd: i32) -> (r: Result<usize, LinuxError>)
    ensures
        match r {
            Ok(h) => fd >= 0 && table.view_map().contains_key(fd as usize) && h
                == table.view_map()[fd as usize],
            Err(e) => e == LinuxError::EBADF && (fd < 0 || !table.view_map().contains_key(
                fd as usize,
            )),
        },
{
    if fd < 0 {
        return Err(LinuxError::EBADF);
    }
    match slots_get(&table.slots, fd as usize) {
        Some(h) => Ok(h),
        None => Err(LinuxError::EBADF),
    }
}

/// Add a file-like handle to the descriptor table, storing it in the arena
/// and assigning the lowest free descriptor ID.
///
/// Fails with "too many open files" when the table has reached the calling
/// process's soft open-file limit, or when no ID below the hard cap is
/// free; a failed add leaves table and arena unchanged.
pub fn add_file_like(
    table: &mut FdTable,
    arena: &mut HandleArena,
    rlimits: &Rlimits,
    obj: FileLikeHandle,
) -> (r: Result<i32, LinuxError>)
    requires
        old(table).wf_with(*old(arena)),
        old(arena).slots@.len() < usize::MAX,
        rlimits.wf(),
    ensures
        final(table).wf_with(*final(arena)),
        old(arena).slots@.len() <= final(arena).slots@.len() <= old(arena).slots@.len() + 1,
        forall|i: int|
            0 <= i < old(arena).slots@.len() && old(arena).slots@[i].refs >= 1 ==> final(arena).slots@[i] == old(arena).slots@[i],
        match r {
            Ok(fd) => {
                &&& 0 <= fd < AX_FILE_LIMIT
                &&& old(table).view_map().dom().len() < rlimits.limits@[RLIMIT_NOFILE as int].current
                &&& !old(table).view_map().contains_key(fd as usize)
                &&& forall|j: usize| j < fd as usize ==> old(table).view_map().contains_key(j)
                &&& final(table).view_map() == old(table).view_map().insert(
                    fd as usize,
                    final(table).view_map()[fd as usize],
                )
                &&& final(arena).slots@[final(table).view_map()[fd as usize] as int].obj == obj
                &&& final(arena).slots@[final(table).view_map()[fd as usize] as int].refs == 1
                &&& final(table).view_map().dom().len() == old(table).view_map().dom().len() + 1
                &&& final(table).view_map().dom().len()
                    <= rlimits.limits@[RLIMIT_NOFILE as int].current
            },
            Err(e) => {
                &&& e == LinuxError::EMFILE
                &&& final(table).view_map() == old(table).view_map()
                &&& (old(table).view_map().dom().len()
                    >= rlimits.limits@[RLIMIT_NOFILE as int].current || (forall|j: usize|
                    j < 1024 ==> old(table).view_map().contains_key(j)))
            },
        },
{
    let fd_limit = rlimits.get(RLIMIT_NOFILE).current;
    let fd_count = table.count();
    if fd_count as u64 >= fd_limit {
        return Err(LinuxError::EMFILE);
    }
    let h = arena.store(obj);
    proof {
        assert forall|id: usize| #[trigger] table.view_map().contains_key(id) implies
            table.view_map()[id] != h by {
            assert(old(arena).slots@[table.view_map()[id] as int].refs >= 1);
        }
    }
    match slots_add(&mut table.slots, h) {
        Ok(fd) => {
            proof {
                assert(final(table).view_map().dom() =~= old(table).view_map().dom().insert(
                    fd as usize,
                ));
            }
            Ok(fd as i32)
        },
        Err(_) => {
            arena.release(h);
            Err(LinuxError::EMFILE)
        },
    }
}

/// Close descriptor `fd`: the ID is freed and the handle loses the table's
/// reference; the last reference finalizes the handle.
pub fn close_file_like(table: &mut FdTable, arena: &mut HandleArena, fd: i32) -> (r: Result<
    (),
    LinuxError,
>)
    requires
        old(table).wf_with(*old(arena)),
    ensures
        final(table).wf_with(*final(arena)),
        final(arena).slots@.len() == old(arena).slots@.len(),
        match r {
            Ok(()) => {
                &&& fd >= 0
                &&& old(table).view_map().contains_key(fd as usize)
                &&& final(table).view_map() == old(table).view_map().remove(fd as usize)
                &&& {
                    let h = old(table).view_map()[fd as usize] as int;
                    final(arena).slots@[h].refs == old(arena).slots@[h].refs - 1 && (forall|
                        i: int,
                    |
                        0 <= i < old(arena).slots@.len() && i != h ==> final(arena).slots@[i]
                            == old(arena).slots@[i])
                }
            },
            Err(e) => e == LinuxError::EBADF && final(table).view_map() == old(table).view_map() && *final(arena) == *old(arena) && (fd < 0 || !old(table).view_map().contains_key(fd as usize)),
        },
{
    if fd < 0 {
        return Err(LinuxError::EBADF);
    }
    let ghost h0 = old(table).view_map()[fd as usize];
    match slots_remove(&mut table.slots, fd as usize) {
        Some(h) => {
            proof {
                assert forall|id: usize| #[trigger] final(table).view_map().contains_key(
                    id,
                ) implies final(table).view_map()[id] != h by {
                    assert(old(table).view_map().contains_key(id) && id != fd as usize);
                }
            }
            arena.release(h);
            Ok(())
        },
        None => Err(LinuxError::EBADF),
    }
}

/// Produce an independent copy of the table for process duplication: the
/// same ID-to-handle mapping, each handle gaining one reference. Closing a
/// descriptor in one table afterwards does not affect the other, while
/// mutations through a shared handle (such as a shared open-file cursor)
/// remain visible to both.
pub fn copy_inner(table: &FdTable, arena: &mut HandleArena) -> (r: Result<FdTable, LinuxError>)
    requires
        table.wf_with(*old(arena)),
        forall|id: usize|
            #[trigger] table.view_map().contains_key(id) ==> old(arena).slots@[table.view_map()[id] as int].refs
                < u64::MAX,
    ensures
        match r {
            Ok(t2) => {
                &&& t2.view_map() =~= table.view_map()
                &&& t2.wf_with(*final(arena))
                &&& table.wf_with(*final(arena))
                &&& final(arena).slots@.len() == old(arena).slots@.len()
                &&& forall|i: int|
                    0 <= i < old(arena).slots@.len() ==> (#[trigger] final(arena).slots@[i]).obj
                        == old(arena).slots@[i].obj && final(arena).slots@[i].refs >= old(arena).slots@[i].refs
            },
            Err(_) => false,
        },
{
    let ids = slots_ids(&table.slots);
    let mut t2 = FdTable { slots: slots_new() };
    let n = ids.len();
    let mut i: usize = 0;
    while i < n
        invariant
            n == ids@.len(),
            i <= n,
            forall|id: usize| #[trigger] ids@.contains(id) <==> table.view_map().contains_key(
                id,
            ),
            forall|a: int, b: int| 0 <= a < b < n ==> ids@[a] < ids@[b],
            table.wf_with(*old(arena)),
            forall|id: usize|
                #[trigger] table.view_map().contains_key(id) ==> old(arena).slots@[table.view_map()[id] as int].refs < u64::MAX,
            arena.slots@.len() == old(arena).slots@.len(),
            forall|j: int|
                0 <= j < old(arena).slots@.len() ==> (#[trigger] arena.slots@[j]).obj == old(arena).slots@[j].obj && old(arena).slots@[j].refs <= arena.slots@[j].refs
                    <= old(arena).slots@[j].refs + i,
            forall|k: int|
                0 <= k < i ==> #[trigger] t2.view_map().contains_key(ids@[k] as usize)
                    && t2.view_map()[ids@[k] as usize] == table.view_map()[ids@[k] as usize],
            forall|id: usize|
                #[trigger] t2.view_map().contains_key(id) ==> (exists|k: int|
                    0 <= k < i && ids@[k] == id) && t2.view_map()[id] == table.view_map()[id],
            t2.view_map().dom().finite(),
            forall|i2: int, j2: int| 0 <= i2 < j2 < n ==> ids@[i2] != ids@[j2],
            forall|i2: int| 0 <= i2 < n ==> ids@[i2] < 1024,
            forall|k: int|
                i <= k < n ==> (#[trigger] arena.slots@[table.view_map()[ids@[k] as usize] as int]).refs == old(arena).slots@[table.view_map()[ids@[k] as usize] as int].refs,
        decreases n - i,
    {
        let id = ids[i];
        proof {
            assert(ids@[i as int] == id);
            assert(ids@.contains(id));
        }
        let h = match slots_get(&table.slots, id) {
            Some(h) => h,
            None => {
                proof {
                    assert(false);
                }
                return Err(LinuxError::EBADF);
            },
        };
        proof {
            assert(table.view_map().contains_key(id));
            assert(arena.slots@[table.view_map()[ids@[i as int] as usize] as int].refs == old(
                arena,
            ).slots@[table.view_map()[ids@[i as int] as usize] as int].refs);
            assert(h == table.view_map()[id]);
        }
        arena.retain(h);
        proof {
            assert forall|k: int|
                i + 1 <= k < n implies (#[trigger] arena.slots@[table.view_map()[ids@[k] as usize] as int]).refs == old(arena).slots@[table.view_map()[ids@[k] as usize] as int].refs by {
                assert(ids@[k] != ids@[i as int]);
                assert(ids@.contains(ids@[k] as usize));
                assert(table.view_map().contains_key(ids@[k] as usize));
                assert(table.view_map()[ids@[k] as usize] != table.view_map()[id]);
            }
        }
        let added = slots_add_at(&mut t2.slots, id, h);
        proof {
            if added is Err {
                if t2.view_map().contains_key(id) {
                    let k = choose|k: int| 0 <= k < i && ids@[k] == id;
                    assert(ids@[k] == ids@[i as int]);
                    assert(false);
                }
                assert(false);
            }
        }
        i += 1;
    }
    proof {
        assert forall|id: usize| #[trigger] table.view_map().contains_key(id) implies
            t2.view_map().contains_key(id) by {
            assert(ids@.contains(id));
            let k = choose|k: int| 0 <= k < ids@.len() && ids@[k] == id;
            assert(t2.view_map().contains_key(ids@[k] as usize));
            assert(ids@[k] as usize == id);
        }
        assert forall|id: usize| #[trigger] t2.view_map().contains_key(id) implies
            table.view_map().contains_key(id) by {
            let k = choose|k: int| 0 <= k < n && ids@[k] == id;
            assert(ids@[k] == id);
            assert(ids@.contains(id));
        }
        assert(t2.view_map() =~= table.view_map());
    }
    Ok(t2)
}

/// Whether some descriptor of the mapping `m` names the arena slot `j`.
pub open spec fn spec_slot_mapped(m: Map<usize, usize>, j: int) -> bool {
    exists|id: usize| #[trigger] m.contains_key(id) && m[id] == j
}

/// Remove every entry of the table, dropping each handle's reference. Used
/// by image replacement, after the caller has applied any close-on-exec
/// policy to the descriptors that should survive.
pub fn fd_table_clear(table: &mut FdTable, arena: &mut HandleArena)
    requires
        old(table).wf_with(*old(arena)),
    ensures
        final(table).wf_with(*final(arena)),
        final(table).view_map() =~= Map::empty(),
        final(arena).slots@.len() == old(arena).slots@.len(),
        forall|id: usize|
            #[trigger] old(table).view_map().contains_key(id) ==> final(arena).slots@[old(table).view_map()[id] as int].refs == old(arena).slots@[old(table).view_map()[id] as int].refs
                - 1,
        forall|j: int|
            0 <= j < old(arena).slots@.len() && !spec_slot_mapped(old(table).view_map(), j)
                ==> final(arena).slots@[j] == old(arena).slots@[j],
{
    let ids = slots_ids(&table.slots);
    let n = ids.len();
    proof {
        assert forall|k: int| 0 <= k < ids@.len() implies table.view_map().contains_key(
            ids@[k] as usize,
        ) by {
            assert(ids@.contains(ids@[k] as usize));
        }
    }
    let mut i: usize = 0;
    while i < n
        invariant
            old(table).wf_with(*old(arena)),
            n == ids@.len(),
            i <= n,
            forall|id: usize| #[trigger] ids@.contains(id) <==> old(table).view_map().contains_key(id),
            forall|a: int, b: int| 0 <= a < b < n ==> ids@[a] < ids@[b],
            table.wf_with(*arena),
            arena.slots@.len() == old(arena).slots@.len(),
            forall|id: usize|
                #[trigger] table.view_map().contains_key(id) ==> old(table).view_map().contains_key(id) && table.view_map()[id] == old(table).view_map()[id],
            forall|k: int| 0 <= k < i ==> !table.view_map().contains_key(ids@[k] as usize),
            forall|k: int|
                i <= k < n ==> #[trigger] table.view_map().contains_key(ids@[k] as usize),
            forall|k: int|
                0 <= k < i ==> (#[trigger] arena.slots@[old(table).view_map()[ids@[k] as usize] as int]).refs == old(arena).slots@[old(table).view_map()[ids@[k] as usize] as int].refs
                    - 1,
            forall|k: int|
                i <= k < n ==> #[trigger] arena.slots@[old(table).view_map()[ids@[k] as usize] as int] == old(arena).slots@[old(table).view_map()[ids@[k] as usize] as int],
            forall|j: int|
                0 <= j < old(arena).slots@.len() && !spec_slot_mapped(old(table).view_map(), j)
                    ==> arena.slots@[j] == old(arena).slots@[j],
        decreases n - i,
    {
        let id = ids[i];
        proof {
            assert(ids@[i as int] == id);
            assert(ids@.contains(id));
        }
        let ghost pre_map = table.view_map();
        match slots_remove(&mut table.slots, id) {
            Some(h) => {
                proof {
                    assert(h == old(table).view_map()[id]);
                    assert(arena.slots@[old(table).view_map()[ids@[i as int] as usize] as int]
                        == old(arena).slots@[old(table).view_map()[ids@[i as int] as usize] as int]);
                    assert(arena.slots@[h as int].refs >= 1);
                    assert forall|id2: usize| #[trigger] table.view_map().contains_key(
                        id2,
                    ) implies table.view_map()[id2] != h by {
                        assert(pre_map.contains_key(id2) && id2 != id);
                    }
                    assert(spec_slot_mapped(old(table).view_map(), h as int));
                }
                arena.release(h);
                proof {
                    assert forall|k: int| 0 <= k < i + 1 implies (#[trigger] arena.slots@[old(table).view_map()[ids@[k] as usize] as int]).refs == old(arena).slots@[old(table).view_map()[ids@[k] as usize] as int].refs
                        - 1 by {
                        if k < i as int {
                            assert(ids@[k] != ids@[i as int]);
                            assert(ids@.contains(ids@[k] as usize));
                            assert(old(table).view_map().contains_key(ids@[k] as usize));
                            assert(old(table).view_map()[ids@[k] as usize]
                                != old(table).view_map()[ids@[i as int] as usize]);
                        }
                    }
                    assert forall|k: int| i + 1 <= k < n implies #[trigger] arena.slots@[old(table).view_map()[ids@[k] as usize] as int] == old(arena).slots@[old(table).view_map()[ids@[k] as usize] as int] by {
                        assert(ids@[k] != ids@[i as int]);
                        assert(ids@.contains(ids@[k] as usize));
                        assert(old(table).view_map().contains_key(ids@[k] as usize));
                        assert(old(table).view_map()[ids@[k] as usize]
                            != old(table).view_map()[ids@[i as int] as usize]);
                    }
                }
            },
            None => {
                proof {
                    assert(false);
                }
            },
        }
        i += 1;
    }
    proof {
        assert forall|id: usize| !(#[trigger] table.view_map().contains_key(id)) by {
            if table.view_map().contains_key(id) {
                assert(old(table).view_map().contains_key(id));
                assert(ids@.contains(id));
                let k = choose|k: int| 0 <= k < ids@.len() && ids@[k] == id;
                assert(!table.view_map().contains_key(ids@[k] as usize));
            }
        }
        assert(table.view_map().dom() =~= Set::empty());
        assert forall|id: usize| #[trigger] old(table).view_map().contains_key(id) implies final(arena).slots@[old(table).view_map()[id] as int].refs == old(arena).slots@[old(table).view_map()[id] as int].refs
            - 1 by {
            assert(ids@.contains(id));
            let k = choose|k: int| 0 <= k < ids@.len() && ids@[k] == id;
            assert(arena.slots@[old(table).view_map()[ids@[k] as usize] as int].refs == old(arena).slots@[old(table).view_map()[ids@[k] as usize] as int].refs - 1);
        }
    }
}

/// Pre-populate descriptors 0, 1 and 2 with the standard streams at
/// process-table initialization; they are otherwise ordinary entries.
pub fn init_stdio(table: &mut FdTable, arena: &mut HandleArena) -> (r: Result<(), LinuxError>)
    requires
        old(table).wf_with(*old(arena)),
        old(table).view_map() == Map::<usize, usize>::empty(),
        old(arena).slots@.len() + 2 < usize::MAX,
    ensures
        match r {
            Ok(()) => {
                &&& final(table).wf_with(*final(arena))
                &&& final(table).view_map().dom() =~= Set::empty().insert(0usize).insert(
                    1usize,
                ).insert(2usize)
                &&& final(arena).slots@[final(table).view_map()[0usize] as int].obj
                    == FileLikeHandle::Stdin
                &&& final(arena).slots@[final(table).view_map()[1usize] as int].obj
                    == FileLikeHandle::Stdout
                &&& final(arena).slots@[final(table).view_map()[2usize] as int].obj
                    == FileLikeHandle::Stdout
            },
            Err(_) => false,
        },
{
    let h0 = arena.store(FileLikeHandle::Stdin);
    let h1 = arena.store(FileLikeHandle::Stdout);
    let h2 = arena.store(FileLikeHandle::Stdout);
    let r0 = slots_add_at(&mut table.slots, 0, h0);
    proof {
        assert(r0 is Ok);
    }
    let r1 = slots_add_at(&mut table.slots, 1, h1);
    proof {
        assert(r1 is Ok);
    }
    let r2 = slots_add_at(&mut table.slots, 2, h2);
    proof {
        assert(r2 is Ok);
        assert(final(table).view_map().dom() =~= Set::empty().insert(0usize).insert(
            1usize,
        ).insert(2usize));
    }
    Ok(())
}


/// A finite set of small integers below `n` has at most `n` elements.
proof fn lemma_bounded_set_len(s: Set<usize>, n: nat)
    requires
        s.finite(),
        forall|x: usize| #[trigger] s.contains(x) ==> x < n,
    ensures
        s.len() <= n,
    decreases n,
{
    if n == 0 {
        if s.len() > 0 {
            let x = s.choose();
            assert(s.contains(x));
        }
    } else {
        let s2 = s.remove((n - 1) as usize);
        assert(forall|x: usize| #[trigger] s2.contains(x) ==> x < (n - 1) as nat);
        lemma_bounded_set_len(s2, (n - 1) as nat);
    }
}

/// Whatever sequence of adds and removes produced it, a well-formed
/// descriptor table never holds more entries than the hard cap; together
/// with the soft-limit bound that every successful add ensures, the table
/// never exceeds the smaller of the cap and the soft open-file limit.
pub proof fn lemma_fd_table_capacity(t: FdTable, a: HandleArena)
    requires
        t.wf_with(a),
    ensures
        t.view_map().dom().len() <= 1024,
{
    assert forall|x: usize| #[trigger] t.view_map().dom().contains(x) implies x < 1024 by {
        assert(t.view_map().contains_key(x));
    }
    lemma_bounded_set_len(t.view_map().dom(), 1024);
}

/// Resolution helper: resolve `path` to a file-like handle. An absolute
/// path, or any path with the current-directory sentinel, resolves from the
/// process working directory; otherwise it resolves relative to the
/// directory named by `dirfd`. The open first tries the path as a regular
/// file and retries as a directory when the node is one — the two-phase
/// probe the filesystem forces by not offering a cheaper type check.
pub fn get_file_like_at(
    table: &FdTable,
    arena: &HandleArena,
    vfs: &Vfs,
    reg: &HardlinkManager,
    dirfd: i32,
    path: &str,
) -> (r: Result<FileLikeHandle, LinuxError>)
    requires
        table.wf_with(*arena),
        vfs.wf(),
        reg.wf(),
    ensures
        match r {
            Ok(h) => {
                let key = crate::path::spec_trimmed(spec_lookup_path(*table, *arena, *vfs, *reg, dirfd, path@));
                &&& vfs.nodes@.contains_key(key)
                &&& (vfs.nodes@[key] is Dir ==> h == (FileLikeHandle::Directory {
                    path: h->Directory_path,
                    dir_pos: 0,
                }) && h->Directory_path@ == key)
                &&& (!(vfs.nodes@[key] is Dir) ==> h == (FileLikeHandle::File {
                    path: h->File_path,
                    cursor: 0,
                }) && h->File_path@ == key)
            },
            Err(e) => match e {
                LinuxError::ENOENT => !vfs.nodes@.contains_key(
                    crate::path::spec_trimmed(spec_lookup_path(*table, *arena, *vfs, *reg, dirfd, path@)),
                ),
                LinuxError::EBADF => !(path@.len() > 0 && path@[0] == '/') && dirfd != AT_FDCWD
                    && (dirfd < 0 || !table.view_map().contains_key(dirfd as usize)),
                LinuxError::ENOTDIR => !(path@.len() > 0 && path@[0] == '/') && dirfd != AT_FDCWD
                    && dirfd >= 0 && table.view_map().contains_key(dirfd as usize)
                    && !(arena.slots@[table.view_map()[dirfd as usize] as int].obj is Directory),
                _ => false,
            },
        },
{
    let fp: FilePath = if (path.unicode_len() > 0 && path.get_char(0) == '/') || dirfd
        == AT_FDCWD {
        match FilePath::new(vfs, reg, path) {
            Ok(fp) => fp,
            Err(e) => {
                return Err(e);
            },
        }
    } else {
        let h = match get_file_like(table, dirfd) {
            Ok(h) => h,
            Err(e) => {
                return Err(e);
            },
        };
        let dir_path: String = match &arena.slots[h].obj {
            FileLikeHandle::Directory { path: p, .. } => p.clone(),
            _ => {
                return Err(LinuxError::ENOTDIR);
            },
        };
        let mut raw = dir_path;
        let ghost base = arena.slots@[table.view_map()[dirfd as usize] as int].obj->Directory_path;
        let bn = raw.as_str().unicode_len();
        if bn == 0 || raw.as_str().get_char(bn - 1) != '/' {
            raw.append("/");
        }
        raw.append(path);
        proof {
            reveal_strlit("/");
            if base@.len() > 0 && base@.last() == '/' {
                assert(raw@ =~= base@ + path@);
            } else {
                assert(raw@ =~= base@ + seq!['/'] + path@);
            }
        }
        match FilePath::new(vfs, reg, raw.as_str()) {
            Ok(fp) => fp,
            Err(e) => {
                return Err(e);
            },
        }
    };
    let key = fp.trimmed();
    match vfs.node_is_dir(&key) {
        None => Err(LinuxError::ENOENT),
        Some(true) => Ok(FileLikeHandle::Directory { path: key, dir_pos: 0 }),
        Some(false) => Ok(FileLikeHandle::File { path: key, cursor: 0 }),
    }
}

/// The path string `get_file_like_at` resolves and looks up for the given
/// arguments, before the trailing slash is trimmed away for the node
/// lookup.
pub open spec fn spec_lookup_path(
    table: FdTable,
    arena: HandleArena,
    vfs: Vfs,
    reg: HardlinkManager,
    dirfd: i32,
    path: Seq<char>,
) -> Seq<char> {
    if (path.len() > 0 && path[0] == '/') || dirfd == AT_FDCWD {
        reg.real_path_of(
            crate::path::spec_with_dir_intent(
                crate::path::spec_canonical(crate::path::spec_resolved(path, vfs.cwd@)),
                path,
            ),
        )
    } else {
        let base = arena.slots@[table.view_map()[dirfd as usize] as int].obj->Directory_path;
        let raw = if base@.len() > 0 && base@.last() == '/' {
            base@ + path
        } else {
            base@ + seq!['/'] + path
        };
        reg.real_path_of(
            crate::path::spec_with_dir_intent(
                crate::path::spec_canonical(crate::path::spec_resolved(raw, vfs.cwd@)),
                raw,
            ),
        )
    }
}


/// Add a file-like handle at exactly the given descriptor ID, as system
/// initialization does for the standard streams; refused when the ID is
/// occupied or beyond the hard cap.
pub fn add_file_like_at(
    table: &mut FdTable,
    arena: &mut HandleArena,
    fd: i32,
    obj: FileLikeHandle,
) -> (r: Result<i32, LinuxError>)
    requires
        old(table).wf_with(*old(arena)),
        old(arena).slots@.len() < usize::MAX,
    ensures
        final(table).wf_with(*final(arena)),
        match r {
            Ok(v) => {
                &&& v == fd
                &&& 0 <= fd < AX_FILE_LIMIT
                &&& !old(table).view_map().contains_key(fd as usize)
                &&& final(table).view_map() == old(table).view_map().insert(
                    fd as usize,
                    final(table).view_map()[fd as usize],
                )
                &&& final(arena).slots@[final(table).view_map()[fd as usize] as int].obj == obj
                &&& final(arena).slots@[final(table).view_map()[fd as usize] as int].refs == 1
            },
            Err(e) => {
                &&& e == LinuxError::EMFILE
                &&& final(table).view_map() == old(table).view_map()
                &&& (fd < 0 || fd >= AX_FILE_LIMIT || old(table).view_map().contains_key(
                    fd as usize,
                ))
            },
        },
{
    if fd < 0 {
        return Err(LinuxError::EMFILE);
    }
    let h = arena.store(obj);
    proof {
        assert forall|id: usize| #[trigger] table.view_map().contains_key(id) implies
            table.view_map()[id] != h by {
            assert(old(arena).slots@[table.view_map()[id] as int].refs >= 1);
        }
    }
    match slots_add_at(&mut table.slots, fd as usize, h) {
        Ok(rid) => Ok(rid as i32),
        Err(_) => {
            arena.release(h);
            Err(LinuxError::EMFILE)
        },
    }
}

} // verus!

