use vstd::prelude::*;
use vstd::string::StrSliceExecFns;
use vstd::string::StringExecFns;
use crate::errno::LinuxError;
use crate::memfs::{Vfs, spec_root};

verus! {

/// One canonicalization step for a finished path component: empty and
/// current-directory components vanish, a parent component pops the stack
/// (the root's parent is the root), anything else is kept.
pub open spec fn spec_flush(stack: Seq<Seq<char>>, cur: Seq<char>) -> Seq<Seq<char>> {
    if cur.len() == 0 || cur == seq!['.'] {
        stack
    } else if cur == seq!['.', '.'] {
        if stack.len() > 0 {
            stack.drop_last()
        } else {
            stack
        }
    } else {
        stack.push(cur)
    }
}

/// The component stack and unfinished component after scanning the first
/// `i` characters of a path.
pub open spec fn spec_scan(s: Seq<char>, i: int) -> (Seq<Seq<char>>, Seq<char>)
    decreases i,
{
    if i <= 0 {
        (Seq::empty(), Seq::empty())
    } else {
        let (stack, cur) = spec_scan(s, i - 1);
        if s[i - 1] == '/' {
            (spec_flush(stack, cur), Seq::empty())
        } else {
            (stack, cur.push(s[i - 1]))
        }
    }
}

/// The absolute path spelled by a component stack: a slash before each
/// component.
pub open spec fn spec_join(stack: Seq<Seq<char>>) -> Seq<char>
    decreases stack.len(),
{
    if stack.len() == 0 {
        Seq::empty()
    } else {
        spec_join(stack.drop_last()) + seq!['/'] + stack.last()
    }
}

/// The canonical form of an absolute path: empty, current-directory and
/// parent components resolved away, exactly one slash between components, no
/// trailing slash; the empty stack canonicalizes to the root.
pub open spec fn spec_canonical(s: Seq<char>) -> Seq<char> {
    let (stack, cur) = spec_scan(s, s.len() as int);
    let done = spec_flush(stack, cur);
    if done.len() == 0 {
        spec_root()
    } else {
        spec_join(done)
    }
}

/// The raw character sequence a path argument resolves against: itself when
/// absolute, the working directory joined with it otherwise.
pub open spec fn spec_resolved(s: Seq<char>, cwd: Seq<char>) -> Seq<char> {
    if s.len() > 0 && s[0] == '/' {
        s
    } else {
        cwd + seq!['/'] + s
    }
}

/// A canonical path with the directory intent of the raw input restored: a
/// raw path with a trailing slash keeps a trailing slash, except on the
/// root.
pub open spec fn spec_with_dir_intent(c: Seq<char>, raw: Seq<char>) -> Seq<char> {
    if raw.len() > 0 && raw.last() == '/' && c != spec_root() {
        c.push('/')
    } else {
        c
    }
}

proof fn lemma_join_starts_slash(stack: Seq<Seq<char>>)
    requires
        stack.len() > 0,
    ensures
        spec_join(stack).len() > 0,
        spec_join(stack)[0] == '/',
    decreases stack.len(),
{
    if stack.len() > 1 {
        lemma_join_starts_slash(stack.drop_last());
        assert(spec_join(stack)[0] == spec_join(stack.drop_last())[0]);
    } else {
        assert(spec_join(stack.drop_last()).len() == 0);
        assert(spec_join(stack) =~= seq!['/'] + stack.last());
    }
}

/// Every path the normalizer produces is nonempty and absolute: the
/// canonical form is, restoring directory intent keeps the first
/// character, and a well-formed registry rewrites only to recorded
/// targets, which are absolute themselves.
pub proof fn lemma_resolved_absolute(reg: HardlinkManager, raw: Seq<char>, cwd: Seq<char>)
    requires
        reg.wf(),
    ensures
        ({
            let p = reg.real_path_of(
                spec_with_dir_intent(spec_canonical(spec_resolved(raw, cwd)), raw),
            );
            &&& p.len() > 0
            &&& p[0] == '/'
            &&& spec_trimmed(p).len() > 0
            &&& spec_trimmed(p)[0] == '/'
        }),
{
    lemma_canonical_starts_slash(spec_resolved(raw, cwd));
    let c = spec_canonical(spec_resolved(raw, cwd));
    let w = spec_with_dir_intent(c, raw);
    assert(w.len() > 0 && w[0] == '/');
    let p = reg.real_path_of(w);
    if reg.links().contains_key(w) {
        assert(p.len() > 0 && p[0] == '/');
    }
}

/// Every canonical path is absolute.
pub proof fn lemma_canonical_starts_slash(s: Seq<char>)
    ensures
        spec_canonical(s).len() > 0,
        spec_canonical(s)[0] == '/',
{
    let (stack, cur) = spec_scan(s, s.len() as int);
    let done = spec_flush(stack, cur);
    if done.len() > 0 {
        lemma_join_starts_slash(done);
    }
}

/// Flushes the component `comp` onto the canonical component stack, exactly
/// as [`spec_flush`] says.
fn flush_component(stack: &mut Vec<String>, comp: &str)
    ensures
        final(stack)@.map_values(|c: String| c@) == spec_flush(
            old(stack)@.map_values(|c: String| c@),
            comp@,
        ),
{
    let ghost pre = old(stack)@.map_values(|c: String| c@);
    let n = comp.unicode_len();
    if n == 0 {
        proof {
            assert(comp@ =~= Seq::<char>::empty());
        }
        return;
    }
    if n == 1 && comp.get_char(0) == '.' {
        proof {
            assert(comp@ =~= seq!['.']);
        }
        return;
    }
    if n == 2 && comp.get_char(0) == '.' && comp.get_char(1) == '.' {
        proof {
            assert(comp@ =~= seq!['.', '.']);
        }
        if stack.len() > 0 {
            stack.pop();
            proof {
                assert(stack@.map_values(|c: String| c@) =~= pre.drop_last());
            }
        }
        return;
    }
    proof {
        assert(comp@ != Seq::<char>::empty() && comp@ != seq!['.'] && comp@ != seq!['.', '.']);
    }
    stack.push(comp.to_owned());
    proof {
        assert(stack@.map_values(|c: String| c@) =~= pre.push(comp@));
    }
}

/// Canonicalizes a path argument against the working directory `cwd`: the
/// path is made absolute, and empty, `.` and `..` components are resolved
/// lexically.
pub fn canonicalize(path: &str, cwd: &str) -> (r: String)
    ensures
        r@ == spec_canonical(spec_resolved(path@, cwd@)),
        r@.len() > 0,
        r@[0] == '/',
{
    let full: String = if path.unicode_len() > 0 && path.get_char(0) == '/' {
        path.to_owned()
    } else {
        let mut f = cwd.to_owned();
        f.append("/");
        f.append(path);
        f
    };
    proof {
        reveal_strlit("/");
        assert(full@ =~= spec_resolved(path@, cwd@));
    }
    let s = full.as_str();
    let n = s.unicode_len();
    let mut stack: Vec<String> = Vec::new();
    let mut start: usize = 0;
    let mut i: usize = 0;
    while i < n
        invariant
            n == s@.len(),
            start <= i <= n,
            spec_scan(s@, i as int).0 == stack@.map_values(|c: String| c@),
            spec_scan(s@, i as int).1 == s@.subrange(start as int, i as int),
        decreases n - i,
    {
        if s.get_char(i) == '/' {
            let comp = s.substring_char(start, i);
            flush_component(&mut stack, comp);
            start = i + 1;
            proof {
                assert(spec_scan(s@, i + 1).1 =~= s@.subrange(start as int, i + 1));
            }
        } else {
            proof {
                assert(s@.subrange(start as int, i + 1) =~= s@.subrange(start as int, i as int)
                    .push(s@[i as int]));
            }
        }
        i += 1;
    }
    let comp = s.substring_char(start, n);
    flush_component(&mut stack, comp);
    let m = stack.len();
    if m == 0 {
        proof {
            reveal_strlit("/");
        }
        let r = String::from_str("/");
        proof {
            assert(r@ =~= spec_root());
        }
        return r;
    }
    let mut out = String::new();
    let mut k: usize = 0;
    proof {
        assert(stack@.map_values(|c: String| c@).take(0) =~= Seq::<Seq<char>>::empty());
        assert(out@ =~= spec_join(stack@.map_values(|c: String| c@).take(0)));
    }
    while k < m
        invariant
            m == stack@.len(),
            k <= m,
            out@ == spec_join(stack@.map_values(|c: String| c@).take(k as int)),
        decreases m - k,
    {
        out.append("/");
        out.append(stack[k].as_str());
        proof {
            reveal_strlit("/");
            let views = stack@.map_values(|c: String| c@);
            assert(views.take(k + 1).drop_last() =~= views.take(k as int));
            assert(views.take(k + 1).last() == views[k as int]);
            assert(out@ =~= spec_join(views.take(k + 1)));
        }
        k += 1;
    }
    proof {
        let views = stack@.map_values(|c: String| c@);
        assert(views.take(m as int) =~= views);
        lemma_join_starts_slash(views);
    }
    out
}


/// Why a link operation was refused.
#[derive(Debug, Clone, Copy, PartialEq, Eq, Structural)]
pub enum LinkError {
    /// Link already exists
    LinkExists,
    /// Invalid path
    InvalidPath,
    /// File not found
    NotFound,
    /// Not a file
    NotFile,
}

impl From<LinkError> for LinuxError {
    /// The POSIX error code each refusal surfaces as.
    fn from(err: LinkError) -> (r: LinuxError) {
        match err {
            LinkError::LinkExists => LinuxError::EEXIST,
            LinkError::InvalidPath => LinuxError::EINVAL,
            LinkError::NotFound => LinuxError::ENOENT,
            LinkError::NotFile => LinuxError::EINVAL,
        }
    }
}

impl vstd::std_specs::convert::FromSpecImpl<LinkError> for LinuxError {
    open spec fn obeys_from_spec() -> bool {
        true
    }

    open spec fn from_spec(err: LinkError) -> LinuxError {
        match err {
            LinkError::LinkExists => LinuxError::EEXIST,
            LinkError::InvalidPath => LinuxError::EINVAL,
            LinkError::NotFound => LinuxError::ENOENT,
            LinkError::NotFile => LinuxError::EINVAL,
        }
    }
}

/// The link sources that point at target `t`.
pub open spec fn spec_sources(links: Map<Seq<char>, String>, t: Seq<char>) -> Set<Seq<char>> {
    links.dom().filter(|k: Seq<char>| links[k]@ == t)
}

/// The target a path resolves to through the registry: the recorded target
/// when the path is a link source, the path itself otherwise.
pub open spec fn spec_real_path(links: Map<Seq<char>, String>, p: Seq<char>) -> Seq<char> {
    if links.contains_key(p) {
        links[p]@
    } else {
        p
    }
}

proof fn lemma_sources_insert(links: Map<Seq<char>, String>, src: Seq<char>, dst: String, t: Seq<char>)
    ensures
        spec_sources(links.insert(src, dst), t) =~= (if dst@ == t {
            spec_sources(links, t).insert(src)
        } else {
            spec_sources(links, t).remove(src)
        }),
{
    let l2 = links.insert(src, dst);
    assert forall|x: Seq<char>| #[trigger] spec_sources(l2, t).contains(x) <==> (if dst@ == t {
        spec_sources(links, t).insert(src).contains(x)
    } else {
        spec_sources(links, t).remove(src).contains(x)
    }) by {
        if x == src {
        } else {
            assert(l2.contains_key(x) <==> links.contains_key(x));
        }
    }
}

proof fn lemma_sources_remove(links: Map<Seq<char>, String>, src: Seq<char>, t: Seq<char>)
    ensures
        spec_sources(links.remove(src), t) =~= spec_sources(links, t).remove(src),
{
    let l2 = links.remove(src);
    assert forall|x: Seq<char>| #[trigger] spec_sources(l2, t).contains(x) <==> spec_sources(
        links,
        t,
    ).remove(src).contains(x) by {
        if x != src {
            assert(l2.contains_key(x) <==> links.contains_key(x));
        }
    }
}

proof fn lemma_sources_finite(links: Map<Seq<char>, String>, t: Seq<char>)
    requires
        links.dom().finite(),
    ensures
        spec_sources(links, t).finite(),
        spec_sources(links, t).len() <= links.dom().len(),
{
    vstd::set_lib::lemma_len_subset(spec_sources(links, t), links.dom());
}


/// What a successful `create_link(new_path -> target)` does: the target
/// existed and had file shape; afterwards `new_path` resolves to it and it
/// is counted. Re-linking the same pair changes nothing; otherwise the link
/// is recorded, the new target gains a reference, and a previously aliased
/// target loses one — deleted, entry and file, when that was its last.
pub open spec fn spec_link_created(
    r0: HardlinkManager,
    r1: HardlinkManager,
    v0: Vfs,
    v1: Vfs,
    np: Seq<char>,
    target: String,
) -> bool {
    &&& v0.nodes@.contains_key(target@)
    &&& target@.last() != '/'
    &&& r1.counts().contains_key(target@)
    &&& r1.real_path_of(np) == target@
    &&& if r0.links().contains_key(np) && r0.links()[np]@ == target@ {
        r1 == r0 && v1.nodes@ == v0.nodes@
    } else {
        &&& r1.links() =~= r0.links().insert(np, target)
        &&& (r0.counts().contains_key(target@) ==> r1.counts()[target@] == r0.counts()[target@]
            + 1)
        &&& (!r0.counts().contains_key(target@) ==> r1.counts()[target@] == 1)
        &&& (!r0.links().contains_key(np) ==> v1.nodes@ == v0.nodes@ && (forall|t: Seq<char>|
            t != target@ ==> r1.counts().contains_key(t) == r0.counts().contains_key(t) && (
            r0.counts().contains_key(t) ==> r1.counts()[t] == r0.counts()[t])))
        &&& (r0.links().contains_key(np) ==> {
            let od = r0.links()[np]@;
            &&& (r0.counts()[od] == 1 ==> !r1.counts().contains_key(od) && (
            v0.nodes@.contains_key(od) && !(v0.nodes@[od] is Dir) ==> !v1.nodes@.contains_key(
                od,
            )))
            &&& (r0.counts()[od] > 1 ==> r1.counts()[od] == r0.counts()[od] - 1 && v1.nodes@
                == v0.nodes@)
        })
    }
}

/// Why `create_link` refuses: the target path does not exist, or it carries
/// directory intent.
pub open spec fn spec_link_refused(v0: Vfs, target: Seq<char>, e: LinkError) -> bool {
    match e {
        LinkError::NotFound => !v0.nodes@.contains_key(target),
        LinkError::NotFile => v0.nodes@.contains_key(target) && target.last() == '/',
        _ => false,
    }
}

/// The global hardlink registry: a map from link path to target path, and a
/// reference count per target. A target's count tracks exactly how many
/// link sources point at it; when the last one goes, the count entry goes
/// and the underlying file is deleted through the filesystem.
pub struct HardlinkManager {
    /// link path -> target path
    links: crate::strmap::StrMap<String>,
    /// target path -> number of link sources pointing at it
    ref_counts: crate::strmap::StrMap<u64>,
}

impl HardlinkManager {
    /// The recorded links.
    pub closed spec fn links(self) -> Map<Seq<char>, String> {
        self.links@
    }

    /// The recorded reference counts.
    pub closed spec fn counts(self) -> Map<Seq<char>, u64> {
        self.ref_counts@
    }

    /// What [`Self::real_path`] returns for `p`.
    pub open spec fn real_path_of(self, p: Seq<char>) -> Seq<char> {
        spec_real_path(self.links(), p)
    }

    /// Bookkeeping agreement: every count entry counts exactly the link
    /// sources of its target (so it is at least one), every link's target
    /// is counted, and every recorded target is a nonempty absolute path.
    pub closed spec fn wf(self) -> bool {
        &&& self.links.wf()
        &&& self.ref_counts.wf()
        &&& forall|t: Seq<char>|
            #[trigger] self.ref_counts@.contains_key(t) ==> self.ref_counts@[t] as int
                == spec_sources(self.links@, t).len() && self.ref_counts@[t] >= 1
        &&& forall|k: Seq<char>|
            #[trigger] self.links@.contains_key(k) ==> self.ref_counts@.contains_key(
                self.links@[k]@,
            ) && self.links@[k]@.len() > 0 && self.links@[k]@[0] == '/'
    }

    /// Creates an empty registry.
    pub fn new() -> (r: HardlinkManager)
        ensures
            r.wf(),
            r.links() =~= Map::empty(),
            r.counts() =~= Map::empty(),
    {
        let r = HardlinkManager {
            links: crate::strmap::StrMap::new(),
            ref_counts: crate::strmap::StrMap::new(),
        };
        proof {
            assert forall|t: Seq<char>| #[trigger] r.ref_counts@.contains_key(t) implies false by {}
        }
        r
    }

    /// The target recorded for `path`, or `path` itself when it is no link
    /// source. Every path canonicalization consults this, so operations
    /// against a link transparently reach its target.
    pub fn real_path(&self, path: &String) -> (r: String)
        requires
            self.wf(),
        ensures
            r@ == spec_real_path(self.links(), path@),
    {
        match self.links.get(path) {
            Some(t) => t.clone(),
            None => path.clone(),
        }
    }

    /// The tracked reference count of `path`, or, when untracked, one if the
    /// path currently exists and zero otherwise — the sane default for
    /// `stat`-style link counts of files never explicitly linked.
    pub fn link_count(&self, vfs: &Vfs, path: &String) -> (r: u64)
        requires
            self.wf(),
            vfs.wf(),
        ensures
            self.counts().contains_key(path@) ==> r == self.counts()[path@],
            !self.counts().contains_key(path@) ==> r == (if vfs.nodes@.contains_key(path@) {
                1u64
            } else {
                0u64
            }),
    {
        match self.ref_counts.get(path) {
            Some(c) => *c,
            None => {
                if vfs.has_node(path) {
                    1
                } else {
                    0
                }
            },
        }
    }

    /// Drops one reference from `path`'s count; at zero, the count entry is
    /// removed and the underlying file is deleted through the filesystem. A
    /// missing count entry is a bookkeeping fault and is left as a no-op.
    fn decrease_ref_count(&mut self, vfs: &mut Vfs, path: &String)
        requires
            old(self).links.wf(),
            old(self).ref_counts.wf(),
            old(vfs).wf(),
        ensures
            final(self).links.wf(),
            final(self).ref_counts.wf(),
            final(vfs).wf(),
            final(self).links@ == old(self).links@,
            final(vfs).cwd == old(vfs).cwd,
            match old(self).ref_counts@.contains_key(path@) {
                true => {
                    if old(self).ref_counts@[path@] <= 1 {
                        &&& final(self).ref_counts@ =~= old(self).ref_counts@.remove(path@)
                        &&& (if old(vfs).nodes@.contains_key(path@) && !(old(vfs).nodes@[path@] is Dir) {
                            final(vfs).nodes@ =~= old(vfs).nodes@.remove(path@)
                        } else {
                            final(vfs).nodes@ == old(vfs).nodes@
                        })
                    } else {
                        &&& final(self).ref_counts@ =~= old(self).ref_counts@.insert(
                            path@,
                            (old(self).ref_counts@[path@] - 1) as u64,
                        )
                        &&& final(vfs).nodes@ == old(vfs).nodes@
                    }
                },
                false => *final(self) == *old(self) && final(vfs).nodes@ == old(vfs).nodes@,
            },
    {
        let c = match self.ref_counts.get(path) {
            Some(c) => *c,
            None => {
                return;
            },
        };
        if c <= 1 {
            self.ref_counts.remove(path);
            let _ = vfs.remove_file(path);
        } else {
            self.ref_counts.insert(path.clone(), c - 1);
        }
    }

    /// Creates (or re-targets) the hardlink `new_path -> target`.
    ///
    /// Fails "not found" when `target` does not exist — a path-existence
    /// check, blind to the file-or-directory distinction — and "not a file"
    /// when the target path carries directory intent (a trailing slash).
    /// On success, atomically: when `new_path` already aliased a different
    /// target, that target loses one reference (and its file is deleted at
    /// zero); the link is recorded; the new target gains one reference.
    /// Re-linking the same pair is a no-op and does not double-count.
    pub fn create_link(&mut self, vfs: &mut Vfs, new_path: &String, target: &String) -> (r:
        Result<(), LinkError>)
        requires
            old(self).wf(),
            old(vfs).wf(),
            new_path@.len() > 0,
            target@.len() > 0,
            target@[0] == '/',
        ensures
            final(self).wf(),
            final(vfs).wf(),
            final(vfs).cwd == old(vfs).cwd,
            match r {
                Ok(()) => spec_link_created(
                    *old(self),
                    *final(self),
                    *old(vfs),
                    *final(vfs),
                    new_path@,
                    *target,
                ),
                Err(e) => {
                    &&& *final(self) == *old(self)
                    &&& final(vfs).nodes@ == old(vfs).nodes@
                    &&& spec_link_refused(*old(vfs), target@, e)
                },
            },
    {
        if !vfs.has_node(target) {
            return Err(LinkError::NotFound);
        }
        let tlen = target.unicode_len();
        if target.get_char(tlen - 1) == '/' {
            return Err(LinkError::NotFile);
        }
        let ghost l0 = self.links@;
        let ghost c0 = self.ref_counts@;
        let ghost v0 = vfs.nodes@;
        let old_dst: Option<String> = match self.links.get(new_path) {
            Some(d) => Some(d.clone()),
            None => None,
        };
        let relinked: bool = match &old_dst {
            Some(od) => {
                if od.eq(target) {
                    return Ok(());
                }
                self.decrease_ref_count(vfs, od);
                true
            },
            None => false,
        };
        proof {
            self.links.dom_finite();
        }
        self.links.insert(new_path.clone(), target.clone());
        let dl = self.links.len();
        let c: u64 = match self.ref_counts.get(target) {
            Some(c) => *c,
            None => 0,
        };
        proof {
            lemma_sources_insert(l0, new_path@, *target, target@);
            lemma_sources_finite(l0, target@);
            if !c0.contains_key(target@) {
                if spec_sources(l0, target@).len() > 0 {
                    let w = spec_sources(l0, target@).choose();
                    assert(spec_sources(l0, target@).contains(w));
                    assert(l0.contains_key(w) && l0[w]@ == target@);
                    assert(false);
                }
                assert(spec_sources(l0, target@).len() == 0);
            }
            assert(!spec_sources(l0, target@).contains(new_path@));
            assert(spec_sources(self.links@, target@).len() == spec_sources(l0, target@).len()
                + 1);
            self.links.dom_finite();
            lemma_sources_finite(self.links@, target@);
            assert(c as int + 1 == spec_sources(self.links@, target@).len());
            assert(spec_sources(self.links@, target@).len() <= dl as int);
        }
        self.ref_counts.insert(target.clone(), c + 1);
        proof {
            let lf = self.links@;
            let cf = self.ref_counts@;
            let ghost c1 = if relinked {
                let od = l0[new_path@]@;
                if c0[od] <= 1 {
                    c0.remove(od)
                } else {
                    c0.insert(od, (c0[od] - 1) as u64)
                }
            } else {
                c0
            };
            assert(cf =~= c1.insert(target@, (c + 1) as u64));
            assert forall|t: Seq<char>| #[trigger] cf.contains_key(t) implies cf[t] as int
                == spec_sources(lf, t).len() && cf[t] >= 1 by {
                lemma_sources_insert(l0, new_path@, *target, t);
                lemma_sources_finite(l0, t);
                if t == target@ {
                } else {
                    if relinked {
                        let od = l0[new_path@]@;
                        assert(spec_sources(l0, od).contains(new_path@));
                        if t == od {
                            assert(cf[t] == c0[od] - 1);
                            assert(spec_sources(lf, t) =~= spec_sources(l0, t).remove(
                                new_path@,
                            ));
                        } else {
                            assert(cf[t] == c0[t]);
                            assert(!spec_sources(l0, t).contains(new_path@));
                        }
                    } else {
                        assert(cf[t] == c0[t]);
                        assert(!spec_sources(l0, t).contains(new_path@));
                    }
                }
            }
            assert forall|k: Seq<char>| #[trigger] lf.contains_key(k) implies cf.contains_key(
                lf[k]@,
            ) by {
                if k != new_path@ {
                    assert(lf[k] == l0[k]);
                    assert(c0.contains_key(l0[k]@));
                    if relinked {
                        let od = l0[new_path@]@;
                        if l0[k]@ == od && c0[od] <= 1 {
                            assert(spec_sources(l0, od).contains(k));
                            assert(spec_sources(l0, od).contains(new_path@));
                            assert(c0[od] as int == spec_sources(l0, od).len());
                            if k != new_path@ {
                                vstd::set_lib::lemma_len_subset(
                                    Set::empty().insert(k).insert(new_path@),
                                    spec_sources(l0, od),
                                );
                                assert(false);
                            }
                        }
                    }
                }
            }
        }
        Ok(())
    }

    /// Removes the link at `path`: its target loses one reference, the
    /// mapping goes, and the resolved target string is returned — with the
    /// target's file deleted when this was its last reference. A path that
    /// is no link source falls back to direct file deletion, reporting
    /// success only when that deletion succeeds.
    pub fn remove_link(&mut self, vfs: &mut Vfs, path: &String) -> (r: Option<String>)
        requires
            old(self).wf(),
            old(vfs).wf(),
        ensures
            final(self).wf(),
            final(vfs).wf(),
            final(vfs).cwd == old(vfs).cwd,
            final(self).real_path_of(path@) == path@,
            match r {
                Some(target) => {
                    if old(self).links().contains_key(path@) {
                        &&& target@ == old(self).links()[path@]@
                        &&& final(self).links() =~= old(self).links().remove(path@)
                        &&& (old(self).counts()[target@] == 1 ==> !final(self).counts().contains_key(target@) && (old(vfs).nodes@.contains_key(
                            target@,
                        ) && !(old(vfs).nodes@[target@] is Dir) ==> !final(vfs).nodes@.contains_key(target@)))
                        &&& (old(self).counts()[target@] > 1 ==> final(self).counts()[target@]
                            == old(self).counts()[target@] - 1 && final(vfs).nodes@ == old(vfs).nodes@)
                    } else {
                        &&& target@ == path@
                        &&& *final(self) == *old(self)
                        &&& old(vfs).nodes@.contains_key(path@)
                        &&& !(old(vfs).nodes@[path@] is Dir)
                        &&& final(vfs).nodes@ =~= old(vfs).nodes@.remove(path@)
                    }
                },
                None => {
                    &&& *final(self) == *old(self)
                    &&& final(vfs).nodes@ == old(vfs).nodes@
                    &&& !old(self).links().contains_key(path@)
                    &&& (!old(vfs).nodes@.contains_key(path@) || old(vfs).nodes@[path@] is Dir)
                },
            },
    {
        let ghost l0 = self.links@;
        let ghost c0 = self.ref_counts@;
        proof {
            self.links.dom_finite();
        }
        let taken = self.links.remove(path);
        match taken {
            Some(dst) => {
                proof {
                    assert(c0.contains_key(dst@));
                    assert(spec_sources(l0, dst@).contains(path@));
                }
                self.decrease_ref_count(vfs, &dst);
                proof {
                    let lf = self.links@;
                    let cf = self.ref_counts@;
                    assert forall|t: Seq<char>| #[trigger] cf.contains_key(t) implies cf[t] as int
                        == spec_sources(lf, t).len() && cf[t] >= 1 by {
                        lemma_sources_remove(l0, path@, t);
                        lemma_sources_finite(l0, t);
                        if t == dst@ {
                            assert(c0[t] > 1);
                            assert(cf[t] == c0[t] - 1);
                        } else {
                            assert(cf[t] == c0[t]);
                            assert(!spec_sources(l0, t).contains(path@));
                        }
                    }
                    assert forall|k: Seq<char>| #[trigger] lf.contains_key(k) implies
                        cf.contains_key(lf[k]@) by {
                        assert(lf[k] == l0[k]);
                        assert(c0.contains_key(l0[k]@));
                        if l0[k]@ == dst@ && c0[dst@] <= 1 {
                            assert(spec_sources(l0, dst@).contains(k));
                            assert(c0[dst@] as int == spec_sources(l0, dst@).len());
                            lemma_sources_finite(l0, dst@);
                            vstd::set_lib::lemma_len_subset(
                                Set::empty().insert(k).insert(path@),
                                spec_sources(l0, dst@),
                            );
                            assert(false);
                        }
                    }
                }
                Some(dst)
            },
            None => {
                match vfs.remove_file(path) {
                    Ok(()) => Some(path.clone()),
                    Err(_) => None,
                }
            },
        }
    }
}


/// The path with any trailing slash stripped (the root keeps its slash).
pub open spec fn spec_trimmed(s: Seq<char>) -> Seq<char> {
    if s.len() > 1 && s.last() == '/' {
        s.drop_last()
    } else {
        s
    }
}

/// The index of the last slash in `s`, or `-1` when none occurs.
pub open spec fn spec_rfind_slash(s: Seq<char>) -> int
    decreases s.len(),
{
    if s.len() == 0 {
        -1
    } else if s.last() == '/' {
        s.len() - 1
    } else {
        spec_rfind_slash(s.drop_last())
    }
}

/// A normalized file path: canonicalized, rewritten through the hardlink
/// registry, and keeping a trailing slash as directory intent.
#[derive(Debug, Clone, PartialEq, Eq)]
pub struct FilePath(String);

impl View for FilePath {
    type V = Seq<char>;

    closed spec fn view(&self) -> Seq<char> {
        self.0@
    }
}

impl FilePath {
    /// A path is absolute and never empty.
    pub open spec fn wf(self) -> bool {
        self@.len() > 0 && self@[0] == '/'
    }

    /// Creates a new `FilePath` from a path string: the path is resolved
    /// against the working directory, canonicalized, given back its
    /// trailing slash when the input had one (directory-intent
    /// preservation), and rewritten through the hardlink registry.
    pub fn new(vfs: &Vfs, reg: &HardlinkManager, path: &str) -> (r: Result<FilePath, LinuxError>)
        requires
            vfs.wf(),
            reg.wf(),
        ensures
            match r {
                Ok(p) => p@ == reg.real_path_of(
                    spec_with_dir_intent(
                        spec_canonical(spec_resolved(path@, vfs.cwd@)),
                        path@,
                    ),
                ) && p.wf(),
                Err(_) => false,
            },
    {
        proof {
            lemma_resolved_absolute(*reg, path@, vfs.cwd@);
        }
        let mut canonical = canonicalize(path, vfs.cwd().as_str());
        let plen = path.unicode_len();
        if plen > 0 && path.get_char(plen - 1) == '/' && canonical.as_str().unicode_len() != 1 {
            proof {
                reveal_strlit("/");
                assert(canonical@ != spec_root());
            }
            canonical.append("/");
            proof {
                assert(canonical@ =~= spec_canonical(spec_resolved(path@, vfs.cwd@)).push('/'));
            }
        } else {
            proof {
                if canonical@.len() == 1 {
                    assert(canonical@ =~= spec_root());
                }
            }
        }
        Ok(FilePath(reg.real_path(&canonical)))
    }

    /// Wraps an already-normalized absolute path string.
    pub fn from_string(s: String) -> (r: FilePath)
        requires
            s@.len() > 0,
            s@[0] == '/',
        ensures
            r@ == s@,
            r.wf(),
    {
        FilePath(s)
    }

    /// Returns a string slice of the underlying path.
    pub fn as_str(&self) -> (r: &str)
        ensures
            r@ == self@,
    {
        self.0.as_str()
    }

    /// The path with any trailing slash stripped, as an owned string.
    pub fn trimmed(&self) -> (r: String)
        ensures
            r@ == spec_trimmed(self@),
    {
        let n = self.0.as_str().unicode_len();
        if n > 1 && self.0.as_str().get_char(n - 1) == '/' {
            let r = String::from_str(self.0.as_str().substring_char(0, n - 1));
            proof {
                assert(r@ =~= spec_trimmed(self@));
            }
            r
        } else {
            self.0.clone()
        }
    }

    /// Check if it's the root directory.
    pub fn is_root(&self) -> (r: bool)
        requires
            self.wf(),
        ensures
            r == (self@ == spec_root()),
    {
        let r = self.0.as_str().unicode_len() == 1;
        proof {
            if r {
                assert(self@ =~= spec_root());
            }
        }
        r
    }

    /// Check if it's a directory (ends with a slash).
    pub fn is_dir(&self) -> (r: bool)
        requires
            self.wf(),
        ensures
            r == (self@.last() == '/'),
    {
        let n = self.0.as_str().unicode_len();
        self.0.as_str().get_char(n - 1) == '/'
    }

    /// Check if it's a regular file (does not end with a slash).
    pub fn is_file(&self) -> (r: bool)
        requires
            self.wf(),
        ensures
            r == (self@.last() != '/'),
    {
        !self.is_dir()
    }

    /// Whether the path names an existing node (directory intent ignored).
    pub fn exists_in(&self, vfs: &Vfs) -> (r: bool)
        requires
            self.wf(),
            vfs.wf(),
        ensures
            r == vfs.nodes@.contains_key(spec_trimmed(self@)),
    {
        vfs.has_node(&self.trimmed())
    }

    /// Check if this path starts with the given prefix path.
    pub fn starts_with(&self, prefix: &FilePath) -> (r: bool)
        ensures
            r == (self@.len() >= prefix@.len() && self@.take(prefix@.len() as int) == prefix@),
    {
        let a = self.0.as_str();
        let b = prefix.0.as_str();
        let n = a.unicode_len();
        let m = b.unicode_len();
        if n < m {
            proof {
                assert(!(self@.len() >= prefix@.len()));
            }
            return false;
        }
        let mut i: usize = 0;
        while i < m
            invariant
                n == self@.len(),
                m == prefix@.len(),
                m <= n,
                i <= m,
                a@ == self@,
                b@ == prefix@,
                forall|j: int| 0 <= j < i ==> self@[j] == prefix@[j],
            decreases m - i,
        {
            if a.get_char(i) != b.get_char(i) {
                proof {
                    assert(self@.take(m as int)[i as int] != prefix@[i as int]);
                }
                return false;
            }
            i += 1;
        }
        proof {
            assert(self@.take(m as int) =~= prefix@);
        }
        true
    }

    /// Check if this path ends with the given suffix path.
    pub fn ends_with(&self, suffix: &FilePath) -> (r: bool)
        ensures
            r == (self@.len() >= suffix@.len() && self@.skip(
                self@.len() - suffix@.len(),
            ) == suffix@),
    {
        let a = self.0.as_str();
        let b = suffix.0.as_str();
        let n = a.unicode_len();
        let m = b.unicode_len();
        if n < m {
            return false;
        }
        let off = n - m;
        let mut i: usize = 0;
        while i < m
            invariant
                n == self@.len(),
                m == suffix@.len(),
                m <= n,
                off == n - m,
                i <= m,
                a@ == self@,
                b@ == suffix@,
                forall|j: int| 0 <= j < i ==> self@[off + j] == suffix@[j],
            decreases m - i,
        {
            if a.get_char(off + i) != b.get_char(i) {
                proof {
                    assert(self@.skip(off as int)[i as int] != suffix@[i as int]);
                }
                return false;
            }
            i += 1;
        }
        proof {
            assert(self@.skip(off as int) =~= suffix@);
        }
        true
    }
}

/// Round trip through the registry: immediately after `new_path` is linked
/// to `target`, resolving `new_path` yields `target`; after the link is
/// removed, `new_path` resolves to itself, unchanged.
pub proof fn lemma_real_path_roundtrip(
    links: Map<Seq<char>, String>,
    new_path: Seq<char>,
    target: String,
)
    ensures
        spec_real_path(links.insert(new_path, target), new_path) == target@,
        spec_real_path(links.remove(new_path), new_path) == new_path,
{
}

/// Deletion on zero, registry side: a target keeps a reference-count entry
/// exactly while at least one link source still points at it — so once
/// every link to it has been removed, the registry holds no entry for it.
pub proof fn lemma_count_entry_iff_linked(m: HardlinkManager, t: Seq<char>)
    requires
        m.wf(),
    ensures
        m.counts().contains_key(t) <==> (exists|k: Seq<char>|
            #[trigger] m.links().contains_key(k) && m.links()[k]@ == t),
{
    if m.counts().contains_key(t) {
        m.links.dom_finite();
        lemma_sources_finite(m.links@, t);
        assert(spec_sources(m.links@, t).len() >= 1);
        if spec_sources(m.links@, t).len() > 0 {
            let w = spec_sources(m.links@, t).choose();
            assert(spec_sources(m.links@, t).contains(w));
            assert(m.links().contains_key(w) && m.links()[w]@ == t);
        }
    }
    if exists|k: Seq<char>| #[trigger] m.links().contains_key(k) && m.links()[k]@ == t {
        let k = choose|k: Seq<char>| #[trigger] m.links().contains_key(k) && m.links()[k]@ == t;
        assert(m.counts().contains_key(m.links()[k]@));
    }
}


/// There is a slash in every absolute path.
proof fn lemma_rfind_slash_absolute(s: Seq<char>)
    requires
        s.len() > 0,
        s[0] == '/',
    ensures
        0 <= spec_rfind_slash(s) < s.len(),
    decreases s.len(),
{
    if s.len() > 1 && s.last() != '/' {
        lemma_rfind_slash_absolute(s.drop_last());
    }
}

/// Splitting a path on slashes, empty components dropped.
pub open spec fn spec_comps_flush(stack: Seq<Seq<char>>, cur: Seq<char>) -> Seq<Seq<char>> {
    if cur.len() == 0 {
        stack
    } else {
        stack.push(cur)
    }
}

/// The components and unfinished component after scanning `i` characters.
pub open spec fn spec_comps_scan(s: Seq<char>, i: int) -> (Seq<Seq<char>>, Seq<char>)
    decreases i,
{
    if i <= 0 {
        (Seq::empty(), Seq::empty())
    } else {
        let (stack, cur) = spec_comps_scan(s, i - 1);
        if s[i - 1] == '/' {
            (spec_comps_flush(stack, cur), Seq::empty())
        } else {
            (stack, cur.push(s[i - 1]))
        }
    }
}

/// The slash-separated components of a path, empties dropped.
pub open spec fn spec_components(s: Seq<char>) -> Seq<Seq<char>> {
    let (stack, cur) = spec_comps_scan(s, s.len() as int);
    spec_comps_flush(stack, cur)
}

impl FilePath {
    /// The index just past the last slash of the trimmed path.
    fn rfind_slash_end(&self) -> (r: usize)
        requires
            self.wf(),
        ensures
            r == spec_rfind_slash(spec_trimmed(self@)) + 1,
            0 < r <= spec_trimmed(self@).len(),
    {
        let t = self.trimmed();
        let ts = t.as_str();
        let n = ts.unicode_len();
        let mut pos1: usize = 0;
        let mut i: usize = 0;
        proof {
            assert(t@.take(0) =~= Seq::<char>::empty());
        }
        while i < n
            invariant
                n == t@.len(),
                t@ == spec_trimmed(self@),
                ts@ == t@,
                i <= n,
                pos1 == spec_rfind_slash(t@.take(i as int)) + 1,
                pos1 <= i,
            decreases n - i,
        {
            proof {
                assert(t@.take(i + 1).drop_last() =~= t@.take(i as int));
                assert(t@.take(i + 1).last() == t@[i as int]);
            }
            if ts.get_char(i) == '/' {
                pos1 = i + 1;
            }
            i += 1;
        }
        proof {
            assert(t@.take(n as int) =~= t@);
            lemma_rfind_slash_absolute(t@);
        }
        pos1
    }

    /// Returns the parent directory path, slash included. The root has no
    /// parent distinct from itself: its parent is the root.
    pub fn parent(&self) -> (r: Result<&str, LinuxError>)
        requires
            self.wf(),
        ensures
            match r {
                Ok(p) => {
                    if self@ == spec_root() {
                        p@ == spec_root()
                    } else {
                        p@ == spec_trimmed(self@).take(
                            spec_rfind_slash(spec_trimmed(self@)) + 1,
                        )
                    }
                },
                Err(_) => false,
            },
    {
        if self.is_root() {
            proof {
                reveal_strlit("/");
            }
            let r: &str = "/";
            proof {
                assert(r@ =~= spec_root());
            }
            return Ok(r);
        }
        let end = self.rfind_slash_end();
        let n = self.0.as_str().unicode_len();
        let slice = if n > 1 && self.0.as_str().get_char(n - 1) == '/' {
            self.0.as_str().substring_char(0, n - 1)
        } else {
            self.0.as_str()
        };
        proof {
            assert(slice@ =~= spec_trimmed(self@));
        }
        Ok(slice.substring_char(0, end))
    }

    /// Returns the file or directory name component: everything after the
    /// last slash of the trimmed path. The root's name is the root itself.
    pub fn name(&self) -> (r: Result<&str, LinuxError>)
        requires
            self.wf(),
        ensures
            match r {
                Ok(p) => {
                    if self@ == spec_root() {
                        p@ == spec_root()
                    } else {
                        p@ == spec_trimmed(self@).skip(
                            spec_rfind_slash(spec_trimmed(self@)) + 1,
                        )
                    }
                },
                Err(_) => false,
            },
    {
        if self.is_root() {
            proof {
                reveal_strlit("/");
            }
            let r: &str = "/";
            proof {
                assert(r@ =~= spec_root());
            }
            return Ok(r);
        }
        let end = self.rfind_slash_end();
        let n = self.0.as_str().unicode_len();
        let slice = if n > 1 && self.0.as_str().get_char(n - 1) == '/' {
            self.0.as_str().substring_char(0, n - 1)
        } else {
            self.0.as_str()
        };
        proof {
            assert(slice@ =~= spec_trimmed(self@));
        }
        let m = slice.unicode_len();
        let r = slice.substring_char(end, m);
        proof {
            assert(r@ =~= spec_trimmed(self@).skip(spec_rfind_slash(spec_trimmed(self@)) + 1));
        }
        Ok(r)
    }

    /// The raw concatenation this path joined with a further component
    /// resolves from: exactly one slash in between.
    pub open spec fn spec_joined_raw(self, path: Seq<char>) -> Seq<char> {
        if self@.last() == '/' {
            self@ + path
        } else {
            self@ + seq!['/'] + path
        }
    }

    /// Joins this path with a relative component and re-normalizes, so any
    /// `.` or `..` parts are resolved by the canonicalizer.
    pub fn join(&self, vfs: &Vfs, reg: &HardlinkManager, path: &str) -> (r: Result<
        FilePath,
        LinuxError,
    >)
        requires
            self.wf(),
            vfs.wf(),
            reg.wf(),
        ensures
            match r {
                Ok(p) => p@ == reg.real_path_of(
                    spec_with_dir_intent(
                        spec_canonical(spec_resolved(self.spec_joined_raw(path@), vfs.cwd@)),
                        self.spec_joined_raw(path@),
                    ),
                ) && p.wf(),
                Err(_) => false,
            },
    {
        let mut raw = self.0.clone();
        let n = raw.as_str().unicode_len();
        if raw.as_str().get_char(n - 1) != '/' {
            raw.append("/");
        }
        raw.append(path);
        proof {
            reveal_strlit("/");
            assert(raw@ =~= self.spec_joined_raw(path@));
        }
        FilePath::new(vfs, reg, raw.as_str())
    }

    /// The slash-separated components of the path, in order; the root has
    /// none.
    pub fn components(&self) -> (r: Vec<String>)
        requires
            self.wf(),
        ensures
            r@.map_values(|c: String| c@) == spec_components(self@),
    {
        let s = self.0.as_str();
        let n = s.unicode_len();
        let mut stack: Vec<String> = Vec::new();
        let mut start: usize = 0;
        let mut i: usize = 0;
        while i < n
            invariant
                n == s@.len(),
                s@ == self@,
                start <= i <= n,
                spec_comps_scan(s@, i as int).0 == stack@.map_values(|c: String| c@),
                spec_comps_scan(s@, i as int).1 == s@.subrange(start as int, i as int),
            decreases n - i,
        {
            if s.get_char(i) == '/' {
                if i > start {
                    let comp = s.substring_char(start, i);
                    stack.push(comp.to_owned());
                    proof {
                        assert(stack@.map_values(|c: String| c@)
                            =~= spec_comps_scan(s@, i as int).0.push(
                            s@.subrange(start as int, i as int),
                        ));
                    }
                }
                start = i + 1;
                proof {
                    assert(spec_comps_scan(s@, i + 1).1 =~= s@.subrange(start as int, i + 1));
                    if i as int > start - 1 {
                    }
                }
            } else {
                proof {
                    assert(s@.subrange(start as int, i + 1) =~= s@.subrange(
                        start as int,
                        i as int,
                    ).push(s@[i as int]));
                }
            }
            i += 1;
        }
        if n > start {
            let comp = s.substring_char(start, n);
            stack.push(comp.to_owned());
            proof {
                assert(stack@.map_values(|c: String| c@) =~= spec_comps_scan(
                    s@,
                    n as int,
                ).0.push(s@.subrange(start as int, n as int)));
            }
        }
        stack
    }
}

} // verus!



