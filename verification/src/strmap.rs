use vstd::prelude::*;

verus! {

/// The finite map that an association list stands for: later entries win,
/// though with unique keys the order never matters.
pub open spec fn spec_assoc_map<V>(s: Seq<(String, V)>) -> Map<Seq<char>, V>
    decreases s.len(),
{
    if s.len() == 0 {
        Map::empty()
    } else {
        spec_assoc_map(s.drop_last()).insert(s.last().0@, s.last().1)
    }
}

/// Whether some entry of the list carries key `k`.
pub open spec fn spec_assoc_has_key<V>(s: Seq<(String, V)>, k: Seq<char>) -> bool {
    exists|i: int| 0 <= i < s.len() && (#[trigger] s[i]).0@ == k
}

proof fn lemma_assoc_contains<V>(s: Seq<(String, V)>, k: Seq<char>)
    ensures
        spec_assoc_map(s).contains_key(k) <==> spec_assoc_has_key(s, k),
    decreases s.len(),
{
    if s.len() > 0 {
        lemma_assoc_contains(s.drop_last(), k);
        if spec_assoc_map(s).contains_key(k) {
            if s.last().0@ != k {
                let i = choose|i: int|
                    0 <= i < s.drop_last().len() && (#[trigger] s.drop_last()[i]).0@ == k;
                assert(s[i].0@ == k);
            } else {
                assert(s[s.len() - 1].0@ == k);
            }
        }
        if spec_assoc_has_key(s, k) {
            let i = choose|i: int| 0 <= i < s.len() && (#[trigger] s[i]).0@ == k;
            if i < s.len() - 1 {
                assert(s.drop_last()[i].0@ == k);
            }
        }
    }
}

proof fn lemma_assoc_get<V>(s: Seq<(String, V)>, k: Seq<char>, i: int)
    requires
        forall|a: int, b: int| 0 <= a < b < s.len() ==> (#[trigger] s[a]).0@ != (#[trigger] s[b]).0@,
        0 <= i < s.len(),
        s[i].0@ == k,
    ensures
        spec_assoc_map(s).contains_key(k),
        spec_assoc_map(s)[k] == s[i].1,
    decreases s.len(),
{
    if i == s.len() - 1 {
    } else {
        assert(s.last().0@ != k);
        assert(s.drop_last()[i].0@ == k);
        lemma_assoc_get(s.drop_last(), k, i);
    }
}

proof fn lemma_assoc_absent<V>(s: Seq<(String, V)>, k: Seq<char>)
    requires
        forall|i: int| 0 <= i < s.len() ==> (#[trigger] s[i]).0@ != k,
    ensures
        !spec_assoc_map(s).contains_key(k),
    decreases s.len(),
{
    if s.len() > 0 {
        assert(forall|i: int|
            0 <= i < s.drop_last().len() ==> (#[trigger] s.drop_last()[i]).0@ != k);
        lemma_assoc_absent(s.drop_last(), k);
        assert(s[s.len() - 1].0@ != k);
    }
}

proof fn lemma_assoc_update<V>(s: Seq<(String, V)>, i: int, p: (String, V))
    requires
        forall|a: int, b: int| 0 <= a < b < s.len() ==> (#[trigger] s[a]).0@ != (#[trigger] s[b]).0@,
        0 <= i < s.len(),
        p.0@ == s[i].0@,
    ensures
        spec_assoc_map(s.update(i, p)) =~= spec_assoc_map(s).insert(p.0@, p.1),
    decreases s.len(),
{
    let t = s.update(i, p);
    if i == s.len() - 1 {
        assert(t.drop_last() =~= s.drop_last());
        assert(t.last() == p);
    } else {
        assert(t.drop_last() =~= s.drop_last().update(i, p));
        assert(t.last() == s.last());
        lemma_assoc_update(s.drop_last(), i, p);
        assert(s.last().0@ != p.0@);
        assert(spec_assoc_map(t) =~= spec_assoc_map(s.drop_last()).insert(p.0@, p.1).insert(
            s.last().0@,
            s.last().1,
        ));
        assert(spec_assoc_map(s.drop_last()).insert(p.0@, p.1).insert(s.last().0@, s.last().1)
            =~= spec_assoc_map(s).insert(p.0@, p.1));
    }
}

proof fn lemma_assoc_remove<V>(s: Seq<(String, V)>, i: int)
    requires
        forall|a: int, b: int| 0 <= a < b < s.len() ==> (#[trigger] s[a]).0@ != (#[trigger] s[b]).0@,
        0 <= i < s.len(),
    ensures
        spec_assoc_map(s.remove(i)) =~= spec_assoc_map(s).remove(s[i].0@),
    decreases s.len(),
{
    let k = s[i].0@;
    let t = s.remove(i);
    if i == s.len() - 1 {
        assert(t =~= s.drop_last());
        assert(forall|j: int| 0 <= j < s.drop_last().len() ==> (#[trigger] s.drop_last()[j]).0@
            != k);
        lemma_assoc_absent(s.drop_last(), k);
        assert(spec_assoc_map(s.remove(i)) =~= spec_assoc_map(s).remove(k));
    } else {
        assert(t.drop_last() =~= s.drop_last().remove(i));
        assert(t.last() == s.last());
        lemma_assoc_remove(s.drop_last(), i);
        assert(s.last().0@ != k);
        assert(spec_assoc_map(t) =~= spec_assoc_map(s.drop_last()).remove(k).insert(
            s.last().0@,
            s.last().1,
        ));
        assert(spec_assoc_map(s.drop_last()).remove(k).insert(s.last().0@, s.last().1)
            =~= spec_assoc_map(s).remove(k));
    }
}

proof fn lemma_assoc_finite<V>(s: Seq<(String, V)>)
    ensures
        spec_assoc_map(s).dom().finite(),
        spec_assoc_map(s).dom().len() <= s.len(),
    decreases s.len(),
{
    if s.len() > 0 {
        lemma_assoc_finite(s.drop_last());
    }
}

/// An association list from strings to values with unique keys, presented as
/// a finite map from character sequences to values.
pub struct StrMap<V> {
    pairs: Vec<(String, V)>,
}

impl<V> View for StrMap<V> {
    type V = Map<Seq<char>, V>;

    closed spec fn view(&self) -> Map<Seq<char>, V> {
        spec_assoc_map(self.pairs@)
    }
}

impl<V> StrMap<V> {
    /// Keys are pairwise distinct.
    pub closed spec fn wf(self) -> bool {
        forall|a: int, b: int|
            0 <= a < b < self.pairs@.len() ==> (#[trigger] self.pairs@[a]).0@ != (
            #[trigger] self.pairs@[b]).0@
    }

    /// A well-formed map presents finitely many keys, no more than a
    /// machine-sized list can hold.
    pub proof fn dom_finite(self)
        requires
            self.wf(),
        ensures
            self@.dom().finite(),
    {
        lemma_assoc_len(self.pairs@);
    }

    /// The number of entries.
    pub fn len(&self) -> (r: usize)
        requires
            self.wf(),
        ensures
            r == self@.dom().len(),
    {
        proof {
            lemma_assoc_len(self.pairs@);
        }
        self.pairs.len()
    }

    /// Creates an empty map.
    pub fn new() -> (r: StrMap<V>)
        ensures
            r.wf(),
            r@ =~= Map::empty(),
    {
        StrMap { pairs: Vec::new() }
    }

    /// Whether `k` is a key of the map.
    pub fn contains_key(&self, k: &String) -> (r: bool)
        requires
            self.wf(),
        ensures
            r == self@.contains_key(k@),
    {
        let n = self.pairs.len();
        let mut i: usize = 0;
        while i < n
            invariant
                self.wf(),
                n == self.pairs@.len(),
                i <= n,
                forall|j: int| 0 <= j < i ==> (#[trigger] self.pairs@[j]).0@ != k@,
            decreases n - i,
        {
            if self.pairs[i].0.eq(k) {
                proof {
                    lemma_assoc_get(self.pairs@, k@, i as int);
                }
                return true;
            }
            i += 1;
        }
        proof {
            lemma_assoc_absent(self.pairs@, k@);
        }
        false
    }

    /// The value stored under `k`, if any.
    pub fn get(&self, k: &String) -> (r: Option<&V>)
        requires
            self.wf(),
        ensures
            match r {
                Some(v) => self@.contains_key(k@) && *v == self@[k@],
                None => !self@.contains_key(k@),
            },
    {
        let n = self.pairs.len();
        let mut i: usize = 0;
        while i < n
            invariant
                self.wf(),
                n == self.pairs@.len(),
                i <= n,
                forall|j: int| 0 <= j < i ==> (#[trigger] self.pairs@[j]).0@ != k@,
            decreases n - i,
        {
            if self.pairs[i].0.eq(k) {
                proof {
                    lemma_assoc_get(self.pairs@, k@, i as int);
                }
                return Some(&self.pairs[i].1);
            }
            i += 1;
        }
        proof {
            lemma_assoc_absent(self.pairs@, k@);
        }
        None
    }


    /// The keys of the map, in unspecified order, each exactly once.
    pub fn keys(&self) -> (r: Vec<String>)
        requires
            self.wf(),
        ensures
            forall|i: int, j: int| 0 <= i < j < r@.len() ==> r@[i]@ != r@[j]@,
            forall|i: int| 0 <= i < r@.len() ==> self@.contains_key((#[trigger] r@[i])@),
            forall|k: Seq<char>|
                #[trigger] self@.contains_key(k) ==> exists|i: int| 0 <= i < r@.len() && r@[i]@
                    == k,
    {
        let n = self.pairs.len();
        let mut out: Vec<String> = Vec::new();
        let mut i: usize = 0;
        while i < n
            invariant
                self.wf(),
                n == self.pairs@.len(),
                i <= n,
                out@.len() == i,
                forall|j: int| 0 <= j < i ==> (#[trigger] out@[j])@ == self.pairs@[j].0@,
            decreases n - i,
        {
            out.push(self.pairs[i].0.clone());
            i += 1;
        }
        proof {
            assert forall|j: int| 0 <= j < n implies self@.contains_key((#[trigger] out@[j])@) by {
                lemma_assoc_get(self.pairs@, self.pairs@[j].0@, j);
            }
            assert forall|k: Seq<char>| #[trigger] self@.contains_key(k) implies exists|i2: int|
                0 <= i2 < out@.len() && out@[i2]@ == k by {
                lemma_assoc_contains(self.pairs@, k);
                let w = choose|w: int| 0 <= w < self.pairs@.len() && (#[trigger] self.pairs@[w]).0@
                    == k;
                assert(out@[w]@ == k);
            }
        }
        out
    }

    /// Binds `k` to `v`, replacing any earlier binding.
    pub fn insert(&mut self, k: String, v: V)
        requires
            old(self).wf(),
        ensures
            final(self).wf(),
            final(self)@ =~= old(self)@.insert(k@, v),
    {
        let n = self.pairs.len();
        let mut i: usize = 0;
        while i < n
            invariant
                old(self).wf(),
                n == self.pairs@.len(),
                i <= n,
                *self == *old(self),
                forall|j: int| 0 <= j < i ==> (#[trigger] self.pairs@[j]).0@ != k@,
            decreases n - i,
        {
            if self.pairs[i].0.eq(&k) {
                proof {
                    lemma_assoc_update(self.pairs@, i as int, (k, v));
                }
                self.pairs.set(i, (k, v));
                return;
            }
            i += 1;
        }
        proof {
            lemma_assoc_absent(self.pairs@, k@);
            assert(self.pairs@.push((k, v)).drop_last() =~= self.pairs@);
        }
        self.pairs.push((k, v));
    }

    /// Removes the binding of `k`, returning its value if one was bound.
    pub fn remove(&mut self, k: &String) -> (r: Option<V>)
        requires
            old(self).wf(),
        ensures
            final(self).wf(),
            final(self)@ =~= old(self)@.remove(k@),
            match r {
                Some(v) => old(self)@.contains_key(k@) && v == old(self)@[k@],
                None => !old(self)@.contains_key(k@) && *final(self) == *old(self),
            },
    {
        let n = self.pairs.len();
        let mut i: usize = 0;
        while i < n
            invariant
                old(self).wf(),
                n == self.pairs@.len(),
                i <= n,
                *self == *old(self),
                forall|j: int| 0 <= j < i ==> (#[trigger] self.pairs@[j]).0@ != k@,
            decreases n - i,
        {
            if self.pairs[i].0.eq(k) {
                proof {
                    lemma_assoc_get(self.pairs@, k@, i as int);
                    lemma_assoc_remove(self.pairs@, i as int);
                }
                let (_, v) = self.pairs.remove(i);
                return Some(v);
            }
            i += 1;
        }
        proof {
            lemma_assoc_absent(self.pairs@, k@);
            assert(old(self)@.remove(k@) =~= old(self)@);
        }
        None
    }
}

proof fn lemma_assoc_len<V>(s: Seq<(String, V)>)
    requires
        forall|a: int, b: int| 0 <= a < b < s.len() ==> (#[trigger] s[a]).0@ != (#[trigger] s[b]).0@,
    ensures
        spec_assoc_map(s).dom().finite(),
        spec_assoc_map(s).dom().len() == s.len(),
    decreases s.len(),
{
    if s.len() > 0 {
        lemma_assoc_len(s.drop_last());
        assert(forall|i: int| 0 <= i < s.drop_last().len() ==> (#[trigger] s.drop_last()[i]).0@
            != s.last().0@);
        lemma_assoc_absent(s.drop_last(), s.last().0@);
        assert(spec_assoc_map(s).dom() =~= spec_assoc_map(s.drop_last()).dom().insert(
            s.last().0@,
        ));
    }
}

} // verus!
