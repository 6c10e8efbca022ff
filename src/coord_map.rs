use vstd::prelude::*;
use crate::coords::Point3i;

verus! {

/// No two entries of `s` share a key.
pub open spec fn unique_keys<V>(s: Seq<(Point3i, V)>) -> bool {
    forall|i: int, j: int|
        0 <= i < s.len() && 0 <= j < s.len() && #[trigger] s[i].0 == #[trigger] s[j].0 ==> i == j
}

/// Whether some entry of `s` has key `k`.
pub open spec fn has_key<V>(s: Seq<(Point3i, V)>, k: Point3i) -> bool {
    exists|i: int| 0 <= i < s.len() && #[trigger] s[i].0 == k
}

/// The map that an association list of unique keys stands for.
pub open spec fn entries_map<V>(s: Seq<(Point3i, V)>) -> Map<Point3i, V> {
    Map::new(
        |k: Point3i| has_key(s, k),
        |k: Point3i| s[choose|i: int| 0 <= i < s.len() && #[trigger] s[i].0 == k].1,
    )
}

/// With unique keys, the entry at `i` is what the map holds at its key.
pub proof fn lemma_entries_map_at<V>(s: Seq<(Point3i, V)>, i: int)
    requires
        unique_keys(s),
        0 <= i < s.len(),
    ensures
        entries_map(s).dom().contains(s[i].0),
        entries_map(s)[s[i].0] == s[i].1,
{
    let k = s[i].0;
    assert(has_key(s, k));
    let j = choose|j: int| 0 <= j < s.len() && #[trigger] s[j].0 == k;
    assert(s[j].0 == s[i].0);
}

/// A finite map from chunk-lattice points to values, kept as a list of entries
/// with unique keys.
pub struct CoordMap<V> {
    entries: Vec<(Point3i, V)>,
}

impl<V> View for CoordMap<V> {
    type V = Map<Point3i, V>;

    closed spec fn view(&self) -> Map<Point3i, V> {
        entries_map(self.entries@)
    }
}

impl<V> CoordMap<V> {
    /// Keys are unique; every operation keeps this.
    pub closed spec fn wf(&self) -> bool {
        unique_keys(self.entries@)
    }

    pub fn new() -> (r: Self)
        ensures
            r.wf(),
            r@ == Map::<Point3i, V>::empty(),
    {
        let r = CoordMap { entries: Vec::new() };
        assert(r@ =~= Map::<Point3i, V>::empty());
        r
    }

    /// Position of the entry with key `k`, if any.
    fn find(&self, k: &Point3i) -> (r: Option<usize>)
        ensures
            match r {
                Some(i) => i < self.entries.len() && self.entries@[i as int].0 == *k,
                None => !has_key(self.entries@, *k),
            },
    {
        let mut i: usize = 0;
        while i < self.entries.len()
            invariant
                i <= self.entries.len(),
                forall|j: int| 0 <= j < i ==> #[trigger] self.entries@[j].0 != *k,
            decreases self.entries.len() - i,
        {
            if self.entries[i].0 == *k {
                return Some(i);
            }
            i = i + 1;
        }
        None
    }

    pub fn len(&self) -> (r: usize)
        requires
            self.wf(),
        ensures
            r == self@.dom().len(),
    {
        proof { self.lemma_dom_len(); }
        self.entries.len()
    }

    proof fn lemma_dom_len(self)
        requires
            unique_keys(self.entries@),
        ensures
            self@.dom().len() == self.entries.len(),
            self@.dom().finite(),
    {
        let s = self.entries@;
        let keys = s.map_values(|e: (Point3i, V)| e.0);
        assert forall|i: int, j: int| 0 <= i < keys.len() && 0 <= j < keys.len() && i != j
            implies keys[i] != keys[j] by {
            assert(s[i].0 == keys[i] && s[j].0 == keys[j]);
        }
        assert(keys.no_duplicates());
        keys.unique_seq_to_set();
        assert forall|k: Point3i| self@.dom().contains(k) <==> keys.to_set().contains(k) by {
            if self@.dom().contains(k) {
                let i = choose|i: int| 0 <= i < s.len() && #[trigger] s[i].0 == k;
                assert(keys[i] == k);
            }
            if keys.to_set().contains(k) {
                let i = choose|i: int| 0 <= i < keys.len() && keys[i] == k;
                assert(s[i].0 == k);
            }
        }
        assert(self@.dom() =~= keys.to_set());
    }

    pub fn contains_key(&self, k: &Point3i) -> (r: bool)
        requires
            self.wf(),
        ensures
            r == self@.dom().contains(*k),
    {
        self.find(k).is_some()
    }

    pub fn get(&self, k: &Point3i) -> (r: Option<&V>)
        requires
            self.wf(),
        ensures
            match r {
                Some(v) => self@.dom().contains(*k) && *v == self@[*k],
                None => !self@.dom().contains(*k),
            },
    {
        match self.find(k) {
            Some(i) => {
                proof { lemma_entries_map_at(self.entries@, i as int); }
                Some(&self.entries[i].1)
            },
            None => None,
        }
    }

    /// All entries, once each, in no particular order.
    pub fn to_vec(&self) -> (r: Vec<(Point3i, V)>)
        where
            V: Copy,
        requires
            self.wf(),
        ensures
            unique_keys(r@),
            entries_map(r@) == self@,
            r@.len() == self@.dom().len(),
    {
        proof { self.lemma_dom_len(); }
        let mut out: Vec<(Point3i, V)> = Vec::new();
        let mut i: usize = 0;
        while i < self.entries.len()
            invariant
                i <= self.entries.len(),
                out@ == self.entries@.subrange(0, i as int),
            decreases self.entries.len() - i,
        {
            out.push(self.entries[i]);
            i = i + 1;
            assert(out@ =~= self.entries@.subrange(0, i as int));
        }
        assert(out@ =~= self.entries@);
        out
    }

    /// Mutable access to the value at `k`; the map holds whatever the caller
    /// leaves behind the reference.
    pub fn get_mut(&mut self, k: &Point3i) -> (r: Option<&mut V>)
        requires
            old(self).wf(),
        ensures
            final(self).wf(),
            match r {
                Some(m) => old(self)@.dom().contains(*k) && *m == old(self)@[*k]
                    && final(self)@ == old(self)@.insert(*k, *final(m)),
                None => !old(self)@.dom().contains(*k) && final(self)@ == old(self)@,
            },
    {
        match self.find(k) {
            Some(i) => {
                proof {
                    lemma_entries_map_at(self.entries@, i as int);
                    lemma_update_value(self.entries@, i as int);
                }
                Some(&mut self.entries[i].1)
            },
            None => None,
        }
    }

    /// Sets the value at `k`, returning the value it replaced.
    pub fn insert(&mut self, k: Point3i, v: V) -> (r: Option<V>)
        requires
            old(self).wf(),
        ensures
            final(self).wf(),
            final(self)@ == old(self)@.insert(k, v),
            match r {
                Some(p) => old(self)@.dom().contains(k) && p == old(self)@[k],
                None => !old(self)@.dom().contains(k),
            },
    {
        match self.find(&k) {
            Some(i) => {
                proof {
                    lemma_entries_map_at(self.entries@, i as int);
                    lemma_update_value(self.entries@, i as int);
                }
                let ghost before = self.entries@;
                let (_, prev) = self.entries.remove(i);
                self.entries.insert(i, (k, v));
                proof {
                    assert(self.entries@ =~= before.update(i as int, (k, v)));
                }
                Some(prev)
            },
            None => {
                let ghost before = self.entries@;
                self.entries.push((k, v));
                proof { lemma_push_new(before, k, v); }
                None
            },
        }
    }

    /// Removes the entry at `k`, returning its value.
    pub fn remove(&mut self, k: &Point3i) -> (r: Option<V>)
        requires
            old(self).wf(),
        ensures
            final(self).wf(),
            final(self)@ == old(self)@.remove(*k),
            match r {
                Some(p) => old(self)@.dom().contains(*k) && p == old(self)@[*k],
                None => !old(self)@.dom().contains(*k),
            },
    {
        match self.find(k) {
            Some(i) => {
                proof { lemma_entries_map_at(self.entries@, i as int); }
                let ghost before = self.entries@;
                let (_, v) = self.entries.remove(i);
                proof { lemma_remove_at(before, i as int); }
                Some(v)
            },
            None => {
                assert(old(self)@.remove(*k) =~= old(self)@);
                None
            },
        }
    }
}

/// Replacing the value of one entry replaces that key's value in the map.
proof fn lemma_update_value<V>(s: Seq<(Point3i, V)>, i: int)
    requires
        unique_keys(s),
        0 <= i < s.len(),
    ensures
        forall|v: V| #![trigger s.update(i, (s[i].0, v))]
            unique_keys(s.update(i, (s[i].0, v)))
            && entries_map(s.update(i, (s[i].0, v))) == entries_map(s).insert(s[i].0, v),
{
    assert forall|v: V| #![trigger s.update(i, (s[i].0, v))]
        unique_keys(s.update(i, (s[i].0, v)))
        && entries_map(s.update(i, (s[i].0, v))) == entries_map(s).insert(s[i].0, v) by {
        let t = s.update(i, (s[i].0, v));
        assert forall|a: int, b: int|
            0 <= a < t.len() && 0 <= b < t.len() && #[trigger] t[a].0 == #[trigger] t[b].0
            implies a == b by {
            assert(t[a].0 == s[a].0 && t[b].0 == s[b].0);
        }
        let m = entries_map(s).insert(s[i].0, v);
        assert forall|k: Point3i| #[trigger] entries_map(t).dom().contains(k) == m.dom().contains(k)
            && (m.dom().contains(k) ==> entries_map(t)[k] == m[k]) by {
            if has_key(t, k) {
                let j = choose|j: int| 0 <= j < t.len() && #[trigger] t[j].0 == k;
                assert(s[j].0 == k);
                lemma_entries_map_at(t, j);
                if j != i {
                    lemma_entries_map_at(s, j);
                }
            }
            if has_key(s, k) {
                let j = choose|j: int| 0 <= j < s.len() && #[trigger] s[j].0 == k;
                assert(t[j].0 == k);
            }
            if k == s[i].0 {
                assert(t[i].0 == k);
            }
        }
        assert(entries_map(t) =~= m);
    }
}

/// Appending an entry with a new key adds that key to the map.
proof fn lemma_push_new<V>(s: Seq<(Point3i, V)>, k: Point3i, v: V)
    requires
        unique_keys(s),
        !has_key(s, k),
    ensures
        unique_keys(s.push((k, v))),
        entries_map(s.push((k, v))) == entries_map(s).insert(k, v),
{
    let t = s.push((k, v));
    assert forall|a: int, b: int|
        0 <= a < t.len() && 0 <= b < t.len() && #[trigger] t[a].0 == #[trigger] t[b].0
        implies a == b by {
        if a < s.len() && b < s.len() {
            assert(t[a].0 == s[a].0 && t[b].0 == s[b].0);
        } else if a < s.len() {
            assert(s[a].0 == k);
        } else if b < s.len() {
            assert(s[b].0 == k);
        }
    }
    let m = entries_map(s).insert(k, v);
    assert forall|k2: Point3i| #[trigger] entries_map(t).dom().contains(k2) == m.dom().contains(k2)
        && (m.dom().contains(k2) ==> entries_map(t)[k2] == m[k2]) by {
        if has_key(t, k2) {
            let j = choose|j: int| 0 <= j < t.len() && #[trigger] t[j].0 == k2;
            lemma_entries_map_at(t, j);
            if j < s.len() {
                assert(s[j].0 == k2);
                lemma_entries_map_at(s, j);
            }
        }
        if has_key(s, k2) {
            let j = choose|j: int| 0 <= j < s.len() && #[trigger] s[j].0 == k2;
            assert(t[j].0 == k2);
        }
        if k2 == k {
            assert(t[s.len() as int].0 == k);
        }
    }
    assert(entries_map(t) =~= m);
}

/// Taking out the entry at `i` takes its key out of the map.
proof fn lemma_remove_at<V>(s: Seq<(Point3i, V)>, i: int)
    requires
        unique_keys(s),
        0 <= i < s.len(),
    ensures
        unique_keys(s.remove(i)),
        entries_map(s.remove(i)) == entries_map(s).remove(s[i].0),
{
    let t = s.remove(i);
    let k = s[i].0;
    assert forall|a: int, b: int|
        0 <= a < t.len() && 0 <= b < t.len() && #[trigger] t[a].0 == #[trigger] t[b].0
        implies a == b by {
        let a2 = if a < i { a } else { a + 1 };
        let b2 = if b < i { b } else { b + 1 };
        assert(t[a].0 == s[a2].0 && t[b].0 == s[b2].0);
    }
    let m = entries_map(s).remove(k);
    assert forall|k2: Point3i| #[trigger] entries_map(t).dom().contains(k2) == m.dom().contains(k2)
        && (m.dom().contains(k2) ==> entries_map(t)[k2] == m[k2]) by {
        if has_key(t, k2) {
            let j = choose|j: int| 0 <= j < t.len() && #[trigger] t[j].0 == k2;
            let j2 = if j < i { j } else { j + 1 };
            assert(s[j2] == t[j]);
            assert(j2 != i);
            lemma_entries_map_at(t, j);
            lemma_entries_map_at(s, j2);
        }
        if has_key(s, k2) && k2 != k {
            let j = choose|j: int| 0 <= j < s.len() && #[trigger] s[j].0 == k2;
            assert(j != i);
            let j1 = if j < i { j } else { j - 1 };
            assert(t[j1] == s[j]);
        }
    }
    assert(entries_map(t) =~= m);
}

} // verus!
