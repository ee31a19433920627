use vstd::prelude::*;

verus! {

/// The keys of a sequence of entries are pairwise distinct.
pub open spec fn distinct_keys(s: Seq<([u8; 32], (u64, u64))>) -> bool {
    forall|i: int, j: int| 0 <= i < j < s.len() ==> s[i].0@ != s[j].0@
}

/// The map a sequence of entries denotes: each key bound to its entry, later
/// entries taking precedence (the store keeps keys distinct, so precedence
/// never matters).
pub open spec fn entry_map(s: Seq<([u8; 32], (u64, u64))>) -> Map<Seq<u8>, (u64, u64)>
    decreases s.len(),
{
    if s.len() == 0 {
        Map::empty()
    } else {
        entry_map(s.drop_last()).insert(s.last().0@, s.last().1)
    }
}

/// The ownership map: content identity to (owner, height). Sole source of
/// truth for ownership; kept as a vector of entries whose keys are pairwise
/// distinct, and viewed as the map those entries denote.
pub struct Students {
    entries: Vec<([u8; 32], (u64, u64))>,
}

impl View for Students {
    type V = Map<Seq<u8>, (u64, u64)>;

    closed spec fn view(&self) -> Map<Seq<u8>, (u64, u64)> {
        entry_map(self.entries@)
    }
}

/// A key stands in the denoted map exactly when some entry carries it.
proof fn lemma_entry_map_contains(s: Seq<([u8; 32], (u64, u64))>, k: Seq<u8>)
    ensures
        entry_map(s).contains_key(k) <==> exists|i: int| 0 <= i < s.len() && s[i].0@ == k,
    decreases s.len(),
{
    if s.len() > 0 {
        lemma_entry_map_contains(s.drop_last(), k);
        if s.last().0@ == k {
            assert(s[s.len() - 1].0@ == k);
        } else {
            if exists|i: int| 0 <= i < s.len() && s[i].0@ == k {
                let i = choose|i: int| 0 <= i < s.len() && s[i].0@ == k;
                assert(s.drop_last()[i].0@ == k);
            }
            if entry_map(s).contains_key(k) {
                let i = choose|i: int| 0 <= i < s.drop_last().len() && s.drop_last()[i].0@ == k;
                assert(s[i].0@ == k);
            }
        }
    }
}

/// With distinct keys, the denoted map sends each entry's key to that entry.
proof fn lemma_entry_map_index(s: Seq<([u8; 32], (u64, u64))>, i: int)
    requires
        distinct_keys(s),
        0 <= i < s.len(),
    ensures
        entry_map(s).contains_key(s[i].0@),
        entry_map(s)[s[i].0@] == s[i].1,
    decreases s.len(),
{
    if i < s.len() - 1 {
        assert(distinct_keys(s.drop_last()));
        lemma_entry_map_index(s.drop_last(), i);
        assert(s.drop_last()[i] == s[i]);
        assert(s[i].0@ != s.last().0@);
    }
}

/// Removing the entry at one index removes exactly its key from the denoted map.
proof fn lemma_entry_map_remove(s: Seq<([u8; 32], (u64, u64))>, i: int)
    requires
        distinct_keys(s),
        0 <= i < s.len(),
    ensures
        entry_map(s.remove(i)) == entry_map(s).remove(s[i].0@),
    decreases s.len(),
{
    let k = s[i].0@;
    if i == s.len() - 1 {
        assert(s.remove(i) =~= s.drop_last());
        lemma_entry_map_contains(s.drop_last(), k);
        assert(!entry_map(s.drop_last()).contains_key(k)) by {
            if exists|j: int| 0 <= j < s.drop_last().len() && s.drop_last()[j].0@ == k {
                let j = choose|j: int| 0 <= j < s.drop_last().len() && s.drop_last()[j].0@ == k;
                assert(s[j].0@ == s[i].0@);
            }
        }
        assert(entry_map(s).remove(k) =~= entry_map(s.drop_last()));
    } else {
        let t = s.remove(i);
        assert(t.len() == s.len() - 1);
        assert(t.last() == s.last());
        assert(t.drop_last() =~= s.drop_last().remove(i));
        assert(distinct_keys(s.drop_last()));
        lemma_entry_map_remove(s.drop_last(), i);
        assert(s.drop_last()[i] == s[i]);
        assert(k != s.last().0@);
        assert(entry_map(t) == entry_map(s.drop_last()).remove(k).insert(
            s.last().0@,
            s.last().1,
        ));
        assert(entry_map(s.drop_last()).remove(k).insert(s.last().0@, s.last().1)
            =~= entry_map(s.drop_last()).insert(s.last().0@, s.last().1).remove(k));
    }
}

/// Byte-for-byte equality of two content identities.
fn id_eq(a: &[u8; 32], b: &[u8; 32]) -> (r: bool)
    ensures
        r <==> a@ == b@,
{
    let mut i: usize = 0;
    while i < 32
        invariant
            i <= 32,
            forall|j: int| 0 <= j < i ==> a@[j] == b@[j],
        decreases 32 - i,
    {
        if a[i] != b[i] {
            return false;
        }
        i = i + 1;
    }
    proof {
        assert(a@ =~= b@);
    }
    true
}

impl Students {
    /// The entries' keys are pairwise distinct: at most one owner per identity.
    pub closed spec fn wf(self) -> bool {
        distinct_keys(self.entries@)
    }

    /// An empty store.
    pub fn new() -> (r: Students)
        ensures
            r.wf(),
            r@ == Map::<Seq<u8>, (u64, u64)>::empty(),
    {
        Students { entries: Vec::new() }
    }

    /// The index of the entry carrying this key, if any entry does.
    fn find(&self, key: &[u8; 32]) -> (r: Option<usize>)
        ensures
            match r {
                Some(i) => i < self.entries@.len() && self.entries@[i as int].0@ == key@,
                None => forall|i: int|
                    0 <= i < self.entries@.len() ==> self.entries@[i].0@ != key@,
            },
    {
        let mut i: usize = 0;
        while i < self.entries.len()
            invariant
                i <= self.entries@.len(),
                forall|j: int| 0 <= j < i ==> self.entries@[j].0@ != key@,
            decreases self.entries@.len() - i,
        {
            if id_eq(&self.entries[i].0, key) {
                return Some(i);
            }
            i = i + 1;
        }
        None
    }

    /// Whether some owner currently holds this identity.
    pub fn contains(&self, key: &[u8; 32]) -> (r: bool)
        ensures
            r == self@.contains_key(key@),
    {
        proof {
            lemma_entry_map_contains(self.entries@, key@);
        }
        self.find(key).is_some()
    }

    /// The ownership entry under this identity, if one exists.
    pub fn get(&self, key: &[u8; 32]) -> (r: Option<(u64, u64)>)
        requires
            self.wf(),
        ensures
            match r {
                Some(e) => self@.contains_key(key@) && self@[key@] == e,
                None => !self@.contains_key(key@),
            },
    {
        match self.find(key) {
            Some(i) => {
                proof {
                    lemma_entry_map_index(self.entries@, i as int);
                }
                Some(self.entries[i].1)
            },
            None => {
                proof {
                    lemma_entry_map_contains(self.entries@, key@);
                }
                None
            },
        }
    }

    /// Bind an entry to an identity not currently present. Callers check
    /// absence first: that is the create invariant.
    pub fn insert(&mut self, key: [u8; 32], entry: (u64, u64))
        requires
            old(self).wf(),
            !old(self)@.contains_key(key@),
        ensures
            final(self).wf(),
            final(self)@ == old(self)@.insert(key@, entry),
    {
        proof {
            lemma_entry_map_contains(self.entries@, key@);
        }
        self.entries.push((key, entry));
        proof {
            assert(self.entries@.drop_last() =~= old(self).entries@);
            assert(forall|i: int|
                0 <= i < old(self).entries@.len() ==> self.entries@[i] == old(
                    self,
                ).entries@[i]);
        }
    }

    /// Unbind an identity. A no-op when it is absent; callers check existence
    /// first to produce the right error.
    pub fn remove(&mut self, key: &[u8; 32])
        requires
            old(self).wf(),
        ensures
            final(self).wf(),
            final(self)@ == old(self)@.remove(key@),
    {
        match self.find(key) {
            Some(i) => {
                proof {
                    lemma_entry_map_remove(self.entries@, i as int);
                    assert(distinct_keys(self.entries@.remove(i as int))) by {
                        let s = self.entries@;
                        assert forall|p: int, q: int|
                            0 <= p < q < s.remove(i as int).len() implies s.remove(i as int)[p].0@
                            != s.remove(i as int)[q].0@ by {
                            assert(s.remove(i as int)[p] == if p < i {
                                s[p]
                            } else {
                                s[p + 1]
                            });
                            assert(s.remove(i as int)[q] == if q < i {
                                s[q]
                            } else {
                                s[q + 1]
                            });
                        }
                    }
                }
                self.entries.remove(i);
            },
            None => {
                proof {
                    lemma_entry_map_contains(self.entries@, key@);
                    assert(entry_map(self.entries@) =~= entry_map(self.entries@).remove(key@));
                }
            },
        }
    }
}

} // verus!
