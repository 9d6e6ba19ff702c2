//! Small association maps backing the in-memory stores: a vector of
//! key/value pairs with pairwise-distinct keys, viewed as a finite map from
//! key views to value views. Lookups are linear scans; insertion overwrites
//! an existing binding for the same key.

use crate::records::ProtocolAddress;
use vstd::prelude::*;

verus! {

/// Pairwise-distinct keys.
pub(crate) open spec fn unique_keys<K, V>(s: Seq<(K, V)>) -> bool {
    forall|i: int, j: int| 0 <= i < j < s.len() ==> (#[trigger] s[i]).0 != (#[trigger] s[j]).0
}

/// The finite map denoted by a sequence of key/value pairs; a later pair
/// overrides an earlier one with the same key.
pub(crate) open spec fn entries_map<K, V>(s: Seq<(K, V)>) -> Map<K, V>
    decreases s.len(),
{
    if s.len() == 0 {
        Map::empty()
    } else {
        entries_map(s.drop_last()).insert(s.last().0, s.last().1)
    }
}

/// The denoted map contains a key exactly when some pair carries it.
pub(crate) proof fn lemma_entries_map_contains<K, V>(s: Seq<(K, V)>, k: K)
    ensures
        entries_map(s).contains_key(k) <==> exists|i: int|
            0 <= i < s.len() && (#[trigger] s[i]).0 == k,
    decreases s.len(),
{
    if s.len() > 0 {
        lemma_entries_map_contains(s.drop_last(), k);
        if entries_map(s).contains_key(k) && s.last().0 != k {
            let i = choose|i: int| 0 <= i < s.drop_last().len() && (#[trigger] s.drop_last()[i]).0
                == k;
            assert(s[i].0 == k);
        }
        if exists|i: int| 0 <= i < s.len() && (#[trigger] s[i]).0 == k {
            let i = choose|i: int| 0 <= i < s.len() && (#[trigger] s[i]).0 == k;
            if i < s.len() - 1 {
                assert(s.drop_last()[i].0 == k);
            }
        }
    }
}

/// A pair whose key occurs in no later pair gives the denoted map's value at
/// that key.
pub(crate) proof fn lemma_entries_map_get<K, V>(s: Seq<(K, V)>, i: int)
    requires
        0 <= i < s.len(),
        forall|j: int| i < j < s.len() ==> (#[trigger] s[j]).0 != s[i].0,
    ensures
        entries_map(s).contains_key(s[i].0),
        entries_map(s)[s[i].0] == s[i].1,
    decreases s.len(),
{
    if i < s.len() - 1 {
        assert(forall|j: int|
            i < j < s.drop_last().len() ==> (#[trigger] s.drop_last()[j]).0 != s.drop_last()[i].0);
        lemma_entries_map_get(s.drop_last(), i);
    }
}

/// Removing the pair at an index removes exactly its key from the denoted
/// map, when keys are pairwise distinct.
pub(crate) proof fn lemma_entries_map_remove<K, V>(s: Seq<(K, V)>, i: int)
    requires
        unique_keys(s),
        0 <= i < s.len(),
    ensures
        unique_keys(s.remove(i)),
        entries_map(s.remove(i)) == entries_map(s).remove(s[i].0),
    decreases s.len(),
{
    let k = s[i].0;
    if i == s.len() - 1 {
        assert(s.remove(i) =~= s.drop_last());
        lemma_entries_map_contains(s.drop_last(), k);
        assert(entries_map(s.drop_last()).remove(k) =~= entries_map(s.drop_last()));
        assert(entries_map(s).remove(k) =~= entries_map(s.drop_last()).remove(k));
    } else {
        assert(s.remove(i).drop_last() =~= s.drop_last().remove(i));
        assert(s.remove(i).last() == s.last());
        lemma_entries_map_remove(s.drop_last(), i);
        assert(entries_map(s.remove(i)) == entries_map(s.drop_last().remove(i)).insert(
            s.last().0,
            s.last().1,
        ));
        assert(entries_map(s.drop_last()).remove(k).insert(s.last().0, s.last().1)
            =~= entries_map(s.drop_last()).insert(s.last().0, s.last().1).remove(k));
    }
}

/// Appending a pair inserts its binding into the denoted map.
pub(crate) proof fn lemma_entries_map_push<K, V>(s: Seq<(K, V)>, k: K, v: V)
    ensures
        entries_map(s.push((k, v))) == entries_map(s).insert(k, v),
{
    assert(s.push((k, v)).drop_last() =~= s);
}

/// An association map keyed by raw `u32` ids.
pub(crate) struct IdMap<V> {
    entries: Vec<(u32, V)>,
}

impl<V: View> IdMap<V> {
    /// The stored pairs, with values abstracted to their views.
    pub(crate) closed spec fn pairs(self) -> Seq<(u32, V::V)> {
        self.entries@.map_values(|p: (u32, V)| (p.0, p.1@))
    }

    /// Keys are pairwise distinct.
    pub(crate) closed spec fn wf(self) -> bool {
        unique_keys(self.pairs())
    }

    /// The finite map this association map denotes.
    pub(crate) closed spec fn view_map(self) -> Map<u32, V::V> {
        entries_map(self.pairs())
    }

    /// An empty map.
    pub(crate) fn new() -> (r: Self)
        ensures
            r.wf(),
            r.view_map() == Map::<u32, V::V>::empty(),
            r.pairs().len() == 0,
    {
        let r = IdMap { entries: Vec::new() };
        proof {
            assert(r.pairs() =~= Seq::<(u32, V::V)>::empty());
        }
        r
    }

    /// Index of the pair carrying `k`, if any.
    fn find(&self, k: u32) -> (r: Option<usize>)
        ensures
            match r {
                Some(i) => i < self.pairs().len() && self.pairs()[i as int].0 == k,
                None => forall|j: int| 0 <= j < self.pairs().len() ==> (#[trigger] self.pairs()[j]).0 != k,
            },
    {
        let mut i: usize = 0;
        while i < self.entries.len()
            invariant
                i <= self.entries.len(),
                forall|j: int| 0 <= j < i ==> (#[trigger] self.pairs()[j]).0 != k,
            decreases self.entries.len() - i,
        {
            if self.entries[i].0 == k {
                return Some(i);
            }
            i = i + 1;
        }
        None
    }

    /// The value bound to `k`, if any.
    pub(crate) fn get(&self, k: u32) -> (r: Option<&V>)
        requires
            self.wf(),
        ensures
            match r {
                Some(v) => self.view_map().contains_key(k) && v@ == self.view_map()[k],
                None => !self.view_map().contains_key(k),
            },
    {
        match self.find(k) {
            Some(i) => {
                proof {
                    lemma_entries_map_get(self.pairs(), i as int);
                }
                Some(&self.entries[i].1)
            },
            None => {
                proof {
                    lemma_entries_map_contains(self.pairs(), k);
                }
                None
            },
        }
    }

    /// Drops the binding for `k`, if any.
    pub(crate) fn remove(&mut self, k: u32)
        requires
            old(self).wf(),
        ensures
            final(self).wf(),
            final(self).view_map() == old(self).view_map().remove(k),
            !final(self).view_map().contains_key(k),
    {
        proof {
            lemma_entries_map_contains(self.pairs(), k);
        }
        match self.find(k) {
            Some(i) => {
                proof {
                    lemma_entries_map_remove(self.pairs(), i as int);
                }
                let ghost before = self.pairs();
                self.entries.remove(i);
                proof {
                    assert(self.pairs() =~= before.remove(i as int));
                    lemma_entries_map_contains(self.pairs(), k);
                }
            },
            None => {
                proof {
                    assert(self.view_map().remove(k) =~= self.view_map());
                }
            },
        }
    }

    /// Binds `k` to `v`, overwriting any existing binding.
    pub(crate) fn insert(&mut self, k: u32, v: V)
        requires
            old(self).wf(),
        ensures
            final(self).wf(),
            final(self).view_map() == old(self).view_map().insert(k, v@),
    {
        self.remove(k);
        proof {
            lemma_entries_map_contains(self.pairs(), k);
            lemma_entries_map_push(self.pairs(), k, v@);
        }
        let ghost before = self.pairs();
        let ghost map_before = self.view_map();
        self.entries.push((k, v));
        proof {
            assert(self.pairs() =~= before.push((k, v@)));
            assert(forall|j: int| 0 <= j < before.len() ==> (#[trigger] before[j]).0 != k);
            assert(unique_keys(self.pairs()));
            assert(self.view_map() == map_before.insert(k, v@));
            assert(map_before.insert(k, v@) =~= old(self).view_map().insert(k, v@));
        }
    }

    /// All keys, in storage order.
    pub(crate) fn keys(&self) -> (r: Vec<u32>)
        ensures
            r@.len() == self.pairs().len(),
            forall|j: int| 0 <= j < r@.len() ==> r@[j] == (#[trigger] self.pairs()[j]).0,
    {
        let mut out: Vec<u32> = Vec::new();
        let mut i: usize = 0;
        while i < self.entries.len()
            invariant
                i <= self.entries.len(),
                out@.len() == i,
                forall|j: int| 0 <= j < i ==> out@[j] == (#[trigger] self.pairs()[j]).0,
            decreases self.entries.len() - i,
        {
            out.push(self.entries[i].0);
            i = i + 1;
        }
        out
    }

    /// Every stored key is in the denoted map and conversely, without
    /// repetition.
    pub(crate) proof fn lemma_keys_complete(self)
        requires
            self.wf(),
        ensures
            forall|j: int|
                0 <= j < self.pairs().len() ==> self.view_map().contains_key(
                    (#[trigger] self.pairs()[j]).0,
                ),
            forall|k: u32| #[trigger]
                self.view_map().contains_key(k) ==> exists|j: int|
                    0 <= j < self.pairs().len() && (#[trigger] self.pairs()[j]).0 == k,
            forall|j1: int, j2: int|
                0 <= j1 < j2 < self.pairs().len() ==> (#[trigger] self.pairs()[j1]).0 != (
                #[trigger] self.pairs()[j2]).0,
    {
        assert forall|j: int| 0 <= j < self.pairs().len() implies self.view_map().contains_key(
            (#[trigger] self.pairs()[j]).0,
        ) by {
            lemma_entries_map_contains(self.pairs(), self.pairs()[j].0);
        }
        assert forall|k: u32| #[trigger] self.view_map().contains_key(k) implies exists|j: int|
            0 <= j < self.pairs().len() && (#[trigger] self.pairs()[j]).0 == k by {
            lemma_entries_map_contains(self.pairs(), k);
        }
    }
}

/// An association map keyed by protocol addresses.
pub(crate) struct AddrMap<V> {
    entries: Vec<(ProtocolAddress, V)>,
}

impl<V: View> AddrMap<V> {
    /// The stored pairs, with keys and values abstracted to their views.
    pub(crate) closed spec fn pairs(self) -> Seq<((Seq<char>, u32), V::V)> {
        self.entries@.map_values(|p: (ProtocolAddress, V)| (p.0@, p.1@))
    }

    /// Keys are pairwise distinct.
    pub(crate) closed spec fn wf(self) -> bool {
        unique_keys(self.pairs())
    }

    /// The finite map this association map denotes.
    pub(crate) closed spec fn view_map(self) -> Map<(Seq<char>, u32), V::V> {
        entries_map(self.pairs())
    }

    /// An empty map.
    pub(crate) fn new() -> (r: Self)
        ensures
            r.wf(),
            r.view_map() == Map::<(Seq<char>, u32), V::V>::empty(),
    {
        let r = AddrMap { entries: Vec::new() };
        proof {
            assert(r.pairs() =~= Seq::<((Seq<char>, u32), V::V)>::empty());
        }
        r
    }

    /// Index of the pair carrying `k`, if any.
    fn find(&self, k: &ProtocolAddress) -> (r: Option<usize>)
        ensures
            match r {
                Some(i) => i < self.pairs().len() && self.pairs()[i as int].0 == k@,
                None => forall|j: int|
                    0 <= j < self.pairs().len() ==> (#[trigger] self.pairs()[j]).0 != k@,
            },
    {
        let mut i: usize = 0;
        while i < self.entries.len()
            invariant
                i <= self.entries.len(),
                forall|j: int| 0 <= j < i ==> (#[trigger] self.pairs()[j]).0 != k@,
            decreases self.entries.len() - i,
        {
            if self.entries[i].0.matches(k) {
                return Some(i);
            }
            i = i + 1;
        }
        None
    }

    /// The value bound to `k`, if any.
    pub(crate) fn get(&self, k: &ProtocolAddress) -> (r: Option<&V>)
        requires
            self.wf(),
        ensures
            match r {
                Some(v) => self.view_map().contains_key(k@) && v@ == self.view_map()[k@],
                None => !self.view_map().contains_key(k@),
            },
    {
        match self.find(k) {
            Some(i) => {
                proof {
                    lemma_entries_map_get(self.pairs(), i as int);
                }
                Some(&self.entries[i].1)
            },
            None => {
                proof {
                    lemma_entries_map_contains(self.pairs(), k@);
                }
                None
            },
        }
    }

    /// Binds `k` to `v`, overwriting any existing binding.
    pub(crate) fn insert(&mut self, k: &ProtocolAddress, v: V)
        requires
            old(self).wf(),
        ensures
            final(self).wf(),
            final(self).view_map() == old(self).view_map().insert(k@, v@),
    {
        proof {
            lemma_entries_map_contains(self.pairs(), k@);
        }
        match self.find(k) {
            Some(i) => {
                proof {
                    lemma_entries_map_remove(self.pairs(), i as int);
                }
                let ghost before = self.pairs();
                self.entries.remove(i);
                proof {
                    assert(self.pairs() =~= before.remove(i as int));
                    lemma_entries_map_contains(self.pairs(), k@);
                }
            },
            None => {
                proof {
                    assert(self.view_map().remove(k@) =~= self.view_map());
                }
            },
        }
        proof {
            lemma_entries_map_contains(self.pairs(), k@);
            lemma_entries_map_push(self.pairs(), k@, v@);
        }
        let ghost before = self.pairs();
        let ghost map_before = self.view_map();
        let key = k.clone();
        self.entries.push((key, v));
        proof {
            assert(self.pairs() =~= before.push((k@, v@)));
            assert(forall|j: int| 0 <= j < before.len() ==> (#[trigger] before[j]).0 != k@);
            assert(unique_keys(self.pairs()));
            assert(self.view_map() == map_before.insert(k@, v@));
            assert(map_before.insert(k@, v@) =~= old(self).view_map().insert(k@, v@));
        }
    }

    /// Drops every binding.
    pub(crate) fn clear(&mut self)
        ensures
            final(self).wf(),
            final(self).view_map() == Map::<(Seq<char>, u32), V::V>::empty(),
    {
        self.entries.clear();
        proof {
            assert(self.pairs() =~= Seq::<((Seq<char>, u32), V::V)>::empty());
        }
    }
}

/// An association map keyed by a protocol address together with a 128-bit
/// distribution id.
pub(crate) struct SenderMap<V> {
    entries: Vec<((ProtocolAddress, u128), V)>,
}

impl<V: View> SenderMap<V> {
    /// The stored pairs, with keys and values abstracted to their views.
    pub(crate) closed spec fn pairs(self) -> Seq<(((Seq<char>, u32), u128), V::V)> {
        self.entries@.map_values(|p: ((ProtocolAddress, u128), V)| ((p.0.0@, p.0.1), p.1@))
    }

    /// Keys are pairwise distinct.
    pub(crate) closed spec fn wf(self) -> bool {
        unique_keys(self.pairs())
    }

    /// The finite map this association map denotes.
    pub(crate) closed spec fn view_map(self) -> Map<((Seq<char>, u32), u128), V::V> {
        entries_map(self.pairs())
    }

    /// An empty map.
    pub(crate) fn new() -> (r: Self)
        ensures
            r.wf(),
            r.view_map() == Map::<((Seq<char>, u32), u128), V::V>::empty(),
    {
        let r = SenderMap { entries: Vec::new() };
        proof {
            assert(r.pairs() =~= Seq::<(((Seq<char>, u32), u128), V::V)>::empty());
        }
        r
    }

    /// Index of the pair carrying the key, if any.
    fn find(&self, addr: &ProtocolAddress, dist: u128) -> (r: Option<usize>)
        ensures
            match r {
                Some(i) => i < self.pairs().len() && self.pairs()[i as int].0 == (addr@, dist),
                None => forall|j: int|
                    0 <= j < self.pairs().len() ==> (#[trigger] self.pairs()[j]).0 != (addr@, dist),
            },
    {
        let mut i: usize = 0;
        while i < self.entries.len()
            invariant
                i <= self.entries.len(),
                forall|j: int| 0 <= j < i ==> (#[trigger] self.pairs()[j]).0 != (addr@, dist),
            decreases self.entries.len() - i,
        {
            if self.entries[i].0.1 == dist && self.entries[i].0.0.matches(addr) {
                return Some(i);
            }
            i = i + 1;
        }
        None
    }

    /// The value bound to the key, if any.
    pub(crate) fn get(&self, addr: &ProtocolAddress, dist: u128) -> (r: Option<&V>)
        requires
            self.wf(),
        ensures
            match r {
                Some(v) => self.view_map().contains_key((addr@, dist)) && v@ == self.view_map()[
                    (addr@, dist)
                ],
                None => !self.view_map().contains_key((addr@, dist)),
            },
    {
        match self.find(addr, dist) {
            Some(i) => {
                proof {
                    lemma_entries_map_get(self.pairs(), i as int);
                }
                Some(&self.entries[i].1)
            },
            None => {
                proof {
                    lemma_entries_map_contains(self.pairs(), (addr@, dist));
                }
                None
            },
        }
    }

    /// Binds the key to `v`, overwriting any existing binding.
    pub(crate) fn insert(&mut self, addr: &ProtocolAddress, dist: u128, v: V)
        requires
            old(self).wf(),
        ensures
            final(self).wf(),
            final(self).view_map() == old(self).view_map().insert((addr@, dist), v@),
    {
        proof {
            lemma_entries_map_contains(self.pairs(), (addr@, dist));
        }
        match self.find(addr, dist) {
            Some(i) => {
                proof {
                    lemma_entries_map_remove(self.pairs(), i as int);
                }
                let ghost before = self.pairs();
                self.entries.remove(i);
                proof {
                    assert(self.pairs() =~= before.remove(i as int));
                    lemma_entries_map_contains(self.pairs(), (addr@, dist));
                }
            },
            None => {
                proof {
                    assert(self.view_map().remove((addr@, dist)) =~= self.view_map());
                }
            },
        }
        proof {
            lemma_entries_map_contains(self.pairs(), (addr@, dist));
            lemma_entries_map_push(self.pairs(), (addr@, dist), v@);
        }
        let ghost before = self.pairs();
        let ghost map_before = self.view_map();
        let key = addr.clone();
        self.entries.push(((key, dist), v));
        proof {
            assert(self.pairs() =~= before.push(((addr@, dist), v@)));
            assert(forall|j: int| 0 <= j < before.len() ==> (#[trigger] before[j]).0 != (addr@, dist));
            assert(unique_keys(self.pairs()));
            assert(self.view_map() == map_before.insert((addr@, dist), v@));
            assert(map_before.insert((addr@, dist), v@) =~= old(self).view_map().insert(
                (addr@, dist),
                v@,
            ));
        }
    }
}

} // verus!
