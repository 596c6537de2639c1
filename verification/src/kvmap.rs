//! A string-keyed association map with unique keys, viewed as a
//! `Map<Seq<char>, V>`.  The samplers use it for counter baselines and for
//! the device-to-mount-point table.

use vstd::prelude::*;
use crate::strutil::str_eq;

verus! {

/// Association map from string keys to values; keys are pairwise distinct.
pub struct KvMap<V: View> {
    pairs: Vec<(String, V)>,
}

/// The map denoted by an association list; a later entry overrides an
/// earlier one with the same key.
pub open spec fn map_of<V: View>(pairs: Seq<(String, V)>) -> Map<Seq<char>, V::V>
    decreases pairs.len(),
{
    if pairs.len() == 0 {
        Map::empty()
    } else {
        map_of(pairs.drop_last()).insert(pairs.last().0@, pairs.last().1@)
    }
}

/// A key occurs in the denoted map exactly when some entry holds it.
proof fn lemma_map_of_contains<V: View>(pairs: Seq<(String, V)>, k: Seq<char>)
    ensures
        map_of(pairs).contains_key(k) <==> exists|i: int|
            0 <= i < pairs.len() && pairs[i].0@ == k,
    decreases pairs.len(),
{
    if pairs.len() > 0 {
        lemma_map_of_contains(pairs.drop_last(), k);
        if pairs.last().0@ == k {
            assert(pairs[pairs.len() - 1].0@ == k);
        } else if map_of(pairs).contains_key(k) {
            let i = choose|i: int| 0 <= i < pairs.drop_last().len() && pairs.drop_last()[i].0@ == k;
            assert(pairs[i].0@ == k);
        } else {
            assert forall|i: int| 0 <= i < pairs.len() implies pairs[i].0@ != k by {
                if i < pairs.len() - 1 {
                    assert(pairs.drop_last()[i].0@ == pairs[i].0@);
                }
            }
        }
    }
}

/// With distinct keys, the entry at any index gives the map's value there.
proof fn lemma_map_of_index<V: View>(pairs: Seq<(String, V)>, i: int)
    requires
        0 <= i < pairs.len(),
        forall|x: int, y: int| 0 <= x < y < pairs.len() ==> pairs[x].0@ != pairs[y].0@,
    ensures
        map_of(pairs).contains_key(pairs[i].0@),
        map_of(pairs)[pairs[i].0@] == pairs[i].1@,
    decreases pairs.len(),
{
    if i == pairs.len() - 1 {
    } else {
        assert(pairs[i].0@ != pairs[pairs.len() - 1].0@);
        assert(pairs.drop_last()[i] == pairs[i]);
        lemma_map_of_index(pairs.drop_last(), i);
    }
}

impl<V: View> View for KvMap<V> {
    type V = Map<Seq<char>, V::V>;

    closed spec fn view(&self) -> Map<Seq<char>, V::V> {
        map_of(self.pairs@)
    }
}

impl<V: View> KvMap<V> {
    /// Keys are pairwise distinct.
    pub closed spec fn wf(&self) -> bool {
        forall|x: int, y: int| 0 <= x < y < self.pairs@.len()
            ==> self.pairs@[x].0@ != self.pairs@[y].0@
    }

    pub fn new() -> (r: Self)
        ensures
            r.wf(),
            r@ == Map::<Seq<char>, V::V>::empty(),
    {
        KvMap { pairs: Vec::new() }
    }

    /// Looks a key up.
    pub fn get(&self, key: &str) -> (r: Option<&V>)
        requires
            self.wf(),
        ensures
            match r {
                Some(v) => self@.contains_key(key@) && v@ == self@[key@],
                None => !self@.contains_key(key@),
            },
    {
        let n = self.pairs.len();
        let mut i: usize = 0;
        while i < n
            invariant
                n == self.pairs@.len(),
                i <= n,
                self.wf(),
                forall|j: int| 0 <= j < i ==> self.pairs@[j].0@ != key@,
            decreases n - i,
        {
            if str_eq(self.pairs[i].0.as_str(), key) {
                proof {
                    lemma_map_of_index(self.pairs@, i as int);
                }
                return Some(&self.pairs[i].1);
            }
            i += 1;
        }
        proof {
            lemma_map_of_contains(self.pairs@, key@);
        }
        None
    }

    /// Whether the map holds the key.
    pub fn contains_key(&self, key: &str) -> (r: bool)
        requires
            self.wf(),
        ensures
            r == self@.contains_key(key@),
    {
        self.get(key).is_some()
    }

    /// Index of the entry holding `key`, if any.
    fn index_of(&self, key: &str) -> (r: Option<usize>)
        requires
            self.wf(),
        ensures
            match r {
                Some(i) => i < self.pairs@.len() && self.pairs@[i as int].0@ == key@,
                None => forall|j: int| 0 <= j < self.pairs@.len()
                    ==> self.pairs@[j].0@ != key@,
            },
    {
        let n = self.pairs.len();
        let mut i: usize = 0;
        while i < n
            invariant
                n == self.pairs@.len(),
                i <= n,
                forall|j: int| 0 <= j < i ==> self.pairs@[j].0@ != key@,
            decreases n - i,
        {
            if str_eq(self.pairs[i].0.as_str(), key) {
                return Some(i);
            }
            i += 1;
        }
        None
    }

    /// Inserts or replaces the binding for `key`.
    pub fn insert(&mut self, key: String, value: V)
        requires
            old(self).wf(),
        ensures
            final(self).wf(),
            final(self)@ == old(self)@.insert(key@, value@),
    {
        let ghost gkey = key@;
        let ghost gval = value@;
        match self.index_of(key.as_str()) {
            Some(i) => {
                proof {
                    lemma_remove_preserves(self.pairs@, i as int, gkey);
                }
                self.pairs.remove(i);
                let ghost mid = self.pairs@;
                self.pairs.push((key, value));
                proof {
                    lemma_wf_after_push(mid, self.pairs@, gkey);
                    assert(self.pairs@.drop_last() =~= mid);
                    assert(map_of(self.pairs@)
                        == map_of(mid).insert(self.pairs@.last().0@, self.pairs@.last().1@));
                    assert(self@ =~= old(self)@.insert(gkey, gval));
                }
            },
            None => {
                proof {
                    lemma_map_of_contains(self.pairs@, gkey);
                }
                let ghost mid = self.pairs@;
                self.pairs.push((key, value));
                proof {
                    lemma_wf_after_push(mid, self.pairs@, gkey);
                    assert(self.pairs@.drop_last() =~= mid);
                    assert(self@ =~= old(self)@.insert(gkey, gval));
                }
            },
        }
    }

    /// Inserts only when the key is absent: the first-seen binding for a key
    /// wins for the container's lifetime.
    pub fn insert_if_absent(&mut self, key: String, value: V)
        requires
            old(self).wf(),
        ensures
            final(self).wf(),
            old(self)@.contains_key(key@) ==> final(self)@ == old(self)@,
            !old(self)@.contains_key(key@) ==> final(self)@ == old(self)@.insert(key@, value@),
    {
        let ghost gkey = key@;
        let ghost gval = value@;
        proof {
            lemma_map_of_contains(self.pairs@, gkey);
        }
        if !self.contains_key(key.as_str()) {
            let ghost mid = self.pairs@;
            self.pairs.push((key, value));
            proof {
                lemma_wf_after_push(mid, self.pairs@, gkey);
                assert(self.pairs@.drop_last() =~= mid);
                assert(self@ =~= old(self)@.insert(gkey, gval));
            }
        }
    }
}

/// Removing the only entry with key `k` removes exactly `k` from the map.
proof fn lemma_remove_preserves<V: View>(pairs: Seq<(String, V)>, i: int, k: Seq<char>)
    requires
        0 <= i < pairs.len(),
        pairs[i].0@ == k,
        forall|x: int, y: int| 0 <= x < y < pairs.len() ==> pairs[x].0@ != pairs[y].0@,
    ensures
        map_of(pairs.remove(i)) == map_of(pairs).remove(k),
        forall|x: int, y: int| 0 <= x < y < pairs.remove(i).len()
            ==> pairs.remove(i)[x].0@ != pairs.remove(i)[y].0@,
        forall|j: int| 0 <= j < pairs.remove(i).len() ==> pairs.remove(i)[j].0@ != k,
    decreases pairs.len(),
{
    let rest = pairs.remove(i);
    if i == pairs.len() - 1 {
        assert(rest =~= pairs.drop_last());
        lemma_map_of_contains(pairs.drop_last(), k);
        assert(!map_of(pairs.drop_last()).contains_key(k));
        assert(map_of(rest) =~= map_of(pairs).remove(k));
    } else {
        let sub = pairs.drop_last();
        lemma_remove_preserves(sub, i, k);
        assert(rest.drop_last() =~= sub.remove(i));
        assert(rest.last() == pairs.last());
        assert(map_of(rest) == map_of(sub.remove(i)).insert(pairs.last().0@, pairs.last().1@));
        assert(pairs.last().0@ != k);
        assert(map_of(rest) =~= map_of(pairs).remove(k));
    }
}

/// Pushing an entry whose key is absent keeps keys pairwise distinct.
proof fn lemma_wf_after_push<V: View>(before: Seq<(String, V)>, after: Seq<(String, V)>, k: Seq<char>)
    requires
        after.len() == before.len() + 1,
        after.drop_last() =~= before,
        after.last().0@ == k,
        forall|x: int, y: int| 0 <= x < y < before.len() ==> before[x].0@ != before[y].0@,
        forall|j: int| 0 <= j < before.len() ==> before[j].0@ != k,
    ensures
        forall|x: int, y: int| 0 <= x < y < after.len() ==> after[x].0@ != after[y].0@,
{
    assert forall|x: int, y: int| 0 <= x < y < after.len()
        implies after[x].0@ != after[y].0@ by {
        assert(after[x] == before[x]);
        if y < after.len() - 1 {
            assert(after[y] == before[y]);
        }
    }
}

impl KvMap<u64> {
    /// Inserts every binding of `other`, overriding bindings already present.
    pub fn insert_all(&mut self, other: &KvMap<u64>)
        requires
            old(self).wf(),
        ensures
            final(self).wf(),
            final(self)@ == old(self)@.union_prefer_right(other@),
    {
        let n = other.pairs.len();
        let mut i: usize = 0;
        proof {
            assert(other.pairs@.take(0) =~= Seq::<(String, u64)>::empty());
            assert(self@ =~= old(self)@.union_prefer_right(map_of(other.pairs@.take(0))));
        }
        while i < n
            invariant
                n == other.pairs@.len(),
                i <= n,
                self.wf(),
                self@ == old(self)@.union_prefer_right(map_of(other.pairs@.take(i as int))),
            decreases n - i,
        {
            let key = other.pairs[i].0.clone();
            let value = other.pairs[i].1;
            self.insert(key, value);
            proof {
                let t1 = other.pairs@.take(i + 1);
                assert(t1.drop_last() =~= other.pairs@.take(i as int));
                assert(t1.last() == other.pairs@[i as int]);
                assert(self@ =~= old(self)@.union_prefer_right(map_of(t1)));
            }
            i += 1;
        }
        proof {
            assert(other.pairs@.take(n as int) =~= other.pairs@);
        }
    }
}

impl KvMap<String> {
    /// Merges `other` in, never overwriting an existing binding: what this
    /// map already knows is preserved.
    pub fn merge_if_absent(&mut self, other: &KvMap<String>)
        requires
            old(self).wf(),
            other.wf(),
        ensures
            final(self).wf(),
            final(self)@ == other@.union_prefer_right(old(self)@),
    {
        let n = other.pairs.len();
        let mut i: usize = 0;
        proof {
            assert(self@ =~= map_of(other.pairs@.take(0)).union_prefer_right(old(self)@));
        }
        while i < n
            invariant
                n == other.pairs@.len(),
                i <= n,
                self.wf(),
                other.wf(),
                self@ == map_of(other.pairs@.take(i as int)).union_prefer_right(old(self)@),
            decreases n - i,
        {
            let key = other.pairs[i].0.clone();
            let value = other.pairs[i].1.clone();
            proof {
                lemma_map_of_contains(other.pairs@.take(i as int), key@);
                assert(forall|j: int| 0 <= j < i
                    ==> other.pairs@.take(i as int)[j] == other.pairs@[j]);
            }
            self.insert_if_absent(key, value);
            proof {
                let t1 = other.pairs@.take(i + 1);
                assert(t1.drop_last() =~= other.pairs@.take(i as int));
                assert(t1.last() == other.pairs@[i as int]);
                // The key at position i does not occur earlier in `other`,
                // so inserting it if absent matches the union either way.
                assert(self@ =~= map_of(t1).union_prefer_right(old(self)@));
            }
            i += 1;
        }
        proof {
            assert(other.pairs@.take(n as int) =~= other.pairs@);
        }
    }
}

} // verus!
