//! An insertion-ordered map with string keys.
//!
//! Keys are unique; inserting an existing key updates the value in place and
//! keeps the key's original position, while a new key is appended at the end.
//! The view is the sequence of key/value pairs in their insertion order.

use vstd::prelude::*;

verus! {

#[derive(Debug)]
pub struct MapEntry<T> {
    pub key: String,
    pub val: T,
}

#[derive(Debug)]
pub struct StrMap<T> {
    pub entries: Vec<MapEntry<T>>,
}

impl<T> View for StrMap<T> {
    type V = Seq<(Seq<char>, T)>;

    open spec fn view(&self) -> Seq<(Seq<char>, T)> {
        self.entries@.map_values(|e: MapEntry<T>| (e.key@, e.val))
    }
}

/// Whether some pair of the map carries the key.
pub open spec fn map_has_key<T>(m: Seq<(Seq<char>, T)>, k: Seq<char>) -> bool {
    exists|i: int| 0 <= i < m.len() && m[i].0 == k
}

/// The position of a key among the pairs.
pub open spec fn map_key_idx<T>(m: Seq<(Seq<char>, T)>, k: Seq<char>) -> int {
    choose|i: int| 0 <= i < m.len() && m[i].0 == k
}

/// The pairs after inserting a key: an existing key keeps its place and takes
/// the new value, a new key is appended.
pub open spec fn spec_insert<T>(m: Seq<(Seq<char>, T)>, k: Seq<char>, v: T) -> Seq<(Seq<char>, T)> {
    if map_has_key(m, k) {
        m.update(map_key_idx(m, k), (k, v))
    } else {
        m.push((k, v))
    }
}

/// The pairs after inserting every added pair in order.
pub open spec fn spec_extend<T>(m: Seq<(Seq<char>, T)>, adds: Seq<(Seq<char>, T)>) -> Seq<
    (Seq<char>, T),
>
    decreases adds.len(),
{
    if adds.len() == 0 {
        m
    } else {
        spec_insert(spec_extend(m, adds.drop_last()), adds.last().0, adds.last().1)
    }
}

/// The pairs after appending items to a key's value: an existing key keeps
/// its place, a new key is appended.
pub open spec fn spec_entry_extend<V>(
    m: Seq<(Seq<char>, Seq<V>)>,
    k: Seq<char>,
    items: Seq<V>,
) -> Seq<(Seq<char>, Seq<V>)> {
    if map_has_key(m, k) {
        m.update(map_key_idx(m, k), (k, m[map_key_idx(m, k)].1 + items))
    } else {
        m.push((k, items))
    }
}

/// All keys distinct.
pub open spec fn map_wf<T>(m: Seq<(Seq<char>, T)>) -> bool {
    forall|i: int, j: int| 0 <= i < j < m.len() ==> m[i].0 != m[j].0
}

/// The pairs with each value replaced by its deep view.
pub open spec fn deep_pairs<T: DeepView>(m: Seq<(Seq<char>, T)>) -> Seq<(Seq<char>, T::V)> {
    m.map_values(|p: (Seq<char>, T)| (p.0, p.1.deep_view()))
}

pub proof fn lemma_deep_pairs_has_key<T: DeepView>(m: Seq<(Seq<char>, T)>, k: Seq<char>)
    ensures
        map_has_key(deep_pairs(m), k) == map_has_key(m, k),
        map_wf(m) ==> map_wf(deep_pairs(m)),
{
    let dm = deep_pairs(m);
    if map_has_key(m, k) {
        let i = map_key_idx(m, k);
        assert(dm[i].0 == k);
    }
    if map_has_key(dm, k) {
        let i = map_key_idx(dm, k);
        assert(m[i].0 == k);
    }
    if map_wf(m) {
        assert forall|i: int, j: int| 0 <= i < j < dm.len() implies dm[i].0 != dm[j].0 by {
            assert(dm[i].0 == m[i].0 && dm[j].0 == m[j].0);
        }
    }
}

/// Inserting and then taking deep views is taking deep views and inserting.
pub proof fn lemma_deep_pairs_insert<T: DeepView>(m: Seq<(Seq<char>, T)>, k: Seq<char>, v: T)
    requires
        map_wf(m),
    ensures
        deep_pairs(spec_insert(m, k, v)) == spec_insert(deep_pairs(m), k, v.deep_view()),
{
    let dm = deep_pairs(m);
    lemma_deep_pairs_has_key(m, k);
    if map_has_key(m, k) {
        let i = map_key_idx(m, k);
        let j = map_key_idx(dm, k);
        assert(m[i].0 == k && dm[j].0 == k);
        assert(m[j].0 == k);
        assert(i == j);
        assert(deep_pairs(m.update(i, (k, v))) =~= dm.update(i, (k, v.deep_view())));
    } else {
        assert(deep_pairs(m.push((k, v))) =~= dm.push((k, v.deep_view())));
    }
}

impl<T> StrMap<T> {
    pub fn new() -> (r: StrMap<T>)
        ensures
            r@ == Seq::<(Seq<char>, T)>::empty(),
            map_wf(r@),
    {
        let r = StrMap { entries: Vec::new() };
        proof {
            assert(r@ =~= Seq::<(Seq<char>, T)>::empty());
        }
        r
    }

    pub fn len(&self) -> (r: usize)
        ensures
            r == self@.len(),
    {
        self.entries.len()
    }

    pub fn is_empty(&self) -> (r: bool)
        ensures
            r == (self@.len() == 0),
    {
        self.entries.len() == 0
    }

    pub fn key_at(&self, i: usize) -> (r: &String)
        requires
            i < self@.len(),
        ensures
            r@ == self@[i as int].0,
    {
        &self.entries[i].key
    }

    pub fn val_at(&self, i: usize) -> (r: &T)
        requires
            i < self@.len(),
        ensures
            *r == self@[i as int].1,
    {
        &self.entries[i].val
    }

    /// The position of the key, if it is present.
    pub fn find(&self, k: &str) -> (r: Option<usize>)
        ensures
            match r {
                Some(i) => i < self@.len() && self@[i as int].0 == k@,
                None => !map_has_key(self@, k@),
            },
    {
        let n = self.entries.len();
        let mut i: usize = 0;
        while i < n
            invariant
                0 <= i <= n,
                n == self@.len(),
                forall|t: int| 0 <= t < i ==> self@[t].0 != k@,
            decreases n - i,
        {
            if crate::text::chars_eq_str(&crate::text::chars_of(self.entries[i].key.as_str()), k) {
                return Some(i);
            }
            i += 1;
        }
        None
    }

    pub fn contains_key(&self, k: &str) -> (r: bool)
        ensures
            r == map_has_key(self@, k@),
    {
        self.find(k).is_some()
    }

    pub fn get(&self, k: &str) -> (r: Option<&T>)
        requires
            map_wf(self@),
        ensures
            match r {
                Some(v) => map_has_key(self@, k@) && *v == self@[map_key_idx(self@, k@)].1,
                None => !map_has_key(self@, k@),
            },
    {
        match self.find(k) {
            Some(i) => {
                proof {
                    assert(map_has_key(self@, k@));
                    assert(self@[map_key_idx(self@, k@)].0 == k@);
                    assert(map_key_idx(self@, k@) == i as int);
                }
                Some(&self.entries[i].val)
            },
            None => None,
        }
    }

    /// Insert the pair: an existing key keeps its place and takes the new
    /// value, a new key is appended.
    pub fn insert(&mut self, k: String, v: T)
        requires
            map_wf(old(self)@),
        ensures
            map_wf(final(self)@),
            final(self)@ == spec_insert(old(self)@, k@, v),
    {
        let ghost m0 = self@;
        match self.find(k.as_str()) {
            Some(i) => {
                proof {
                    assert(map_has_key(m0, k@));
                    assert(m0[map_key_idx(m0, k@)].0 == k@);
                    assert(map_key_idx(m0, k@) == i as int);
                }
                self.entries.set(i, MapEntry { key: k, val: v });
                proof {
                    assert(self@ =~= m0.update(i as int, (m0[i as int].0, v)));
                    assert(m0.update(i as int, (m0[i as int].0, v)) =~= m0.update(
                        map_key_idx(m0, k@),
                        (m0[map_key_idx(m0, k@)].0, v),
                    ));
                }
            },
            None => {
                self.entries.push(MapEntry { key: k, val: v });
                proof {
                    assert(self@ =~= m0.push((self.entries@.last().key@, v)));
                }
            },
        }
    }
}

impl<T> StrMap<T> {
    /// Remove the pair carrying the key, if it is present; the other pairs
    /// keep their order.
    pub fn remove_key(&mut self, k: &str)
        requires
            map_wf(old(self)@),
        ensures
            map_wf(final(self)@),
            if map_has_key(old(self)@, k@) {
                final(self)@ == old(self)@.remove(map_key_idx(old(self)@, k@))
            } else {
                final(self)@ == old(self)@
            },
    {
        let ghost m0 = self@;
        match self.find(k) {
            Some(i) => {
                proof {
                    assert(map_has_key(m0, k@));
                    assert(m0[map_key_idx(m0, k@)].0 == k@);
                    assert(map_key_idx(m0, k@) == i as int);
                    assert(self.entries@.len() == m0.len());
                }
                let _ = self.entries.remove(i);
                proof {
                    assert(self@ =~= m0.remove(i as int));
                    assert forall|a: int, b: int| 0 <= a < b < self@.len() implies self@[a].0
                        != self@[b].0 by {
                        assert(self@[a] == if a < i as int {
                            m0[a]
                        } else {
                            m0[a + 1]
                        });
                        assert(self@[b] == if b < i as int {
                            m0[b]
                        } else {
                            m0[b + 1]
                        });
                    }
                }
            },
            None => {},
        }
    }

}

impl<E> StrMap<Vec<E>> {
    /// Append the items to the value of the key, which keeps its place; a new
    /// key is appended with exactly the items as its value.
    pub fn entry_extend(&mut self, k: String, items: Vec<E>)
        requires
            map_wf(old(self)@),
        ensures
            map_wf(final(self)@),
            if map_has_key(old(self)@, k@) {
                let i = map_key_idx(old(self)@, k@);
                &&& final(self)@.len() == old(self)@.len()
                &&& final(self)@[i].0 == k@
                &&& final(self)@[i].1@ == old(self)@[i].1@ + items@
                &&& forall|j: int|
                    0 <= j < old(self)@.len() && j != i ==> final(self)@[j] == old(self)@[j]
            } else {
                &&& final(self)@.len() == old(self)@.len() + 1
                &&& final(self)@.last().0 == k@
                &&& final(self)@.last().1@ == items@
                &&& final(self)@.drop_last() == old(self)@
            },
    {
        let ghost m0 = self@;
        let mut items = items;
        let ghost items0 = items@;
        match self.find(k.as_str()) {
            Some(i) => {
                proof {
                    assert(map_has_key(m0, k@));
                    assert(m0[map_key_idx(m0, k@)].0 == k@);
                    assert(map_key_idx(m0, k@) == i as int);
                    assert(self.entries@.len() == m0.len());
                }
                let ghost oe = self.entries@;
                let mut e = self.entries.remove(i);
                proof {
                    assert(e == oe[i as int]);
                }
                e.val.append(&mut items);
                self.entries.insert(i, e);
                proof {
                    assert forall|j: int|
                        0 <= j < self@.len() && j != i as int implies self@[j] == m0[j] by {
                        assert(self.entries@[j] == oe[j]);
                        assert(self@[j] == (self.entries@[j].key@, self.entries@[j].val));
                        assert(m0[j] == (oe[j].key@, oe[j].val));
                    }
                    assert(self@[i as int].0 == k@);
                    assert(self@[i as int].1@ == m0[i as int].1@ + items0);
                    assert forall|a: int, b: int| 0 <= a < b < self@.len() implies self@[a].0
                        != self@[b].0 by {
                        assert(self@[a].0 == m0[a].0);
                        assert(self@[b].0 == m0[b].0);
                    }
                    assert(map_wf(self@));

                }
            },
            None => {
                let mut e = MapEntry { key: k, val: Vec::new() };
                e.val.append(&mut items);
                self.entries.push(e);
                proof {
                    assert(e.val@ =~= items0);
                    assert(self@.drop_last() =~= m0);
                    assert(self@.last().0 == k@);
                    assert forall|a: int, b: int| 0 <= a < b < self@.len() implies self@[a].0
                        != self@[b].0 by {
                        assert(self@[a] == m0[a]);
                        if b < self@.len() - 1 {
                            assert(self@[b] == m0[b]);
                        } else {
                            assert(!(m0[a].0 == k@));
                        }
                    }
                    assert(map_wf(self@));
                }
            },
        }
    }
}

impl<T> StrMap<T> {
    /// Insert every pair of `other`, in order.
    pub fn extend_from(&mut self, other: StrMap<T>)
        requires
            map_wf(old(self)@),
        ensures
            map_wf(final(self)@),
            final(self)@ == spec_extend(old(self)@, other@),
    {
        let ghost m0 = self@;
        let ghost ov = other@;
        let mut other = other;
        let mut i: usize = 0;
        let n = other.entries.len();
        proof {
            assert(ov.take(0) =~= Seq::<(Seq<char>, T)>::empty());
            assert(ov.skip(0) =~= ov);
        }
        while i < n
            invariant
                0 <= i <= n,
                n == ov.len(),
                map_wf(self@),
                self@ == spec_extend(m0, ov.take(i as int)),
                other@ == ov.skip(i as int),
                other@.len() == n - i,
            decreases n - i,
        {
            let ghost oe = other.entries@;
            let ghost om = other@;
            proof {
                assert(other.entries@.len() == other@.len());
            }
            let e = other.entries.remove(0);
            proof {
                assert(other.entries@ =~= oe.skip(1));
                assert(e == oe[0]);
                assert forall|k: int| 0 <= k < other@.len() implies other@[k] == ov.skip(i + 1)[k] by {
                    assert(other@[k] == (other.entries@[k].key@, other.entries@[k].val));
                    assert(other.entries@[k] == oe[k + 1]);
                    assert(om[k + 1] == (oe[k + 1].key@, oe[k + 1].val));
                    assert(om[k + 1] == ov.skip(i as int)[k + 1]);
                    assert(ov.skip(i as int)[k + 1] == ov[i + 1 + k]);
                    assert(ov.skip(i + 1)[k] == ov[i + 1 + k]);
                }
                assert(other@.len() == ov.skip(i + 1).len());
                assert(other@ =~= ov.skip(i + 1));
                assert((e.key@, e.val) == om[0]);
                assert(e.key@ == ov[i as int].0 && e.val == ov[i as int].1);
            }
            self.insert(e.key, e.val);
            i += 1;
            proof {
                assert(ov.take(i as int).drop_last() =~= ov.take(i - 1));
                assert(ov.take(i as int).last() == ov[i - 1]);
            }
        }
        proof {
            assert(ov.take(n as int) =~= ov);
        }
    }
}

} // verus!
