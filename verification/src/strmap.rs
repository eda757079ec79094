use vstd::prelude::*;
use vstd::pervasive::VecAdditionalExecFns;

verus! {

/// An association from `String` keys to values, each key present at most
/// once. Its view is a finite map from the key's character sequence to the
/// value's deep view. Storage order (the order in which absent keys were
/// inserted) is exposed through `keys_seq` for callers that need a stable
/// iteration order.
pub struct StrMap<V> {
    keys: Vec<String>,
    vals: Vec<V>,
}

/// No key occurs twice.
pub open spec fn distinct_keys(keys: Seq<Seq<char>>) -> bool {
    forall|i: int, j: int| 0 <= i < j < keys.len() ==> keys[i] != keys[j]
}

/// The position of `k` in `keys`; meaningful only when `keys` contains `k`.
pub open spec fn key_index(keys: Seq<Seq<char>>, k: Seq<char>) -> int {
    choose|i: int| 0 <= i < keys.len() && keys[i] == k
}

/// The map described by parallel key and value sequences.
pub open spec fn assoc_map<T>(ks: Seq<Seq<char>>, vs: Seq<T>) -> Map<Seq<char>, T> {
    Map::new(|k: Seq<char>| ks.contains(k), |k: Seq<char>| vs[key_index(ks, k)])
}

pub proof fn lemma_key_index_works(ks: Seq<Seq<char>>, k: Seq<char>)
    requires
        ks.contains(k),
    ensures
        0 <= key_index(ks, k) < ks.len(),
        ks[key_index(ks, k)] == k,
{
    assert(exists|i: int| 0 <= i < ks.len() && ks[i] == k);
}

pub proof fn lemma_key_index_unique(ks: Seq<Seq<char>>, i: int)
    requires
        distinct_keys(ks),
        0 <= i < ks.len(),
    ensures
        ks.contains(ks[i]),
        key_index(ks, ks[i]) == i,
{
    assert(ks.contains(ks[i])) by {
        assert(0 <= i < ks.len() && ks[i] == ks[i]);
    }
    lemma_key_index_works(ks, ks[i]);
    let j = key_index(ks, ks[i]);
    if j < i {
        assert(ks[j] != ks[i]);
    } else if i < j {
        assert(ks[i] != ks[j]);
    }
}

/// A present key names the value stored beside it.
pub proof fn lemma_assoc_map_at<T>(ks: Seq<Seq<char>>, vs: Seq<T>, i: int)
    requires
        distinct_keys(ks),
        ks.len() == vs.len(),
        0 <= i < ks.len(),
    ensures
        assoc_map(ks, vs).contains_key(ks[i]),
        assoc_map(ks, vs)[ks[i]] == vs[i],
{
    lemma_key_index_unique(ks, i);
}

/// Replacing the value at position `i` is a map insert at the key there.
pub proof fn lemma_assoc_map_update<T>(ks: Seq<Seq<char>>, vs: Seq<T>, i: int, v: T)
    requires
        distinct_keys(ks),
        ks.len() == vs.len(),
        0 <= i < ks.len(),
    ensures
        assoc_map(ks, vs.update(i, v)) == assoc_map(ks, vs).insert(ks[i], v),
{
    lemma_key_index_unique(ks, i);
    let m1 = assoc_map(ks, vs.update(i, v));
    let m2 = assoc_map(ks, vs).insert(ks[i], v);
    assert(m1.dom() =~= m2.dom());
    assert forall|k: Seq<char>| m1.dom().contains(k) implies m1[k] == m2[k] by {
        lemma_key_index_works(ks, k);
        let j = key_index(ks, k);
        if k == ks[i] {
            assert(j == i) by {
                if j < i {
                    assert(ks[j] != ks[i]);
                } else if i < j {
                    assert(ks[i] != ks[j]);
                }
            }
        } else {
            assert(j != i);
        }
    }
    assert(m1 =~= m2);
}

/// Pushing an absent key and its value is a map insert, and keeps keys distinct.
pub proof fn lemma_assoc_map_push<T>(ks: Seq<Seq<char>>, vs: Seq<T>, k0: Seq<char>, v: T)
    requires
        distinct_keys(ks),
        ks.len() == vs.len(),
        !ks.contains(k0),
    ensures
        distinct_keys(ks.push(k0)),
        assoc_map(ks.push(k0), vs.push(v)) == assoc_map(ks, vs).insert(k0, v),
{
    let ks2 = ks.push(k0);
    let vs2 = vs.push(v);
    let n = ks.len() as int;
    assert forall|i: int, j: int| 0 <= i < j < ks2.len() implies ks2[i] != ks2[j] by {
        if j < n {
            assert(ks[i] != ks[j]);
        } else {
            // ks2[j] == k0, which is absent from ks
            if ks[i] == k0 {
                assert(ks.contains(k0)) by {
                    assert(0 <= i < ks.len() && ks[i] == k0);
                }
            }
        }
    }
    let m1 = assoc_map(ks2, vs2);
    let m2 = assoc_map(ks, vs).insert(k0, v);
    assert(m1.dom() =~= m2.dom()) by {
        assert forall|k: Seq<char>| ks2.contains(k) implies ks.contains(k) || k == k0 by {
            lemma_key_index_works(ks2, k);
            let j = key_index(ks2, k);
            if j < n {
                assert(ks[j] == k);
                assert(ks.contains(k)) by {
                    assert(0 <= j < ks.len() && ks[j] == k);
                }
            }
        }
        assert forall|k: Seq<char>| ks.contains(k) || k == k0 implies ks2.contains(k) by {
            if ks.contains(k) {
                lemma_key_index_works(ks, k);
                let j = key_index(ks, k);
                assert(ks2[j] == k);
                assert(ks2.contains(k)) by {
                    assert(0 <= j < ks2.len() && ks2[j] == k);
                }
            } else {
                assert(ks2[n] == k0);
                assert(ks2.contains(k)) by {
                    assert(0 <= n < ks2.len() && ks2[n] == k);
                }
            }
        }
    }
    assert forall|k: Seq<char>| m1.dom().contains(k) implies m1[k] == m2[k] by {
        lemma_key_index_works(ks2, k);
        let j2 = key_index(ks2, k);
        if k == k0 {
            assert(j2 == n) by {
                if j2 < n {
                    assert(ks[j2] == k0);
                    assert(ks.contains(k0)) by {
                        assert(0 <= j2 < ks.len() && ks[j2] == k0);
                    }
                }
            }
            assert(m1[k] == v);
        } else {
            assert(j2 < n);
            assert(ks[j2] == k);
            assert(ks.contains(k)) by {
                assert(0 <= j2 < ks.len() && ks[j2] == k);
            }
            lemma_key_index_works(ks, k);
            let j = key_index(ks, k);
            assert(j == j2) by {
                if j < j2 {
                    assert(ks2[j] == ks[j]);
                    assert(ks2[j] != ks2[j2]);
                } else if j2 < j {
                    assert(ks2[j] == ks[j]);
                    assert(ks2[j2] != ks2[j]);
                }
            }
            assert(m1[k] == vs2[j2]);
            assert(m2[k] == vs[j]);
        }
    }
    assert(m1 =~= m2);
}

/// Removing the entry at position `i` is a map remove of the key there, and
/// keeps keys distinct.
pub proof fn lemma_assoc_map_remove<T>(ks: Seq<Seq<char>>, vs: Seq<T>, i: int)
    requires
        distinct_keys(ks),
        ks.len() == vs.len(),
        0 <= i < ks.len(),
    ensures
        distinct_keys(ks.remove(i)),
        assoc_map(ks.remove(i), vs.remove(i)) == assoc_map(ks, vs).remove(ks[i]),
{
    lemma_key_index_unique(ks, i);
    let ks2 = ks.remove(i);
    let vs2 = vs.remove(i);
    let n = ks.len() as int;
    // index correspondence: ks2[j] == ks[j] for j < i, ks2[j] == ks[j + 1] for j >= i
    assert forall|p: int, q: int| 0 <= p < q < ks2.len() implies ks2[p] != ks2[q] by {
        let p0: int = if p < i { p } else { p + 1 };
        let q0: int = if q < i { q } else { q + 1 };
        assert(ks2[p] == ks[p0]);
        assert(ks2[q] == ks[q0]);
        assert(ks[p0] != ks[q0]);
    }
    let m1 = assoc_map(ks2, vs2);
    let m2 = assoc_map(ks, vs).remove(ks[i]);
    assert(m1.dom() =~= m2.dom()) by {
        assert forall|k: Seq<char>| ks2.contains(k) implies ks.contains(k) && k != ks[i] by {
            lemma_key_index_works(ks2, k);
            let j = key_index(ks2, k);
            let j0: int = if j < i { j } else { j + 1 };
            assert(ks[j0] == k);
            assert(ks.contains(k)) by {
                assert(0 <= j0 < ks.len() && ks[j0] == k);
            }
            assert(j0 != i);
            assert(ks[j0] != ks[i]);
        }
        assert forall|k: Seq<char>| ks.contains(k) && k != ks[i] implies ks2.contains(k) by {
            lemma_key_index_works(ks, k);
            let j = key_index(ks, k);
            assert(j != i);
            let j2: int = if j < i { j } else { j - 1 };
            assert(ks2[j2] == ks[j]);
            assert(ks2.contains(k)) by {
                assert(0 <= j2 < ks2.len() && ks2[j2] == k);
            }
        }
    }
    assert forall|k: Seq<char>| m1.dom().contains(k) implies m1[k] == m2[k] by {
        lemma_key_index_works(ks2, k);
        let j2 = key_index(ks2, k);
        let j0: int = if j2 < i { j2 } else { j2 + 1 };
        assert(ks2[j2] == ks[j0]);
        assert(ks.contains(k)) by {
            assert(0 <= j0 < ks.len() && ks[j0] == k);
        }
        lemma_key_index_works(ks, k);
        let j = key_index(ks, k);
        assert(j == j0) by {
            if j < j0 {
                assert(ks[j] != ks[j0]);
            } else if j0 < j {
                assert(ks[j0] != ks[j]);
            }
        }
        assert(m1[k] == vs2[j2]);
        assert(vs2[j2] == vs[j0]);
        assert(m2[k] == vs[j]);
    }
    assert(m1 =~= m2);
}

impl<V: DeepView> StrMap<V> {
    /// The keys, as character sequences, in storage order.
    pub closed spec fn keys_seq(&self) -> Seq<Seq<char>> {
        Seq::new(self.keys@.len(), |i: int| self.keys@[i]@)
    }

    /// The values, as their deep views, in storage order.
    pub closed spec fn vals_seq(&self) -> Seq<<V as DeepView>::V> {
        Seq::new(self.vals@.len(), |i: int| self.vals@[i].deep_view())
    }

    /// Well-formed: one value per key, and no key twice.
    pub open spec fn wf(&self) -> bool {
        &&& self.keys_seq().len() == self.vals_seq().len()
        &&& distinct_keys(self.keys_seq())
    }

    pub fn new() -> (m: Self)
        ensures
            m.wf(),
            m@ == Map::<Seq<char>, <V as DeepView>::V>::empty(),
            m.keys_seq().len() == 0,
    {
        let m = StrMap { keys: Vec::new(), vals: Vec::new() };
        proof {
            assert forall|k: Seq<char>| !m.keys_seq().contains(k) by {}
            assert(m@ =~= Map::<Seq<char>, <V as DeepView>::V>::empty());
        }
        m
    }

    /// How many keys are present.
    pub fn len(&self) -> (n: usize)
        ensures
            n == self.keys_seq().len(),
    {
        self.keys.len()
    }

    fn find(&self, key: &String) -> (r: Option<usize>)
        ensures
            match r {
                Some(i) => i < self.keys_seq().len() && self.keys_seq()[i as int] == key@,
                None => !self.keys_seq().contains(key@),
            },
    {
        let n = self.keys.len();
        let mut i: usize = 0;
        while i < n
            invariant
                n == self.keys@.len(),
                i <= n,
                forall|j: int| 0 <= j < i ==> self.keys_seq()[j] != key@,
            decreases n - i,
        {
            if self.keys[i].eq(key) {
                return Some(i);
            }
            i = i + 1;
        }
        None
    }

    pub fn contains_key(&self, key: &String) -> (b: bool)
        ensures
            b == self@.contains_key(key@),
    {
        match self.find(key) {
            Some(i) => {
                proof {
                    assert(self.keys_seq().contains(key@)) by {
                        assert(self.keys_seq()[i as int] == key@);
                    }
                }
                true
            },
            None => false,
        }
    }

    pub fn get(&self, key: &String) -> (r: Option<&V>)
        requires
            self.wf(),
        ensures
            match r {
                Some(v) => self@.contains_key(key@) && v.deep_view() == self@[key@],
                None => !self@.contains_key(key@),
            },
    {
        match self.find(key) {
            Some(i) => {
                proof {
                    lemma_assoc_map_at(self.keys_seq(), self.vals_seq(), i as int);
                }
                Some(&self.vals[i])
            },
            None => None,
        }
    }

    /// Inserts `val` under `key`, overwriting any existing entry. A fresh key
    /// goes to the end of the storage order; an existing key keeps its place.
    pub fn insert(&mut self, key: String, val: V)
        requires
            old(self).wf(),
        ensures
            final(self).wf(),
            final(self)@ == old(self)@.insert(key@, val.deep_view()),
            old(self)@.contains_key(key@) ==> final(self).keys_seq() == old(self).keys_seq(),
            !old(self)@.contains_key(key@) ==> final(self).keys_seq() == old(self).keys_seq().push(
                key@,
            ),
    {
        let ghost ks = self.keys_seq();
        let ghost vs = self.vals_seq();
        match self.find(&key) {
            Some(i) => {
                self.vals.set(i, val);
                proof {
                    assert(self.keys_seq() =~= ks);
                    assert(self.vals_seq() =~= vs.update(i as int, val.deep_view()));
                    lemma_assoc_map_update(ks, vs, i as int, val.deep_view());
                    lemma_key_index_unique(ks, i as int);
                }
            },
            None => {
                self.keys.push(key);
                self.vals.push(val);
                proof {
                    assert(self.keys_seq() =~= ks.push(key@));
                    assert(self.vals_seq() =~= vs.push(val.deep_view()));
                    lemma_assoc_map_push(ks, vs, key@, val.deep_view());
                }
            },
        }
    }

    /// Removes the entry under `key` if present; reports whether one existed.
    pub fn remove(&mut self, key: &String) -> (was: bool)
        requires
            old(self).wf(),
        ensures
            final(self).wf(),
            was == old(self)@.contains_key(key@),
            final(self)@ == old(self)@.remove(key@),
    {
        let ghost ks = self.keys_seq();
        let ghost vs = self.vals_seq();
        match self.find(key) {
            Some(i) => {
                self.keys.remove(i);
                self.vals.remove(i);
                proof {
                    assert(self.keys_seq() =~= ks.remove(i as int));
                    assert(self.vals_seq() =~= vs.remove(i as int));
                    lemma_assoc_map_remove(ks, vs, i as int);
                    lemma_key_index_unique(ks, i as int);
                }
                true
            },
            None => {
                proof {
                    assert(old(self)@ =~= old(self)@.remove(key@));
                }
                false
            },
        }
    }

    /// Removes every entry.
    pub fn clear(&mut self)
        ensures
            final(self).wf(),
            final(self)@ == Map::<Seq<char>, <V as DeepView>::V>::empty(),
            final(self).keys_seq().len() == 0,
    {
        self.keys.clear();
        self.vals.clear();
        proof {
            assert forall|k: Seq<char>| !self.keys_seq().contains(k) by {}
            assert(self@ =~= Map::<Seq<char>, <V as DeepView>::V>::empty());
        }
    }

    /// The key at position `i` of the storage order.
    pub fn key_at(&self, i: usize) -> (k: &String)
        requires
            self.wf(),
            i < self.keys_seq().len(),
        ensures
            k@ == self.keys_seq()[i as int],
            self@.contains_key(k@),
            self@[k@] == self.vals_seq()[i as int],
    {
        proof {
            lemma_assoc_map_at(self.keys_seq(), self.vals_seq(), i as int);
        }
        &self.keys[i]
    }

    /// The value at position `i` of the storage order.
    pub fn value_at(&self, i: usize) -> (v: &V)
        requires
            self.wf(),
            i < self.keys_seq().len(),
        ensures
            v.deep_view() == self.vals_seq()[i as int],
            v.deep_view() == self@[self.keys_seq()[i as int]],
    {
        proof {
            lemma_assoc_map_at(self.keys_seq(), self.vals_seq(), i as int);
        }
        &self.vals[i]
    }

    /// Replaces the value at position `i`, keeping the key.
    pub fn replace_value_at(&mut self, i: usize, val: V)
        requires
            old(self).wf(),
            i < old(self).keys_seq().len(),
        ensures
            final(self).wf(),
            final(self).keys_seq() == old(self).keys_seq(),
            final(self).vals_seq() == old(self).vals_seq().update(i as int, val.deep_view()),
            final(self)@ == old(self)@.insert(old(self).keys_seq()[i as int], val.deep_view()),
    {
        let ghost ks = self.keys_seq();
        let ghost vs = self.vals_seq();
        self.vals.set(i, val);
        proof {
            assert(self.keys_seq() =~= ks);
            assert(self.vals_seq() =~= vs.update(i as int, val.deep_view()));
            lemma_assoc_map_update(ks, vs, i as int, val.deep_view());
        }
    }
}

impl<V: DeepView> View for StrMap<V> {
    type V = Map<Seq<char>, <V as DeepView>::V>;

    open spec fn view(&self) -> Map<Seq<char>, <V as DeepView>::V> {
        assoc_map(self.keys_seq(), self.vals_seq())
    }
}

} // verus!
