//! A map keyed by strings, held as a list of distinct keys with their values.

use vstd::prelude::*;

verus! {

/// Whether no key occurs twice in a list of entries.
pub open spec fn keys_distinct<V>(s: Seq<(String, V)>) -> bool {
    forall|i: int, j: int|
        0 <= i < s.len() && 0 <= j < s.len() && i != j ==> #[trigger] s[i].0@ != #[trigger] s[j].0@
}

/// Whether the key occurs among the entries.
pub open spec fn has_key<V>(s: Seq<(String, V)>, k: Seq<char>) -> bool {
    exists|i: int| 0 <= i < s.len() && #[trigger] s[i].0@ == k
}

/// The map that a list of entries stands for.
pub open spec fn entries_map<V>(s: Seq<(String, V)>) -> Map<Seq<char>, V> {
    Map::new(
        |k: Seq<char>| has_key(s, k),
        |k: Seq<char>| s[choose|i: int| 0 <= i < s.len() && #[trigger] s[i].0@ == k].1,
    )
}

/// The value at a position is the map's value at that position's key.
pub proof fn lemma_entry<V>(s: Seq<(String, V)>, i: int)
    requires
        keys_distinct(s),
        0 <= i < s.len(),
    ensures
        entries_map(s).dom().contains(s[i].0@),
        entries_map(s)[s[i].0@] == s[i].1,
{
    let k = s[i].0@;
    assert(has_key(s, k));
    let j = choose|j: int| 0 <= j < s.len() && #[trigger] s[j].0@ == k;
    assert(j == i);
}

/// A map from strings to values.
pub struct StringMap<V> {
    entries: Vec<(String, V)>,
}

impl<V> StringMap<V> {
    /// The entries, in the order in which their keys were first inserted.
    pub closed spec fn entries(&self) -> Seq<(String, V)> {
        self.entries@
    }

    /// The map.
    pub open spec fn view(&self) -> Map<Seq<char>, V> {
        entries_map(self.entries())
    }

    /// Keys are distinct.
    pub open spec fn wf(&self) -> bool {
        keys_distinct(self.entries())
    }

    /// An empty map.
    pub fn new() -> (m: Self)
        ensures
            m.wf(),
            m@ == Map::<Seq<char>, V>::empty(),
            m.entries().len() == 0,
    {
        let m = StringMap { entries: Vec::new() };
        assert(m@ =~= Map::<Seq<char>, V>::empty());
        m
    }

    /// The number of keys.
    pub fn len(&self) -> (n: usize)
        ensures
            n == self.entries().len(),
    {
        self.entries.len()
    }

    /// The position of a key among the entries.
    pub fn find(&self, key: &str) -> (r: Option<usize>)
        requires
            self.wf(),
        ensures
            r is Some <==> self@.dom().contains(key@),
            r matches Some(i) ==> i < self.entries().len() && self.entries()[i as int].0@ == key@,
    {
        let wanted: String = key.to_owned();
        let n = self.entries.len();
        for i in 0..n
            invariant
                n == self.entries@.len(),
                wanted@ == key@,
                forall|j: int| 0 <= j < i ==> self.entries@[j].0@ != key@,
        {
            if self.entries[i].0 == wanted {
                assert(has_key(self.entries@, key@));
                return Some(i);
            }
        }
        None
    }

    /// The key at a position.
    pub fn key_at(&self, i: usize) -> (k: &String)
        requires
            i < self.entries().len(),
        ensures
            *k == self.entries()[i as int].0,
    {
        &self.entries[i].0
    }

    /// The value at a position.
    pub fn value_at(&self, i: usize) -> (v: &V)
        requires
            i < self.entries().len(),
        ensures
            *v == self.entries()[i as int].1,
    {
        &self.entries[i].1
    }

    /// The value under a key.
    pub fn get(&self, key: &str) -> (r: Option<&V>)
        requires
            self.wf(),
        ensures
            r is Some <==> self@.dom().contains(key@),
            r matches Some(v) ==> *v == self@[key@],
    {
        match self.find(key) {
            Some(i) => {
                proof {
                    lemma_entry(self.entries(), i as int);
                }
                Some(&self.entries[i].1)
            },
            None => None,
        }
    }

    /// Replaces the value at a position, keeping its key.
    pub fn set_value_at(&mut self, i: usize, value: V)
        requires
            old(self).wf(),
            i < old(self).entries().len(),
        ensures
            final(self).wf(),
            final(self).entries() == old(self).entries().update(
                i as int,
                (old(self).entries()[i as int].0, value),
            ),
            final(self)@ == old(self)@.insert(old(self).entries()[i as int].0@, value),
    {
        let ghost s = self.entries@;
        let key = self.entries[i].0.clone();
        self.entries.set(i, (key, value));
        let ghost t = self.entries@;
        proof {
            assert(t =~= s.update(i as int, (s[i as int].0, value)));
            assert(keys_distinct(t)) by {
                assert forall|a: int, b: int|
                    0 <= a < t.len() && 0 <= b < t.len() && a != b implies #[trigger] t[a].0@
                    != #[trigger] t[b].0@ by {
                    assert(t[a].0@ == s[a].0@ && t[b].0@ == s[b].0@);
                }
            }
            let k = s[i as int].0@;
            assert forall|q: Seq<char>| #[trigger] entries_map(t).dom().contains(q)
                == entries_map(s).insert(k, value).dom().contains(q) by {
                if has_key(t, q) {
                    let a = choose|a: int| 0 <= a < t.len() && #[trigger] t[a].0@ == q;
                    assert(s[a].0@ == q);
                }
                if has_key(s, q) {
                    let a = choose|a: int| 0 <= a < s.len() && #[trigger] s[a].0@ == q;
                    assert(t[a].0@ == q);
                }
                if q == k {
                    assert(t[i as int].0@ == q);
                }
            }
            assert forall|q: Seq<char>| #[trigger] entries_map(t).dom().contains(q) implies entries_map(
                t,
            )[q] == entries_map(s).insert(k, value)[q] by {
                let a = choose|a: int| 0 <= a < t.len() && #[trigger] t[a].0@ == q;
                lemma_entry(t, a);
                if a != i {
                    lemma_entry(s, a);
                }
            }
            assert(entries_map(t) =~= entries_map(s).insert(k, value));
        }
    }

    /// Adds a key that is not in the map yet, after all others.
    pub fn push_new(&mut self, key: String, value: V)
        requires
            old(self).wf(),
            !old(self)@.dom().contains(key@),
        ensures
            final(self).wf(),
            final(self).entries() == old(self).entries().push((key, value)),
            final(self)@ == old(self)@.insert(key@, value),
    {
        let ghost s = self.entries@;
        let ghost k = key@;
        self.entries.push((key, value));
        let ghost t = self.entries@;
        proof {
            assert(keys_distinct(t)) by {
                assert forall|a: int, b: int|
                    0 <= a < t.len() && 0 <= b < t.len() && a != b implies #[trigger] t[a].0@
                    != #[trigger] t[b].0@ by {
                    if a == s.len() as int {
                        assert(!has_key(s, k));
                        assert(s[b].0@ == t[b].0@);
                    } else if b == s.len() as int {
                        assert(!has_key(s, k));
                        assert(s[a].0@ == t[a].0@);
                    } else {
                        assert(t[a] == s[a] && t[b] == s[b]);
                    }
                }
            }
            assert forall|q: Seq<char>| #[trigger] entries_map(t).dom().contains(q)
                == entries_map(s).insert(k, value).dom().contains(q) by {
                if has_key(t, q) {
                    let a = choose|a: int| 0 <= a < t.len() && #[trigger] t[a].0@ == q;
                    if a < s.len() {
                        assert(s[a].0@ == q);
                    }
                }
                if has_key(s, q) {
                    let a = choose|a: int| 0 <= a < s.len() && #[trigger] s[a].0@ == q;
                    assert(t[a].0@ == q);
                }
                if q == k {
                    assert(t[s.len() as int].0@ == q);
                }
            }
            assert forall|q: Seq<char>| #[trigger] entries_map(t).dom().contains(q) implies entries_map(
                t,
            )[q] == entries_map(s).insert(k, value)[q] by {
                let a = choose|a: int| 0 <= a < t.len() && #[trigger] t[a].0@ == q;
                lemma_entry(t, a);
                if a < s.len() {
                    assert(t[a] == s[a]);
                    lemma_entry(s, a);
                }
            }
            assert(entries_map(t) =~= entries_map(s).insert(k, value));
        }
    }

    /// Sets the value under a key, adding the key after all others where it
    /// is new.
    pub fn insert(&mut self, key: String, value: V)
        requires
            old(self).wf(),
        ensures
            final(self).wf(),
            final(self)@ == old(self)@.insert(key@, value),
            old(self)@.dom().contains(key@) ==> final(self).entries().len() == old(self).entries().len(),
            !old(self)@.dom().contains(key@) ==> final(self).entries() == old(self).entries().push(
                (key, value),
            ),
    {
        match self.find(key.as_str()) {
            Some(i) => {
                self.set_value_at(i, value);
            },
            None => {
                self.push_new(key, value);
            },
        }
    }

    /// Removes a key, giving back its value.  The other entries keep their
    /// order.
    pub fn remove(&mut self, key: &str) -> (r: Option<V>)
        requires
            old(self).wf(),
        ensures
            final(self).wf(),
            final(self)@ == old(self)@.remove(key@),
            r is Some <==> old(self)@.dom().contains(key@),
            r matches Some(v) ==> v == old(self)@[key@],
    {
        match self.find(key) {
            None => {
                assert(old(self)@.remove(key@) =~= old(self)@);
                None
            },
            Some(i) => {
                let ghost s = self.entries@;
                proof {
                    lemma_entry(s, i as int);
                }
                let (_k, v) = self.entries.remove(i);
                let ghost t = self.entries@;
                proof {
                    assert(t =~= s.remove(i as int));
                    assert forall|a: int| 0 <= a < t.len() implies #[trigger] t[a] == s[if a < i {
                        a
                    } else {
                        a + 1
                    }] by {}
                    assert(keys_distinct(t)) by {
                        assert forall|a: int, b: int|
                            0 <= a < t.len() && 0 <= b < t.len() && a != b implies #[trigger] t[a].0@
                            != #[trigger] t[b].0@ by {
                            let a2 = if a < i { a } else { a + 1 };
                            let b2 = if b < i { b } else { b + 1 };
                            assert(t[a] == s[a2] && t[b] == s[b2]);
                        }
                    }
                    let k = key@;
                    assert forall|q: Seq<char>| #[trigger] entries_map(t).dom().contains(q)
                        == entries_map(s).remove(k).dom().contains(q) by {
                        if has_key(t, q) {
                            let a = choose|a: int| 0 <= a < t.len() && #[trigger] t[a].0@ == q;
                            let a2 = if a < i { a } else { a + 1 };
                            assert(t[a] == s[a2]);
                            assert(s[a2].0@ == q);
                            assert(a2 != i);
                        }
                        if has_key(s, q) && q != k {
                            let a = choose|a: int| 0 <= a < s.len() && #[trigger] s[a].0@ == q;
                            assert(a != i);
                            let a1 = if a < i { a } else { a - 1 };
                            assert(t[a1] == s[a]);
                            assert(t[a1].0@ == q);
                        }
                    }
                    assert forall|q: Seq<char>| #[trigger] entries_map(t).dom().contains(q)
                        implies entries_map(t)[q] == entries_map(s).remove(k)[q] by {
                        let a = choose|a: int| 0 <= a < t.len() && #[trigger] t[a].0@ == q;
                        lemma_entry(t, a);
                        let a2 = if a < i { a } else { a + 1 };
                        assert(t[a] == s[a2]);
                        lemma_entry(s, a2);
                    }
                    assert(entries_map(t) =~= entries_map(s).remove(k));
                }
                Some(v)
            },
        }
    }
}

impl<V: Clone> StringMap<V> {
    /// The keys, each once, in the order of the entries.
    pub fn keys(&self) -> (ks: Vec<String>)
        requires
            self.wf(),
        ensures
            ks@.len() == self.entries().len(),
            forall|i: int| 0 <= i < ks@.len() ==> #[trigger] ks@[i] == self.entries()[i].0,
            forall|i: int, j: int|
                0 <= i < ks@.len() && 0 <= j < ks@.len() && i != j ==> #[trigger] ks@[i]@
                    != #[trigger] ks@[j]@,
            forall|k: Seq<char>|
                self@.dom().contains(k) <==> exists|i: int| 0 <= i < ks@.len() && #[trigger] ks@[i]@ == k,
    {
        let mut ks: Vec<String> = Vec::new();
        let n = self.entries.len();
        for i in 0..n
            invariant
                n == self.entries@.len(),
                ks@.len() == i,
                forall|j: int| 0 <= j < i ==> #[trigger] ks@[j] == self.entries@[j].0,
        {
            ks.push(self.entries[i].0.clone());
        }
        proof {
            assert forall|k: Seq<char>| self@.dom().contains(k) implies exists|i: int|
                0 <= i < ks@.len() && #[trigger] ks@[i]@ == k by {
                let a = choose|a: int| 0 <= a < self.entries@.len() && #[trigger] self.entries@[a].0@ == k;
                assert(ks@[a]@ == k);
            }
            assert forall|k: Seq<char>| (exists|i: int| 0 <= i < ks@.len() && #[trigger] ks@[i]@ == k)
                implies self@.dom().contains(k) by {
                let a = choose|a: int| 0 <= a < ks@.len() && #[trigger] ks@[a]@ == k;
                assert(self.entries@[a].0@ == k);
            }
        }
        ks
    }
}

} // verus!
