//! Identifier-keyed storage: an association list from `u64` identifiers to
//! records, with unique keys.  Each registry owns one of these per record
//! kind; lookups are specified through the `spec_find` function below.

use vstd::prelude::*;

verus! {

/// First value stored under a key, searching from the front.
pub open spec fn spec_find<V>(s: Seq<(u64, V)>, key: u64) -> Option<V>
    decreases s.len(),
{
    if s.len() == 0 {
        None
    } else if s[0].0 == key {
        Some(s[0].1)
    } else {
        spec_find(s.drop_first(), key)
    }
}

/// No key occurs twice.
pub open spec fn unique_keys<V>(s: Seq<(u64, V)>) -> bool {
    forall|i: int, j: int| 0 <= i < j < s.len() ==> s[i].0 != s[j].0
}

/// A found key occurs at some index, and a missing key at none.
pub proof fn lemma_find_index<V>(s: Seq<(u64, V)>, key: u64)
    ensures
        spec_find(s, key) is Some <==> exists|i: int| 0 <= i < s.len() && s[i].0 == key,
    decreases s.len(),
{
    if s.len() > 0 && s[0].0 != key {
        lemma_find_index(s.drop_first(), key);
        if spec_find(s, key) is Some {
            let i = choose|i: int| 0 <= i < s.drop_first().len() && s.drop_first()[i].0 == key;
            assert(s[i + 1].0 == key);
        }
        if exists|i: int| 0 <= i < s.len() && s[i].0 == key {
            let i = choose|i: int| 0 <= i < s.len() && s[i].0 == key;
            assert(s.drop_first()[i - 1].0 == key);
        }
    }
}

/// With unique keys, the entry at any index is the one `spec_find` returns.
pub proof fn lemma_find_at_index<V>(s: Seq<(u64, V)>, i: int)
    requires
        unique_keys(s),
        0 <= i < s.len(),
    ensures
        spec_find(s, s[i].0) == Some(s[i].1),
    decreases s.len(),
{
    if i > 0 {
        assert(s[0].0 != s[i].0);
        lemma_find_at_index(s.drop_first(), i - 1);
        assert(s.drop_first()[i - 1] == s[i]);
    }
}

/// Appending an entry leaves every earlier key's lookup unchanged and makes
/// the new key found, provided it was absent before.
pub proof fn lemma_find_push<V>(s: Seq<(u64, V)>, e: (u64, V), key: u64)
    ensures
        spec_find(s.push(e), key) == if spec_find(s, key) is Some {
            spec_find(s, key)
        } else if e.0 == key {
            Some(e.1)
        } else {
            None::<V>
        },
    decreases s.len(),
{
    if s.len() == 0 {
        assert(s.push(e)[0] == e);
        assert(s.push(e).drop_first() =~= Seq::<(u64, V)>::empty());
        assert(spec_find(Seq::<(u64, V)>::empty(), key) is None);
        assert(spec_find(s, key) is None);
    } else {
        assert(s.push(e)[0] == s[0]);
        assert(s.push(e).drop_first() =~= s.drop_first().push(e));
        lemma_find_push(s.drop_first(), e, key);
    }
}

/// Replacing the value at an index (keeping its key) changes only that
/// key's lookup.
pub proof fn lemma_find_update<V>(s: Seq<(u64, V)>, i: int, v: V, key: u64)
    requires
        unique_keys(s),
        0 <= i < s.len(),
    ensures
        spec_find(s.update(i, (s[i].0, v)), key) == if key == s[i].0 {
            Some(v)
        } else {
            spec_find(s, key)
        },
    decreases s.len(),
{
    let t = s.update(i, (s[i].0, v));
    if i == 0 {
        assert(t[0] == (s[0].0, v));
        if key != s[0].0 {
            assert(t.drop_first() =~= s.drop_first());
        }
    } else {
        assert(t[0] == s[0]);
        assert(s[0].0 != s[i].0);
        if key != s[0].0 {
            assert(t.drop_first() =~= s.drop_first().update(i - 1, (s.drop_first()[i - 1].0, v)));
            lemma_find_update(s.drop_first(), i - 1, v, key);
        }
    }
}

/// An association list from `u64` identifiers to values of type `V`, with
/// unique keys.  The view is the underlying entry sequence.
pub struct IdMap<V> {
    entries: Vec<(u64, V)>,
}

impl<V> View for IdMap<V> {
    type V = Seq<(u64, V)>;

    closed spec fn view(&self) -> Seq<(u64, V)> {
        self.entries@
    }
}

impl<V> IdMap<V> {
    /// Keys are unique, so `spec_find` describes the whole map.
    pub open spec fn wf(self) -> bool {
        unique_keys(self@)
    }

    /// Lookup in the map's current state.
    pub open spec fn spec_get(self, key: u64) -> Option<V> {
        spec_find(self@, key)
    }

    /// The empty map.
    pub fn new() -> (r: IdMap<V>)
        ensures
            r.wf(),
            r@.len() == 0,
            forall|k: u64| r.spec_get(k) is None,
    {
        let r = IdMap { entries: Vec::new() };
        proof {
            assert(forall|k: u64| spec_find(r@, k) is None);
        }
        r
    }

    /// Number of entries.
    pub fn len(&self) -> (n: usize)
        ensures
            n == self@.len(),
    {
        self.entries.len()
    }

    /// The position of a key, if present.
    fn index_of(&self, key: u64) -> (r: Option<usize>)
        requires
            self.wf(),
        ensures
            match r {
                Some(i) => i < self@.len() && self@[i as int].0 == key
                    && self.spec_get(key) == Some(self@[i as int].1),
                None => self.spec_get(key) is None,
            },
    {
        let n = self.entries.len();
        let mut i: usize = 0;
        while i < n
            invariant
                n == self@.len(),
                i <= n,
                self.wf(),
                forall|j: int| 0 <= j < i ==> self@[j].0 != key,
            decreases n - i,
        {
            if self.entries[i].0 == key {
                proof {
                    lemma_find_at_index(self@, i as int);
                }
                return Some(i);
            }
            i = i + 1;
        }
        proof {
            lemma_find_index(self@, key);
        }
        None
    }

    /// Borrow the value stored under a key.
    pub fn get(&self, key: u64) -> (r: Option<&V>)
        requires
            self.wf(),
        ensures
            match r {
                Some(v) => self.spec_get(key) == Some(*v),
                None => self.spec_get(key) is None,
            },
    {
        match self.index_of(key) {
            Some(i) => Some(&self.entries[i].1),
            None => None,
        }
    }

    /// Whether a key is present.
    pub fn contains_key(&self, key: u64) -> (b: bool)
        requires
            self.wf(),
        ensures
            b == (self.spec_get(key) is Some),
    {
        match self.index_of(key) {
            Some(_) => true,
            None => false,
        }
    }

    /// Add an entry under a key that is not yet present.
    pub fn insert_new(&mut self, key: u64, value: V)
        requires
            old(self).wf(),
            old(self).spec_get(key) is None,
        ensures
            final(self).wf(),
            final(self)@ == old(self)@.push((key, value)),
            final(self).spec_get(key) == Some(value),
            forall|k: u64| k != key ==> final(self).spec_get(k) == old(self).spec_get(k),
    {
        proof {
            lemma_find_index(old(self)@, key);
        }
        self.entries.push((key, value));
        proof {
            assert forall|k: u64| k != key implies final(self).spec_get(k) == old(
                self,
            ).spec_get(k) by {
                lemma_find_push(old(self)@, (key, value), k);
            }
            lemma_find_push(old(self)@, (key, value), key);
            assert forall|i: int, j: int|
                0 <= i < j < final(self)@.len() implies final(self)@[i].0 != final(self)@[j].0 by {
                if j == final(self)@.len() - 1 {
                    lemma_find_at_index(old(self)@, i);
                }
            }
        }
    }

    /// Replace the value stored under a key that is present.
    pub fn set(&mut self, key: u64, value: V)
        requires
            old(self).wf(),
            old(self).spec_get(key) is Some,
        ensures
            final(self).wf(),
            final(self)@.len() == old(self)@.len(),
            final(self).spec_get(key) == Some(value),
            forall|k: u64| k != key ==> final(self).spec_get(k) == old(self).spec_get(k),
            exists|i: int|
                0 <= i < old(self)@.len() && old(self)@[i].0 == key && final(self)@ == old(
                    self,
                )@.update(i, (key, value)),
    {
        proof {
            lemma_find_index(old(self)@, key);
        }
        let i = match self.index_of(key) {
            Some(i) => i,
            None => {
                proof {
                    assert(false);
                }
                0
            },
        };
        self.entries[i] = (key, value);
        proof {
            let s = old(self)@;
            assert(final(self)@ == s.update(i as int, (key, value)));
            assert(s.update(i as int, (key, value)) == s.update(i as int, (s[i as int].0, value)));
            assert forall|k: u64| k != key implies final(self).spec_get(k) == old(
                self,
            ).spec_get(k) by {
                lemma_find_update(s, i as int, value, k);
            }
            lemma_find_update(s, i as int, value, key);
            assert forall|a: int, b: int|
                0 <= a < b < final(self)@.len() implies final(self)@[a].0 != final(self)@[b].0 by {
                assert(s[a].0 != s[b].0);
            }
        }
    }
}

} // verus!
