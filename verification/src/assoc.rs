//! A small map kept as a list of entries, for keys that are compared by
//! what they stand for rather than by how they are stored.

use vstd::prelude::*;

verus! {

/// A key with a mathematical model and an equality test that decides
/// whether two keys have the same model.
pub trait Keyed {
    type Model;

    /// What the key stands for.
    spec fn model(&self) -> Self::Model;

    /// Whether both keys stand for the same thing.
    fn same_key(&self, other: &Self) -> (r: bool)
        ensures
            r == (self.model() == other.model()),
    ;
}

/// One key with its value.
#[derive(Debug)]
pub struct Entry<K, V> {
    pub key: K,
    pub value: V,
}

/// No key occurs twice.
pub open spec fn keys_distinct<K: Keyed, V>(s: Seq<Entry<K, V>>) -> bool {
    forall|i: int, j: int| 0 <= i < j < s.len() ==> s[i].key.model() != s[j].key.model()
}

/// The map that a list of entries stands for; a later entry for a key
/// replaces an earlier one.
pub open spec fn entries_map<K: Keyed, V>(s: Seq<Entry<K, V>>) -> Map<K::Model, V>
    decreases s.len(),
{
    if s.len() == 0 {
        Map::empty()
    } else {
        entries_map(s.drop_last()).insert(s.last().key.model(), s.last().value)
    }
}

/// The keys of the map are the keys in the list. Where no key occurs
/// twice, the map holds each entry's value under its key and has as many
/// keys as the list has entries.
pub proof fn lemma_entries_map<K: Keyed, V>(s: Seq<Entry<K, V>>)
    ensures
        forall|k: K::Model| #[trigger]
            entries_map(s).contains_key(k) <==> exists|i: int|
                0 <= i < s.len() && (#[trigger] s[i]).key.model() == k,
        entries_map(s).dom().finite(),
        keys_distinct(s) ==> entries_map(s).dom().len() == s.len(),
        keys_distinct(s) ==> forall|i: int|
            0 <= i < s.len() ==> entries_map(s)[(#[trigger] s[i]).key.model()] == s[i].value,
    decreases s.len(),
{
    if s.len() == 0 {
    } else {
        let front = s.drop_last();
        let last = s.last();
        lemma_entries_map(front);
        assert forall|k: K::Model| #[trigger]
            entries_map(s).contains_key(k) <==> exists|i: int|
                0 <= i < s.len() && (#[trigger] s[i]).key.model() == k by {
            if entries_map(s).contains_key(k) {
                if k == last.key.model() {
                    assert(s[s.len() - 1].key.model() == k);
                } else {
                    assert(entries_map(front).contains_key(k));
                    let i = choose|i: int|
                        0 <= i < front.len() && (#[trigger] front[i]).key.model() == k;
                    assert(s[i].key.model() == k);
                }
            }
            if exists|i: int| 0 <= i < s.len() && (#[trigger] s[i]).key.model() == k {
                let i = choose|i: int| 0 <= i < s.len() && (#[trigger] s[i]).key.model() == k;
                if i < s.len() - 1 {
                    assert(front[i].key.model() == k);
                }
            }
        }
        if keys_distinct(s) {
            assert(keys_distinct(front));
            if entries_map(front).contains_key(last.key.model()) {
                let i = choose|i: int|
                    0 <= i < front.len() && (#[trigger] front[i]).key.model() == last.key.model();
                assert(s[i].key.model() == s[s.len() - 1].key.model());
            }
            assert forall|i: int| 0 <= i < s.len() implies entries_map(s)[(
            #[trigger] s[i]).key.model()] == s[i].value by {
                if i < s.len() - 1 {
                    assert(front[i] == s[i]);
                    assert(s[i].key.model() != s[s.len() - 1].key.model());
                }
            }
        }
    }
}

/// Replacing entry `i` by one with the same key puts the new value under
/// that key.
pub proof fn lemma_entries_map_update<K: Keyed, V>(s: Seq<Entry<K, V>>, i: int, e: Entry<K, V>)
    requires
        keys_distinct(s),
        0 <= i < s.len(),
        e.key.model() == s[i].key.model(),
    ensures
        keys_distinct(s.update(i, e)),
        entries_map(s.update(i, e)) == entries_map(s).insert(e.key.model(), e.value),
    decreases s.len(),
{
    let t = s.update(i, e);
    assert forall|a: int, b: int| 0 <= a < b < t.len() implies t[a].key.model()
        != t[b].key.model() by {
        assert(s[a].key.model() != s[b].key.model());
    }
    let front = s.drop_last();
    if i == s.len() - 1 {
        assert(t.drop_last() =~= front);
        assert(entries_map(t) =~= entries_map(s).insert(e.key.model(), e.value));
    } else {
        assert(keys_distinct(front));
        lemma_entries_map_update(front, i, e);
        assert(t.drop_last() =~= front.update(i, e));
        assert(t.last() == s.last());
        assert(s[i].key.model() != s[s.len() - 1].key.model());
        assert(entries_map(t) =~= entries_map(s).insert(e.key.model(), e.value));
    }
}

/// Lists with the same keys and values in the same places stand for the
/// same map.
pub proof fn lemma_same_entries<K: Keyed, V>(a: Seq<Entry<K, V>>, b: Seq<Entry<K, V>>)
    requires
        a.len() == b.len(),
        forall|k: int|
            0 <= k < a.len() ==> (#[trigger] a[k]).key.model() == b[k].key.model() && a[k].value
                == b[k].value,
    ensures
        entries_map(a) == entries_map(b),
        keys_distinct(b) ==> keys_distinct(a),
    decreases a.len(),
{
    if a.len() > 0 {
        let fa = a.drop_last();
        let fb = b.drop_last();
        assert forall|k: int| 0 <= k < fa.len() implies (#[trigger] fa[k]).key.model()
            == fb[k].key.model() && fa[k].value == fb[k].value by {
            assert(a[k].key.model() == b[k].key.model());
        }
        lemma_same_entries(fa, fb);
        assert(a[a.len() - 1].key.model() == b[a.len() - 1].key.model());
    }
    if keys_distinct(b) {
        assert forall|i: int, j: int| 0 <= i < j < a.len() implies a[i].key.model()
            != a[j].key.model() by {
            assert(a[i].key.model() == b[i].key.model());
            assert(a[j].key.model() == b[j].key.model());
        }
    }
}

/// A finite map from keys to values.
#[derive(Debug)]
pub struct AssocMap<K, V> {
    entries: Vec<Entry<K, V>>,
}

impl<K: Keyed, V> View for AssocMap<K, V> {
    type V = Map<K::Model, V>;

    closed spec fn view(&self) -> Map<K::Model, V> {
        entries_map(self.entries@)
    }
}

impl<K: Keyed, V> AssocMap<K, V> {
    /// No key is held twice.
    pub closed spec fn wf(&self) -> bool {
        keys_distinct(self.entries@)
    }

    /// The entries behind the map, in the order the keys were first set.
    pub closed spec fn listed(&self) -> Seq<Entry<K, V>> {
        self.entries@
    }

    /// The map is the one that the listed entries stand for, and no key is
    /// listed twice.
    pub proof fn lemma_listed(&self)
        requires
            self.wf(),
        ensures
            self@ == entries_map(self.listed()),
            keys_distinct(self.listed()),
    {
    }

    /// The empty map.
    pub fn new() -> (r: Self)
        ensures
            r.wf(),
            r@ == Map::<K::Model, V>::empty(),
            r.listed().len() == 0,
    {
        AssocMap { entries: Vec::new() }
    }

    /// The map that holds `entries`, which the caller knows to have no key
    /// twice.
    pub fn from_distinct(entries: Vec<Entry<K, V>>) -> (r: Self)
        requires
            keys_distinct(entries@),
        ensures
            r.wf(),
            r@ == entries_map(entries@),
            r.listed() == entries@,
    {
        AssocMap { entries }
    }

    /// The number of keys.
    pub fn len(&self) -> (r: usize)
        requires
            self.wf(),
        ensures
            self@.dom().finite(),
            r == self@.len(),
            r == self.listed().len(),
    {
        proof {
            lemma_entries_map(self.entries@);
        }
        self.entries.len()
    }

    /// Entry `index` in the order the keys were first set.
    pub fn entry(&self, index: usize) -> (r: &Entry<K, V>)
        requires
            index < self.listed().len(),
        ensures
            *r == self.listed()[index as int],
    {
        &self.entries[index]
    }

    /// The place of `key` among the entries, if it is held.
    fn position(&self, key: &K) -> (r: Option<usize>)
        ensures
            match r {
                Some(i) => i < self.entries@.len() && self.entries@[i as int].key.model()
                    == key.model(),
                None => forall|i: int|
                    0 <= i < self.entries@.len() ==> (#[trigger] self.entries@[i]).key.model()
                        != key.model(),
            },
    {
        let n: usize = self.entries.len();
        let mut i: usize = 0;
        while i < n
            invariant
                n == self.entries.len(),
                i <= n,
                forall|k: int|
                    0 <= k < i ==> (#[trigger] self.entries@[k]).key.model() != key.model(),
            decreases n - i,
        {
            if self.entries[i].key.same_key(key) {
                return Some(i);
            }
            i += 1;
        }
        None
    }

    /// Whether `key` is held.
    pub fn contains_key(&self, key: &K) -> (r: bool)
        requires
            self.wf(),
        ensures
            r == self@.contains_key(key.model()),
    {
        proof {
            lemma_entries_map(self.entries@);
        }
        self.position(key).is_some()
    }

    /// The value under `key`, if it is held.
    pub fn get(&self, key: &K) -> (r: Option<&V>)
        requires
            self.wf(),
        ensures
            match r {
                Some(v) => self@.contains_key(key.model()) && *v == self@[key.model()],
                None => !self@.contains_key(key.model()),
            },
    {
        proof {
            lemma_entries_map(self.entries@);
        }
        match self.position(key) {
            Some(i) => Some(&self.entries[i].value),
            None => None,
        }
    }

    /// Puts `value` under `key`, in place of what was there.
    pub fn insert(&mut self, key: K, value: V)
        requires
            old(self).wf(),
        ensures
            final(self).wf(),
            final(self)@ == old(self)@.insert(key.model(), value),
    {
        let found = self.position(&key);
        let entry = Entry { key, value };
        match found {
            Some(i) => {
                proof {
                    lemma_entries_map_update(self.entries@, i as int, entry);
                }
                self.entries[i] = entry;
            },
            None => {
                proof {
                    let s = self.entries@;
                    let t = s.push(entry);
                    assert(t.drop_last() =~= s);
                    assert forall|a: int, b: int| 0 <= a < b < t.len() implies t[a].key.model()
                        != t[b].key.model() by {
                        if b == s.len() {
                            assert(s[a].key.model() != entry.key.model());
                        }
                    }
                }
                self.entries.push(entry);
            },
        }
    }
}

} // verus!
