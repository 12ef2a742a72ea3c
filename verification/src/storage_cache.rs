//! The storage write cache: the values written to contract storage that
//! wait to be committed, the latest one for each key.

use crate::assoc::{lemma_same_entries, AssocMap, Entry, Keyed};
use crate::uint::U256;
use vstd::prelude::*;

verus! {

/// Whether two byte strings hold the same bytes.
pub fn same_bytes(a: &Vec<u8>, b: &Vec<u8>) -> (r: bool)
    ensures
        r == (a@ == b@),
{
    if a.len() != b.len() {
        return false;
    }
    let n: usize = a.len();
    let mut i: usize = 0;
    while i < n
        invariant
            n == a.len(),
            n == b.len(),
            i <= n,
            forall|k: int| 0 <= k < i ==> a@[k] == b@[k],
        decreases n - i,
    {
        if a[i] != b[i] {
            return false;
        }
        i += 1;
    }
    assert(a@ =~= b@);
    true
}

/// A copy of a byte string that shares nothing with it.
pub fn copy_bytes(a: &Vec<u8>) -> (r: Vec<u8>)
    ensures
        r@ == a@,
{
    let mut out: Vec<u8> = Vec::new();
    let n: usize = a.len();
    let mut i: usize = 0;
    while i < n
        invariant
            n == a.len(),
            i <= n,
            out@ == a@.take(i as int),
        decreases n - i,
    {
        out.push(a[i]);
        assert(a@.take(i + 1) =~= a@.take(i as int).push(a@[i as int]));
        i += 1;
    }
    assert(a@.take(n as int) =~= a@);
    out
}

impl Keyed for Vec<u8> {
    type Model = Seq<u8>;

    open spec fn model(&self) -> Seq<u8> {
        self@
    }

    fn same_key(&self, other: &Vec<u8>) -> (r: bool) {
        same_bytes(self, other)
    }
}

/// The pending storage writes of one account.
#[derive(Debug)]
pub struct StorageWriteCache {
    writes: AssocMap<Vec<u8>, U256>,
}

impl View for StorageWriteCache {
    type V = Map<Seq<u8>, U256>;

    closed spec fn view(&self) -> Map<Seq<u8>, U256> {
        self.writes@
    }
}

impl StorageWriteCache {
    /// No key is held twice.
    pub closed spec fn wf(&self) -> bool {
        self.writes.wf()
    }

    /// The cache without any write.
    pub fn new() -> (r: StorageWriteCache)
        ensures
            r.wf(),
            r@ == Map::<Seq<u8>, U256>::empty(),
    {
        StorageWriteCache { writes: AssocMap::new() }
    }

    /// The number of keys written.
    pub fn len(&self) -> (r: usize)
        requires
            self.wf(),
        ensures
            self@.dom().finite(),
            r == self@.len(),
    {
        self.writes.len()
    }

    /// The value last written under `key`, if any.
    pub fn get(&self, key: &Vec<u8>) -> (r: Option<U256>)
        requires
            self.wf(),
        ensures
            r == if self@.contains_key(key@) {
                Some(self@[key@])
            } else {
                None
            },
    {
        match self.writes.get(key) {
            Some(v) => Some(*v),
            None => None,
        }
    }

    /// Records `value` as the latest write under `key`.
    pub fn set(&mut self, key: Vec<u8>, value: U256)
        requires
            old(self).wf(),
        ensures
            final(self).wf(),
            final(self)@ == old(self)@.insert(key@, value),
    {
        self.writes.insert(key, value);
    }

    /// A copy that shares nothing with `self`.
    pub fn duplicate(&self) -> (r: StorageWriteCache)
        requires
            self.wf(),
        ensures
            r.wf(),
            r@ == self@,
    {
        let mut out: Vec<Entry<Vec<u8>, U256>> = Vec::new();
        let n: usize = self.writes.len();
        let mut i: usize = 0;
        while i < n
            invariant
                self.wf(),
                n == self.writes.listed().len(),
                i <= n,
                out@.len() == i,
                forall|k: int|
                    0 <= k < i ==> (#[trigger] out@[k]).key@ == self.writes.listed()[k].key@
                        && out@[k].value == self.writes.listed()[k].value,
            decreases n - i,
        {
            let entry = self.writes.entry(i);
            out.push(Entry { key: copy_bytes(&entry.key), value: entry.value });
            i += 1;
        }
        proof {
            self.writes.lemma_listed();
            lemma_same_entries(out@, self.writes.listed());
        }
        StorageWriteCache { writes: AssocMap::from_distinct(out) }
    }
}

} // verus!
