//! The state of the chain at one block, as stored bytes under hashed keys.

use vstd::prelude::*;

verus! {

/// One stored cell: the key it is stored under and its bytes.
#[derive(Debug, Clone, PartialEq, Eq)]
pub struct Entry {
    /// The hashed key.
    pub key: Vec<u8>,
    /// The stored bytes.
    pub value: Vec<u8>,
}

/// Every cell that was committed at one block. A query reads it and never
/// changes it.
#[derive(Debug, Clone, PartialEq, Eq)]
pub struct Snapshot {
    entries: Vec<Entry>,
}

/// The cells that a list of entries holds, a later entry replacing an
/// earlier one under the same key.
pub open spec fn cells_of(entries: Seq<Entry>) -> Map<Seq<u8>, Seq<u8>>
    decreases entries.len(),
{
    if entries.len() == 0 {
        Map::empty()
    } else {
        cells_of(entries.drop_last()).insert(entries.last().key@, entries.last().value@)
    }
}

/// Whether two byte strings are the same.
pub fn bytes_equal(a: &[u8], b: &[u8]) -> (r: bool)
    ensures
        r == (a@ == b@),
{
    if a.len() != b.len() {
        return false;
    }
    let mut i: usize = 0;
    while i < a.len()
        invariant
            i <= a.len(),
            a.len() == b.len(),
            forall|j: int| 0 <= j < i ==> a@[j] == b@[j],
        decreases a.len() - i,
    {
        if a[i] != b[i] {
            return false;
        }
        i = i + 1;
    }
    assert(a@ =~= b@);
    true
}

impl View for Snapshot {
    type V = Map<Seq<u8>, Seq<u8>>;

    closed spec fn view(&self) -> Map<Seq<u8>, Seq<u8>> {
        cells_of(self.entries@)
    }
}

impl Snapshot {
    /// A snapshot without cells.
    pub fn new() -> (s: Snapshot)
        ensures
            s@ == Map::<Seq<u8>, Seq<u8>>::empty(),
    {
        Snapshot { entries: Vec::new() }
    }

    /// Stores `value` under the hashed key `key`, in place of what was there.
    pub fn insert(&mut self, key: Vec<u8>, value: Vec<u8>)
        ensures
            final(self)@ == old(self)@.insert(key@, value@),
    {
        proof {
            assert(self.entries@.push(Entry { key, value }).drop_last() =~= self.entries@);
        }
        self.entries.push(Entry { key, value });
    }

    /// The bytes stored under the hashed key `key`, if there are any.
    pub fn raw_get(&self, key: &[u8]) -> (r: Option<Vec<u8>>)
        ensures
            match r {
                Some(bytes) => self@.contains_key(key@) && self@[key@] == bytes@,
                None => !self@.contains_key(key@),
            },
    {
        let mut i: usize = self.entries.len();
        assert(self.entries@.take(i as int) =~= self.entries@);
        while i > 0
            invariant
                i <= self.entries.len(),
                cells_of(self.entries@).contains_key(key@) <==> cells_of(
                    self.entries@.take(i as int),
                ).contains_key(key@),
                cells_of(self.entries@).contains_key(key@) ==> cells_of(self.entries@)[key@]
                    == cells_of(self.entries@.take(i as int))[key@],
            decreases i,
        {
            proof {
                assert(self.entries@.take(i as int).drop_last() =~= self.entries@.take(i - 1));
            }
            i = i - 1;
            if bytes_equal(self.entries[i].key.as_slice(), key) {
                let bytes = self.entries[i].value.clone();
                assert(bytes@ =~= self.entries[i as int].value@);
                return Some(bytes);
            }
        }
        None
    }
}

} // verus!
