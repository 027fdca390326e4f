use crate::error::Error;
use vstd::prelude::*;

verus! {

/// The byte-keyed store that the host runtime supplies for the duration of
/// one call.  The module owns every record it keeps there; nothing else
/// writes them.  Implementations are handed in by the embedding, which is
/// why reads and writes are specified purely through the abstract contents.
pub trait Store {
    /// The abstract contents of the store: a map from byte keys to byte
    /// values.  Every verified implementation overrides this; a
    /// host-supplied one provides only the executable methods and is
    /// trusted by the embedding that chose it.
    open spec fn contents(&self) -> Map<Seq<u8>, Seq<u8>> {
        Map::empty()
    }

    /// Reads the value stored under `key`, or `None` if the key is unset.
    fn get(&self, key: &[u8]) -> (r: Option<Vec<u8>>)
        ensures
            match r {
                Some(v) => self.contents().contains_key(key@) && v@ == self.contents()[key@],
                None => !self.contents().contains_key(key@),
            },
    ;

    /// Writes `value` under `key`.  A failing write is fatal for the
    /// invocation and leaves the contents as they were.
    fn set(&mut self, key: &[u8], value: &[u8]) -> (r: Result<(), Error>)
        ensures
            match r {
                Ok(()) => final (self).contents() == old(self).contents().insert(key@, value@),
                Err(e) => e == Error::StorageError && final (self).contents() == old(
                    self,
                ).contents(),
            },
    ;
}

/// An in-memory store, used by the tests in place of the host's.
///
/// Writes append an entry; the contents are given by the most recent entry
/// for each key.
pub struct MemStore {
    entries: Vec<(Vec<u8>, Vec<u8>)>,
}

/// The map described by a sequence of write entries, later entries winning.
pub open spec fn map_of(s: Seq<(Vec<u8>, Vec<u8>)>) -> Map<Seq<u8>, Seq<u8>>
    decreases s.len(),
{
    if s.len() == 0 {
        Map::empty()
    } else {
        map_of(s.drop_last()).insert(s.last().0@, s.last().1@)
    }
}

proof fn lemma_map_of_found(s: Seq<(Vec<u8>, Vec<u8>)>, i: int, k: Seq<u8>)
    requires
        0 <= i < s.len(),
        s[i].0@ == k,
        forall|j: int| i < j < s.len() ==> s[j].0@ != k,
    ensures
        map_of(s).contains_key(k),
        map_of(s)[k] == s[i].1@,
    decreases s.len(),
{
    if i < s.len() - 1 {
        assert(s.drop_last()[i] == s[i]);
        lemma_map_of_found(s.drop_last(), i, k);
    }
}

proof fn lemma_map_of_absent(s: Seq<(Vec<u8>, Vec<u8>)>, k: Seq<u8>)
    requires
        forall|j: int| 0 <= j < s.len() ==> s[j].0@ != k,
    ensures
        !map_of(s).contains_key(k),
    decreases s.len(),
{
    if s.len() > 0 {
        lemma_map_of_absent(s.drop_last(), k);
    }
}

/// Compares two byte slices for equality.
fn bytes_eq(a: &[u8], b: &[u8]) -> (r: bool)
    ensures
        r == (a@ == b@),
{
    if a.len() != b.len() {
        return false;
    }
    let mut i: usize = 0;
    while i < a.len()
        invariant
            i <= a@.len(),
            a@.len() == b@.len(),
            forall|j: int| 0 <= j < i ==> a@[j] == b@[j],
        decreases a@.len() - i,
    {
        if a[i] != b[i] {
            return false;
        }
        i = i + 1;
    }
    proof {
        assert(a@ =~= b@);
    }
    true
}

impl MemStore {
    /// A fresh, empty store.
    pub fn new() -> (r: MemStore)
        ensures
            r.contents() == Map::<Seq<u8>, Seq<u8>>::empty(),
    {
        MemStore { entries: Vec::new() }
    }
}

impl Store for MemStore {
    closed spec fn contents(&self) -> Map<Seq<u8>, Seq<u8>> {
        map_of(self.entries@)
    }

    fn get(&self, key: &[u8]) -> (r: Option<Vec<u8>>) {
        let mut i: usize = self.entries.len();
        while i > 0
            invariant
                i <= self.entries@.len(),
                forall|j: int| i <= j < self.entries@.len() ==> self.entries@[j].0@ != key@,
            decreases i,
        {
            i = i - 1;
            if bytes_eq(self.entries[i].0.as_slice(), key) {
                let v = vstd::slice::slice_to_vec(self.entries[i].1.as_slice());
                proof {
                    lemma_map_of_found(self.entries@, i as int, key@);
                }
                return Some(v);
            }
        }
        proof {
            lemma_map_of_absent(self.entries@, key@);
        }
        None
    }

    fn set(&mut self, key: &[u8], value: &[u8]) -> (r: Result<(), Error>) {
        let k = vstd::slice::slice_to_vec(key);
        let v = vstd::slice::slice_to_vec(value);
        self.entries.push((k, v));
        proof {
            assert(self.entries@.drop_last() =~= old(self).entries@);
        }
        Ok(())
    }
}

} // verus!
