//! The duplicate index: for each content key seen so far, the path of the
//! file that is kept for it.

use vstd::prelude::*;
use std::collections::HashMap;

verus! {

broadcast use vstd::std_specs::hash::group_hash_axioms;

/// The identity of a file's content: a 128-bit hash of its bytes and their
/// number. Two files count as duplicates exactly when their keys are equal.
#[derive(Debug, Clone, Copy, PartialEq, Eq, PartialOrd, Ord, Hash, Structural)]
pub struct Hashes {
    pub hash: u128,
    pub size: usize,
}

impl Hashes {
    /// The key made of a hash and a length.
    pub fn new(hash: u128, size: usize) -> (key: Hashes)
        ensures
            key == (Hashes { hash, size }),
    {
        Hashes { hash, size }
    }
}

/// One entry of a bucket: a content length and the path kept for it.
#[derive(Debug)]
struct Slot {
    size: usize,
    path: String,
}

/// The path that a bucket holds for a length: that of the first slot with
/// that length.
spec fn find(bucket: Seq<Slot>, size: usize) -> Option<Seq<char>>
    decreases bucket.len(),
{
    if bucket.len() == 0 {
        None
    } else if bucket[0].size == size {
        Some(bucket[0].path@)
    } else {
        find(bucket.drop_first(), size)
    }
}

proof fn lemma_find_push(bucket: Seq<Slot>, slot: Slot, size: usize)
    ensures
        find(bucket.push(slot), size) == if find(bucket, size) is Some {
            find(bucket, size)
        } else if slot.size == size {
            Some(slot.path@)
        } else {
            None
        },
    decreases bucket.len(),
{
    if bucket.len() == 0 {
        assert(bucket.push(slot).drop_first() =~= bucket);
    } else {
        assert(bucket.push(slot).drop_first() =~= bucket.drop_first().push(slot));
        if bucket[0].size != size {
            lemma_find_push(bucket.drop_first(), slot, size);
        }
    }
}

proof fn lemma_find_update(bucket: Seq<Slot>, at: int, slot: Slot, size: usize)
    requires
        0 <= at < bucket.len(),
        bucket[at].size == slot.size,
        forall|k: int| 0 <= k < at ==> bucket[k].size != slot.size,
    ensures
        find(bucket.update(at, slot), size) == if size == slot.size {
            Some(slot.path@)
        } else {
            find(bucket, size)
        },
    decreases at,
{
    if at == 0 {
        assert(bucket.update(at, slot).drop_first() =~= bucket.drop_first());
    } else {
        assert(bucket.update(at, slot).drop_first() =~= bucket.drop_first().update(at - 1, slot));
        assert forall|k: int| 0 <= k < at - 1 implies bucket.drop_first()[k].size != slot.size by {
            assert(bucket.drop_first()[k] == bucket[k + 1]);
        }
        lemma_find_update(bucket.drop_first(), at - 1, slot, size);
    }
}

proof fn lemma_find_skip(bucket: Seq<Slot>, upto: int, size: usize)
    requires
        0 <= upto <= bucket.len(),
        forall|k: int| 0 <= k < upto ==> bucket[k].size != size,
    ensures
        find(bucket, size) == find(bucket.skip(upto), size),
    decreases upto,
{
    if upto == 0 {
        assert(bucket.skip(0) =~= bucket);
    } else {
        assert forall|k: int| 0 <= k < upto - 1 implies bucket.drop_first()[k].size != size by {
            assert(bucket.drop_first()[k] == bucket[k + 1]);
        }
        lemma_find_skip(bucket.drop_first(), upto - 1, size);
        assert(bucket.drop_first().skip(upto - 1) =~= bucket.skip(upto));
    }
}

/// The position of the first slot of `bucket` with length `size`.
fn position(bucket: &Vec<Slot>, size: usize) -> (at: Option<usize>)
    ensures
        match at {
            Some(i) => i < bucket@.len() && bucket@[i as int].size == size && find(bucket@, size)
                == Some(bucket@[i as int].path@) && forall|k: int|
                0 <= k < i ==> bucket@[k].size != size,
            None => find(bucket@, size) is None,
        },
{
    let mut i: usize = 0;
    while i < bucket.len()
        invariant
            i <= bucket@.len(),
            forall|k: int| 0 <= k < i ==> bucket@[k].size != size,
        decreases bucket@.len() - i,
    {
        if bucket[i].size == size {
            proof {
                lemma_find_skip(bucket@, i as int, size);
            }
            return Some(i);
        }
        i += 1;
    }
    proof {
        lemma_find_skip(bucket@, i as int, size);
    }
    None
}

/// A map from content keys to paths. Keys are found by their hash; keys
/// that share a hash and differ in length share a bucket.
#[derive(Debug)]
pub struct DuplicateIndex {
    buckets: HashMap<u128, Vec<Slot>>,
}

impl View for DuplicateIndex {
    type V = Map<Hashes, Seq<char>>;

    closed spec fn view(&self) -> Map<Hashes, Seq<char>> {
        Map::new(
            |k: Hashes|
                self.buckets@.contains_key(k.hash) && find(self.buckets@[k.hash]@, k.size) is Some,
            |k: Hashes| find(self.buckets@[k.hash]@, k.size)->0,
        )
    }
}

impl DuplicateIndex {
    /// The empty index.
    pub fn new() -> (index: DuplicateIndex)
        ensures
            index@ == Map::<Hashes, Seq<char>>::empty(),
    {
        let index = DuplicateIndex { buckets: HashMap::new() };
        assert(index@ =~= Map::<Hashes, Seq<char>>::empty());
        index
    }

    /// The path kept for `key`, if the key has been seen.
    pub fn get(&self, key: &Hashes) -> (path: Option<&String>)
        ensures
            match path {
                Some(p) => self@.contains_key(*key) && self@[*key] == p@,
                None => !self@.contains_key(*key),
            },
    {
        match self.buckets.get(&key.hash) {
            Some(bucket) => match position(bucket, key.size) {
                Some(i) => Some(&bucket[i].path),
                None => None,
            },
            None => None,
        }
    }

    /// Makes `path` the path kept for `key`, whether or not the key had one.
    pub fn insert(&mut self, key: Hashes, path: String)
        ensures
            final(self)@ == old(self)@.insert(key, path@),
    {
        let mut bucket = match self.buckets.remove(&key.hash) {
            Some(b) => b,
            None => Vec::new(),
        };
        let ghost before = bucket@;
        let slot = Slot { size: key.size, path };
        match position(&bucket, key.size) {
            Some(i) => {
                proof {
                    assert forall|size: usize|
                        find(before.update(i as int, slot), size) == if size == key.size {
                            Some(path@)
                        } else {
                            find(before, size)
                        } by {
                        lemma_find_update(before, i as int, slot, size);
                    }
                }
                bucket.set(i, slot);
            },
            None => {
                proof {
                    assert forall|size: usize|
                        find(before.push(slot), size) == if size == key.size {
                            Some(path@)
                        } else {
                            find(before, size)
                        } by {
                        lemma_find_push(before, slot, size);
                        lemma_find_push(before, slot, key.size);
                    }
                }
                bucket.push(slot);
            },
        }
        self.buckets.insert(key.hash, bucket);
        assert(self@ =~= old(self)@.insert(key, path@));
    }
}

} // verus!
