//! A map from vertex keys to vertex indices.
//!
//! Keys are bucketed by their position index, so a lookup hashes one integer
//! and then walks the few keys that share that position.

use std::collections::HashMap;
use vstd::prelude::*;
use crate::source::VertexKey;

verus! {

broadcast use vstd::std_specs::hash::group_hash_axioms;

/// The part of a key that its bucket does not already fix, and the key's index.
struct Slot {
    texture: Option<usize>,
    normal: Option<usize>,
    index: u32,
}

impl Slot {
    spec fn key(self, position: usize) -> VertexKey {
        VertexKey { position, texture: self.texture, normal: self.normal }
    }
}

fn same_index(a: Option<usize>, b: Option<usize>) -> (r: bool)
    ensures
        r == (a == b),
{
    match (a, b) {
        (Some(x), Some(y)) => x == y,
        (None, None) => true,
        _ => false,
    }
}

/// Remembers the index given to each vertex key seen so far.
pub struct VertexCache {
    buckets: HashMap<usize, Vec<Slot>>,
    entries: Ghost<Map<VertexKey, u32>>,
}

impl View for VertexCache {
    type V = Map<VertexKey, u32>;

    closed spec fn view(&self) -> Map<VertexKey, u32> {
        self.entries@
    }
}

impl VertexCache {
    /// The buckets hold exactly the entries of the view.
    pub closed spec fn well_formed(&self) -> bool {
        &&& forall|k: VertexKey| #[trigger]
            self.entries@.contains_key(k) ==> self.buckets@.contains_key(k.position) && exists|j: int|
                0 <= j < self.buckets@[k.position]@.len() && (#[trigger] self.buckets@[k.position]@[j]).key(
                    k.position,
                ) == k
        &&& forall|p: usize, j: int|
            self.buckets@.contains_key(p) && 0 <= j < self.buckets@[p]@.len() ==> {
                let slot = #[trigger] self.buckets@[p]@[j];
                self.entries@.contains_key(slot.key(p)) && self.entries@[slot.key(p)] == slot.index
            }
    }

    /// An empty cache.
    pub fn new() -> (cache: VertexCache)
        ensures
            cache.well_formed(),
            cache@ == Map::<VertexKey, u32>::empty(),
    {
        VertexCache { buckets: HashMap::new(), entries: Ghost(Map::empty()) }
    }

    /// The index recorded for `key`, if there is one.
    pub fn get(&self, key: &VertexKey) -> (found: Option<u32>)
        requires
            self.well_formed(),
        ensures
            found == (if self@.contains_key(*key) {
                Some(self@[*key])
            } else {
                None::<u32>
            }),
    {
        match self.buckets.get(&key.position) {
            None => None,
            Some(bucket) => {
                let mut j: usize = 0;
                while j < bucket.len()
                    invariant
                        j <= bucket.len(),
                        self.well_formed(),
                        self.buckets@.contains_key(key.position),
                        self.buckets@[key.position] == *bucket,
                        forall|i: int| 0 <= i < j ==> (#[trigger] bucket@[i]).key(key.position) != *key,
                    decreases bucket.len() - j,
                {
                    let slot = &bucket[j];
                    if same_index(slot.texture, key.texture) && same_index(slot.normal, key.normal) {
                        return Some(slot.index);
                    }
                    j += 1;
                }
                None
            },
        }
    }

    /// Records `index` for a key that has none yet.
    pub fn insert(&mut self, key: VertexKey, index: u32)
        requires
            old(self).well_formed(),
            !old(self)@.contains_key(key),
        ensures
            final(self).well_formed(),
            final(self)@ == old(self)@.insert(key, index),
    {
        let ghost position = key.position;
        let mut bucket = match self.buckets.remove(&key.position) {
            Some(bucket) => bucket,
            None => Vec::new(),
        };
        let ghost before = bucket@;
        let slot = Slot { texture: key.texture, normal: key.normal, index };
        bucket.push(slot);
        self.buckets.insert(key.position, bucket);
        proof {
            self.entries@ = self.entries@.insert(key, index);
            let after = self.buckets@[position]@;
            assert forall|k: VertexKey| #[trigger] self.entries@.contains_key(k) implies self.buckets@.contains_key(
                k.position,
            ) && exists|j: int|
                0 <= j < self.buckets@[k.position]@.len() && (#[trigger] self.buckets@[k.position]@[j]).key(
                    k.position,
                ) == k by {
                if k == key {
                    assert(after[before.len() as int].key(position) == k);
                } else {
                    let j = choose|j: int|
                        0 <= j < old(self).buckets@[k.position]@.len() && (#[trigger] old(
                            self,
                        ).buckets@[k.position]@[j]).key(k.position) == k;
                    if k.position != position {
                        assert(self.buckets@[k.position]@[j].key(k.position) == k);
                    }
                }
            }
        }
    }
}

} // verus!
