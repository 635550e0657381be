//! A list of distinct paths that is searched by hash.

use std::collections::HashMap;

use vstd::prelude::*;
use vstd::utf8::encode_utf8;

use crate::library::tracks::{fnv, fnv_bytes};
use crate::text::{copy_str, same_str, texts};

verus! {

/// The hash under which a path is found.
pub open spec fn path_hash(p: Seq<char>) -> u64 {
    fnv_bytes(encode_utf8(p))
}

/// Distinct paths, in the order in which they were added.
#[derive(Debug)]
pub struct PathIndex {
    paths: Vec<String>,
    /// For each hash the positions of the paths that have it.
    buckets: HashMap<u64, Vec<usize>>,
}

impl PathIndex {
    /// The paths, in order.
    pub closed spec fn listed(&self) -> Seq<Seq<char>> {
        texts(self.paths@)
    }

    /// Every path stands in the bucket of its hash, and no path occurs twice.
    pub closed spec fn wf(&self) -> bool {
        &&& forall|i: int|
            0 <= i < self.paths@.len() ==> #[trigger] self.buckets@.contains_key(
                path_hash(self.paths@[i]@),
            ) && self.buckets@[path_hash(self.paths@[i]@)]@.contains(i as usize)
        &&& forall|h: u64, k: int|
            self.buckets@.contains_key(h) && 0 <= k < self.buckets@[h]@.len()
                ==> #[trigger] self.buckets@[h]@[k] < self.paths@.len()
        &&& self.listed().no_duplicates()
    }

    pub fn new() -> (r: PathIndex)
        ensures
            r.wf(),
            r.listed() == Seq::<Seq<char>>::empty(),
    {
        let r = PathIndex { paths: Vec::new(), buckets: HashMap::new() };
        assert(r.listed() == Seq::<Seq<char>>::empty());
        r
    }

    pub fn len(&self) -> (n: usize)
        ensures
            n == self.listed().len(),
    {
        self.paths.len()
    }

    /// The position of a path.
    pub fn find(&self, p: &str) -> (r: Option<usize>)
        requires
            self.wf(),
        ensures
            match r {
                Some(i) => i < self.listed().len() && self.listed()[i as int] == p@,
                None => !self.listed().contains(p@),
            },
    {
        broadcast use vstd::std_specs::hash::group_hash_axioms;

        let h = fnv(p);
        let total = self.paths.len();
        match self.buckets.get(&h) {
            Some(bucket) => {
                for k in 0..bucket.len()
                    invariant
                        self.wf(),
                        h == path_hash(p@),
                        self.buckets@.contains_key(h),
                        *bucket == self.buckets@[h],
                        forall|j: int|
                            0 <= j < k ==> self.paths@[(#[trigger] bucket@[j]) as int]@ != p@,
                {
                    assert(bucket@[k as int] < self.paths@.len());
                    let i: usize = bucket[k];
                    if same_str(self.paths[i].as_str(), p) {
                        return Some(i);
                    }
                }
                assert forall|i: int| 0 <= i < self.listed().len() implies #[trigger] self.listed()[i]
                    != p@ by {
                    if self.paths@[i]@ == p@ {
                        assert(self.buckets@.contains_key(path_hash(self.paths@[i]@)));
                        assert(bucket@.contains(i as usize));
                        let j = choose|j: int|
                            0 <= j < bucket@.len() && bucket@[j] == i as usize;
                        assert(i < total);
                        assert(bucket@[j] as int == i);
                        assert(self.paths@[bucket@[j] as int]@ != p@);
                    }
                }
                None
            },
            None => {
                assert forall|i: int| 0 <= i < self.listed().len() implies #[trigger] self.listed()[i]
                    != p@ by {
                    if self.paths@[i]@ == p@ {
                        assert(self.buckets@.contains_key(path_hash(self.paths@[i]@)));
                    }
                }
                None
            },
        }
    }

    /// Adds a path that is not there yet.
    pub fn insert(&mut self, p: &str)
        requires
            old(self).wf(),
        ensures
            final(self).wf(),
            final(self).listed() == (if old(self).listed().contains(p@) {
                old(self).listed()
            } else {
                old(self).listed().push(p@)
            }),
    {
        broadcast use vstd::std_specs::hash::group_hash_axioms;

        if self.find(p).is_some() {
            return;
        }
        let ghost before = *self;
        let h = fnv(p);
        let n: usize = self.paths.len();
        let mut bucket: Vec<usize> = match self.buckets.remove(&h) {
            Some(b) => b,
            None => Vec::new(),
        };
        let ghost old_bucket = bucket@;
        bucket.push(n);
        let ghost new_bucket = bucket@;
        self.buckets.insert(h, bucket);
        self.paths.push(copy_str(p));
        proof {
            assert(self.listed() == before.listed().push(p@));
            assert forall|i: int| 0 <= i < self.paths@.len() implies #[trigger] self.buckets@.contains_key(
                path_hash(self.paths@[i]@),
            ) && self.buckets@[path_hash(self.paths@[i]@)]@.contains(i as usize) by {
                if i < n {
                    let g = path_hash(before.paths@[i]@);
                    assert(self.paths@[i] == before.paths@[i]);
                    assert(before.buckets@.contains_key(g));
                    assert(before.buckets@[g]@.contains(i as usize));
                    if g == h {
                        assert(old_bucket == before.buckets@[h]@);
                        let j = choose|j: int|
                            0 <= j < old_bucket.len() && old_bucket[j] == i as usize;
                        assert(new_bucket[j] == i as usize);
                    }
                } else {
                    assert(new_bucket[old_bucket.len() as int] == n);
                }
            }
            assert forall|g: u64, k: int|
                self.buckets@.contains_key(g) && 0 <= k < self.buckets@[g]@.len() implies
                #[trigger] self.buckets@[g]@[k] < self.paths@.len() by {
                if g == h {
                    if k < old_bucket.len() {
                        assert(before.buckets@[h]@[k] < before.paths@.len());
                    }
                } else {
                    assert(before.buckets@[g]@[k] < before.paths@.len());
                }
            }
        }
    }
}

} // verus!
