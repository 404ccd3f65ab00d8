use crate::paths::{comps, copy_comps};
use std::collections::HashMap;
use vstd::prelude::*;

verus! {

broadcast use vstd::std_specs::hash::group_hash_axioms;

/// A path, as the list of its components' text.
pub type PathModel = Seq<Seq<char>>;

/// The paths of imported files, bucketed by size in the order their imports
/// completed.
pub struct DuplicateIndex {
    buckets: HashMap<u64, Vec<Vec<String>>>,
}

/// The answer of a lookup: a registered path with the same content, or none.
pub enum Lookup {
    Duplicate(Vec<String>),
    Fresh,
}

impl DuplicateIndex {
    /// The registered paths of files of `size`, as stored.
    pub closed spec fn stored(&self, size: u64) -> Seq<Vec<String>> {
        if self.buckets@.contains_key(size) {
            self.buckets@[size]@
        } else {
            Seq::empty()
        }
    }

    /// The registered paths of files of `size`, in registration order.
    pub open spec fn bucket(&self, size: u64) -> Seq<PathModel> {
        self.stored(size).map_values(|p: Vec<String>| comps(&p))
    }

    /// An index with no path in it.
    pub fn new() -> (r: DuplicateIndex)
        ensures
            forall|size: u64| r.bucket(size).len() == 0,
    {
        DuplicateIndex { buckets: HashMap::new() }
    }

    /// Compares the file against the registered paths of its size, in
    /// registration order, with `same`; the first that `same` accepts wins.
    pub fn find_duplicate<F: Fn(&Vec<String>) -> bool>(&self, size: u64, same: F) -> (r: Lookup)
        requires
            forall|p: &Vec<String>| same.requires((p,)),
        ensures
            match r {
                Lookup::Duplicate(p) => exists|i: int|
                    0 <= i < self.stored(size).len() && comps(&p) == self.bucket(size)[i]
                        && same.ensures((&self.stored(size)[i],), true) && forall|j: int|
                        0 <= j < i ==> #[trigger] same.ensures((&self.stored(size)[j],), false),
                Lookup::Fresh => forall|i: int|
                    0 <= i < self.stored(size).len() ==> #[trigger] same.ensures(
                        (&self.stored(size)[i],),
                        false,
                    ),
            },
    {
        match self.buckets.get(&size) {
            None => Lookup::Fresh,
            Some(paths) => {
                let mut i: usize = 0;
                while i < paths.len()
                    invariant
                        paths@ == self.stored(size),
                        0 <= i <= paths@.len(),
                        forall|p: &Vec<String>| same.requires((p,)),
                        forall|j: int| 0 <= j < i ==> #[trigger] same.ensures((&paths@[j],), false),
                    decreases paths@.len() - i,
                {
                    let p = &paths[i];
                    let hit = same(p);
                    if hit {
                        let mut found: Vec<String> = Vec::new();
                        copy_comps(&mut found, p, 0, p.len());
                        assert(comps(&found) =~= comps(p));
                        assert(comps(p) == self.bucket(size)[i as int]);
                        return Lookup::Duplicate(found);
                    }
                    i = i + 1;
                }
                Lookup::Fresh
            },
        }
    }

    /// Adds `dest`, a file of `size` just copied into the target tree, at the
    /// end of its size's bucket.
    ///
    /// Lookup and registration are two steps: two workers that both found no
    /// match for files with equal content may both copy and register them.
    /// Such a race costs a missed skip, never a lost file.
    pub fn register(&mut self, size: u64, dest: Vec<String>)
        ensures
            final(self).bucket(size) == old(self).bucket(size).push(comps(&dest)),
            forall|s: u64| s != size ==> final(self).bucket(s) == old(self).bucket(s),
    {
        let ghost d = dest;
        let ghost before = self.stored(size);
        let removed = self.buckets.remove(&size);
        let paths = match removed {
            Some(mut paths) => {
                paths.push(dest);
                paths
            },
            None => {
                let mut paths: Vec<Vec<String>> = Vec::new();
                paths.push(dest);
                paths
            },
        };
        assert(paths@ =~= before.push(d));
        self.buckets.insert(size, paths);
        assert(self.stored(size) =~= before.push(d));
        assert(self.bucket(size) =~= old(self).bucket(size).push(comps(&d)));
        assert forall|s: u64| s != size implies self.bucket(s) == old(self).bucket(s) by {
            assert(self.stored(s) == old(self).stored(s));
        }
    }
}

impl DuplicateIndex {
    /// No two registered paths of one size hold equal content, where
    /// `content` gives what each path holds.
    pub open spec fn unique_by(&self, content: spec_fn(PathModel) -> Seq<u8>) -> bool {
        forall|s: u64, i: int, j: int|
            0 <= i < j < self.bucket(s).len() ==> content(#[trigger] self.bucket(s)[i]) != content(
                #[trigger] self.bucket(s)[j],
            )
    }
}

/// An empty index holds no two files with equal content.
pub proof fn lemma_new_is_unique(idx: &DuplicateIndex, content: spec_fn(PathModel) -> Seq<u8>)
    requires
        forall|size: u64| idx.bucket(size).len() == 0,
    ensures
        idx.unique_by(content),
{
}

/// Registering a copy whose content equals that of none of the paths of its
/// size keeps the index free of two files with equal content: a file is
/// registered only after a lookup found no match, so each content is
/// imported at most once.
pub proof fn lemma_fresh_register_keeps_unique(
    before: &DuplicateIndex,
    after: &DuplicateIndex,
    size: u64,
    dest: PathModel,
    content: spec_fn(PathModel) -> Seq<u8>,
)
    requires
        before.unique_by(content),
        forall|i: int|
            0 <= i < before.bucket(size).len() ==> content(#[trigger] before.bucket(size)[i])
                != content(dest),
        after.bucket(size) == before.bucket(size).push(dest),
        forall|s: u64| s != size ==> after.bucket(s) == before.bucket(s),
    ensures
        after.unique_by(content),
{
    assert forall|s: u64, i: int, j: int|
        0 <= i < j < after.bucket(s).len() implies content(#[trigger] after.bucket(s)[i])
        != content(#[trigger] after.bucket(s)[j]) by {
        if s == size {
            if j == before.bucket(size).len() {
                assert(after.bucket(s)[i] == before.bucket(size)[i]);
            } else {
                assert(after.bucket(s)[i] == before.bucket(s)[i]);
                assert(after.bucket(s)[j] == before.bucket(s)[j]);
            }
        } else {
            assert(after.bucket(s)[i] == before.bucket(s)[i]);
        }
    }
}

} // verus!
