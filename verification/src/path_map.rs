//! Collections of paths, in which two texts for the same path are one.
use crate::path::{Parts, parts, same_path};
use vstd::prelude::*;

verus! {

/// A set of paths.
#[derive(Debug, Clone)]
pub struct PathSet {
    paths: Vec<String>,
}

impl View for PathSet {
    type V = Set<Parts>;

    closed spec fn view(&self) -> Set<Parts> {
        Set::new(|p: Parts| exists|i: int| 0 <= i < self.paths@.len() && parts(#[trigger] self.paths@[i]@) == p)
    }
}

impl PathSet {
    /// No paths.
    pub fn new() -> (r: PathSet)
        ensures
            r@ == Set::<Parts>::empty(),
    {
        let r = PathSet { paths: Vec::new() };
        assert(r@ =~= Set::<Parts>::empty());
        r
    }

    /// Whether the path is in the set.
    pub fn contains(&self, path: &str) -> (r: bool)
        ensures
            r == self@.contains(parts(path@)),
    {
        let mut i: usize = 0;
        while i < self.paths.len()
            invariant
                i <= self.paths@.len(),
                forall|k: int| 0 <= k < i ==> parts(#[trigger] self.paths@[k]@) != parts(path@),
            decreases self.paths@.len() - i,
        {
            if same_path(&self.paths[i], path) {
                return true;
            }
            i += 1;
        }
        false
    }

    /// Puts the path in.
    pub fn insert(&mut self, path: &str)
        ensures
            final(self)@ == old(self)@.insert(parts(path@)),
    {
        let ghost before = self.paths@;
        self.paths.push(path.to_owned());
        proof {
            let all = self.paths@;
            assert forall|p: Parts| #[trigger] self@.contains(p) <==> old(self)@.insert(
                parts(path@),
            ).contains(p) by {
                if old(self)@.contains(p) {
                    let k = choose|k: int| 0 <= k < before.len() && parts(#[trigger] before[k]@) == p;
                    assert(all[k] == before[k]);
                }
                if p == parts(path@) {
                    assert(parts(all[before.len() as int]@) == p);
                }
                if self@.contains(p) {
                    let k = choose|k: int| 0 <= k < all.len() && parts(#[trigger] all[k]@) == p;
                    if k < before.len() {
                        assert(parts(before[k]@) == p);
                    }
                }
            }
            assert(self@ =~= old(self)@.insert(parts(path@)));
        }
    }
}

/// What stands under a path in a list of paths and numbers: the first entry counts.
pub open spec fn number_at(entries: Seq<(String, u32)>, path: Parts) -> Option<u32>
    decreases entries.len(),
{
    if entries.len() == 0 {
        None
    } else {
        match number_at(entries.drop_last(), path) {
            Some(number) => Some(number),
            None => if parts(entries.last().0@) == path {
                Some(entries.last().1)
            } else {
                None
            },
        }
    }
}

/// A map from paths to numbers.
#[derive(Debug, Clone)]
pub struct PathMap {
    entries: Vec<(String, u32)>,
}

impl View for PathMap {
    type V = Map<Parts, u32>;

    closed spec fn view(&self) -> Map<Parts, u32> {
        Map::new(
            |p: Parts| number_at(self.entries@, p) is Some,
            |p: Parts| number_at(self.entries@, p)->0,
        )
    }
}

proof fn lemma_absent(entries: Seq<(String, u32)>, path: Parts)
    requires
        forall|k: int| 0 <= k < entries.len() ==> parts(#[trigger] entries[k].0@) != path,
    ensures
        number_at(entries, path) is None,
    decreases entries.len(),
{
    if entries.len() > 0 {
        assert(entries.last() == entries[entries.len() - 1]);
        assert forall|k: int| 0 <= k < entries.drop_last().len() implies parts(
            #[trigger] entries.drop_last()[k].0@,
        ) != path by {
            assert(entries.drop_last()[k] == entries[k]);
        }
        lemma_absent(entries.drop_last(), path);
    }
}

proof fn lemma_first(entries: Seq<(String, u32)>, path: Parts, at: int)
    requires
        0 <= at < entries.len(),
        parts(entries[at].0@) == path,
        forall|k: int| 0 <= k < at ==> parts(#[trigger] entries[k].0@) != path,
    ensures
        number_at(entries, path) == Some(entries[at].1),
    decreases entries.len(),
{
    if at == entries.len() - 1 {
        assert forall|k: int| 0 <= k < entries.drop_last().len() implies parts(
            #[trigger] entries.drop_last()[k].0@,
        ) != path by {
            assert(entries.drop_last()[k] == entries[k]);
        }
        lemma_absent(entries.drop_last(), path);
    } else {
        let early = entries.drop_last();
        assert(early[at] == entries[at]);
        assert forall|k: int| 0 <= k < at implies parts(#[trigger] early[k].0@) != path by {
            assert(early[k] == entries[k]);
        }
        lemma_first(early, path, at);
    }
}

impl PathMap {
    /// No paths.
    pub fn new() -> (r: PathMap)
        ensures
            r@ == Map::<Parts, u32>::empty(),
    {
        let r = PathMap { entries: Vec::new() };
        assert(r@ =~= Map::<Parts, u32>::empty());
        r
    }

    /// What stands under the path.
    pub fn get(&self, path: &str) -> (r: Option<u32>)
        ensures
            match r {
                Some(number) => self@.contains_key(parts(path@)) && self@[parts(path@)] == number,
                None => !self@.contains_key(parts(path@)),
            },
    {
        let mut i: usize = 0;
        while i < self.entries.len()
            invariant
                i <= self.entries@.len(),
                forall|k: int|
                    0 <= k < i ==> parts(#[trigger] self.entries@[k].0@) != parts(path@),
            decreases self.entries@.len() - i,
        {
            if same_path(&self.entries[i].0, path) {
                proof {
                    lemma_first(self.entries@, parts(path@), i as int);
                }
                return Some(self.entries[i].1);
            }
            i += 1;
        }
        proof {
            lemma_absent(self.entries@, parts(path@));
        }
        None
    }

    /// Whether something stands under the path.
    pub fn contains_key(&self, path: &str) -> (r: bool)
        ensures
            r == self@.contains_key(parts(path@)),
    {
        self.get(path).is_some()
    }

    /// Puts a number under a path, in place of the one that stands there.
    pub fn insert(&mut self, path: &str, number: u32)
        ensures
            final(self)@ == old(self)@.insert(parts(path@), number),
    {
        self.remove(path);
        let ghost mid = *self;
        assert(!mid@.contains_key(parts(path@)));
        self.entries.push((path.to_owned(), number));
        assert(self.entries@.drop_last() =~= mid.entries@);
        assert forall|p: Parts| #[trigger] number_at(self.entries@, p) == if p == parts(path@) {
            Some(number)
        } else {
            number_at(mid.entries@, p)
        } by {
            assert(mid@.contains_key(p) == (number_at(mid.entries@, p) is Some));
        }
        assert(self@ =~= mid@.insert(parts(path@), number));
        assert(self@ =~= old(self)@.insert(parts(path@), number));
    }

    /// Takes out what stands under the path.
    pub fn remove(&mut self, path: &str)
        ensures
            final(self)@ == old(self)@.remove(parts(path@)),
    {
        let mut kept: Vec<(String, u32)> = Vec::new();
        let mut i: usize = 0;
        while i < self.entries.len()
            invariant
                i <= self.entries@.len(),
                forall|p: Parts| #[trigger]
                    number_at(kept@, p) == if p == parts(path@) {
                        None
                    } else {
                        number_at(self.entries@.take(i as int), p)
                    },
            decreases self.entries@.len() - i,
        {
            let ghost before = kept@;
            assert(self.entries@.take(i + 1).drop_last() =~= self.entries@.take(i as int));
            if !same_path(&self.entries[i].0, path) {
                kept.push((self.entries[i].0.clone(), self.entries[i].1));
                assert(kept@.drop_last() =~= before);
            }
            proof {
                let longer = self.entries@.take(i + 1);
                assert forall|p: Parts| #[trigger] number_at(kept@, p) == if p == parts(path@) {
                    None
                } else {
                    number_at(longer, p)
                } by {
                    assert(number_at(before, p) == if p == parts(path@) {
                        None
                    } else {
                        number_at(longer.drop_last(), p)
                    });
                }
            }
            i += 1;
        }
        assert(self.entries@.take(i as int) =~= self.entries@);
        self.entries = kept;
        assert(self@ =~= old(self)@.remove(parts(path@)));
    }
}

} // verus!
