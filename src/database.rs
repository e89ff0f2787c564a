//! The store of mapping records: a capability interface over a backing
//! key/value medium, and an in-process implementation of it.

use vstd::prelude::*;
use crate::mapping::{key_text, Mapping, MappingKey};
use crate::url::Url;

verus! {

/// The keys that a sequence of mappings denotes.
pub open spec fn key_views(ms: Seq<Mapping>) -> Seq<MappingKey> {
    ms.map_values(|m: Mapping| m@)
}

/// Whether `ks` names each key of `m` exactly once, and nothing else.
pub open spec fn lists_each_key_once(m: Map<MappingKey, Seq<char>>, ks: Seq<MappingKey>) -> bool {
    ks.no_duplicates() && ks.to_set() == m.dom()
}

/// One create-if-absent call on `k` with target `url`: it succeeds, and
/// installs the record, exactly when `k` was absent.
pub open spec fn create_step(
    before: Map<MappingKey, Seq<char>>,
    after: Map<MappingKey, Seq<char>>,
    k: MappingKey,
    url: Seq<char>,
    r: bool,
) -> bool {
    &&& r == !before.contains_key(k)
    &&& after == if r {
        before.insert(k, url)
    } else {
        before
    }
}

/// One drop call on `k`: it reports whether `k` was present, and removes it.
pub open spec fn drop_step(
    before: Map<MappingKey, Seq<char>>,
    after: Map<MappingKey, Seq<char>>,
    k: MappingKey,
    r: bool,
) -> bool {
    &&& r == before.contains_key(k)
    &&& after == before.remove(k)
}

/// A backing store of mapping records held by this process. Each key is
/// either absent or present with one target URL; a record is created only
/// where none exists, and removed only by `drop_mapping`. A store reached over
/// the network is driven through the decisions of `remote` instead.
pub trait DatabaseClient: Sized {
    /// The records held: each key with the text of its target URL.
    spec fn mappings(&self) -> Map<MappingKey, Seq<char>>;

    /// The store's internal consistency.
    spec fn well_formed(&self) -> bool;

    /// Every stored key, each once, in no particular order.
    fn list_all(&self) -> (r: Vec<Mapping>)
        requires
            self.well_formed(),
        ensures
            lists_each_key_once(self.mappings(), key_views(r@)),
    ;

    /// Installs `url` under `m` only if no record exists for `m`; true iff
    /// this call installed it.
    fn set_mapping(&mut self, m: Mapping, url: Url) -> (r: bool)
        requires
            old(self).well_formed(),
        ensures
            final(self).well_formed(),
            create_step(old(self).mappings(), final(self).mappings(), m@, url@, r),
    ;

    /// The target URL stored under `m`, if any.
    fn get_mapping(&self, m: &Mapping) -> (r: Option<Url>)
        requires
            self.well_formed(),
        ensures
            r is Some <==> self.mappings().contains_key(m@),
            r is Some ==> r->0@ == self.mappings()[m@],
    ;

    /// Whether a record exists for `m`.
    fn has_mapping(&self, m: &Mapping) -> (r: bool)
        requires
            self.well_formed(),
        ensures
            r == self.mappings().contains_key(m@),
    ;

    /// Removes the record for `m`; true iff there was one.
    fn drop_mapping(&mut self, m: &Mapping) -> (r: bool)
        requires
            old(self).well_formed(),
        ensures
            final(self).well_formed(),
            drop_step(old(self).mappings(), final(self).mappings(), m@, r),
    ;
}

/// A store held in process memory, one record per key.
pub struct InMemoryClient {
    entries: Vec<(Mapping, Url)>,
    contents: Ghost<Map<MappingKey, Seq<char>>>,
}

impl InMemoryClient {
    /// An empty store.
    pub fn new() -> (r: InMemoryClient)
        ensures
            r.well_formed(),
            r.mappings() == Map::<MappingKey, Seq<char>>::empty(),
    {
        InMemoryClient { entries: Vec::new(), contents: Ghost(Map::empty()) }
    }

    /// The position of the record for `m`, if there is one.
    fn find(&self, m: &Mapping) -> (r: Option<usize>)
        requires
            self.well_formed(),
        ensures
            r is Some ==> r->0 < self.entries.len() && self.entries@[r->0 as int].0@ == m@,
            r is None ==> !self.mappings().contains_key(m@),
    {
        let mut i: usize = 0;
        while i < self.entries.len()
            invariant
                i <= self.entries.len(),
                forall|j: int| 0 <= j < i ==> self.entries@[j].0@ != m@,
            decreases self.entries.len() - i,
        {
            if self.entries[i].0.same_key(m) {
                return Some(i);
            }
            i = i + 1;
        }
        None
    }
}

impl DatabaseClient for InMemoryClient {
    closed spec fn mappings(&self) -> Map<MappingKey, Seq<char>> {
        self.contents@
    }

    closed spec fn well_formed(&self) -> bool {
        &&& forall|i: int|
            0 <= i < self.entries.len() ==> #[trigger] self.contents@.contains_key(
                self.entries@[i].0@,
            ) && self.contents@[self.entries@[i].0@] == self.entries@[i].1@
        &&& forall|k: MappingKey| #[trigger]
            self.contents@.contains_key(k) ==> exists|i: int|
                0 <= i < self.entries.len() && (#[trigger] self.entries@[i]).0@ == k
        &&& forall|i: int, j: int|
            0 <= i < j < self.entries.len() ==> (#[trigger] self.entries@[i]).0@ != (
            #[trigger] self.entries@[j]).0@
    }

    fn list_all(&self) -> (r: Vec<Mapping>) {
        let mut out: Vec<Mapping> = Vec::new();
        let mut i: usize = 0;
        while i < self.entries.len()
            invariant
                self.well_formed(),
                i <= self.entries.len(),
                out.len() == i,
                forall|j: int| 0 <= j < i ==> (#[trigger] out@[j])@ == self.entries@[j].0@,
            decreases self.entries.len() - i,
        {
            out.push(self.entries[i].0.duplicate());
            i = i + 1;
        }
        let ghost ks = key_views(out@);
        assert forall|i: int, j: int|
            0 <= i < ks.len() && 0 <= j < ks.len() && i != j implies ks[i] != ks[j] by {
            if i < j {
                assert(self.entries@[i].0@ != self.entries@[j].0@);
            } else {
                assert(self.entries@[j].0@ != self.entries@[i].0@);
            }
        }
        assert forall|k: MappingKey| ks.to_set().contains(k) == self.mappings().dom().contains(k) by {
            if self.mappings().dom().contains(k) {
                assert(self.contents@.contains_key(k));
                let i = choose|i: int| 0 <= i < self.entries.len() && (#[trigger] self.entries@[i]).0@ == k;
                assert(ks[i] == k);
            }
            if ks.to_set().contains(k) {
                let i = choose|i: int| 0 <= i < ks.len() && ks[i] == k;
                assert(self.contents@.contains_key(self.entries@[i].0@));
            }
        }
        assert(ks.to_set() =~= self.mappings().dom());
        out
    }

    fn set_mapping(&mut self, m: Mapping, url: Url) -> (r: bool) {
        match self.find(&m) {
            Some(_) => false,
            None => {
                let ghost key = m@;
                let ghost text = url@;
                let ghost prev = self.entries@;
                self.entries.push((m, url));
                self.contents = Ghost(self.contents@.insert(key, text));
                assert forall|k: MappingKey| #[trigger]
                    self.contents@.contains_key(k) implies exists|i: int|
                        0 <= i < self.entries.len() && (#[trigger] self.entries@[i]).0@ == k by {
                    if k == key {
                        assert(self.entries@[prev.len() as int].0@ == k);
                    } else {
                        assert(old(self).contents@.contains_key(k));
                        let i = choose|i: int|
                            0 <= i < old(self).entries.len() && (#[trigger] old(self).entries@[i]).0@
                                == k;
                        assert(self.entries@[i] == prev[i]);
                    }
                }
                true
            },
        }
    }

    fn get_mapping(&self, m: &Mapping) -> (r: Option<Url>) {
        match self.find(m) {
            Some(i) => {
                proof {
                    assert(self.contents@.contains_key(self.entries@[i as int].0@));
                }
                Some(self.entries[i].1.duplicate())
            },
            None => None,
        }
    }

    fn has_mapping(&self, m: &Mapping) -> (r: bool) {
        self.find(m).is_some()
    }

    fn drop_mapping(&mut self, m: &Mapping) -> (r: bool) {
        match self.find(m) {
            None => {
                assert(self.contents@.remove(m@) =~= self.contents@);
                false
            },
            Some(idx) => {
                let ghost key = m@;
                let ghost prev = self.entries@;
                self.entries.remove(idx);
                self.contents = Ghost(self.contents@.remove(key));
                assert forall|i: int|
                    0 <= i < self.entries.len() implies #[trigger] self.contents@.contains_key(
                        self.entries@[i].0@,
                    ) && self.contents@[self.entries@[i].0@] == self.entries@[i].1@ by {
                    let pi = if i < idx { i } else { i + 1 };
                    assert(self.entries@[i] == prev[pi]);
                    assert(old(self).contents@.contains_key(prev[pi].0@));
                    assert(prev[pi].0@ != prev[idx as int].0@);
                }
                assert forall|k: MappingKey| #[trigger]
                    self.contents@.contains_key(k) implies exists|i: int|
                        0 <= i < self.entries.len() && (#[trigger] self.entries@[i]).0@ == k by {
                    assert(old(self).contents@.contains_key(k));
                    let i = choose|i: int|
                        0 <= i < old(self).entries.len() && (#[trigger] old(self).entries@[i]).0@
                            == k;
                    assert(i != idx);
                    if i < idx {
                        assert(self.entries@[i] == prev[i]);
                    } else {
                        assert(self.entries@[i - 1] == prev[i]);
                    }
                }
                assert forall|i: int, j: int|
                    0 <= i < j < self.entries.len() implies (#[trigger] self.entries@[i]).0@ != (
                    #[trigger] self.entries@[j]).0@ by {
                    let pi = if i < idx { i } else { i + 1 };
                    let pj = if j < idx { j } else { j + 1 };
                    assert(self.entries@[i] == prev[pi]);
                    assert(self.entries@[j] == prev[pj]);
                    assert(prev[pi].0@ != prev[pj].0@);
                }
                true
            },
        }
    }
}

} // verus!
