//! Per-platform boolean flags, kept as a vector of named entries with
//! distinct names and read as a map from platform name to flag.

use crate::assoc::{assoc_map, distinct_keys, lemma_assoc_map_contains, lemma_assoc_map_empty,
    lemma_assoc_map_index, lemma_assoc_map_update};
use vstd::prelude::*;
use vstd::string::StringExecFns;

verus! {

/// The entries of a flag set as name/value pairs over character sequences.
pub open spec fn entries_view(entries: Seq<(String, bool)>) -> Seq<(Seq<char>, bool)> {
    entries.map_values(|e: (String, bool)| (e.0@, e.1))
}

/// A set of boolean flags keyed by platform name.
#[derive(Debug)]
pub struct PlatformFlags {
    entries: Vec<(String, bool)>,
}

impl View for PlatformFlags {
    type V = Seq<(Seq<char>, bool)>;

    closed spec fn view(&self) -> Seq<(Seq<char>, bool)> {
        entries_view(self.entries@)
    }
}

impl PlatformFlags {
    /// Each platform name appears in at most one entry.
    pub open spec fn wf(&self) -> bool {
        distinct_keys(self@)
    }

    /// The flags as a map from platform name to value.
    pub open spec fn as_map(&self) -> Map<Seq<char>, bool> {
        assoc_map(self@)
    }

    pub fn new() -> (r: Self)
        ensures
            r.wf(),
            r@ == Seq::<(Seq<char>, bool)>::empty(),
            r.as_map() == Map::<Seq<char>, bool>::empty(),
    {
        let r = PlatformFlags { entries: Vec::new() };
        proof {
            assert(r@ =~= Seq::<(Seq<char>, bool)>::empty());
            assert(r.as_map() =~= Map::<Seq<char>, bool>::empty());
        }
        r
    }

    /// Sets the named platform's flag, adding the entry if it is new.
    pub fn set(&mut self, platform: String, value: bool)
        requires
            old(self).wf(),
        ensures
            final(self).wf(),
            final(self).as_map() == old(self).as_map().insert(platform@, value),
            final(self)@.len() > 0,
    {
        let ghost s0 = self@;
        let mut i: usize = 0;
        while i < self.entries.len()
            invariant
                self == old(self),
                s0 == self@,
                distinct_keys(s0),
                i <= self.entries.len(),
                forall|j: int| 0 <= j < i ==> s0[j].0 != platform@,
            decreases self.entries.len() - i,
        {
            proof {
                assert(s0[i as int] == (self.entries@[i as int].0@, self.entries@[i as int].1));
            }
            if self.entries[i].0 == platform {
                self.entries[i] = (platform, value);
                proof {
                    assert(self@ =~= s0.update(i as int, (s0[i as int].0, value)));
                    lemma_assoc_map_update(s0, i as int, value);
                    lemma_assoc_map_index(s0, i as int);
                }
                return;
            }
            i += 1;
        }
        self.entries.push((platform, value));
        proof {
            assert(self@ =~= s0.push((platform@, value)));
            assert(self@.drop_last() =~= s0);
            assert(forall|p: int, q: int| 0 <= p < q < self@.len() ==> self@[p].0 != self@[q].0);
        }
    }

    /// Looks the named platform up.
    pub fn get(&self, platform: &String) -> (r: Option<bool>)
        requires
            self.wf(),
        ensures
            r == (if self.as_map().contains_key(platform@) {
                Some(self.as_map()[platform@])
            } else {
                None::<bool>
            }),
    {
        let mut i: usize = 0;
        while i < self.entries.len()
            invariant
                self.wf(),
                i <= self.entries.len(),
                forall|j: int| 0 <= j < i ==> self@[j].0 != platform@,
            decreases self.entries.len() - i,
        {
            proof {
                assert(self@[i as int] == (self.entries@[i as int].0@, self.entries@[i as int].1));
            }
            if self.entries[i].0 == *platform {
                let value = self.entries[i].1;
                proof {
                    lemma_assoc_map_index(self@, i as int);
                }
                return Some(value);
            }
            i += 1;
        }
        proof {
            lemma_assoc_map_contains(self@, platform@);
        }
        None
    }

    pub fn is_empty(&self) -> (r: bool)
        ensures
            r == (self@.len() == 0),
    {
        self.entries.is_empty()
    }

    pub fn len(&self) -> (r: usize)
        ensures
            r == self@.len(),
    {
        self.entries.len()
    }

    /// Copies of the entries, in insertion order.
    pub fn items(&self) -> (r: Vec<(String, bool)>)
        ensures
            entries_view(r@) == self@,
    {
        let mut r: Vec<(String, bool)> = Vec::new();
        let mut i: usize = 0;
        while i < self.entries.len()
            invariant
                i <= self.entries.len(),
                entries_view(r@) =~= self@.take(i as int),
            decreases self.entries.len() - i,
        {
            proof {
                assert(self@[i as int] == (self.entries@[i as int].0@, self.entries@[i as int].1));
            }
            let ghost pre = r@;
            r.push((self.entries[i].0.clone(), self.entries[i].1));
            proof {
                assert(entries_view(pre).len() == i as int);
                assert(pre.len() == i as int);
                assert(r@.len() == i + 1);
                assert(forall|k: int| 0 <= k < i ==> r@[k] == pre[k]);
                assert(forall|k: int| 0 <= k < i ==> entries_view(r@)[k] == entries_view(pre)[k]);
                assert(entries_view(r@)[i as int] == self@[i as int]);
                assert(entries_view(r@) =~= self@.take(i + 1));
            }
            i += 1;
        }
        proof {
            assert(self@.take(self.entries.len() as int) =~= self@);
        }
        r
    }

    /// An empty entry list describes the empty map, and only it does.
    pub proof fn lemma_empty_iff_map_empty(self)
        ensures
            (self@.len() == 0) <==> (self.as_map() == Map::<Seq<char>, bool>::empty()),
    {
        lemma_assoc_map_empty(self@);
    }
}

impl Clone for PlatformFlags {
    fn clone(&self) -> (r: Self)
        ensures
            r@ == self@,
    {
        let mut entries: Vec<(String, bool)> = Vec::new();
        let mut i: usize = 0;
        while i < self.entries.len()
            invariant
                i <= self.entries.len(),
                entries_view(entries@) =~= self@.take(i as int),
            decreases self.entries.len() - i,
        {
            proof {
                assert(self@[i as int] == (self.entries@[i as int].0@, self.entries@[i as int].1));
            }
            let ghost pre = entries@;
            entries.push((self.entries[i].0.clone(), self.entries[i].1));
            proof {
                assert(entries_view(pre).len() == i as int);
                assert(pre.len() == i as int);
                assert(entries@.len() == i + 1);
                assert(entries@[i as int].0@ == self.entries@[i as int].0@);
                assert(forall|k: int| 0 <= k < i ==> entries@[k] == pre[k]);
                assert(forall|k: int| 0 <= k < i ==> entries_view(entries@)[k] == entries_view(pre)[k]);
                assert(entries_view(entries@)[i as int] == self@[i as int]);
                assert(entries_view(entries@) =~= self@.take(i + 1));
            }
            i += 1;
        }
        let r = PlatformFlags { entries };
        proof {
            assert(self@.take(self.entries.len() as int) =~= self@);
        }
        r
    }
}

} // verus!
