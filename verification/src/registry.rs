//! The project registry: a mapping from project name to its hash-entry
//! list.
//!
//! The registry owns every project's list once built.  A refresh replaces
//! one project's whole list at a time, never one element in place, so a
//! reader holding the registry sees either the list from before a refresh
//! or the list from after, never a partially updated one.  Concurrent
//! sharing (one read/write guard around the whole value) is the caller's
//! concern; every operation here is on the plain value.

use vstd::prelude::*;
use crate::image_hash::ImageHashEntry;

verus! {

/// What a name-to-list association sequence maps `name` to: the list of
/// the latest association with that name, if any.
pub open spec fn spec_lookup(
    s: Seq<(String, Vec<ImageHashEntry>)>,
    name: Seq<char>,
) -> Option<Seq<ImageHashEntry>>
    decreases s.len(),
{
    if s.len() == 0 {
        None
    } else if s.last().0@ == name {
        Some(s.last().1@)
    } else {
        spec_lookup(s.drop_last(), name)
    }
}

/// No two associations share a name.
pub open spec fn unique_names(s: Seq<(String, Vec<ImageHashEntry>)>) -> bool {
    forall|i: int, j: int| 0 <= i < j < s.len() ==> (#[trigger] s[i]).0@ != (#[trigger] s[j]).0@
}

/// Updating the association at `i` without changing its name changes what
/// is looked up under that name, and nothing else.
proof fn lemma_lookup_update(
    s: Seq<(String, Vec<ImageHashEntry>)>,
    i: int,
    p: (String, Vec<ImageHashEntry>),
    name: Seq<char>,
)
    requires
        unique_names(s),
        0 <= i < s.len(),
        s[i].0@ == p.0@,
    ensures
        spec_lookup(s.update(i, p), name) == (if name == p.0@ {
            Some(p.1@)
        } else {
            spec_lookup(s, name)
        }),
    decreases s.len(),
{
    let t = s.update(i, p);
    if i == s.len() - 1 {
        assert(t.drop_last() =~= s.drop_last());
    } else {
        assert(t.last() == s.last());
        assert(s.last().0@ != p.0@);
        assert(t.drop_last() =~= s.drop_last().update(i, p));
        lemma_lookup_update(s.drop_last(), i, p, name);
    }
}

/// The registry: one hash-entry list per project name.
pub struct ProjectRegistry {
    entries: Vec<(String, Vec<ImageHashEntry>)>,
}

impl ProjectRegistry {
    /// At most one list is registered per project name.
    pub closed spec fn wf(&self) -> bool {
        unique_names(self.entries@)
    }

    /// The hash-entry list registered under `name`, if any.
    pub closed spec fn spec_get(&self, name: Seq<char>) -> Option<Seq<ImageHashEntry>> {
        spec_lookup(self.entries@, name)
    }

    /// Whether a project of this name is registered.
    pub open spec fn contains_project(&self, name: Seq<char>) -> bool {
        self.spec_get(name) is Some
    }

    /// An empty registry: no project is registered.
    pub fn new() -> (r: ProjectRegistry)
        ensures
            r.wf(),
            forall|name: Seq<char>| #[trigger] r.spec_get(name) is None,
    {
        ProjectRegistry { entries: Vec::new() }
    }

    /// Register, or atomically replace, the list of one project.  Every
    /// other project's list is untouched.
    pub fn insert_project(&mut self, name: String, hash_list: Vec<ImageHashEntry>)
        requires
            old(self).wf(),
        ensures
            final(self).wf(),
            final(self).spec_get(name@) == Some(hash_list@),
            forall|other: Seq<char>|
                other != name@ ==> #[trigger] final(self).spec_get(other) == old(self).spec_get(
                    other,
                ),
    {
        let n = self.entries.len();
        let mut i: usize = 0;
        while i < n
            invariant
                n == self.entries@.len(),
                i <= n,
                forall|j: int| 0 <= j < i ==> (#[trigger] self.entries@[j]).0@ != name@,
                unique_names(self.entries@),
                *self == *old(self),
            decreases n - i,
        {
            if self.entries[i].0 == name {
                let ghost before = self.entries@;
                self.entries[i] = (name, hash_list);
                proof {
                    assert forall|other: Seq<char>| true implies #[trigger] spec_lookup(
                        self.entries@,
                        other,
                    ) == (if other == before[i as int].0@ {
                        Some(self.entries@[i as int].1@)
                    } else {
                        spec_lookup(before, other)
                    }) by {
                        lemma_lookup_update(
                            before,
                            i as int,
                            (self.entries@[i as int].0, self.entries@[i as int].1),
                            other,
                        );
                        assert(before.update(i as int, self.entries@[i as int]) =~= self.entries@);
                    }
                    assert(unique_names(self.entries@));
                }
                return ;
            }
            i = i + 1;
        }
        let ghost before = self.entries@;
        self.entries.push((name, hash_list));
        proof {
            assert(self.entries@.drop_last() =~= before);
            assert(unique_names(self.entries@));
        }
    }

    /// The list registered under `name`, or nothing for an unknown name.
    pub fn lookup(&self, name: &String) -> (r: Option<&Vec<ImageHashEntry>>)
        ensures
            match r {
                Some(l) => self.spec_get(name@) == Some(l@),
                None => self.spec_get(name@) is None,
            },
    {
        let mut i: usize = self.entries.len();
        proof {
            assert(self.entries@.take(i as int) =~= self.entries@);
        }
        while i > 0
            invariant
                i <= self.entries@.len(),
                spec_lookup(self.entries@, name@) == spec_lookup(
                    self.entries@.take(i as int),
                    name@,
                ),
            decreases i,
        {
            i = i - 1;
            proof {
                assert(self.entries@.take(i + 1).last() == self.entries@[i as int]);
                assert(self.entries@.take(i + 1).drop_last() =~= self.entries@.take(i as int));
            }
            if self.entries[i].0 == *name {
                return Some(&self.entries[i].1);
            }
        }
        None
    }
}

} // verus!
