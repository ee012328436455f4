//! The schema registry: an injectable, write-once lookup from collection
//! name to the relation descriptors that collection's record type declares.
//! The population engine consults it only to resolve the reverse side of a
//! one-to-many relation.

use vstd::prelude::*;

use crate::relation::{rels_views, RelView, SchemaRelation};

verus! {

/// One registered record type: its collection name and its declared
/// relation descriptors.
pub struct RegistryEntry {
    pub name: String,
    pub relations: Vec<SchemaRelation>,
}

/// The registry. Populated by `register` once per record type at process
/// start, read-only thereafter.
pub struct Registry {
    pub entries: Vec<RegistryEntry>,
}

/// The descriptors registered under `n` within `es`, if any.
pub open spec fn entries_rels(es: Seq<RegistryEntry>, n: Seq<char>) -> Option<Seq<RelView>>
    decreases es.len(),
{
    if es.len() == 0 {
        None
    } else if es[0].name@ == n {
        Some(rels_views(es[0].relations@))
    } else {
        entries_rels(es.subrange(1, es.len() as int), n)
    }
}

impl Registry {
    /// Registered names are pairwise distinct.
    pub open spec fn wf(&self) -> bool {
        forall|i: int, j: int|
            0 <= i < j < self.entries@.len() ==> #[trigger] self.entries@[i].name@
                != #[trigger] self.entries@[j].name@
    }

    /// The descriptors registered under `n`, if any.
    pub open spec fn rels_of(&self, n: Seq<char>) -> Option<Seq<RelView>> {
        entries_rels(self.entries@, n)
    }

    /// An empty registry.
    pub fn new() -> (r: Registry)
        ensures
            r.wf(),
            forall|n: Seq<char>| r.rels_of(n) is None,
    {
        Registry { entries: Vec::new() }
    }

    /// Index of the entry named `name`, if present.
    fn entry_idx(&self, name: &String) -> (r: Option<usize>)
        ensures
            match r {
                Some(i) => i < self.entries@.len() && self.entries@[i as int].name@ == name@
                    && forall|k: int| 0 <= k < i ==> #[trigger] self.entries@[k].name@ != name@,
                None => forall|k: int|
                    0 <= k < self.entries@.len() ==> #[trigger] self.entries@[k].name@ != name@,
            },
    {
        let mut i: usize = 0;
        while i < self.entries.len()
            invariant
                i <= self.entries.len(),
                forall|k: int| 0 <= k < i ==> #[trigger] self.entries@[k].name@ != name@,
            decreases self.entries.len() - i,
        {
            if self.entries[i].name.eq(name) {
                return Some(i);
            }
            i += 1;
        }
        None
    }

    /// Registers a record type's descriptors under its collection name. A
    /// name registered before stays as it was: registration happens once.
    pub fn register(&mut self, name: String, relations: Vec<SchemaRelation>)
        requires
            old(self).wf(),
        ensures
            final(self).wf(),
            old(self).rels_of(name@) is None ==> final(self).rels_of(name@) == Some(
                rels_views(relations@),
            ) && forall|n: Seq<char>|
                n != name@ ==> final(self).rels_of(n) == old(self).rels_of(n),
            old(self).rels_of(name@) is Some ==> *final(self) == *old(self),
    {
        match self.entry_idx(&name) {
            Some(_) => {
                proof {
                    lemma_entries_rels_first_any(self.entries@, name@);
                }
            },
            None => {
                let ghost es0 = self.entries@;
                let e = RegistryEntry { name, relations };
                let ghost e2 = e;
                self.entries.push(e);
                proof {
                    lemma_entries_rels_none(es0, e2.name@);
                    assert forall|n: Seq<char>| true implies #[trigger] entries_rels(
                        self.entries@,
                        n,
                    ) == (if n == e2.name@ {
                        Some(rels_views(e2.relations@))
                    } else {
                        entries_rels(es0, n)
                    }) by {
                        lemma_entries_rels_push(es0, e2, n);
                    }
                }
            },
        }
    }

    /// The descriptors registered under `name`, found executably.
    pub fn get<'a>(&'a self, name: &String) -> (r: Option<&'a Vec<SchemaRelation>>)
        ensures
            match r {
                Some(v) => self.rels_of(name@) == Some(rels_views(v@)),
                None => self.rels_of(name@) is None,
            },
    {
        match self.entry_idx(name) {
            Some(i) => {
                proof {
                    lemma_entries_rels_first(self.entries@, name@, i as int);
                }
                Some(&self.entries[i].relations)
            },
            None => {
                proof {
                    lemma_entries_rels_none(self.entries@, name@);
                }
                None
            },
        }
    }
}

/// First-match characterization of `entries_rels`.
pub proof fn lemma_entries_rels_first(es: Seq<RegistryEntry>, n: Seq<char>, i: int)
    requires
        0 <= i < es.len(),
        es[i].name@ == n,
        forall|k: int| 0 <= k < i ==> #[trigger] es[k].name@ != n,
    ensures
        entries_rels(es, n) == Some(rels_views(es[i].relations@)),
    decreases i,
{
    if i > 0 {
        lemma_entries_rels_first(es.subrange(1, es.len() as int), n, i - 1);
    }
}

/// A present name yields a registered entry.
pub proof fn lemma_entries_rels_first_any(es: Seq<RegistryEntry>, n: Seq<char>)
    requires
        exists|i: int| 0 <= i < es.len() && #[trigger] es[i].name@ == n,
    ensures
        entries_rels(es, n) is Some,
    decreases es.len(),
{
    if es[0].name@ != n {
        let i = choose|i: int| 0 <= i < es.len() && #[trigger] es[i].name@ == n;
        assert(es.subrange(1, es.len() as int)[i - 1].name@ == n);
        lemma_entries_rels_first_any(es.subrange(1, es.len() as int), n);
    }
}

/// Exhaustion characterization of `entries_rels`.
pub proof fn lemma_entries_rels_none(es: Seq<RegistryEntry>, n: Seq<char>)
    requires
        forall|k: int| 0 <= k < es.len() ==> #[trigger] es[k].name@ != n,
    ensures
        entries_rels(es, n) is None,
    decreases es.len(),
{
    if es.len() > 0 {
        lemma_entries_rels_none(es.subrange(1, es.len() as int), n);
    }
}

/// Appending an entry with a fresh name only adds the lookup of that name.
pub proof fn lemma_entries_rels_push(es: Seq<RegistryEntry>, e: RegistryEntry, n: Seq<char>)
    requires
        forall|k: int| 0 <= k < es.len() ==> #[trigger] es[k].name@ != e.name@,
    ensures
        entries_rels(es.push(e), n) == (if n == e.name@ {
            Some(rels_views(e.relations@))
        } else {
            entries_rels(es, n)
        }),
    decreases es.len(),
{
    if es.len() == 0 {
        let s1 = es.push(e);
        assert(s1[0] == e);
        assert(s1.subrange(1, 1) =~= Seq::<RegistryEntry>::empty());
        assert(entries_rels(s1.subrange(1, s1.len() as int), n) is None);
    } else {
        assert(es.push(e).subrange(1, es.push(e).len() as int) =~= es.subrange(
            1,
            es.len() as int,
        ).push(e));
        lemma_entries_rels_push(es.subrange(1, es.len() as int), e, n);
        assert(es.push(e)[0] == es[0]);
    }
}

} // verus!
