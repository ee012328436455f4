//! An in-memory document store: named collections of flat documents, with
//! the four operations the mapping layer consumes — single-document lookup by
//! identity, multi-document lookup by field value, plain insert, and
//! replace-with-upsert keyed by identity. Each operation's contract states
//! its exact effect on the collection views, so the engines built on top can
//! be verified end to end.

use vstd::prelude::*;
use vstd::string::*;

use crate::value::{docs_views, dv_get, dv_has_id, id_key, DocView, Document, Value, Valv};

verus! {

/// One named collection.
pub struct Collection {
    pub name: String,
    pub docs: Vec<Document>,
}

/// The store: a set of collections with pairwise distinct names. A lookup
/// against an absent collection behaves as a lookup against an empty one.
pub struct Store {
    pub collections: Vec<Collection>,
}

/// First document carrying `id` as its identity, if any.
pub open spec fn find_dv(s: Seq<DocView>, id: Valv) -> Option<DocView>
    decreases s.len(),
{
    if s.len() == 0 {
        None
    } else if dv_has_id(s[0], id) {
        Some(s[0])
    } else {
        find_dv(s.subrange(1, s.len() as int), id)
    }
}

/// Replace the first document carrying `id` by `d`; append `d` when none
/// does.
pub open spec fn upsert_dv(s: Seq<DocView>, id: Valv, d: DocView) -> Seq<DocView>
    decreases s.len(),
{
    if s.len() == 0 {
        seq![d]
    } else if dv_has_id(s[0], id) {
        s.update(0, d)
    } else {
        seq![s[0]] + upsert_dv(s.subrange(1, s.len() as int), id, d)
    }
}

/// The documents whose field `k` holds `v`, in their stored order.
pub open spec fn filter_dv(s: Seq<DocView>, k: Seq<char>, v: Valv) -> Seq<DocView>
    decreases s.len(),
{
    if s.len() == 0 {
        Seq::empty()
    } else {
        (if dv_get(s[0], k) == Some(v) {
            seq![s[0]]
        } else {
            Seq::<DocView>::empty()
        }) + filter_dv(s.subrange(1, s.len() as int), k, v)
    }
}

/// Whether some document holds `v` at field `k` while carrying an identity
/// other than `id` (or none): the shape of a uniqueness violation.
pub open spec fn has_conflict(s: Seq<DocView>, k: Seq<char>, v: Valv, id: Valv) -> bool {
    exists|j: int|
        0 <= j < s.len() && #[trigger] dv_get(s[j], k) == Some(v) && !dv_has_id(s[j], id)
}

/// The view of the collection named `n` within `cs`: the views of the first
/// collection of that name, or the empty sequence.
pub open spec fn colls_view(cs: Seq<Collection>, n: Seq<char>) -> Seq<DocView>
    decreases cs.len(),
{
    if cs.len() == 0 {
        Seq::empty()
    } else if cs[0].name@ == n {
        docs_views(cs[0].docs@)
    } else {
        colls_view(cs.subrange(1, cs.len() as int), n)
    }
}

impl Store {
    /// Collection names are pairwise distinct.
    pub open spec fn wf(&self) -> bool {
        forall|i: int, j: int|
            0 <= i < j < self.collections@.len() ==> #[trigger] self.collections@[i].name@
                != #[trigger] self.collections@[j].name@
    }

    /// The documents of the collection named `n`, as views.
    pub open spec fn coll_view(&self, n: Seq<char>) -> Seq<DocView> {
        colls_view(self.collections@, n)
    }

    /// An empty store.
    pub fn new() -> (r: Store)
        ensures
            r.wf(),
            forall|n: Seq<char>| r.coll_view(n) == Seq::<DocView>::empty(),
    {
        Store { collections: Vec::new() }
    }

    /// Index of the collection named `coll`, if present.
    fn coll_idx(&self, coll: &String) -> (r: Option<usize>)
        ensures
            match r {
                Some(i) => i < self.collections@.len() && self.collections@[i as int].name@
                    == coll@ && forall|k: int|
                    0 <= k < i ==> #[trigger] self.collections@[k].name@ != coll@,
                None => forall|k: int|
                    0 <= k < self.collections@.len()
                        ==> #[trigger] self.collections@[k].name@ != coll@,
            },
    {
        let mut i: usize = 0;
        while i < self.collections.len()
            invariant
                i <= self.collections.len(),
                forall|k: int| 0 <= k < i ==> #[trigger] self.collections@[k].name@ != coll@,
            decreases self.collections.len() - i,
        {
            if self.collections[i].name.eq(coll) {
                return Some(i);
            }
            i += 1;
        }
        None
    }

    /// Single-document lookup by identity: the first document of the
    /// collection whose `_id` equals `id`, if any.
    pub fn find_one_by_id(&self, coll: &String, id: &Value) -> (r: Option<Document>)
        ensures
            match r {
                Some(d) => find_dv(self.coll_view(coll@), id@) == Some(d@),
                None => find_dv(self.coll_view(coll@), id@) is None,
            },
    {
        let ci = match self.coll_idx(coll) {
            Some(ci) => ci,
            None => {
                proof {
                    lemma_colls_view_none(self.collections@, coll@);
                }
                return None;
            },
        };
        proof {
            lemma_colls_view_first(self.collections@, coll@, ci as int);
        }
        let docs = &self.collections[ci].docs;
        let mut j: usize = 0;
        while j < docs.len()
            invariant
                j <= docs.len(),
                self.coll_view(coll@) == docs_views(docs@),
                forall|k: int| 0 <= k < j ==> !dv_has_id(#[trigger] docs@[k]@, id@),
            decreases docs.len() - j,
        {
            if doc_has_id(&docs[j], id) {
                proof {
                    lemma_find_dv_first(docs_views(docs@), id@, j as int);
                }
                return Some(docs[j].copy_doc());
            }
            j += 1;
        }
        proof {
            lemma_find_dv_none(docs_views(docs@), id@);
        }
        None
    }

    /// Whether the collection holds a document whose `_id` equals `id`.
    pub fn contains_id(&self, coll: &String, id: &Value) -> (r: bool)
        ensures
            r == (find_dv(self.coll_view(coll@), id@) is Some),
    {
        self.find_one_by_id(coll, id).is_some()
    }

    /// Multi-document lookup: every document of the collection whose field
    /// `key` holds `v`, in stored order.
    pub fn find_by_field(&self, coll: &String, key: &String, v: &Value) -> (r: Vec<Document>)
        ensures
            docs_views(r@) == filter_dv(self.coll_view(coll@), key@, v@),
    {
        let mut out: Vec<Document> = Vec::new();
        let ci = match self.coll_idx(coll) {
            Some(ci) => ci,
            None => {
                proof {
                    lemma_colls_view_none(self.collections@, coll@);
                    assert(docs_views(out@) =~= filter_dv(self.coll_view(coll@), key@, v@));
                }
                return out;
            },
        };
        proof {
            lemma_colls_view_first(self.collections@, coll@, ci as int);
        }
        let docs = &self.collections[ci].docs;
        let mut j: usize = 0;
        while j < docs.len()
            invariant
                j <= docs.len(),
                self.coll_view(coll@) == docs_views(docs@),
                docs_views(out@) == filter_dv(docs_views(docs@).subrange(0, j as int), key@, v@),
            decreases docs.len() - j,
        {
            proof {
                assert(docs_views(docs@).subrange(0, j + 1) =~= docs_views(docs@).subrange(
                    0,
                    j as int,
                ).push(docs@[j as int]@));
                lemma_filter_dv_push(
                    docs_views(docs@).subrange(0, j as int),
                    docs@[j as int]@,
                    key@,
                    v@,
                );
            }
            let matches = match docs[j].get(key) {
                Some(x) => x.eq_value(v),
                None => false,
            };
            if matches {
                out.push(docs[j].copy_doc());
                proof {
                    assert(docs_views(out@) =~= filter_dv(
                        docs_views(docs@).subrange(0, j + 1),
                        key@,
                        v@,
                    ));
                }
            } else {
                proof {
                    assert(docs_views(out@) =~= filter_dv(
                        docs_views(docs@).subrange(0, j + 1),
                        key@,
                        v@,
                    ));
                }
            }
            j += 1;
        }
        proof {
            assert(docs_views(docs@).subrange(0, docs@.len() as int) =~= docs_views(docs@));
        }
        out
    }

    /// Whether the collection holds a uniqueness conflict for `v` at `key`:
    /// a document with that value whose identity differs from `id`.
    pub fn exists_conflict(&self, coll: &String, key: &String, v: &Value, id: &Value) -> (r: bool)
        ensures
            r == has_conflict(self.coll_view(coll@), key@, v@, id@),
    {
        let ci = match self.coll_idx(coll) {
            Some(ci) => ci,
            None => {
                proof {
                    lemma_colls_view_none(self.collections@, coll@);
                }
                return false;
            },
        };
        proof {
            lemma_colls_view_first(self.collections@, coll@, ci as int);
        }
        let docs = &self.collections[ci].docs;
        let mut j: usize = 0;
        while j < docs.len()
            invariant
                j <= docs.len(),
                self.coll_view(coll@) == docs_views(docs@),
                forall|k: int|
                    0 <= k < j ==> !(#[trigger] dv_get(docs@[k]@, key@) == Some(v@) && !dv_has_id(
                        docs@[k]@,
                        id@,
                    )),
            decreases docs.len() - j,
        {
            let matches = match docs[j].get(key) {
                Some(x) => x.eq_value(v),
                None => false,
            };
            if matches && !doc_has_id(&docs[j], id) {
                proof {
                    assert(dv_get(docs_views(docs@)[j as int], key@) == Some(v@));
                }
                return true;
            }
            j += 1;
        }
        proof {
            assert(forall|k: int|
                0 <= k < docs_views(docs@).len() ==> !(#[trigger] dv_get(
                    docs_views(docs@)[k],
                    key@,
                ) == Some(v@) && !dv_has_id(docs_views(docs@)[k], id@)));
        }
        false
    }

    /// Plain insert: appends `d` to the collection, creating the collection
    /// when absent. Every other collection is untouched.
    pub fn insert_one(&mut self, coll: &String, d: Document)
        requires
            old(self).wf(),
        ensures
            final(self).wf(),
            final(self).coll_view(coll@) == old(self).coll_view(coll@).push(d@),
            forall|n: Seq<char>|
                n != coll@ ==> final(self).coll_view(n) == old(self).coll_view(n),
    {
        let ghost dv = d@;
        match self.coll_idx(coll) {
            Some(ci) => {
                let ghost cs0 = self.collections@;
                proof {
                    lemma_colls_view_first(cs0, coll@, ci as int);
                }
                let mut c = self.collections.remove(ci);
                c.docs.push(d);
                let ghost c2 = c;
                self.collections.insert(ci, c);
                proof {
                    assert(self.collections@ =~= cs0.update(ci as int, c2));
                    lemma_colls_view_update(cs0, ci as int, c2, coll@);
                    assert(docs_views(c2.docs@) =~= docs_views(cs0[ci as int].docs@).push(dv));
                    assert(forall|n: Seq<char>|
                        n != coll@ ==> #[trigger] colls_view(self.collections@, n) == colls_view(
                            cs0,
                            n,
                        )) by {
                        assert forall|n: Seq<char>| n != coll@ implies #[trigger] colls_view(
                            self.collections@,
                            n,
                        ) == colls_view(cs0, n) by {
                            lemma_colls_view_update(cs0, ci as int, c2, n);
                        }
                    }
                }
            },
            None => {
                let ghost cs0 = self.collections@;
                let mut docs: Vec<Document> = Vec::new();
                docs.push(d);
                let c = Collection { name: coll.clone(), docs };
                let ghost c2 = c;
                self.collections.push(c);
                proof {
                    lemma_colls_view_none(cs0, coll@);
                    assert forall|n: Seq<char>| true implies #[trigger] colls_view(
                        self.collections@,
                        n,
                    ) == (if n == coll@ {
                        docs_views(c2.docs@)
                    } else {
                        colls_view(cs0, n)
                    }) by {
                        lemma_colls_view_push(cs0, c2, n);
                    }
                    assert(docs_views(c2.docs@) =~= colls_view(cs0, coll@).push(dv));
                }
            },
        }
    }

    /// Replace keyed by identity, with upsert: the first document whose
    /// `_id` equals `id` is replaced by `d`; when none matches, `d` is
    /// appended instead. Every other collection is untouched.
    pub fn replace_one_upsert(&mut self, coll: &String, id: &Value, d: Document)
        requires
            old(self).wf(),
        ensures
            final(self).wf(),
            final(self).coll_view(coll@) == upsert_dv(old(self).coll_view(coll@), id@, d@),
            forall|n: Seq<char>|
                n != coll@ ==> final(self).coll_view(n) == old(self).coll_view(n),
    {
        let ghost dv = d@;
        match self.coll_idx(coll) {
            Some(ci) => {
                let ghost cs0 = self.collections@;
                proof {
                    lemma_colls_view_first(cs0, coll@, ci as int);
                }
                let mut c = self.collections.remove(ci);
                let ghost docs0 = c.docs@;
                let mut j: usize = 0;
                let mut found = false;
                while j < c.docs.len() && !found
                    invariant
                        j <= c.docs.len(),
                        !found ==> forall|k: int|
                            0 <= k < j ==> !dv_has_id(#[trigger] c.docs@[k]@, id@),
                        found ==> j < c.docs@.len() && dv_has_id(c.docs@[j as int]@, id@)
                            && forall|k: int|
                            0 <= k < j ==> !dv_has_id(#[trigger] c.docs@[k]@, id@),
                        c.docs@ == docs0,
                    decreases c.docs.len() - j - (if found {
                        1int
                    } else {
                        0int
                    }),
                {
                    if doc_has_id(&c.docs[j], id) {
                        found = true;
                    } else {
                        j += 1;
                    }
                }
                if found {
                    c.docs.remove(j);
                    let ghost removed = c.docs@;
                    c.docs.insert(j, d);
                    proof {
                        assert(c.docs@ =~= docs0.update(j as int, d));
                        lemma_upsert_dv_first(docs_views(docs0), id@, dv, j as int);
                        assert(docs_views(c.docs@) =~= docs_views(docs0).update(j as int, dv));
                    }
                } else {
                    c.docs.push(d);
                    proof {
                        lemma_upsert_dv_none(docs_views(docs0), id@, dv);
                        assert(docs_views(c.docs@) =~= docs_views(docs0).push(dv));
                    }
                }
                let ghost c2 = c;
                self.collections.insert(ci, c);
                proof {
                    assert(self.collections@ =~= cs0.update(ci as int, c2));
                    assert forall|n: Seq<char>| true implies #[trigger] colls_view(
                        self.collections@,
                        n,
                    ) == (if n == coll@ {
                        docs_views(c2.docs@)
                    } else {
                        colls_view(cs0, n)
                    }) by {
                        lemma_colls_view_update(cs0, ci as int, c2, n);
                    }
                }
            },
            None => {
                let ghost cs0 = self.collections@;
                let mut docs: Vec<Document> = Vec::new();
                docs.push(d);
                let c = Collection { name: coll.clone(), docs };
                let ghost c2 = c;
                self.collections.push(c);
                proof {
                    lemma_colls_view_none(cs0, coll@);
                    assert forall|n: Seq<char>| true implies #[trigger] colls_view(
                        self.collections@,
                        n,
                    ) == (if n == coll@ {
                        docs_views(c2.docs@)
                    } else {
                        colls_view(cs0, n)
                    }) by {
                        lemma_colls_view_push(cs0, c2, n);
                    }
                    assert(docs_views(c2.docs@) =~= seq![dv]);
                }
            },
        }
    }
}

/// Whether `d` carries `id` as its identity, decided executably.
pub fn doc_has_id(d: &Document, id: &Value) -> (r: bool)
    ensures
        r == dv_has_id(d@, id@),
{
    let k = String::from_str("_id");
    match d.get(&k) {
        Some(v) => v.eq_value(id),
        None => false,
    }
}

/// First-match characterization of `find_dv`.
pub proof fn lemma_find_dv_first(s: Seq<DocView>, id: Valv, j: int)
    requires
        0 <= j < s.len(),
        dv_has_id(s[j], id),
        forall|k: int| 0 <= k < j ==> !dv_has_id(#[trigger] s[k], id),
    ensures
        find_dv(s, id) == Some(s[j]),
    decreases j,
{
    if j == 0 {
    } else {
        lemma_find_dv_first(s.subrange(1, s.len() as int), id, j - 1);
    }
}

/// Exhaustion characterization of `find_dv`.
pub proof fn lemma_find_dv_none(s: Seq<DocView>, id: Valv)
    requires
        forall|k: int| 0 <= k < s.len() ==> !dv_has_id(#[trigger] s[k], id),
    ensures
        find_dv(s, id) is None,
    decreases s.len(),
{
    if s.len() > 0 {
        lemma_find_dv_none(s.subrange(1, s.len() as int), id);
    }
}

/// When the first identity match sits at `j`, the upsert is an update there.
pub proof fn lemma_upsert_dv_first(s: Seq<DocView>, id: Valv, d: DocView, j: int)
    requires
        0 <= j < s.len(),
        dv_has_id(s[j], id),
        forall|k: int| 0 <= k < j ==> !dv_has_id(#[trigger] s[k], id),
    ensures
        upsert_dv(s, id, d) == s.update(j, d),
    decreases j,
{
    if j == 0 {
    } else {
        lemma_upsert_dv_first(s.subrange(1, s.len() as int), id, d, j - 1);
        assert(upsert_dv(s, id, d) =~= s.update(j, d));
    }
}

/// When no identity matches, the upsert is an append.
pub proof fn lemma_upsert_dv_none(s: Seq<DocView>, id: Valv, d: DocView)
    requires
        forall|k: int| 0 <= k < s.len() ==> !dv_has_id(#[trigger] s[k], id),
    ensures
        upsert_dv(s, id, d) == s.push(d),
    decreases s.len(),
{
    if s.len() == 0 {
        assert(upsert_dv(s, id, d) =~= s.push(d));
    } else {
        lemma_upsert_dv_none(s.subrange(1, s.len() as int), id, d);
        assert(upsert_dv(s, id, d) =~= s.push(d));
    }
}

/// Filtering a sequence extended by one document.
pub proof fn lemma_filter_dv_push(s: Seq<DocView>, d: DocView, k: Seq<char>, v: Valv)
    ensures
        filter_dv(s.push(d), k, v) == filter_dv(s, k, v) + (if dv_get(d, k) == Some(v) {
            seq![d]
        } else {
            Seq::<DocView>::empty()
        }),
    decreases s.len(),
{
    if s.len() == 0 {
        let s1 = s.push(d);
        assert(s1[0] == d);
        assert(s1.subrange(1, 1) =~= Seq::<DocView>::empty());
        assert(filter_dv(s1.subrange(1, s1.len() as int), k, v) == Seq::<DocView>::empty());
        assert(filter_dv(s1, k, v) =~= filter_dv(s, k, v) + (if dv_get(d, k) == Some(v) {
            seq![d]
        } else {
            Seq::<DocView>::empty()
        }));
    } else {
        assert(s.push(d).subrange(1, s.push(d).len() as int) =~= s.subrange(
            1,
            s.len() as int,
        ).push(d));
        lemma_filter_dv_push(s.subrange(1, s.len() as int), d, k, v);
        assert(filter_dv(s.push(d), k, v) =~= filter_dv(s, k, v) + (if dv_get(d, k) == Some(v) {
            seq![d]
        } else {
            Seq::<DocView>::empty()
        }));
    }
}

/// First-match characterization of `colls_view`.
pub proof fn lemma_colls_view_first(cs: Seq<Collection>, n: Seq<char>, i: int)
    requires
        0 <= i < cs.len(),
        cs[i].name@ == n,
        forall|k: int| 0 <= k < i ==> #[trigger] cs[k].name@ != n,
    ensures
        colls_view(cs, n) == docs_views(cs[i].docs@),
    decreases i,
{
    if i == 0 {
    } else {
        lemma_colls_view_first(cs.subrange(1, cs.len() as int), n, i - 1);
    }
}

/// Exhaustion characterization of `colls_view`.
pub proof fn lemma_colls_view_none(cs: Seq<Collection>, n: Seq<char>)
    requires
        forall|k: int| 0 <= k < cs.len() ==> #[trigger] cs[k].name@ != n,
    ensures
        colls_view(cs, n) == Seq::<DocView>::empty(),
    decreases cs.len(),
{
    if cs.len() > 0 {
        lemma_colls_view_none(cs.subrange(1, cs.len() as int), n);
    }
}

/// Updating one collection in place only moves the view of its own name.
pub proof fn lemma_colls_view_update(cs: Seq<Collection>, i: int, c2: Collection, n: Seq<char>)
    requires
        0 <= i < cs.len(),
        c2.name@ == cs[i].name@,
        forall|k: int| 0 <= k < i ==> #[trigger] cs[k].name@ != cs[i].name@,
    ensures
        colls_view(cs.update(i, c2), n) == (if n == cs[i].name@ {
            docs_views(c2.docs@)
        } else {
            colls_view(cs, n)
        }),
    decreases i,
{
    if i == 0 {
        assert(cs.update(0, c2).subrange(1, cs.len() as int) =~= cs.subrange(1, cs.len() as int));
    } else {
        assert(cs.update(i, c2).subrange(1, cs.len() as int) =~= cs.subrange(
            1,
            cs.len() as int,
        ).update(i - 1, c2));
        lemma_colls_view_update(cs.subrange(1, cs.len() as int), i - 1, c2, n);
    }
}

/// Appending a collection with a fresh name only adds the view of that name.
pub proof fn lemma_colls_view_push(cs: Seq<Collection>, c: Collection, n: Seq<char>)
    requires
        forall|k: int| 0 <= k < cs.len() ==> #[trigger] cs[k].name@ != c.name@,
    ensures
        colls_view(cs.push(c), n) == (if n == c.name@ {
            docs_views(c.docs@)
        } else {
            colls_view(cs, n)
        }),
    decreases cs.len(),
{
    if cs.len() == 0 {
        let s1 = cs.push(c);
        assert(s1[0] == c);
        assert(s1.subrange(1, 1) =~= Seq::<Collection>::empty());
        assert(colls_view(s1.subrange(1, s1.len() as int), n) == Seq::<DocView>::empty());
    } else {
        assert(cs.push(c).subrange(1, cs.push(c).len() as int) =~= cs.subrange(
            1,
            cs.len() as int,
        ).push(c));
        lemma_colls_view_push(cs.subrange(1, cs.len() as int), c, n);
        assert(cs.push(c)[0] == cs[0]);
    }
}

} // verus!
