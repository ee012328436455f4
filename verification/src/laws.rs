//! Library-level laws: consequences of the engines' contracts, stated and
//! proved once for every record type.

use vstd::prelude::*;

use crate::engine::{populate_post, save_post};
use crate::error::Error;
use crate::relation::find_rel;
use crate::schema::Schema;
use crate::store::{filter_dv, find_dv, upsert_dv, Store};
use crate::value::{dv_get, dv_has_id, DocView, Valv};

verus! {

/// An upserted document is what a subsequent lookup by its identity finds.
proof fn lemma_find_after_upsert(s: Seq<DocView>, id: Valv, d: DocView)
    requires
        dv_has_id(d, id),
    ensures
        find_dv(upsert_dv(s, id, d), id) == Some(d),
    decreases s.len(),
{
    if s.len() == 0 {
        assert(upsert_dv(s, id, d) == seq![d]);
        assert(upsert_dv(s, id, d)[0] == d);
    } else if dv_has_id(s[0], id) {
        assert(upsert_dv(s, id, d) == s.update(0, d));
        assert(s.update(0, d)[0] == d);
    } else {
        let u = upsert_dv(s.subrange(1, s.len() as int), id, d);
        lemma_find_after_upsert(s.subrange(1, s.len() as int), id, d);
        assert((seq![s[0]] + u)[0] == s[0]);
        assert((seq![s[0]] + u).subrange(1, (seq![s[0]] + u).len() as int) =~= u);
    }
}

/// A document appended under a fresh identity is what a subsequent lookup by
/// that identity finds.
proof fn lemma_find_after_push(s: Seq<DocView>, id: Valv, d: DocView)
    requires
        find_dv(s, id) is None,
        dv_has_id(d, id),
    ensures
        find_dv(s.push(d), id) == Some(d),
    decreases s.len(),
{
    if s.len() == 0 {
        assert(s.push(d)[0] == d);
    } else {
        assert(s.push(d)[0] == s[0]);
        assert(s.push(d).subrange(1, s.push(d).len() as int) =~= s.subrange(
            1,
            s.len() as int,
        ).push(d));
        lemma_find_after_push(s.subrange(1, s.len() as int), id, d);
    }
}

/// Round trip: for a record type with no unique-constrained fields, a
/// successful `save` followed by a direct lookup by the saved record's
/// identity finds exactly the saved record's document representation.
///
/// The one input left out: a before-create hook that moves the record onto
/// an identity some other stored document already carries — there the lookup
/// finds that earlier document instead, so the law requires the post-hook
/// identity of a created record to be as absent as the identity that was
/// probed.
pub proof fn lemma_save_round_trip<S: Schema>(
    rec: S,
    db0: Store,
    db1: Store,
    res: Result<S, Error>,
    r2: S,
)
    requires
        S::unique_fields_spec() == Seq::<Seq<char>>::empty(),
        save_post(rec, db0, db1, res),
        res == Ok::<S, Error>(r2),
        find_dv(db0.coll_view(S::collection_spec()), rec.id_view()) is None ==> find_dv(
            db0.coll_view(S::collection_spec()),
            rec.create_hook_id(),
        ) is None,
    ensures
        find_dv(db1.coll_view(S::collection_spec()), r2.id_view()) == Some(r2.doc_view()),
{
    let c = S::collection_spec();
    let coll0 = db0.coll_view(c);
    r2.lemma_doc_id();
    if find_dv(coll0, rec.id_view()) is Some {
        lemma_find_after_upsert(coll0, rec.update_hook_id(), rec.update_hook_doc());
    } else {
        lemma_find_after_push(coll0, rec.create_hook_id(), rec.create_hook_doc());
    }
}

/// Idempotent populate on an unknown field: when the requested name is not
/// among the record's declared relations (or the record declares none),
/// `populate` returns the record unchanged, and succeeds.
pub proof fn lemma_populate_unknown_field<S: Schema>(
    rec: S,
    field: Seq<char>,
    reg: crate::registry::Registry,
    db: Store,
    res: Result<S, Error>,
)
    requires
        populate_post(rec, field, reg, db, res),
        match rec.relations_view() {
            None => true,
            Some(rels) => find_rel(rels, field) is None,
        },
    ensures
        res == Ok::<S, Error>(rec),
{
}

/// One-to-one / many-to-one resolution: when the requested field names such
/// a relation, the target collection holds a document under the descriptor's
/// foreign-key value, and that document converts cleanly, `populate` returns
/// a record whose field embeds exactly that document, its other relation
/// fields and identity untouched; when the target collection holds none, the
/// record comes back unchanged, field still at its prior value.
pub proof fn lemma_populate_resolves_one_side<S: Schema>(
    rec: S,
    field: Seq<char>,
    reg: crate::registry::Registry,
    db: Store,
    res: Result<S, Error>,
    rel: crate::relation::RelView,
)
    requires
        populate_post(rec, field, reg, db, res),
        rec.relations_view() matches Some(rels) && find_rel(rels, field) == Some(rel),
        rel.relation_type == crate::relation::SchemaRelationType::OneToOne
            || rel.relation_type == crate::relation::SchemaRelationType::ManyToOne,
    ensures
        match find_dv(db.coll_view(rel.schema_name), rel.field_value) {
            Some(dv) => rec.set_rel_ok(field, crate::value::Bvalv::Doc(dv)) ==> (res matches Ok(r2)
                && r2.rel_value(field) == Some(crate::value::Bvalv::Doc(dv)) && (forall|
                g: Seq<char>,
            |
                g != field ==> r2.rel_value(g) == rec.rel_value(g)) && r2.id_view()
                == rec.id_view()),
            None => res == Ok::<S, Error>(rec),
        },
{
}

/// One-to-many resolution yields exactly the matching documents: everything
/// the filter returns holds the source identity under the reverse foreign
/// key, and every stored document that holds it is returned — none of the
/// others can appear.
pub proof fn lemma_filter_dv_members(s: Seq<DocView>, k: Seq<char>, v: Valv)
    ensures
        forall|i: int|
            0 <= i < filter_dv(s, k, v).len() ==> dv_get(#[trigger] filter_dv(s, k, v)[i], k)
                == Some(v),
        forall|j: int|
            0 <= j < s.len() && dv_get(#[trigger] s[j], k) == Some(v) ==> filter_dv(
                s,
                k,
                v,
            ).contains(s[j]),
    decreases s.len(),
{
    if s.len() > 0 {
        let rest = s.subrange(1, s.len() as int);
        lemma_filter_dv_members(rest, k, v);
        let head = (if dv_get(s[0], k) == Some(v) {
            seq![s[0]]
        } else {
            Seq::<DocView>::empty()
        });
        assert(filter_dv(s, k, v) == head + filter_dv(rest, k, v));
        assert forall|j: int| 0 <= j < s.len() && dv_get(#[trigger] s[j], k) == Some(v) implies
            filter_dv(s, k, v).contains(s[j]) by {
            if j == 0 {
                assert(filter_dv(s, k, v)[0] == s[0]);
            } else {
                assert(rest[j - 1] == s[j]);
                assert(filter_dv(rest, k, v).contains(s[j]));
                let w = choose|w: int|
                    0 <= w < filter_dv(rest, k, v).len() && filter_dv(rest, k, v)[w] == s[j];
                assert(filter_dv(s, k, v)[head.len() + w] == s[j]);
            }
        }
    }
}

/// Save creates once: when the record's identity is absent from its
/// collection, no uniqueness violation blocks it and the before-create hook
/// succeeds, `save` appends exactly one document — the hook's output,
/// applied exactly once — and performs no replace: every prior document of
/// every collection is exactly where it was.
pub proof fn lemma_save_creates_once<S: Schema>(
    rec: S,
    db0: Store,
    db1: Store,
    res: Result<S, Error>,
)
    requires
        save_post(rec, db0, db1, res),
        crate::engine::first_dup(
            rec.doc_view(),
            S::unique_fields_spec(),
            db0.coll_view(S::collection_spec()),
            rec.id_view(),
        ) is None,
        find_dv(db0.coll_view(S::collection_spec()), rec.id_view()) is None,
        rec.create_hook_ok(),
    ensures
        res is Ok,
        db1.coll_view(S::collection_spec()) == db0.coll_view(S::collection_spec()).push(
            rec.create_hook_doc(),
        ),
        forall|n: Seq<char>|
            n != S::collection_spec() ==> db1.coll_view(n) == db0.coll_view(n),
{
}

/// Save replaces on an existing identity: when the record's identity is
/// already present, no uniqueness violation blocks it and the before-update
/// hook succeeds, `save` performs exactly one replace — keyed by the hooked
/// record's identity, storing the hook's output applied exactly once — and
/// no insert: the collection keeps its length whenever the hooked identity
/// is still the probed one.
pub proof fn lemma_save_replaces_existing<S: Schema>(
    rec: S,
    db0: Store,
    db1: Store,
    res: Result<S, Error>,
)
    requires
        save_post(rec, db0, db1, res),
        crate::engine::first_dup(
            rec.doc_view(),
            S::unique_fields_spec(),
            db0.coll_view(S::collection_spec()),
            rec.id_view(),
        ) is None,
        find_dv(db0.coll_view(S::collection_spec()), rec.id_view()) is Some,
        rec.update_hook_ok(),
    ensures
        res is Ok,
        db1.coll_view(S::collection_spec()) == upsert_dv(
            db0.coll_view(S::collection_spec()),
            rec.update_hook_id(),
            rec.update_hook_doc(),
        ),
        find_dv(db0.coll_view(S::collection_spec()), rec.update_hook_id()) is Some
            ==> db1.coll_view(S::collection_spec()).len() == db0.coll_view(
            S::collection_spec(),
        ).len(),
        forall|n: Seq<char>|
            n != S::collection_spec() ==> db1.coll_view(n) == db0.coll_view(n),
{
    let coll0 = db0.coll_view(S::collection_spec());
    if find_dv(coll0, rec.update_hook_id()) is Some {
        lemma_upsert_len_on_present(coll0, rec.update_hook_id(), rec.update_hook_doc());
    }
}

/// An upsert against a present identity never changes the collection's
/// length.
proof fn lemma_upsert_len_on_present(s: Seq<DocView>, id: Valv, d: DocView)
    requires
        find_dv(s, id) is Some,
    ensures
        upsert_dv(s, id, d).len() == s.len(),
    decreases s.len(),
{
    if s.len() > 0 && !dv_has_id(s[0], id) {
        lemma_upsert_len_on_present(s.subrange(1, s.len() as int), id, d);
    }
}

/// Uniqueness blocks save: when some unique-constrained field of the record
/// is already held, under a different identity, by a document of the
/// record's collection, `save` fails with `DuplicateValue` naming the first
/// such field, and the store is left exactly as it was — no write, no hook
/// effect, no probe effect is visible.
pub proof fn lemma_unique_blocks_save<S: Schema>(
    rec: S,
    db0: Store,
    db1: Store,
    res: Result<S, Error>,
    f: Seq<char>,
)
    requires
        save_post(rec, db0, db1, res),
        crate::engine::first_dup(
            rec.doc_view(),
            S::unique_fields_spec(),
            db0.coll_view(S::collection_spec()),
            rec.id_view(),
        ) == Some(f),
    ensures
        res matches Err(Error::DuplicateValue(g)) && g@ == f,
        db1 == db0,
{
}

} // verus!
