//! The population and persistence engines.
//!
//! `populate` resolves one named relation field of a record against the
//! store, consulting the registry for the reverse side of a one-to-many
//! relation; an unknown field name, a missing target document, a missing
//! registry entry or a missing reverse descriptor each leave the record
//! unchanged — none is an error.
//!
//! `save` performs the insert-or-replace protocol: uniqueness check first,
//! then the existence probe, then the matching lifecycle hook, then exactly
//! one write — a plain insert for a fresh identity, a replace keyed by
//! identity (with upsert) for a present one.

use vstd::prelude::*;
use vstd::string::*;

use crate::error::Error;
use crate::registry::Registry;
use crate::relation::{find_rel, find_relation, find_reverse, find_reverse_relation};
use crate::relation::SchemaRelationType;
use crate::schema::Schema;
use crate::store::{filter_dv, find_dv, has_conflict, upsert_dv, Store};
use crate::value::{dv_get, strs_views, Bval, Bvalv, DocView, Document, Value, Valv};

verus! {

/// Whether the document `doc` violates the uniqueness of field `f` against
/// `coll`: some document of `coll` holds the same value at `f` under a
/// different identity. A document that lacks `f` violates nothing.
pub open spec fn dup_at(doc: DocView, f: Seq<char>, coll: Seq<DocView>, id: Valv) -> bool {
    match dv_get(doc, f) {
        Some(v) => has_conflict(coll, f, v, id),
        None => false,
    }
}

/// The first unique-constrained field of `doc` violated against `coll`, if
/// any.
pub open spec fn first_dup(doc: DocView, fields: Seq<Seq<char>>, coll: Seq<DocView>, id: Valv) -> Option<
    Seq<char>,
>
    decreases fields.len(),
{
    if fields.len() == 0 {
        None
    } else if dup_at(doc, fields[0], coll, id) {
        Some(fields[0])
    } else {
        first_dup(doc, fields.subrange(1, fields.len() as int), coll, id)
    }
}

/// First-match characterization of `first_dup`.
pub proof fn lemma_first_dup_first(
    doc: DocView,
    fields: Seq<Seq<char>>,
    coll: Seq<DocView>,
    id: Valv,
    i: int,
)
    requires
        0 <= i < fields.len(),
        dup_at(doc, fields[i], coll, id),
        forall|k: int| 0 <= k < i ==> !dup_at(doc, #[trigger] fields[k], coll, id),
    ensures
        first_dup(doc, fields, coll, id) == Some(fields[i]),
    decreases i,
{
    if i > 0 {
        lemma_first_dup_first(doc, fields.subrange(1, fields.len() as int), coll, id, i - 1);
    }
}

/// Exhaustion characterization of `first_dup`.
pub proof fn lemma_first_dup_none(doc: DocView, fields: Seq<Seq<char>>, coll: Seq<DocView>, id: Valv)
    requires
        forall|k: int| 0 <= k < fields.len() ==> !dup_at(doc, #[trigger] fields[k], coll, id),
    ensures
        first_dup(doc, fields, coll, id) is None,
    decreases fields.len(),
{
    if fields.len() > 0 {
        lemma_first_dup_none(doc, fields.subrange(1, fields.len() as int), coll, id);
    }
}

/// The uniqueness check over a document: walks the unique-constrained field
/// names in order and fails with `DuplicateValue` on the first one whose
/// value is already held, at that field, by a document of the collection
/// with a different identity. Record types implement their
/// uniqueness-validation capability with this.
pub fn check_unique_in(
    doc: &Document,
    fields: &Vec<String>,
    db: &Store,
    coll: &String,
    id: &Value,
) -> (r: Result<(), Error>)
    ensures
        match first_dup(doc@, strs_views(fields@), db.coll_view(coll@), id@) {
            None => r is Ok,
            Some(f) => r matches Err(Error::DuplicateValue(g)) && g@ == f,
        },
{
    let mut i: usize = 0;
    while i < fields.len()
        invariant
            i <= fields.len(),
            forall|k: int|
                0 <= k < i ==> !dup_at(doc@, #[trigger] strs_views(fields@)[k], db.coll_view(coll@), id@),
        decreases fields.len() - i,
    {
        let f = &fields[i];
        let conflict = match doc.get(f) {
            Some(v) => db.exists_conflict(coll, f, v, id),
            None => false,
        };
        if conflict {
            proof {
                lemma_first_dup_first(
                    doc@,
                    strs_views(fields@),
                    db.coll_view(coll@),
                    id@,
                    i as int,
                );
            }
            return Err(Error::DuplicateValue(f.clone()));
        }
        i += 1;
    }
    proof {
        lemma_first_dup_none(doc@, strs_views(fields@), db.coll_view(coll@), id@);
    }
    Ok(())
}

/// The single-document filter a record is probed and replaced by: a document
/// holding only the record's identity under the `_id` key.
pub fn id_query<S: Schema>(rec: &S) -> (r: Document)
    requires
        rec.wf(),
    ensures
        r@ == seq![(crate::value::id_key(), rec.id_view())],
{
    let mut d = Document::new();
    d.push_field(String::from_str("_id"), rec.get_id());
    proof {
        assert(d@ =~= seq![(crate::value::id_key(), rec.id_view())]);
    }
    d
}

/// What holds of `res` after resolved relation data `v` is handed to the
/// record's setter for `field`: on a clean conversion the field holds
/// exactly `v` and everything else of the record is untouched; otherwise the
/// call failed with `ConversionFailure`.
pub open spec fn set_outcome<S: Schema>(
    rec: S,
    field: Seq<char>,
    v: Bvalv,
    res: Result<S, Error>,
) -> bool {
    if rec.set_rel_ok(field, v) {
        res matches Ok(r2) && r2.wf() && r2.rel_value(field) == Some(v) && (forall|g: Seq<char>|
            g != field ==> r2.rel_value(g) == rec.rel_value(g)) && r2.id_view() == rec.id_view()
    } else {
        res == Err::<S, Error>(Error::ConversionFailure)
    }
}

/// The exact outcome of `populate(rec, field)` against registry `reg` and
/// store `db`.
///
/// An unknown field, a record without relations, a missing target document
/// (one side), a missing registry entry or a missing reverse descriptor
/// (many side) each return the record unchanged. A found one-side document
/// is injected as it stands; the many side injects exactly the target
/// documents whose reverse foreign key holds the record's identity, in
/// stored order.
pub open spec fn populate_post<S: Schema>(
    rec: S,
    field: Seq<char>,
    reg: Registry,
    db: Store,
    res: Result<S, Error>,
) -> bool {
    match rec.relations_view() {
        None => res == Ok::<S, Error>(rec),
        Some(rels) => match find_rel(rels, field) {
            None => res == Ok::<S, Error>(rec),
            Some(rel) => {
                if rel.relation_type == SchemaRelationType::OneToOne || rel.relation_type
                    == SchemaRelationType::ManyToOne {
                    match find_dv(db.coll_view(rel.schema_name), rel.field_value) {
                        Some(dv) => set_outcome(rec, field, Bvalv::Doc(dv), res),
                        None => res == Ok::<S, Error>(rec),
                    }
                } else {
                    match reg.rels_of(rel.schema_name) {
                        None => res == Ok::<S, Error>(rec),
                        Some(trels) => match find_reverse(trels, S::collection_spec()) {
                            None => res == Ok::<S, Error>(rec),
                            Some(rrel) => set_outcome(
                                rec,
                                field,
                                Bvalv::Docs(
                                    filter_dv(
                                        db.coll_view(rel.schema_name),
                                        rrel.field_ident,
                                        rec.id_view(),
                                    ),
                                ),
                                res,
                            ),
                        },
                    }
                }
            },
        },
    }
}

/// The population engine: resolves the relation field named `field` on
/// `rec`, returning the record with that field replaced by resolved data
/// when the field names a declared relation and the lookup finds something;
/// otherwise the record comes back unchanged.
pub fn populate<S: Schema>(rec: S, field: &String, registry: &Registry, db: &Store) -> (res: Result<
    S,
    Error,
>)
    requires
        rec.wf(),
    ensures
        populate_post(rec, field@, *registry, *db, res),
        res matches Ok(r2) ==> r2.wf(),
{
    let mut rec = rec;
    let rels = match rec.get_relations() {
        Some(v) => v,
        None => {
            return Ok(rec);
        },
    };
    let rel = match find_relation(&rels, field) {
        Some(r) => r,
        None => {
            return Ok(rec);
        },
    };
    if rel.relation_type == SchemaRelationType::OneToOne || rel.relation_type
        == SchemaRelationType::ManyToOne {
        match db.find_one_by_id(&rel.schema_name, &rel.field_value) {
            Some(d) => match rec.set_relation(field, Bval::Doc(d)) {
                Ok(_) => Ok(rec),
                Err(e) => Err(e),
            },
            None => Ok(rec),
        }
    } else {
        let trels = match registry.get(&rel.schema_name) {
            Some(v) => v,
            None => {
                return Ok(rec);
            },
        };
        let src_name = S::collection_name();
        let rrel = match find_reverse_relation(trels, &src_name) {
            Some(r) => r,
            None => {
                return Ok(rec);
            },
        };
        let id = rec.get_id();
        let docs = db.find_by_field(&rel.schema_name, &rrel.field_ident, &id);
        match rec.set_relation(field, Bval::Docs(docs)) {
            Ok(_) => Ok(rec),
            Err(e) => Err(e),
        }
    }
}

/// The exact outcome of `save(rec)` against the store: `db0` before, `db1`
/// after.
///
/// The uniqueness check comes first and blocks everything on a violation.
/// Otherwise the record's collection either holds the record's identity —
/// then the before-update hook runs and the hook's document replaces the
/// first document carrying the hook's identity (appending when a concurrent
/// removal took it away) — or it does not, and the before-create hook runs
/// and its document is appended. A failing hook surfaces its own error and
/// leaves the store untouched. Other collections are never touched.
pub open spec fn save_post<S: Schema>(rec: S, db0: Store, db1: Store, res: Result<S, Error>) -> bool {
    let c = S::collection_spec();
    let coll0 = db0.coll_view(c);
    match first_dup(rec.doc_view(), S::unique_fields_spec(), coll0, rec.id_view()) {
        Some(f) => (res matches Err(Error::DuplicateValue(g)) && g@ == f) && db1 == db0,
        None => {
            if find_dv(coll0, rec.id_view()) is Some {
                if rec.update_hook_ok() {
                    res matches Ok(r2) && r2.wf() && r2.doc_view() == rec.update_hook_doc()
                        && r2.id_view() == rec.update_hook_id() && db1.coll_view(c) == upsert_dv(
                        coll0,
                        rec.update_hook_id(),
                        rec.update_hook_doc(),
                    ) && (forall|n: Seq<char>| n != c ==> db1.coll_view(n) == db0.coll_view(n))
                } else {
                    res == Err::<S, Error>(rec.update_hook_err()) && db1 == db0
                }
            } else {
                if rec.create_hook_ok() {
                    res matches Ok(r2) && r2.wf() && r2.doc_view() == rec.create_hook_doc()
                        && r2.id_view() == rec.create_hook_id() && db1.coll_view(c) == coll0.push(
                        rec.create_hook_doc(),
                    ) && (forall|n: Seq<char>| n != c ==> db1.coll_view(n) == db0.coll_view(n))
                } else {
                    res == Err::<S, Error>(rec.create_hook_err()) && db1 == db0
                }
            }
        },
    }
}

/// The persistence engine: an idempotent insert-or-replace keyed by the
/// record's identity, returning the (possibly hook-rewritten) record on
/// success.
pub fn save<S: Schema>(rec: S, db: &mut Store) -> (res: Result<S, Error>)
    requires
        rec.wf(),
        old(db).wf(),
    ensures
        final(db).wf(),
        save_post(rec, *old(db), *final(db), res),
{
    let mut rec = rec;
    let coll_name = S::collection_name();
    match rec.check_unique_fields(db) {
        Err(e) => {
            return Err(e);
        },
        Ok(_) => {},
    }
    let id = rec.get_id();
    if db.contains_id(&coll_name, &id) {
        match rec.before_update(db) {
            Err(e) => {
                return Err(e);
            },
            Ok(_) => {},
        }
        let id2 = rec.get_id();
        let doc = rec.to_document();
        db.replace_one_upsert(&coll_name, &id2, doc);
        Ok(rec)
    } else {
        match rec.before_create(db) {
            Err(e) => {
                return Err(e);
            },
            Ok(_) => {},
        }
        let doc = rec.to_document();
        db.insert_one(&coll_name, doc);
        Ok(rec)
    }
}

} // verus!
