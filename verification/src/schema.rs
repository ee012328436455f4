//! The record contract: the capability set every mapped record type
//! implements. The population and persistence engines operate only through
//! these methods, never through a concrete record type's internals.
//!
//! Each capability carries a contract phrased over the implementing type's
//! own specification functions, so that the engines' guarantees hold for
//! every conforming record type.

use vstd::prelude::*;

use crate::error::Error;
use crate::relation::{find_rel, RelView, SchemaRelation};
use crate::relation::rels_views;
use crate::store::Store;
use crate::value::{dv_get, id_key, strs_views, Bval, Bvalv, DocView, Document, Value, Valv};

verus! {

/// The capability set of a mapped record type.
///
/// A record is `wf` when its own invariant holds; every capability keeps it.
/// Its observable state is given by specification functions: its identity
/// (`id_view`), its document representation (`doc_view`), its declared
/// relation descriptors (`relations_view`) and the current content of each
/// relation field (`rel_value`). Lifecycle hooks may rewrite the record
/// before a write; their effect on the observables is pinned by the
/// `create_hook_*` / `update_hook_*` functions, so that a caller of `save`
/// knows the stored document is the hook's output, applied exactly once.
pub trait Schema: Sized {
    /// The record's internal invariant.
    spec fn wf(&self) -> bool;

    /// The name of the collection this record type is stored in.
    spec fn collection_spec() -> Seq<char>;

    /// The record's identity.
    spec fn id_view(&self) -> Valv;

    /// The record's document representation.
    spec fn doc_view(&self) -> DocView;

    /// The names of the record type's unique-constrained document fields.
    spec fn unique_fields_spec() -> Seq<Seq<char>>;

    /// The relation descriptors this record type declares, as carried by a
    /// record instance; `None` when the type declares no relations at all.
    spec fn relations_view(&self) -> Option<Seq<RelView>>;

    /// The current content of the relation field named `field`.
    spec fn rel_value(&self, field: Seq<char>) -> Option<Bvalv>;

    /// Whether injecting `v` into the relation field named `field` converts
    /// cleanly into the field's declared shape.
    spec fn set_rel_ok(&self, field: Seq<char>, v: Bvalv) -> bool;

    /// Whether the before-create hook succeeds on this record.
    spec fn create_hook_ok(&self) -> bool;

    /// The document representation after the before-create hook.
    spec fn create_hook_doc(&self) -> DocView;

    /// The identity after the before-create hook.
    spec fn create_hook_id(&self) -> Valv;

    /// The error the before-create hook fails with.
    spec fn create_hook_err(&self) -> Error;

    /// Whether the before-update hook succeeds on this record.
    spec fn update_hook_ok(&self) -> bool;

    /// The document representation after the before-update hook.
    spec fn update_hook_doc(&self) -> DocView;

    /// The identity after the before-update hook.
    spec fn update_hook_id(&self) -> Valv;

    /// The error the before-update hook fails with.
    spec fn update_hook_err(&self) -> Error;

    /// A well-formed record's document carries the record's identity under
    /// the `_id` key.
    proof fn lemma_doc_id(&self)
        requires
            self.wf(),
        ensures
            dv_get(self.doc_view(), id_key()) == Some(self.id_view()),
    ;

    /// The collection name, as a value.
    fn collection_name() -> (r: String)
        ensures
            r@ == Self::collection_spec(),
    ;

    /// The record's identity, as a value.
    fn get_id(&self) -> (r: Value)
        requires
            self.wf(),
        ensures
            r@ == self.id_view(),
    ;

    /// The record's document representation. Conversion of a well-formed
    /// record always succeeds.
    fn to_document(&self) -> (r: Document)
        requires
            self.wf(),
        ensures
            r@ == self.doc_view(),
    ;

    /// The names of the unique-constrained fields, as values.
    fn unique_fields() -> (r: Vec<String>)
        ensures
            strs_views(r@) == Self::unique_fields_spec(),
    ;

    /// The relation descriptors the type declares, as registered at process
    /// start: the static side of `relations_view`, with no instance values.
    spec fn relations_static() -> Seq<RelView>;

    /// The declared relation descriptors, for registration.
    fn relations() -> (r: Vec<SchemaRelation>)
        ensures
            rels_views(r@) == Self::relations_static(),
    ;

    /// The relation descriptors declared by the type, with the foreign-key
    /// values this record currently holds.
    fn get_relations(&self) -> (r: Option<Vec<SchemaRelation>>)
        requires
            self.wf(),
        ensures
            match r {
                Some(v) => self.relations_view() == Some(rels_views(v@)),
                None => self.relations_view() is None,
            },
    ;

    /// Injects resolved relation data into the field named `field`. The
    /// setter converts the raw data into the field's declared shape; a
    /// conversion failure aborts with `ConversionFailure` and is the only
    /// failure. On success the named field holds exactly `value`, every
    /// other relation field and the record's identity are untouched, and the
    /// record stays well-formed.
    fn set_relation(&mut self, field: &String, value: Bval) -> (r: Result<(), Error>)
        requires
            old(self).wf(),
            old(self).relations_view() matches Some(rs) && find_rel(rs, field@) is Some,
        ensures
            r is Ok <==> old(self).set_rel_ok(field@, value@),
            r is Ok ==> final(self).wf() && final(self).rel_value(field@) == Some(value@) && (
            forall|g: Seq<char>|
                g != field@ ==> final(self).rel_value(g) == old(self).rel_value(g))
                && final(self).id_view() == old(self).id_view(),
            !(r is Ok) ==> r == Err::<(), Error>(Error::ConversionFailure) && *final(self) == *old(
                self,
            ),
    ;

    /// The uniqueness-validation capability: inspects every declared
    /// unique-constrained field and fails with `DuplicateValue` naming the
    /// first field whose value is already held by a document with a
    /// different identity in this type's collection.
    fn check_unique_fields(&self, db: &Store) -> (r: Result<(), Error>)
        requires
            self.wf(),
        ensures
            match crate::engine::first_dup(
                self.doc_view(),
                Self::unique_fields_spec(),
                db.coll_view(Self::collection_spec()),
                self.id_view(),
            ) {
                None => r is Ok,
                Some(f) => r matches Err(Error::DuplicateValue(g)) && g@ == f,
            },
    ;

    /// The before-create lifecycle hook: runs once, before the insert of a
    /// record whose identity is absent. It may rewrite the record; the
    /// resulting document and identity are pinned by `create_hook_doc` and
    /// `create_hook_id`.
    fn before_create(&mut self, db: &Store) -> (r: Result<(), Error>)
        requires
            old(self).wf(),
        ensures
            r is Ok <==> old(self).create_hook_ok(),
            r is Ok ==> final(self).wf() && final(self).doc_view() == old(self).create_hook_doc()
                && final(self).id_view() == old(self).create_hook_id(),
            r matches Err(e) ==> e == old(self).create_hook_err(),
    ;

    /// The before-update lifecycle hook: runs once, before the replace of a
    /// record whose identity is already present.
    fn before_update(&mut self, db: &Store) -> (r: Result<(), Error>)
        requires
            old(self).wf(),
        ensures
            r is Ok <==> old(self).update_hook_ok(),
            r is Ok ==> final(self).wf() && final(self).doc_view() == old(self).update_hook_doc()
                && final(self).id_view() == old(self).update_hook_id(),
            r matches Err(e) ==> e == old(self).update_hook_err(),
    ;
}

} // verus!
