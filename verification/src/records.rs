//! Two concrete record types implementing the record contract, of the shape
//! a code-generation layer would emit for user schemas: an author owning a
//! one-to-many relation over its posts, and a post holding the many-to-one
//! reverse side plus a unique-constrained field and a revision-bumping
//! lifecycle hook. They ground the contract — every obligation is proved
//! here, not assumed — and carry the test suite.

use vstd::prelude::*;
use vstd::string::*;

use crate::engine::check_unique_in;
use crate::error::Error;
use crate::relation::{rels_views, RelView, SchemaRelation, SchemaRelationType};
use crate::schema::Schema;
use crate::store::Store;
use crate::value::{id_key, strs_views, Bval, Bvalv, DocView, Document, Value, Valv};

verus! {

/// A record of the `authors` collection: one author, owning the reverse
/// side of the posts' `author` foreign key and a one-to-one relation to its
/// profile.
#[derive(Clone, Debug, PartialEq)]
pub struct Author {
    pub id: i64,
    pub name: String,
    /// The raw foreign key to the author's profile document.
    pub profile_id: i64,
    /// The `posts` relation field: raw `Scalar` when unresolved, the list of
    /// embedded post documents once populated.
    pub posts: Bval,
    /// The `profile` relation field: raw `Scalar` when unresolved, the
    /// embedded profile document once populated.
    pub profile: Bval,
}

impl Schema for Author {
    open spec fn wf(&self) -> bool {
        true
    }

    open spec fn collection_spec() -> Seq<char> {
        "authors"@
    }

    open spec fn id_view(&self) -> Valv {
        Valv::Int(self.id as int)
    }

    open spec fn doc_view(&self) -> DocView {
        seq![
            (id_key(), Valv::Int(self.id as int)),
            ("name"@, Valv::Str(self.name@)),
            ("profile"@, Valv::Int(self.profile_id as int)),
        ]
    }

    open spec fn unique_fields_spec() -> Seq<Seq<char>> {
        Seq::empty()
    }

    open spec fn relations_view(&self) -> Option<Seq<RelView>> {
        Some(
            seq![
                RelView {
                    field_ident: "posts"@,
                    schema_name: "posts"@,
                    relation_type: SchemaRelationType::OneToMany,
                    field_value: Valv::Null,
                },
                RelView {
                    field_ident: "profile"@,
                    schema_name: "profiles"@,
                    relation_type: SchemaRelationType::OneToOne,
                    field_value: Valv::Int(self.profile_id as int),
                },
            ],
        )
    }

    open spec fn rel_value(&self, field: Seq<char>) -> Option<Bvalv> {
        if field == "posts"@ {
            Some(self.posts@)
        } else if field == "profile"@ {
            Some(self.profile@)
        } else {
            None
        }
    }

    open spec fn set_rel_ok(&self, field: Seq<char>, v: Bvalv) -> bool {
        true
    }

    open spec fn create_hook_ok(&self) -> bool {
        true
    }

    open spec fn create_hook_doc(&self) -> DocView {
        self.doc_view()
    }

    open spec fn create_hook_id(&self) -> Valv {
        self.id_view()
    }

    open spec fn create_hook_err(&self) -> Error {
        Error::ConversionFailure
    }

    open spec fn update_hook_ok(&self) -> bool {
        true
    }

    open spec fn update_hook_doc(&self) -> DocView {
        self.doc_view()
    }

    open spec fn update_hook_id(&self) -> Valv {
        self.id_view()
    }

    open spec fn update_hook_err(&self) -> Error {
        Error::ConversionFailure
    }

    proof fn lemma_doc_id(&self) {
    }

    fn unique_fields() -> (r: Vec<String>) {
        let v: Vec<String> = Vec::new();
        proof {
            assert(strs_views(v@) =~~= Self::unique_fields_spec());
        }
        v
    }

    fn collection_name() -> (r: String) {
        String::from_str("authors")
    }

    fn get_id(&self) -> (r: Value) {
        Value::Int(self.id)
    }

    fn to_document(&self) -> (r: Document) {
        let mut d = Document::new();
        d.push_field(String::from_str("_id"), Value::Int(self.id));
        d.push_field(String::from_str("name"), Value::Str(self.name.clone()));
        d.push_field(String::from_str("profile"), Value::Int(self.profile_id));
        proof {
            assert(d@ =~= self.doc_view());
        }
        d
    }

    open spec fn relations_static() -> Seq<RelView> {
        seq![
            RelView {
                field_ident: "posts"@,
                schema_name: "posts"@,
                relation_type: SchemaRelationType::OneToMany,
                field_value: Valv::Null,
            },
            RelView {
                field_ident: "profile"@,
                schema_name: "profiles"@,
                relation_type: SchemaRelationType::OneToOne,
                field_value: Valv::Null,
            },
        ]
    }

    fn relations() -> (r: Vec<SchemaRelation>) {
        let mut v: Vec<SchemaRelation> = Vec::new();
        v.push(
            SchemaRelation {
                field_ident: String::from_str("posts"),
                schema_name: String::from_str("posts"),
                relation_type: SchemaRelationType::OneToMany,
                field_value: Value::Null,
            },
        );
        v.push(
            SchemaRelation {
                field_ident: String::from_str("profile"),
                schema_name: String::from_str("profiles"),
                relation_type: SchemaRelationType::OneToOne,
                field_value: Value::Null,
            },
        );
        proof {
            assert(rels_views(v@) =~= Self::relations_static());
        }
        v
    }

    fn get_relations(&self) -> (r: Option<Vec<SchemaRelation>>) {
        let mut v: Vec<SchemaRelation> = Vec::new();
        v.push(
            SchemaRelation {
                field_ident: String::from_str("posts"),
                schema_name: String::from_str("posts"),
                relation_type: SchemaRelationType::OneToMany,
                field_value: Value::Null,
            },
        );
        v.push(
            SchemaRelation {
                field_ident: String::from_str("profile"),
                schema_name: String::from_str("profiles"),
                relation_type: SchemaRelationType::OneToOne,
                field_value: Value::Int(self.profile_id),
            },
        );
        proof {
            assert(rels_views(v@) =~= self.relations_view().unwrap());
        }
        Some(v)
    }

    fn set_relation(&mut self, field: &String, value: Bval) -> (r: Result<(), Error>) {
        proof {
            if field@ != "posts"@ && field@ != "profile"@ {
                crate::relation::lemma_find_rel_none(self.relations_view().unwrap(), field@);
            }
        }
        if field.eq(&String::from_str("posts")) {
            self.posts = value;
        } else {
            self.profile = value;
        }
        Ok(())
    }

    fn check_unique_fields(&self, db: &Store) -> (r: Result<(), Error>) {
        Ok(())
    }

    fn before_create(&mut self, db: &Store) -> (r: Result<(), Error>) {
        Ok(())
    }

    fn before_update(&mut self, db: &Store) -> (r: Result<(), Error>) {
        Ok(())
    }
}

/// The revision a post carries after its before-update hook ran: bumped by
/// one, saturating at the largest representable revision.
pub open spec fn bumped(revision: i64) -> int {
    if revision == i64::MAX {
        revision as int
    } else {
        revision as int + 1
    }
}

/// A record of the `posts` collection: the many side of the author-posts
/// relation, with a unique-constrained `slug` field and lifecycle hooks that
/// manage its revision counter.
#[derive(Clone, Debug, PartialEq)]
pub struct Post {
    pub id: i64,
    pub title: String,
    /// Unique-constrained: no two posts may share a slug.
    pub slug: String,
    /// The raw foreign key to the owning author, stored in the document
    /// under the relation field's name.
    pub author_id: i64,
    /// The `author` relation field's resolved content: raw `Scalar` when
    /// unresolved, the embedded author document once populated.
    pub author: Bval,
    /// Bumped to 1 by the before-create hook and by one on each
    /// before-update, saturating.
    pub revision: i64,
}

impl Post {
    /// The document representation a post with the given revision has.
    pub open spec fn doc_view_at(&self, revision: int) -> DocView {
        seq![
            (id_key(), Valv::Int(self.id as int)),
            ("title"@, Valv::Str(self.title@)),
            ("slug"@, Valv::Str(self.slug@)),
            ("author"@, Valv::Int(self.author_id as int)),
            ("revision"@, Valv::Int(revision)),
        ]
    }
}

impl Schema for Post {
    open spec fn wf(&self) -> bool {
        true
    }

    open spec fn collection_spec() -> Seq<char> {
        "posts"@
    }

    open spec fn id_view(&self) -> Valv {
        Valv::Int(self.id as int)
    }

    open spec fn doc_view(&self) -> DocView {
        self.doc_view_at(self.revision as int)
    }

    open spec fn unique_fields_spec() -> Seq<Seq<char>> {
        seq!["slug"@]
    }

    open spec fn relations_view(&self) -> Option<Seq<RelView>> {
        Some(
            seq![
                RelView {
                    field_ident: "author"@,
                    schema_name: "authors"@,
                    relation_type: SchemaRelationType::ManyToOne,
                    field_value: Valv::Int(self.author_id as int),
                },
            ],
        )
    }

    open spec fn rel_value(&self, field: Seq<char>) -> Option<Bvalv> {
        if field == "author"@ {
            Some(self.author@)
        } else {
            None
        }
    }

    open spec fn set_rel_ok(&self, field: Seq<char>, v: Bvalv) -> bool {
        !(v is Docs)
    }

    open spec fn create_hook_ok(&self) -> bool {
        true
    }

    open spec fn create_hook_doc(&self) -> DocView {
        self.doc_view_at(1)
    }

    open spec fn create_hook_id(&self) -> Valv {
        self.id_view()
    }

    open spec fn create_hook_err(&self) -> Error {
        Error::ConversionFailure
    }

    open spec fn update_hook_ok(&self) -> bool {
        true
    }

    open spec fn update_hook_doc(&self) -> DocView {
        self.doc_view_at(bumped(self.revision))
    }

    open spec fn update_hook_id(&self) -> Valv {
        self.id_view()
    }

    open spec fn update_hook_err(&self) -> Error {
        Error::ConversionFailure
    }

    proof fn lemma_doc_id(&self) {
    }

    fn unique_fields() -> (r: Vec<String>) {
        let mut v: Vec<String> = Vec::new();
        v.push(String::from_str("slug"));
        proof {
            assert(strs_views(v@) =~~= Self::unique_fields_spec());
        }
        v
    }

    fn collection_name() -> (r: String) {
        String::from_str("posts")
    }

    fn get_id(&self) -> (r: Value) {
        Value::Int(self.id)
    }

    fn to_document(&self) -> (r: Document) {
        let mut d = Document::new();
        d.push_field(String::from_str("_id"), Value::Int(self.id));
        d.push_field(String::from_str("title"), Value::Str(self.title.clone()));
        d.push_field(String::from_str("slug"), Value::Str(self.slug.clone()));
        d.push_field(String::from_str("author"), Value::Int(self.author_id));
        d.push_field(String::from_str("revision"), Value::Int(self.revision));
        proof {
            assert(d@ =~= self.doc_view());
        }
        d
    }

    open spec fn relations_static() -> Seq<RelView> {
        seq![
            RelView {
                field_ident: "author"@,
                schema_name: "authors"@,
                relation_type: SchemaRelationType::ManyToOne,
                field_value: Valv::Null,
            },
        ]
    }

    fn relations() -> (r: Vec<SchemaRelation>) {
        let mut v: Vec<SchemaRelation> = Vec::new();
        v.push(
            SchemaRelation {
                field_ident: String::from_str("author"),
                schema_name: String::from_str("authors"),
                relation_type: SchemaRelationType::ManyToOne,
                field_value: Value::Null,
            },
        );
        proof {
            assert(rels_views(v@) =~= Self::relations_static());
        }
        v
    }

    fn get_relations(&self) -> (r: Option<Vec<SchemaRelation>>) {
        let mut v: Vec<SchemaRelation> = Vec::new();
        v.push(
            SchemaRelation {
                field_ident: String::from_str("author"),
                schema_name: String::from_str("authors"),
                relation_type: SchemaRelationType::ManyToOne,
                field_value: Value::Int(self.author_id),
            },
        );
        proof {
            assert(rels_views(v@) =~= self.relations_view().unwrap());
        }
        Some(v)
    }

    fn set_relation(&mut self, field: &String, value: Bval) -> (r: Result<(), Error>) {
        proof {
            if field@ != "author"@ {
                crate::relation::lemma_find_rel_none(self.relations_view().unwrap(), field@);
            }
        }
        match value {
            Bval::Docs(_) => Err(Error::ConversionFailure),
            other => {
                self.author = other;
                Ok(())
            },
        }
    }

    fn check_unique_fields(&self, db: &Store) -> (r: Result<(), Error>) {
        let fields = Self::unique_fields();
        let doc = self.to_document();
        let id = self.get_id();
        let coll = Self::collection_name();
        check_unique_in(&doc, &fields, db, &coll, &id)
    }

    fn before_create(&mut self, db: &Store) -> (r: Result<(), Error>) {
        self.revision = 1;
        Ok(())
    }

    fn before_update(&mut self, db: &Store) -> (r: Result<(), Error>) {
        if self.revision < i64::MAX {
            self.revision = self.revision + 1;
        }
        Ok(())
    }
}

} // verus!
