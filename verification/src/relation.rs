//! Relation descriptors: the static metadata a record type declares for each
//! of its relation fields, and the two lookups the population engine makes
//! over them — by field name on the owning side, and by kind and target on
//! the reverse side of a one-to-many relation.

use vstd::prelude::*;

use crate::value::{Value, Valv};

verus! {

/// Which side of the join holds the foreign key.
#[derive(Clone, Copy, Debug, PartialEq, Eq, Structural)]
pub enum SchemaRelationType {
    OneToOne,
    ManyToOne,
    OneToMany,
}

/// One relation field of a record: the field's name, the collection the
/// relation targets, its kind, and the foreign-key value the owning record
/// currently holds (irrelevant for `OneToMany`, where the foreign key lives
/// on the target collection's records).
#[derive(Clone, Debug, PartialEq)]
pub struct SchemaRelation {
    pub field_ident: String,
    pub schema_name: String,
    pub relation_type: SchemaRelationType,
    pub field_value: Value,
}

/// The mathematical view of a relation descriptor.
pub struct RelView {
    pub field_ident: Seq<char>,
    pub schema_name: Seq<char>,
    pub relation_type: SchemaRelationType,
    pub field_value: Valv,
}

impl View for SchemaRelation {
    type V = RelView;

    open spec fn view(&self) -> RelView {
        RelView {
            field_ident: self.field_ident@,
            schema_name: self.schema_name@,
            relation_type: self.relation_type,
            field_value: self.field_value@,
        }
    }
}

/// The views of a sequence of descriptors, in order.
pub open spec fn rels_views(s: Seq<SchemaRelation>) -> Seq<RelView> {
    Seq::new(s.len(), |i: int| s[i]@)
}

/// First descriptor declared for the field named `field`, if any.
pub open spec fn find_rel(rels: Seq<RelView>, field: Seq<char>) -> Option<RelView>
    decreases rels.len(),
{
    if rels.len() == 0 {
        None
    } else if rels[0].field_ident == field {
        Some(rels[0])
    } else {
        find_rel(rels.subrange(1, rels.len() as int), field)
    }
}

/// First `ManyToOne` descriptor pointing back at the collection named
/// `source`, if any: the reverse side of a one-to-many relation.
pub open spec fn find_reverse(rels: Seq<RelView>, source: Seq<char>) -> Option<RelView>
    decreases rels.len(),
{
    if rels.len() == 0 {
        None
    } else if rels[0].relation_type == SchemaRelationType::ManyToOne && rels[0].schema_name
        == source {
        Some(rels[0])
    } else {
        find_reverse(rels.subrange(1, rels.len() as int), source)
    }
}

/// First descriptor for `field`, found executably.
pub fn find_relation<'a>(rels: &'a Vec<SchemaRelation>, field: &String) -> (r: Option<
    &'a SchemaRelation,
>)
    ensures
        match r {
            Some(rel) => find_rel(rels_views(rels@), field@) == Some(rel@),
            None => find_rel(rels_views(rels@), field@) is None,
        },
{
    let mut i: usize = 0;
    while i < rels.len()
        invariant
            i <= rels.len(),
            forall|k: int| 0 <= k < i ==> #[trigger] rels@[k].field_ident@ != field@,
        decreases rels.len() - i,
    {
        if rels[i].field_ident.eq(field) {
            proof {
                lemma_find_rel_first(rels_views(rels@), field@, i as int);
            }
            return Some(&rels[i]);
        }
        i += 1;
    }
    proof {
        lemma_find_rel_none(rels_views(rels@), field@);
    }
    None
}

/// First reverse descriptor targeting `source`, found executably.
pub fn find_reverse_relation<'a>(rels: &'a Vec<SchemaRelation>, source: &String) -> (r: Option<
    &'a SchemaRelation,
>)
    ensures
        match r {
            Some(rel) => find_reverse(rels_views(rels@), source@) == Some(rel@),
            None => find_reverse(rels_views(rels@), source@) is None,
        },
{
    let mut i: usize = 0;
    while i < rels.len()
        invariant
            i <= rels.len(),
            forall|k: int|
                0 <= k < i ==> !(#[trigger] rels@[k].relation_type
                    == SchemaRelationType::ManyToOne && rels@[k].schema_name@ == source@),
        decreases rels.len() - i,
    {
        if rels[i].relation_type == SchemaRelationType::ManyToOne && rels[i].schema_name.eq(
            source,
        ) {
            proof {
                lemma_find_reverse_first(rels_views(rels@), source@, i as int);
            }
            return Some(&rels[i]);
        }
        i += 1;
    }
    proof {
        lemma_find_reverse_none(rels_views(rels@), source@);
    }
    None
}

/// First-match characterization of `find_rel`.
pub proof fn lemma_find_rel_first(rels: Seq<RelView>, field: Seq<char>, i: int)
    requires
        0 <= i < rels.len(),
        rels[i].field_ident == field,
        forall|k: int| 0 <= k < i ==> #[trigger] rels[k].field_ident != field,
    ensures
        find_rel(rels, field) == Some(rels[i]),
    decreases i,
{
    if i > 0 {
        lemma_find_rel_first(rels.subrange(1, rels.len() as int), field, i - 1);
    }
}

/// Exhaustion characterization of `find_rel`.
pub proof fn lemma_find_rel_none(rels: Seq<RelView>, field: Seq<char>)
    requires
        forall|k: int| 0 <= k < rels.len() ==> #[trigger] rels[k].field_ident != field,
    ensures
        find_rel(rels, field) is None,
    decreases rels.len(),
{
    if rels.len() > 0 {
        lemma_find_rel_none(rels.subrange(1, rels.len() as int), field);
    }
}

/// First-match characterization of `find_reverse`.
pub proof fn lemma_find_reverse_first(rels: Seq<RelView>, source: Seq<char>, i: int)
    requires
        0 <= i < rels.len(),
        rels[i].relation_type == SchemaRelationType::ManyToOne,
        rels[i].schema_name == source,
        forall|k: int|
            0 <= k < i ==> !(#[trigger] rels[k].relation_type == SchemaRelationType::ManyToOne
                && rels[k].schema_name == source),
    ensures
        find_reverse(rels, source) == Some(rels[i]),
    decreases i,
{
    if i > 0 {
        lemma_find_reverse_first(rels.subrange(1, rels.len() as int), source, i - 1);
    }
}

/// Exhaustion characterization of `find_reverse`.
pub proof fn lemma_find_reverse_none(rels: Seq<RelView>, source: Seq<char>)
    requires
        forall|k: int|
            0 <= k < rels.len() ==> !(#[trigger] rels[k].relation_type
                == SchemaRelationType::ManyToOne && rels[k].schema_name == source),
    ensures
        find_reverse(rels, source) is None,
    decreases rels.len(),
{
    if rels.len() > 0 {
        lemma_find_reverse_none(rels.subrange(1, rels.len() as int), source);
    }
}

} // verus!
