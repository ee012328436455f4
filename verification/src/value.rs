//! Scalar values, document fields and flat documents: the data that records
//! exchange with the store. A document is a sequence of named scalar fields;
//! its mathematical view is a sequence of `(name, value)` pairs.

use vstd::prelude::*;

verus! {

/// A scalar field value: the identifier, foreign-key and payload values a
/// stored document holds.
#[derive(Clone, Debug, PartialEq)]
pub enum Value {
    Null,
    Bool(bool),
    Int(i64),
    Str(String),
}

/// The mathematical view of a [`Value`]: strings become character sequences.
pub enum Valv {
    Null,
    Bool(bool),
    Int(int),
    Str(Seq<char>),
}

impl View for Value {
    type V = Valv;

    open spec fn view(&self) -> Valv {
        match self {
            Value::Null => Valv::Null,
            Value::Bool(b) => Valv::Bool(*b),
            Value::Int(i) => Valv::Int(*i as int),
            Value::Str(s) => Valv::Str(s@),
        }
    }
}

/// One named field of a document.
#[derive(Clone, Debug, PartialEq)]
pub struct Field {
    pub name: String,
    pub value: Value,
}

/// A flat document: the unit the store keeps and hands out. Field order is
/// kept as given; a lookup by name finds the first field of that name.
#[derive(Clone, Debug, PartialEq)]
pub struct Document {
    pub fields: Vec<Field>,
}

/// The mathematical view of a document.
pub type DocView = Seq<(Seq<char>, Valv)>;

impl View for Document {
    type V = DocView;

    open spec fn view(&self) -> DocView {
        Seq::new(self.fields@.len(), |i: int| (self.fields@[i].name@, self.fields@[i].value@))
    }
}

/// The views of a sequence of documents, in order.
pub open spec fn docs_views(ds: Seq<Document>) -> Seq<DocView> {
    Seq::new(ds.len(), |i: int| ds[i]@)
}

/// What a relation field can hold: a raw scalar (an unresolved foreign key),
/// one embedded document, or a list of embedded documents.
#[derive(Clone, Debug, PartialEq)]
pub enum Bval {
    Scalar(Value),
    Doc(Document),
    Docs(Vec<Document>),
}

/// The mathematical view of a relation field's content.
pub enum Bvalv {
    Scalar(Valv),
    Doc(DocView),
    Docs(Seq<DocView>),
}

impl View for Bval {
    type V = Bvalv;

    open spec fn view(&self) -> Bvalv {
        match self {
            Bval::Scalar(v) => Bvalv::Scalar(v@),
            Bval::Doc(d) => Bvalv::Doc(d@),
            Bval::Docs(ds) => Bvalv::Docs(docs_views(ds@)),
        }
    }
}

/// The views of a sequence of strings, in order.
pub open spec fn strs_views(s: Seq<String>) -> Seq<Seq<char>> {
    Seq::new(s.len(), |i: int| s[i]@)
}

/// The name of the identity field every stored document is keyed by.
pub open spec fn id_key() -> Seq<char> {
    "_id"@
}

/// First value bound to `name` in the document view, if any.
pub open spec fn dv_get(dv: DocView, name: Seq<char>) -> Option<Valv>
    decreases dv.len(),
{
    if dv.len() == 0 {
        None
    } else if dv[0].0 == name {
        Some(dv[0].1)
    } else {
        dv_get(dv.subrange(1, dv.len() as int), name)
    }
}

/// Whether the document view carries `id` as its identity.
pub open spec fn dv_has_id(dv: DocView, id: Valv) -> bool {
    dv_get(dv, id_key()) == Some(id)
}

impl Value {
    /// Structural equality of two scalar values, decided at the level of
    /// their views.
    pub fn eq_value(&self, other: &Value) -> (r: bool)
        ensures
            r == (self@ == other@),
    {
        match (self, other) {
            (Value::Null, Value::Null) => true,
            (Value::Bool(a), Value::Bool(b)) => *a == *b,
            (Value::Int(a), Value::Int(b)) => *a == *b,
            (Value::Str(a), Value::Str(b)) => a.eq(b),
            _ => false,
        }
    }

    /// A copy whose view equals this value's view.
    pub fn copy_value(&self) -> (r: Value)
        ensures
            r@ == self@,
    {
        match self {
            Value::Null => Value::Null,
            Value::Bool(b) => Value::Bool(*b),
            Value::Int(i) => Value::Int(*i),
            Value::Str(s) => Value::Str(s.clone()),
        }
    }
}

impl Document {
    /// An empty document.
    pub fn new() -> (r: Document)
        ensures
            r@ == Seq::<(Seq<char>, Valv)>::empty(),
    {
        Document { fields: Vec::new() }
    }

    /// Appends a field; the view grows by one pair at the end.
    pub fn push_field(&mut self, name: String, value: Value)
        ensures
            final(self)@ == old(self)@.push((name@, value@)),
    {
        let ghost before = self@;
        self.fields.push(Field { name, value });
        proof {
            assert(final(self)@ =~= before.push((name@, value@)));
        }
    }

    /// First value bound to `name`, if any.
    pub fn get(&self, name: &String) -> (r: Option<&Value>)
        ensures
            match r {
                Some(v) => dv_get(self@, name@) == Some(v@),
                None => dv_get(self@, name@) is None,
            },
    {
        let mut i: usize = 0;
        while i < self.fields.len()
            invariant
                i <= self.fields.len(),
                forall|k: int| 0 <= k < i ==> self.fields@[k].name@ != name@,
            decreases self.fields.len() - i,
        {
            if self.fields[i].name.eq(name) {
                proof {
                    lemma_dv_get_first(self@, name@, i as int);
                }
                return Some(&self.fields[i].value);
            }
            i += 1;
        }
        proof {
            lemma_dv_get_none(self@, name@);
        }
        None
    }

    /// A copy whose view equals this document's view.
    pub fn copy_doc(&self) -> (r: Document)
        ensures
            r@ == self@,
    {
        let mut fields: Vec<Field> = Vec::new();
        let mut i: usize = 0;
        while i < self.fields.len()
            invariant
                i <= self.fields.len(),
                fields@.len() == i,
                forall|k: int|
                    0 <= k < i ==> #[trigger] fields@[k].name@ == self.fields@[k].name@
                        && fields@[k].value@ == self.fields@[k].value@,
            decreases self.fields.len() - i,
        {
            let f = &self.fields[i];
            fields.push(Field { name: f.name.clone(), value: f.value.copy_value() });
            i += 1;
        }
        let r = Document { fields };
        proof {
            assert(r@ =~= self@);
        }
        r
    }
}

/// If the first `upto` fields miss `name` and field `upto` carries it, the
/// lookup lands on field `upto`.
pub proof fn lemma_dv_get_first(dv: DocView, name: Seq<char>, upto: int)
    requires
        0 <= upto < dv.len(),
        forall|k: int| 0 <= k < upto ==> dv[k].0 != name,
        dv[upto].0 == name,
    ensures
        dv_get(dv, name) == Some(dv[upto].1),
    decreases upto,
{
    if upto == 0 {
    } else {
        lemma_dv_get_first(dv.subrange(1, dv.len() as int), name, upto - 1);
    }
}

/// If no field carries `name`, the lookup finds nothing.
pub proof fn lemma_dv_get_none(dv: DocView, name: Seq<char>)
    requires
        forall|k: int| 0 <= k < dv.len() ==> dv[k].0 != name,
    ensures
        dv_get(dv, name) is None,
    decreases dv.len(),
{
    if dv.len() > 0 {
        lemma_dv_get_none(dv.subrange(1, dv.len() as int), name);
    }
}

} // verus!
