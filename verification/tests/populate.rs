use nongoose::engine::populate;
use nongoose::records::{Author, Post};
use nongoose::registry::Registry;
use nongoose::schema::Schema;
use nongoose::store::Store;
use nongoose::value::{Bval, Document, Field, Value};

fn doc(pairs: Vec<(&str, Value)>) -> Document {
    let mut d = Document { fields: Vec::new() };
    for (name, value) in pairs {
        d.fields.push(Field { name: name.to_string(), value });
    }
    d
}

fn author(id: i64, name: &str, profile_id: i64) -> Author {
    Author {
        id,
        name: name.to_string(),
        profile_id,
        posts: Bval::Scalar(Value::Null),
        profile: Bval::Scalar(Value::Null),
    }
}

fn post(id: i64, title: &str, slug: &str, author_id: i64) -> Post {
    Post {
        id,
        title: title.to_string(),
        slug: slug.to_string(),
        author_id,
        author: Bval::Scalar(Value::Int(author_id)),
        revision: 0,
    }
}

fn registered() -> Registry {
    let mut registry = Registry::new();
    registry.register(Author::collection_name(), Author::relations());
    registry.register(Post::collection_name(), Post::relations());
    registry
}

#[test]
fn populate_unknown_field_is_identity() {
    let registry = registered();
    let db = Store::new();
    let a = author(1, "Ann", 9);
    let out = populate(a, &"no_such_field".to_string(), &registry, &db).unwrap();
    assert_eq!(out.id, 1);
    assert_eq!(out.name, "Ann".to_string());
    assert_eq!(out.profile_id, 9);
    assert_eq!(out.posts, Bval::Scalar(Value::Null));
    assert_eq!(out.profile, Bval::Scalar(Value::Null));
}

#[test]
fn populate_many_to_one_embeds_exact_document() {
    let registry = registered();
    let mut db = Store::new();
    let author_doc = doc(vec![
        ("_id", Value::Int(7)),
        ("name", Value::Str("Ann".to_string())),
        ("profile", Value::Int(9)),
    ]);
    db.insert_one(&"authors".to_string(), author_doc.clone());
    let p = post(1, "Hello", "hello", 7);
    let out = populate(p, &"author".to_string(), &registry, &db).unwrap();
    assert_eq!(out.author, Bval::Doc(author_doc));
}

#[test]
fn populate_one_to_one_embeds_exact_document() {
    let registry = registered();
    let mut db = Store::new();
    let profile_doc = doc(vec![("_id", Value::Int(9)), ("bio", Value::Str("hi".to_string()))]);
    db.insert_one(&"profiles".to_string(), profile_doc.clone());
    let a = author(1, "Ann", 9);
    let out = populate(a, &"profile".to_string(), &registry, &db).unwrap();
    assert_eq!(out.profile, Bval::Doc(profile_doc));
}

#[test]
fn populate_missing_target_leaves_field_unresolved() {
    let registry = registered();
    let db = Store::new();
    let p = post(1, "Hello", "hello", 7);
    let out = populate(p, &"author".to_string(), &registry, &db).unwrap();
    assert_eq!(out.author, Bval::Scalar(Value::Int(7)));
}

#[test]
fn populate_one_to_many_collects_matches_in_order() {
    let registry = registered();
    let mut db = Store::new();
    let d1 = doc(vec![
        ("_id", Value::Int(10)),
        ("slug", Value::Str("a".to_string())),
        ("author", Value::Int(1)),
    ]);
    let d2 = doc(vec![
        ("_id", Value::Int(11)),
        ("slug", Value::Str("b".to_string())),
        ("author", Value::Int(2)),
    ]);
    let d3 = doc(vec![
        ("_id", Value::Int(12)),
        ("slug", Value::Str("c".to_string())),
        ("author", Value::Int(1)),
    ]);
    db.insert_one(&"posts".to_string(), d1.clone());
    db.insert_one(&"posts".to_string(), d2);
    db.insert_one(&"posts".to_string(), d3.clone());
    let a = author(1, "Ann", 9);
    let out = populate(a, &"posts".to_string(), &registry, &db).unwrap();
    assert_eq!(out.posts, Bval::Docs(vec![d1, d3]));
}

#[test]
fn populate_one_to_many_without_registry_entry_is_identity() {
    let registry = Registry::new();
    let mut db = Store::new();
    let d1 = doc(vec![("_id", Value::Int(10)), ("author", Value::Int(1))]);
    db.insert_one(&"posts".to_string(), d1);
    let a = author(1, "Ann", 9);
    let out = populate(a, &"posts".to_string(), &registry, &db).unwrap();
    assert_eq!(out.posts, Bval::Scalar(Value::Null));
}

#[test]
fn populate_one_to_many_without_reverse_descriptor_is_identity() {
    let mut registry = Registry::new();
    registry.register("posts".to_string(), Vec::new());
    let mut db = Store::new();
    let d1 = doc(vec![("_id", Value::Int(10)), ("author", Value::Int(1))]);
    db.insert_one(&"posts".to_string(), d1);
    let a = author(1, "Ann", 9);
    let out = populate(a, &"posts".to_string(), &registry, &db).unwrap();
    assert_eq!(out.posts, Bval::Scalar(Value::Null));
}

#[test]
fn registry_registration_happens_once() {
    let mut registry = Registry::new();
    registry.register("posts".to_string(), Post::relations());
    registry.register("posts".to_string(), Vec::new());
    let rels = registry.get(&"posts".to_string()).unwrap();
    assert_eq!(rels.len(), 1);
    assert_eq!(rels[0].field_ident, "author".to_string());
}

#[test]
fn setter_rejects_unconvertible_shape() {
    let mut p = post(1, "Hello", "hello", 7);
    let r = p.set_relation(&"author".to_string(), Bval::Docs(Vec::new()));
    assert_eq!(r, Err(nongoose::error::Error::ConversionFailure));
    assert_eq!(p.author, Bval::Scalar(Value::Int(7)));
}
