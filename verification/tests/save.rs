use nongoose::engine::{check_unique_in, id_query, save};
use nongoose::error::Error;
use nongoose::records::{Author, Post};
use nongoose::schema::Schema;
use nongoose::store::Store;
use nongoose::value::{Bval, Document, Field, Value};

fn doc(pairs: Vec<(&str, Value)>) -> Document {
    let mut d = Document { fields: Vec::new() };
    for (name, value) in pairs {
        d.fields.push(Field { name: name.to_string(), value });
    }
    d
}

fn author(id: i64, name: &str, profile_id: i64) -> Author {
    Author {
        id,
        name: name.to_string(),
        profile_id,
        posts: Bval::Scalar(Value::Null),
        profile: Bval::Scalar(Value::Null),
    }
}

fn post(id: i64, title: &str, slug: &str, author_id: i64) -> Post {
    Post {
        id,
        title: title.to_string(),
        slug: slug.to_string(),
        author_id,
        author: Bval::Scalar(Value::Int(author_id)),
        revision: 0,
    }
}

fn coll_docs<'a>(db: &'a Store, name: &str) -> Vec<&'a Document> {
    for c in &db.collections {
        if c.name == name {
            return c.docs.iter().collect();
        }
    }
    Vec::new()
}

#[test]
fn save_creates_once_with_create_hook_applied() {
    let mut db = Store::new();
    let p = post(1, "Hello", "hello", 7);
    let saved = save(p, &mut db).unwrap();
    assert_eq!(saved.revision, 1);
    let docs = coll_docs(&db, "posts");
    assert_eq!(docs.len(), 1);
    assert_eq!(*docs[0], saved.to_document());
    assert_eq!(
        *docs[0],
        doc(vec![
            ("_id", Value::Int(1)),
            ("title", Value::Str("Hello".to_string())),
            ("slug", Value::Str("hello".to_string())),
            ("author", Value::Int(7)),
            ("revision", Value::Int(1)),
        ])
    );
}

#[test]
fn save_replaces_on_existing_id_with_update_hook_applied() {
    let mut db = Store::new();
    let p = post(1, "Hello", "hello", 7);
    let saved = save(p, &mut db).unwrap();
    let mut renamed = saved;
    renamed.title = "Hello again".to_string();
    let saved2 = save(renamed, &mut db).unwrap();
    assert_eq!(saved2.revision, 2);
    let docs = coll_docs(&db, "posts");
    assert_eq!(docs.len(), 1);
    assert_eq!(
        *docs[0],
        doc(vec![
            ("_id", Value::Int(1)),
            ("title", Value::Str("Hello again".to_string())),
            ("slug", Value::Str("hello".to_string())),
            ("author", Value::Int(7)),
            ("revision", Value::Int(2)),
        ])
    );
}

#[test]
fn duplicate_unique_value_blocks_save_before_any_write() {
    let mut db = Store::new();
    let p1 = post(1, "Hello", "hello", 7);
    save(p1, &mut db).unwrap();
    let before: Vec<Document> = coll_docs(&db, "posts").into_iter().cloned().collect();
    let p2 = post(2, "Other", "hello", 7);
    let r = save(p2, &mut db);
    assert_eq!(r, Err(Error::DuplicateValue("slug".to_string())));
    let after: Vec<Document> = coll_docs(&db, "posts").into_iter().cloned().collect();
    assert_eq!(before, after);
}

#[test]
fn same_unique_value_on_same_id_is_no_conflict() {
    let mut db = Store::new();
    let p1 = post(1, "Hello", "hello", 7);
    let saved = save(p1, &mut db).unwrap();
    let saved2 = save(saved, &mut db).unwrap();
    assert_eq!(saved2.revision, 2);
    assert_eq!(coll_docs(&db, "posts").len(), 1);
}

#[test]
fn save_round_trip_finds_saved_document() {
    let mut db = Store::new();
    let a = author(3, "Ann", 9);
    let saved = save(a, &mut db).unwrap();
    let found = db
        .find_one_by_id(&"authors".to_string(), &saved.get_id())
        .unwrap();
    assert_eq!(found, saved.to_document());
}

#[test]
fn replace_after_concurrent_removal_still_stores_document() {
    let mut db = Store::new();
    let d = doc(vec![("_id", Value::Int(5)), ("name", Value::Str("x".to_string()))]);
    db.replace_one_upsert(&"authors".to_string(), &Value::Int(5), d.clone());
    assert_eq!(coll_docs(&db, "authors").len(), 1);
    assert_eq!(*coll_docs(&db, "authors")[0], d);
}

#[test]
fn check_unique_reports_first_offending_field() {
    let mut db = Store::new();
    db.insert_one(
        &"posts".to_string(),
        doc(vec![("_id", Value::Int(1)), ("slug", Value::Str("hello".to_string()))]),
    );
    let d = doc(vec![("_id", Value::Int(2)), ("slug", Value::Str("hello".to_string()))]);
    let fields = vec!["slug".to_string()];
    let r = check_unique_in(&d, &fields, &db, &"posts".to_string(), &Value::Int(2));
    assert_eq!(r, Err(Error::DuplicateValue("slug".to_string())));
    let ok = check_unique_in(&d, &fields, &db, &"posts".to_string(), &Value::Int(1));
    assert_eq!(ok, Ok(()));
}

#[test]
fn id_query_holds_only_the_identity() {
    let a = author(3, "Ann", 9);
    let q = id_query(&a);
    assert_eq!(q, doc(vec![("_id", Value::Int(3))]));
}

#[test]
fn update_hook_saturates_at_largest_revision() {
    let mut db = Store::new();
    let mut p = post(1, "Hello", "hello", 7);
    p.revision = i64::MAX;
    let saved = save(p, &mut db).unwrap();
    assert_eq!(saved.revision, 1);
    let mut again = saved;
    again.revision = i64::MAX;
    db.replace_one_upsert(&"posts".to_string(), &Value::Int(1), again.to_document());
    let saved2 = save(again, &mut db).unwrap();
    assert_eq!(saved2.revision, i64::MAX);
}

#[test]
fn store_failure_error_carries_its_message() {
    let e = Error::StoreFailure("connection reset".to_string());
    assert_ne!(e, Error::ConversionFailure);
    match e {
        Error::StoreFailure(msg) => assert_eq!(msg, "connection reset".to_string()),
        _ => panic!("wrong kind"),
    }
}
