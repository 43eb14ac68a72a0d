use rustdbms::error::{DBError, ErrorKind};
use rustdbms::schema::{Record, Value};
use rustdbms::storage::{init_storage, StorageEngine};

fn engine() -> StorageEngine {
    init_storage().expect("a new engine")
}

fn record(values: Vec<Value>) -> Record {
    Record { values }
}

fn sorted(mut names: Vec<String>) -> Vec<String> {
    names.sort();
    names
}

#[test]
fn new_engine_has_no_collections() {
    let engine = engine();
    assert_eq!(engine.list_collections(), Ok(vec![]));
}

#[test]
fn added_collection_is_listed_once() {
    let mut engine = engine();
    assert_eq!(engine.add_collection("users"), Ok(()));
    let names = engine.list_collections().unwrap();
    assert_eq!(names.iter().filter(|n| n.as_str() == "users").count(), 1);
    assert_eq!(names, vec!["users".to_string()]);
}

#[test]
fn second_add_fails_with_already_exists() {
    let mut engine = engine();
    assert_eq!(engine.add_collection("users"), Ok(()));
    assert_eq!(
        engine.add_collection("users"),
        Err(DBError::AlreadyExists("users".to_string()))
    );
    assert_eq!(engine.list_collections().unwrap(), vec!["users".to_string()]);
}

#[test]
fn second_add_keeps_the_records() {
    let mut engine = engine();
    engine.add_collection("users").unwrap();
    engine.create_record("users", record(vec![Value::Integer(7)])).unwrap();
    let again = engine.add_collection("users").unwrap_err();
    assert_eq!(again.kind(), ErrorKind::AlreadyExists);
    assert_eq!(
        engine.read_collection("users"),
        Ok(vec![record(vec![Value::Integer(7)])])
    );
}

#[test]
fn several_collections_are_all_listed() {
    let mut engine = engine();
    for name in ["b", "a", "c"] {
        engine.add_collection(name).unwrap();
    }
    assert_eq!(
        sorted(engine.list_collections().unwrap()),
        vec!["a".to_string(), "b".to_string(), "c".to_string()]
    );
}

#[test]
fn names_differ_by_case_and_by_space() {
    let mut engine = engine();
    assert_eq!(engine.add_collection("Users"), Ok(()));
    assert_eq!(engine.add_collection("users"), Ok(()));
    assert_eq!(engine.add_collection("users "), Ok(()));
    assert_eq!(engine.add_collection(""), Ok(()));
    assert_eq!(engine.list_collections().unwrap().len(), 4);
    assert_eq!(
        engine.add_collection(""),
        Err(DBError::AlreadyExists(String::new()))
    );
}

#[test]
fn delete_collection_removes_it() {
    let mut engine = engine();
    engine.add_collection("a").unwrap();
    engine.add_collection("b").unwrap();
    engine.add_collection("c").unwrap();
    assert_eq!(engine.delete_collection("b"), Ok(()));
    assert_eq!(
        sorted(engine.list_collections().unwrap()),
        vec!["a".to_string(), "c".to_string()]
    );
    assert_eq!(
        engine.read_collection("b"),
        Err(DBError::NotFound("collection".to_string()))
    );
}

#[test]
fn delete_collection_that_is_absent_is_not_found() {
    let mut engine = engine();
    engine.add_collection("a").unwrap();
    assert_eq!(
        engine.delete_collection("b"),
        Err(DBError::NotFound("collection".to_string()))
    );
    assert_eq!(engine.list_collections().unwrap(), vec!["a".to_string()]);
}

#[test]
fn recreated_collection_is_empty() {
    let mut engine = engine();
    engine.add_collection("users").unwrap();
    engine.create_record("users", record(vec![Value::Integer(1)])).unwrap();
    engine.delete_collection("users").unwrap();
    engine.add_collection("users").unwrap();
    assert_eq!(engine.read_collection("users"), Ok(vec![]));
}

#[test]
fn read_collection_returns_the_records_in_order() {
    let mut engine = engine();
    engine.add_collection("users").unwrap();
    let r0 = record(vec![Value::Integer(1), Value::Text("ann".to_string())]);
    let r1 = record(vec![]);
    let r2 = record(vec![Value::Bool(false)]);
    for r in [&r0, &r1, &r2] {
        engine.create_record("users", r.clone()).unwrap();
    }
    assert_eq!(engine.read_collection("users"), Ok(vec![r0, r1, r2]));
}

#[test]
fn read_collection_that_is_absent_is_not_found() {
    let engine = engine();
    let error = engine.read_collection("users").unwrap_err();
    assert_eq!(error, DBError::NotFound("collection".to_string()));
    assert_eq!(error.kind(), ErrorKind::NotFound);
}

#[test]
fn changing_what_was_read_does_not_change_the_store() {
    let mut engine = engine();
    engine.add_collection("users").unwrap();
    engine
        .create_record("users", record(vec![Value::Text("ann".to_string())]))
        .unwrap();
    let mut read = engine.read_collection("users").unwrap();
    read[0].values[0] = Value::Text("bob".to_string());
    read.push(record(vec![Value::Integer(2)]));
    read.remove(0);
    let mut one = engine.read_record("users", 0).unwrap();
    one.values.clear();
    assert_eq!(
        engine.read_collection("users"),
        Ok(vec![record(vec![Value::Text("ann".to_string())])])
    );
}

#[test]
fn users_scenario() {
    let mut engine = engine();
    assert_eq!(engine.add_collection("users"), Ok(()));
    assert_eq!(
        engine.create_record("users", record(vec![Value::Integer(1)])),
        Ok(())
    );
    let records = engine.read_collection("users").unwrap();
    assert_eq!(records.len(), 1);
    assert_eq!(records[0].values, vec![Value::Integer(1)]);
    assert_eq!(engine.delete_collection("users"), Ok(()));
    assert_eq!(engine.list_collections(), Ok(vec![]));
}

#[test]
fn collections_do_not_share_records() {
    let mut engine = engine();
    engine.add_collection("a").unwrap();
    engine.add_collection("b").unwrap();
    engine.create_record("a", record(vec![Value::Integer(1)])).unwrap();
    engine.create_record("b", record(vec![Value::Integer(2)])).unwrap();
    engine.create_record("a", record(vec![Value::Integer(3)])).unwrap();
    engine.delete_record("a", 0).unwrap();
    assert_eq!(
        engine.read_collection("a"),
        Ok(vec![record(vec![Value::Integer(3)])])
    );
    assert_eq!(
        engine.read_collection("b"),
        Ok(vec![record(vec![Value::Integer(2)])])
    );
}
