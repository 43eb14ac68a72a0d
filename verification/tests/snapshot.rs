use rustdbms::error::{DBError, ErrorKind};
use rustdbms::schema::{CollectionStorageHelper, Record, Value};
use rustdbms::storage::{empty_document, init_storage, SnapshotFile, StorageEngine};

fn text(s: &str) -> Record {
    Record { values: vec![Value::Text(s.to_string())] }
}

fn helper(name: &str, data: Vec<Record>) -> CollectionStorageHelper {
    CollectionStorageHelper { name: name.to_string(), data }
}

fn sample() -> StorageEngine {
    let mut engine = init_storage().unwrap();
    engine.add_collection("users").unwrap();
    engine.add_collection("empty").unwrap();
    engine.add_collection("logs").unwrap();
    engine.create_record("users", text("ann")).unwrap();
    engine.create_record("users", text("bob")).unwrap();
    engine
        .create_record(
            "logs",
            Record { values: vec![Value::Integer(3), Value::Bool(true), Value::Float(2.5f64.to_bits())] },
        )
        .unwrap();
    engine
}

fn sorted_names(engine: &StorageEngine) -> Vec<String> {
    let mut names = engine.list_collections().unwrap();
    names.sort();
    names
}

#[test]
fn empty_document_is_an_empty_object() {
    assert_eq!(empty_document(), "{}");
}

#[test]
fn loading_an_absent_file_gives_an_empty_registry() {
    let mut engine = init_storage().unwrap();
    assert_eq!(engine.load_from_file(SnapshotFile::Absent), Ok(()));
    assert_eq!(engine.list_collections(), Ok(vec![]));
}

#[test]
fn loading_an_absent_file_clears_the_registry() {
    let mut engine = sample();
    assert_eq!(engine.load_from_file(SnapshotFile::Absent), Ok(()));
    assert_eq!(engine.list_collections(), Ok(vec![]));
}

#[test]
fn loading_a_malformed_file_is_corrupt_state() {
    let mut engine = sample();
    let result = engine.load_from_file(SnapshotFile::Malformed("expected value at line 1".to_string()));
    assert_eq!(
        result,
        Err(DBError::CorruptState("expected value at line 1".to_string()))
    );
    assert_eq!(result.unwrap_err().kind(), ErrorKind::CorruptState);
    assert_eq!(sorted_names(&engine), vec!["empty", "logs", "users"]);
    assert_eq!(engine.read_collection("users"), Ok(vec![text("ann"), text("bob")]));
}

#[test]
fn loading_a_document_replaces_the_registry() {
    let mut engine = sample();
    let document = vec![
        ("a".to_string(), helper("a", vec![text("x")])),
        ("b".to_string(), helper("b", vec![])),
    ];
    assert_eq!(engine.load_from_file(SnapshotFile::Document(document)), Ok(()));
    assert_eq!(sorted_names(&engine), vec!["a", "b"]);
    assert_eq!(engine.read_collection("a"), Ok(vec![text("x")]));
    assert_eq!(engine.read_collection("b"), Ok(vec![]));
    assert_eq!(
        engine.read_collection("users"),
        Err(DBError::NotFound("collection".to_string()))
    );
}

#[test]
fn loading_an_empty_document_gives_an_empty_registry() {
    let mut engine = sample();
    assert_eq!(engine.load_from_file(SnapshotFile::Document(vec![])), Ok(()));
    assert_eq!(engine.list_collections(), Ok(vec![]));
}

#[test]
fn a_name_that_occurs_twice_keeps_the_last_collection() {
    let mut engine = init_storage().unwrap();
    let document = vec![
        ("a".to_string(), helper("a", vec![text("first")])),
        ("b".to_string(), helper("b", vec![text("only")])),
        ("a".to_string(), helper("a", vec![text("second"), text("third")])),
    ];
    assert_eq!(engine.load_from_file(SnapshotFile::Document(document)), Ok(()));
    assert_eq!(sorted_names(&engine), vec!["a", "b"]);
    assert_eq!(engine.read_collection("a"), Ok(vec![text("second"), text("third")]));
    assert_eq!(engine.read_collection("b"), Ok(vec![text("only")]));
}

#[test]
fn a_collection_is_registered_under_its_key() {
    let mut engine = init_storage().unwrap();
    let document = vec![("key".to_string(), helper("inner", vec![text("x")]))];
    engine.load_from_file(SnapshotFile::Document(document)).unwrap();
    assert_eq!(engine.list_collections(), Ok(vec!["key".to_string()]));
    assert_eq!(engine.read_collection("key"), Ok(vec![text("x")]));
    assert_eq!(
        engine.read_collection("inner"),
        Err(DBError::NotFound("collection".to_string()))
    );
    assert_eq!(
        engine.save_to_file(),
        vec![("key".to_string(), helper("inner", vec![text("x")]))]
    );
}

#[test]
fn save_holds_every_collection_once() {
    let engine = sample();
    let mut saved = engine.save_to_file();
    saved.sort_by(|a, b| a.0.cmp(&b.0));
    assert_eq!(saved.len(), 3);
    assert_eq!(saved[0], ("empty".to_string(), helper("empty", vec![])));
    assert_eq!(saved[1].0, "logs");
    assert_eq!(saved[1].1.name, "logs");
    assert_eq!(saved[1].1.data, engine.read_collection("logs").unwrap());
    assert_eq!(
        saved[2],
        ("users".to_string(), helper("users", vec![text("ann"), text("bob")]))
    );
}

#[test]
fn save_of_an_empty_registry_is_empty() {
    assert_eq!(init_storage().unwrap().save_to_file(), vec![]);
}

#[test]
fn save_then_load_gives_an_equal_registry() {
    let engine = sample();
    let mut fresh = init_storage().unwrap();
    fresh.add_collection("stale").unwrap();
    assert_eq!(
        fresh.load_from_file(SnapshotFile::Document(engine.save_to_file())),
        Ok(())
    );
    assert_eq!(sorted_names(&fresh), sorted_names(&engine));
    for name in sorted_names(&engine) {
        assert_eq!(fresh.read_collection(&name), engine.read_collection(&name));
    }
    let mut first = engine.save_to_file();
    let mut second = fresh.save_to_file();
    first.sort_by(|a, b| a.0.cmp(&b.0));
    second.sort_by(|a, b| a.0.cmp(&b.0));
    assert_eq!(first, second);
}

#[test]
fn saving_does_not_change_the_registry() {
    let engine = sample();
    let mut saved = engine.save_to_file();
    saved.clear();
    assert_eq!(sorted_names(&engine), vec!["empty", "logs", "users"]);
    assert_eq!(engine.read_collection("users"), Ok(vec![text("ann"), text("bob")]));
}
