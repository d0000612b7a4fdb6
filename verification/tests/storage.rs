use scheduler::storage::errors::KeyValueError;
use scheduler::storage::sled::SledKeyValue;
use scheduler::storage::KeyValue;
use tempfile::TempDir;

fn open_temp() -> (TempDir, SledKeyValue) {
    let dir = TempDir::new().expect("unable to create temp directory");
    let db = SledKeyValue::new(dir.path().to_str().unwrap()).unwrap();
    (dir, db)
}

#[test]
fn should_return_key() {
    let (_dir, mut db) = open_temp();

    db.set("test-key".to_string(), "some-value".to_string())
        .unwrap();

    assert_eq!(
        db.get("test-key".to_string()).unwrap().unwrap(),
        "some-value"
    );
}

#[test]
fn should_not_fail_if_key_does_not_exist() {
    let (_dir, db) = open_temp();

    let value = db.get("random key".to_string());

    assert_eq!(value.unwrap(), None);
}

#[test]
fn last_write_wins_for_one_key() {
    let (_dir, mut db) = open_temp();

    db.set("1".to_string(), "v1".to_string()).unwrap();
    db.set("1".to_string(), "v2".to_string()).unwrap();

    assert_eq!(db.get("1".to_string()).unwrap(), Some("v2".to_string()));
}

#[test]
fn round_trip_keeps_text_beyond_ascii() {
    let (_dir, mut db) = open_temp();

    db.set("clé".to_string(), "valeur ✓ \"quoted\"".to_string())
        .unwrap();
    db.set("".to_string(), "".to_string()).unwrap();

    assert_eq!(
        db.get("clé".to_string()).unwrap(),
        Some("valeur ✓ \"quoted\"".to_string())
    );
    assert_eq!(db.get("".to_string()).unwrap(), Some("".to_string()));
    assert_eq!(db.get("cle".to_string()).unwrap(), None);
}

#[test]
fn values_survive_reopening() {
    let dir = TempDir::new().expect("unable to create temp directory");
    let path = dir.path().to_str().unwrap().to_string();
    {
        let mut db = SledKeyValue::new(&path).unwrap();
        db.set("1".to_string(), "message".to_string()).unwrap();
    }

    let db = SledKeyValue::new(&path).unwrap();

    assert_eq!(db.get("1".to_string()).unwrap(), Some("message".to_string()));
}

#[test]
fn open_fails_with_open_error_where_the_path_is_a_file() {
    let file = tempfile::NamedTempFile::new().expect("unable to create temp file");

    let result = SledKeyValue::new(file.path().to_str().unwrap());

    assert!(matches!(result, Err(KeyValueError::OpenError { .. })));
}

#[test]
fn decode_passes_text_through() {
    let found = SledKeyValue::decode(Ok(Some("some-value".as_bytes().to_vec())));

    assert_eq!(found.unwrap(), Some("some-value".to_string()));
}

#[test]
fn decode_reports_nothing_as_nothing() {
    assert_eq!(SledKeyValue::decode(Ok(None)).unwrap(), None);
}

#[test]
fn decode_refuses_bytes_that_are_no_text() {
    let found = SledKeyValue::decode(Ok(Some(vec![0xff, 0xfe])));

    assert!(matches!(found, Err(KeyValueError::DeserialzeError { .. })));
}

#[test]
fn decode_reports_a_backend_failure_as_read_error() {
    let failure = sled::Error::Unsupported("no reads".to_string());

    let found = SledKeyValue::decode(Err(failure));

    assert!(matches!(found, Err(KeyValueError::ReadError { .. })));
}

#[test]
fn error_messages_name_the_kind() {
    let open = KeyValueError::OpenError { source: sled::Error::Unsupported("x".to_string()) };
    let read = KeyValueError::ReadError { source: sled::Error::Unsupported("x".to_string()) };
    let write = KeyValueError::OperationError { source: sled::Error::Unsupported("x".to_string()) };
    let decode = KeyValueError::DeserialzeError {
        source: String::from_utf8(vec![0xff]).unwrap_err(),
    };

    assert_eq!(open.message(), "Open error");
    assert_eq!(read.message(), "Read error");
    assert_eq!(write.message(), "Opeartional error");
    assert_eq!(decode.message(), "Deserialize error");
}

#[test]
fn get_refuses_stored_bytes_that_are_no_text() {
    let dir = TempDir::new().expect("unable to create temp directory");
    let path = dir.path().to_str().unwrap().to_string();
    {
        let db = sled::open(&path).unwrap();
        db.insert("raw", vec![0xc3, 0x28]).unwrap();
        db.insert("text", "plain".as_bytes()).unwrap();
        db.flush().unwrap();
    }

    let db = SledKeyValue::new(&path).unwrap();

    assert!(matches!(
        db.get("raw".to_string()),
        Err(KeyValueError::DeserialzeError { .. })
    ));
    assert_eq!(db.get("text".to_string()).unwrap(), Some("plain".to_string()));
}

#[test]
fn set_writes_the_utf8_bytes_of_key_and_value() {
    let dir = TempDir::new().expect("unable to create temp directory");
    let path = dir.path().to_str().unwrap().to_string();
    {
        let mut db = SledKeyValue::new(&path).unwrap();
        db.set("clé".to_string(), "é".to_string()).unwrap();
    }

    let db = sled::open(&path).unwrap();

    assert_eq!(db.get("clé".as_bytes()).unwrap().unwrap().to_vec(), vec![0xc3, 0xa9]);
    assert_eq!(db.len(), 1);
}
