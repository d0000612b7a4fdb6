use scheduler::common::{CommonServer, Request, Server};
use scheduler::router::{Outcome, RouterError, SchedulerService, StorageHandle};
use scheduler::storage::errors::KeyValueError;
use scheduler::storage::{Contents, KeyValue, Text};
use std::collections::BTreeMap;
use std::sync::atomic::{AtomicUsize, Ordering};

static OPENED: AtomicUsize = AtomicUsize::new(0);

fn failure() -> sled::Error {
    sled::Error::Unsupported("refused".to_string())
}

/// An engine in memory that counts how often one is opened. It refuses to
/// open below a directory named `locked` and to write the key `full`.
struct MemoryStore {
    path: String,
    records: BTreeMap<String, String>,
}

impl KeyValue for MemoryStore {
    fn root(&self) -> Text {
        unreachable!()
    }

    fn contents(&self) -> Contents {
        unreachable!()
    }

    fn durable(&self) -> Contents {
        unreachable!()
    }

    fn new(path: &str) -> Result<Self, KeyValueError> {
        if path.starts_with("locked/") {
            return Err(KeyValueError::OpenError { source: failure() });
        }
        OPENED.fetch_add(1, Ordering::SeqCst);
        Ok(MemoryStore { path: path.to_string(), records: BTreeMap::new() })
    }

    fn get(&self, key: String) -> Result<Option<String>, KeyValueError> {
        Ok(self.records.get(&key).cloned())
    }

    fn set(&mut self, key: String, value: String) -> Result<(), KeyValueError> {
        if key == "full" {
            return Err(KeyValueError::OperationError { source: failure() });
        }
        self.records.insert(key, value);
        Ok(())
    }
}

fn body(update_id: i32, chat_id: i32) -> Vec<u8> {
    format!(
        "{{\"update_id\":{},\"message\":{{\"message_id\":2,\"chat\":{{\"id\":{}}},\"text\":\"message\"}}}}",
        update_id, chat_id
    )
    .into_bytes()
}

#[test]
fn one_engine_is_opened_however_often_a_tenant_is_resolved() {
    let mut server = SchedulerService::<MemoryStore>::new("data".to_string());

    let first = server.resolve("3").unwrap();
    for _ in 0..16 {
        assert_eq!(server.resolve("3").unwrap(), first);
        assert_eq!(server.add_user_storage("3").unwrap(), first);
    }

    assert_eq!(OPENED.load(Ordering::SeqCst), 1);
    assert_eq!(server.list_all_users(), ["3"]);
}

#[test]
fn one_engine_is_opened_per_tenant() {
    let mut server = SchedulerService::<MemoryStore>::new("data".to_string());

    for chat in [3, 4, 3, 5, 4, 3] {
        assert!(matches!(server.ingest(&body(1, chat)), Outcome::Acknowledged));
    }

    assert_eq!(OPENED.load(Ordering::SeqCst), 3);
    assert_eq!(server.list_all_users(), ["3", "4", "5"]);
}

#[test]
fn engine_is_opened_at_the_tenant_directory() {
    let mut server = SchedulerService::<MemoryStore>::new("data".to_string());

    let handle = server.resolve("3").unwrap();

    assert_eq!(server.storage(handle).unwrap().path, "data/3");
}

#[test]
fn nothing_is_opened_for_a_rejected_payload() {
    let mut server = SchedulerService::<MemoryStore>::new("data".to_string());

    assert!(matches!(server.ingest("{\"update_id\":1}".as_bytes()), Outcome::Rejected));

    assert_eq!(OPENED.load(Ordering::SeqCst), 0);
    assert!(server.list_all_users().is_empty());
}

#[test]
fn failed_open_leaves_the_directory_as_it_was() {
    let mut server = SchedulerService::<MemoryStore>::new("locked".to_string());

    let first = server.resolve("3");
    let second = server.ingest(&body(1, 3));

    assert!(matches!(first, Err(RouterError::Engine(KeyValueError::OpenError { .. }))));
    assert!(matches!(
        second,
        Outcome::Failed(RouterError::Engine(KeyValueError::OpenError { .. }))
    ));
    assert!(server.list_all_users().is_empty());
    assert_eq!(server.get_user_storage("3"), None);
}

#[test]
fn failed_write_is_reported_and_keeps_the_tenant() {
    let mut server = SchedulerService::<MemoryStore>::new("data".to_string());
    let handle = server.resolve("3").unwrap();

    let result = server.set(handle, "full".to_string(), "x".to_string());

    assert!(matches!(
        result,
        Err(RouterError::Engine(KeyValueError::OperationError { .. }))
    ));
    assert_eq!(server.list_all_users(), ["3"]);
    assert_eq!(server.get(handle, "full".to_string()).unwrap(), None);
}

#[test]
fn health_check_does_not_reach_the_service() {
    let mut server = CommonServer::new(SchedulerService::<MemoryStore>::new("data".to_string()));

    let health = server.serve(&Request::new("GET", "/health", body(1, 3)));

    assert_eq!(health.body, "healthy");
    assert_eq!(OPENED.load(Ordering::SeqCst), 0);

    let posted = server.serve(&Request::new("POST", "/health", body(1, 3)));

    assert_eq!(posted.status, 200);
    assert_eq!(posted.body, "done");
    assert_eq!(OPENED.load(Ordering::SeqCst), 1);
}

#[test]
fn opened_engine_takes_the_next_slot() {
    let mut server = SchedulerService::<MemoryStore>::new("data".to_string());
    server.resolve("3").unwrap();
    let mut engine = MemoryStore::new("data/4").unwrap();
    engine.set("1".to_string(), "kept".to_string()).unwrap();

    let handle = server.add_opened("4", Ok(engine)).unwrap();

    assert_eq!(handle, StorageHandle { slot: 1 });
    assert_eq!(server.list_all_users(), ["3", "4"]);
    assert_eq!(server.get_user_storage("4"), Some(handle));
    assert_eq!(server.storage(handle).unwrap().path, "data/4");
    assert_eq!(server.get(handle, "1".to_string()).unwrap(), Some("kept".to_string()));
}

#[test]
fn failure_to_open_is_handed_on() {
    let mut server = SchedulerService::<MemoryStore>::new("data".to_string());
    server.resolve("3").unwrap();
    let refused = KeyValueError::OpenError { source: sled::Error::Unsupported("no room".to_string()) };

    let result = server.add_opened("4", Err(refused));

    assert!(matches!(
        result,
        Err(RouterError::Engine(KeyValueError::OpenError {
            source: sled::Error::Unsupported(why)
        })) if why == "no room"
    ));
    assert_eq!(server.list_all_users(), ["3"]);
    assert_eq!(server.get_user_storage("4"), None);
}
