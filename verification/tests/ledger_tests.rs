use pgd::ledger::InstanceState;
use pgd::ledger::StateManager;
use pgd::version::PostgresVersion;

fn v(major: u32, minor: u32) -> PostgresVersion {
    PostgresVersion { major, minor }
}

fn rec(id: &str, port: u16) -> InstanceState {
    InstanceState::new(String::from(id), v(17, 2), port, 1700000000)
}

#[test]
fn test_instance_state_new_fields() {
    let r = InstanceState::new(String::from("cafe01"), v(16, 11), 5440, 42);
    assert_eq!(r.container_id, "cafe01");
    assert_eq!(r.postgres_version, v(16, 11));
    assert_eq!(r.port, 5440);
    assert_eq!(r.created_at, 42);
}

#[test]
fn test_get_missing() {
    let m = StateManager::new();
    assert!(m.get("nothing").is_none());
}

#[test]
fn test_upsert_then_get() {
    let mut m = StateManager::new();
    m.upsert(String::from("alpha"), rec("c-alpha", 5432));
    let got = m.get("alpha").unwrap();
    assert_eq!(got.container_id, "c-alpha");
    assert_eq!(got.port, 5432);
    assert!(m.get("beta").is_none());
}

#[test]
fn test_upsert_replaces_wholesale() {
    let mut m = StateManager::new();
    m.upsert(String::from("alpha"), rec("old-id", 5432));
    m.upsert(String::from("alpha"), rec("new-id", 5440));
    let got = m.get("alpha").unwrap();
    assert_eq!(got.container_id, "new-id");
    assert_eq!(got.port, 5440);
    // still a single record: removing it empties the ledger
    assert!(m.remove("alpha").is_some());
    assert!(m.get("alpha").is_none());
    assert_eq!(m.get_highest_used_port(), None);
}

#[test]
fn test_remove() {
    let mut m = StateManager::new();
    m.upsert(String::from("alpha"), rec("c1", 5432));
    m.upsert(String::from("beta"), rec("c2", 5433));
    let gone = m.remove("alpha").unwrap();
    assert_eq!(gone.container_id, "c1");
    assert!(m.get("alpha").is_none());
    assert!(m.get("beta").is_some());
    assert!(m.remove("alpha").is_none());
}

#[test]
fn test_get_highest_used_port() {
    let mut m = StateManager::new();
    assert_eq!(m.get_highest_used_port(), None);
    m.upsert(String::from("a"), rec("c1", 5435));
    m.upsert(String::from("b"), rec("c2", 5441));
    m.upsert(String::from("c"), rec("c3", 5433));
    assert_eq!(m.get_highest_used_port(), Some(5441));
}

#[test]
fn test_ports_lists_recorded_ports() {
    let mut m = StateManager::new();
    m.upsert(String::from("a"), rec("c1", 5432));
    m.upsert(String::from("b"), rec("c2", 5433));
    let mut ports = m.ports();
    ports.sort();
    assert_eq!(ports, vec![5432, 5433]);
}

#[test]
fn test_entries_lists_every_record() {
    let mut m = StateManager::new();
    m.upsert(String::from("a"), rec("c1", 5432));
    m.upsert(String::from("b"), rec("c2", 5433));
    let mut entries = m.entries();
    entries.sort_by(|x, y| x.0.cmp(&y.0));
    assert_eq!(entries.len(), 2);
    assert_eq!(entries[0].0, "a");
    assert_eq!(entries[0].1.container_id, "c1");
    assert_eq!(entries[1].0, "b");
    assert_eq!(entries[1].1.container_id, "c2");
}
