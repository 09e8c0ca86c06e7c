use pgd::ledger::InstanceState;
use pgd::ledger::StateManager;
use pgd::ports::PortScan;
use pgd::ports::DEFAULT_POSTGRES_PORT;
use pgd::version::PostgresVersion;

fn rec(id: &str, port: u16) -> InstanceState {
    InstanceState::new(String::from(id), PostgresVersion { major: 17, minor: 2 }, port, 0)
}

#[test]
fn test_scan_skips_recorded_ports() {
    // the ledger has handed out 5432 and 5433; with every port bindable the
    // allocator must offer 5434 first
    let mut ledger = StateManager::new();
    ledger.upsert(String::from("a"), rec("c1", 5432));
    ledger.upsert(String::from("b"), rec("c2", 5433));
    let mut scan = PortScan::new(&ledger);
    assert_eq!(scan.next_candidate(), Some(5434));
    assert_eq!(scan.next_candidate(), Some(5435));
}

#[test]
fn test_scan_starts_at_default_for_empty_ledger() {
    let ledger = StateManager::new();
    let mut scan = PortScan::new(&ledger);
    assert_eq!(scan.next_candidate(), Some(DEFAULT_POSTGRES_PORT));
    assert_eq!(scan.next_candidate(), Some(DEFAULT_POSTGRES_PORT + 1));
}

#[test]
fn test_scan_never_starts_below_default() {
    let mut ledger = StateManager::new();
    ledger.upsert(String::from("low"), rec("c1", 100));
    let mut scan = PortScan::new(&ledger);
    assert_eq!(scan.next_candidate(), Some(DEFAULT_POSTGRES_PORT));
}

#[test]
fn test_scan_window_is_clipped_at_the_top() {
    // the highest recorded port sits at the top of the range: the clipped
    // window holds only that port, which is taken, so the scan is exhausted
    let mut ledger = StateManager::new();
    ledger.upsert(String::from("top"), rec("c1", 65535));
    let mut scan = PortScan::new(&ledger);
    assert_eq!(scan.next_candidate(), None);
    assert_eq!(scan.next_candidate(), None);
}

#[test]
fn test_scan_ends_after_window() {
    let ledger = StateManager::new();
    let mut scan = PortScan::new(&ledger);
    let mut count = 0u32;
    while let Some(_) = scan.next_candidate() {
        count += 1;
    }
    assert_eq!(count, 100);
}
