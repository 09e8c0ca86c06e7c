use pgd::config::PGDConfig;
use pgd::config::Project;
use pgd::ledger::InstanceState;
use pgd::ledger::StateManager;
use pgd::reconcile::Action;
use pgd::reconcile::Event;
use pgd::reconcile::Reconciler;
use pgd::reconcile::ReconcileError;
use pgd::reconcile::MAX_START_ATTEMPTS;
use pgd::version::PostgresVersion;

fn v(major: u32, minor: u32) -> PostgresVersion {
    PostgresVersion { major, minor }
}

fn demo_project() -> Project {
    Project {
        name: String::from("demo"),
        path: String::from("/home/user/demo"),
        config: PGDConfig {
            version: v(17, 2),
            password: String::from("SECRET-REDACTED"),
            port: 5433,
        },
    }
}

fn demo_record(id: &str) -> InstanceState {
    InstanceState::new(String::from(id), v(17, 2), 5433, 1700000000)
}

#[test]
fn test_pending_starts_with_image() {
    let p = demo_project();
    let r = Reconciler::new(&p, None, MAX_START_ATTEMPTS);
    assert_eq!(r.pending(), Action::EnsureImage);
    assert!(!r.is_settled());
}

#[test]
fn test_fresh_project_creates_and_persists_before_start() {
    let p = demo_project();
    let mut ledger = StateManager::new();
    let mut r = Reconciler::new(&p, None, MAX_START_ATTEMPTS);
    assert_eq!(r.step(Event::ImageReady, &mut ledger), Action::Create);
    let a = r.step(
        Event::Created { id: String::from("fresh-id"), now: 1700000042 },
        &mut ledger,
    );
    // the record is handed over for persistence before any start is possible
    assert_eq!(a, Action::SaveLedger);
    let stored = ledger.get("demo").unwrap();
    assert_eq!(stored.container_id, "fresh-id");
    assert_eq!(stored.postgres_version, v(17, 2));
    assert_eq!(stored.port, 5433);
    assert_eq!(stored.created_at, 1700000042);
    assert_eq!(r.step(Event::LedgerSaved, &mut ledger), Action::ReadVersion);
    // exactly one record was written
    assert!(ledger.remove("demo").is_some());
    assert_eq!(ledger.get_highest_used_port(), None);
}

#[test]
fn test_missing_container_is_replaced() {
    let p = demo_project();
    let mut ledger = StateManager::new();
    ledger.upsert(String::from("demo"), demo_record("old-id"));
    let instance = ledger.get("demo");
    let mut r = Reconciler::new(&p, instance.as_ref(), MAX_START_ATTEMPTS);
    assert_eq!(r.step(Event::ImageReady, &mut ledger), Action::CheckExists);
    // the recorded container is gone: a normal negative, answered by creation
    assert_eq!(r.step(Event::ExistsResult(false), &mut ledger), Action::Create);
    let a = r.step(
        Event::Created { id: String::from("new-id"), now: 1700000099 },
        &mut ledger,
    );
    assert_eq!(a, Action::SaveLedger);
    // the old id is gone from the ledger and never reused
    let stored = ledger.get("demo").unwrap();
    assert_eq!(stored.container_id, "new-id");
    assert_eq!(r.container_id, Some(String::from("new-id")));
}

#[test]
fn test_converged_reconcile_is_noop() {
    let p = demo_project();
    let mut ledger = StateManager::new();
    ledger.upsert(String::from("demo"), demo_record("c1"));
    let mut untouched = StateManager::new();
    untouched.upsert(String::from("demo"), demo_record("c1"));

    let instance = ledger.get("demo");
    let mut r = Reconciler::new(&p, instance.as_ref(), MAX_START_ATTEMPTS);
    let mut actions: Vec<Action> = Vec::new();
    actions.push(r.step(Event::ImageReady, &mut ledger));
    actions.push(r.step(Event::ExistsResult(true), &mut ledger));
    actions.push(r.step(Event::VersionLabel(v(17, 2)), &mut ledger));
    actions.push(r.step(Event::RunningResult(true), &mut ledger));
    assert_eq!(
        actions,
        vec![Action::CheckExists, Action::ReadVersion, Action::QueryRunning, Action::Succeed]
    );
    assert!(r.is_settled());
    // no creation, no start, and the ledger is unchanged
    assert!(ledger == untouched);
}

#[test]
fn test_upgrade_drift_fails_naming_versions() {
    let p = demo_project();
    let mut ledger = StateManager::new();
    ledger.upsert(String::from("demo"), demo_record("c1"));
    let instance = ledger.get("demo");
    let mut r = Reconciler::new(&p, instance.as_ref(), MAX_START_ATTEMPTS);
    r.step(Event::ImageReady, &mut ledger);
    r.step(Event::ExistsResult(true), &mut ledger);
    // the container runs 16.0 while the configuration asks for 17.2
    let a = r.step(Event::VersionLabel(v(16, 0)), &mut ledger);
    let expected = ReconcileError::UpgradeUnsupported { actual: v(16, 0), desired: v(17, 2) };
    assert_eq!(a, Action::Fail(expected));
    let msg = expected.message();
    assert!(msg.contains("16.0"));
    assert!(msg.contains("17.2"));
}

#[test]
fn test_downgrade_drift_fails_naming_versions() {
    let p = demo_project();
    let mut ledger = StateManager::new();
    ledger.upsert(String::from("demo"), demo_record("c1"));
    let instance = ledger.get("demo");
    let mut r = Reconciler::new(&p, instance.as_ref(), MAX_START_ATTEMPTS);
    r.step(Event::ImageReady, &mut ledger);
    r.step(Event::ExistsResult(true), &mut ledger);
    let a = r.step(Event::VersionLabel(v(18, 1)), &mut ledger);
    let expected = ReconcileError::DowngradeUnsupported { actual: v(18, 1), desired: v(17, 2) };
    assert_eq!(a, Action::Fail(expected));
    let msg = expected.message();
    assert!(msg.contains("18.1"));
    assert!(msg.contains("17.2"));
}

#[test]
fn test_retry_succeeds_on_fourth_attempt() {
    let p = demo_project();
    let mut ledger = StateManager::new();
    ledger.upsert(String::from("demo"), demo_record("c1"));
    let instance = ledger.get("demo");
    let mut r = Reconciler::new(&p, instance.as_ref(), MAX_START_ATTEMPTS);
    let mut actions: Vec<Action> = Vec::new();
    actions.push(r.step(Event::ImageReady, &mut ledger));
    actions.push(r.step(Event::ExistsResult(true), &mut ledger));
    actions.push(r.step(Event::VersionLabel(v(17, 2)), &mut ledger));
    actions.push(r.step(Event::RunningResult(false), &mut ledger));
    for _ in 0..3 {
        actions.push(r.step(Event::StartFailed, &mut ledger));
        actions.push(r.step(Event::Waited, &mut ledger));
    }
    actions.push(r.step(Event::StartOk, &mut ledger));
    actions.push(r.step(Event::Waited, &mut ledger));
    let last = r.step(Event::RunningResult(true), &mut ledger);
    assert_eq!(last, Action::Succeed);
    assert!(r.is_settled());
    let starts = actions.iter().filter(|a| matches!(a, Action::Start)).count();
    let backoffs = actions.iter().filter(|a| matches!(a, Action::Backoff)).count();
    assert_eq!(starts, 4);
    assert_eq!(backoffs, 3);
}

#[test]
fn test_retry_exhausts_after_max_attempts() {
    let p = demo_project();
    let mut ledger = StateManager::new();
    ledger.upsert(String::from("demo"), demo_record("c1"));
    let instance = ledger.get("demo");
    let mut r = Reconciler::new(&p, instance.as_ref(), MAX_START_ATTEMPTS);
    let mut actions: Vec<Action> = Vec::new();
    actions.push(r.step(Event::ImageReady, &mut ledger));
    actions.push(r.step(Event::ExistsResult(true), &mut ledger));
    actions.push(r.step(Event::VersionLabel(v(17, 2)), &mut ledger));
    actions.push(r.step(Event::RunningResult(false), &mut ledger));
    for _ in 0..9 {
        actions.push(r.step(Event::StartFailed, &mut ledger));
        actions.push(r.step(Event::Waited, &mut ledger));
    }
    let expected = ReconcileError::StartAttemptsExhausted { attempts: MAX_START_ATTEMPTS };
    let last = r.step(Event::StartFailed, &mut ledger);
    assert_eq!(last, Action::Fail(expected));
    assert!(r.is_settled());
    let starts = actions.iter().filter(|a| matches!(a, Action::Start)).count();
    let backoffs = actions.iter().filter(|a| matches!(a, Action::Backoff)).count();
    assert_eq!(starts, 10);
    assert_eq!(backoffs, 9);
    // no further retry is ever attempted
    assert_eq!(r.step(Event::StartOk, &mut ledger), Action::Fail(expected));
    assert_eq!(r.step(Event::Waited, &mut ledger), Action::Fail(expected));
    assert!(msg_of(expected).contains("10"));
}

fn msg_of(e: ReconcileError) -> String {
    e.message()
}

#[test]
fn test_image_failure_is_fatal() {
    let p = demo_project();
    let mut ledger = StateManager::new();
    let mut r = Reconciler::new(&p, None, MAX_START_ATTEMPTS);
    let a = r.step(Event::RuntimeFailed, &mut ledger);
    assert_eq!(a, Action::Fail(ReconcileError::ImageUnavailable));
    assert!(r.is_settled());
}

#[test]
fn test_inspect_failure_is_fatal() {
    let p = demo_project();
    let mut ledger = StateManager::new();
    ledger.upsert(String::from("demo"), demo_record("c1"));
    let instance = ledger.get("demo");
    let mut r = Reconciler::new(&p, instance.as_ref(), MAX_START_ATTEMPTS);
    r.step(Event::ImageReady, &mut ledger);
    let a = r.step(Event::RuntimeFailed, &mut ledger);
    assert_eq!(a, Action::Fail(ReconcileError::RuntimeUnavailable));
}

#[test]
fn test_create_failure_is_fatal() {
    let p = demo_project();
    let mut ledger = StateManager::new();
    let mut r = Reconciler::new(&p, None, MAX_START_ATTEMPTS);
    r.step(Event::ImageReady, &mut ledger);
    let a = r.step(Event::RuntimeFailed, &mut ledger);
    assert_eq!(a, Action::Fail(ReconcileError::CreateFailed));
}

#[test]
fn test_ledger_save_failure_is_fatal() {
    let p = demo_project();
    let mut ledger = StateManager::new();
    let mut r = Reconciler::new(&p, None, MAX_START_ATTEMPTS);
    r.step(Event::ImageReady, &mut ledger);
    r.step(Event::Created { id: String::from("c9"), now: 7 }, &mut ledger);
    let a = r.step(Event::LedgerSaveFailed, &mut ledger);
    assert_eq!(a, Action::Fail(ReconcileError::LedgerPersistFailed));
}

#[test]
fn test_unreadable_version_label_is_fatal() {
    let p = demo_project();
    let mut ledger = StateManager::new();
    ledger.upsert(String::from("demo"), demo_record("c1"));
    let instance = ledger.get("demo");
    let mut r = Reconciler::new(&p, instance.as_ref(), MAX_START_ATTEMPTS);
    r.step(Event::ImageReady, &mut ledger);
    r.step(Event::ExistsResult(true), &mut ledger);
    let a = r.step(Event::RuntimeFailed, &mut ledger);
    assert_eq!(a, Action::Fail(ReconcileError::VersionUnreadable));
}

#[test]
fn test_verification_failure_counts_as_attempt() {
    // the start call is accepted, but the container is gone after the
    // verification window: the attempt failed and is retried
    let p = demo_project();
    let mut ledger = StateManager::new();
    ledger.upsert(String::from("demo"), demo_record("c1"));
    let instance = ledger.get("demo");
    let mut r = Reconciler::new(&p, instance.as_ref(), MAX_START_ATTEMPTS);
    r.step(Event::ImageReady, &mut ledger);
    r.step(Event::ExistsResult(true), &mut ledger);
    r.step(Event::VersionLabel(v(17, 2)), &mut ledger);
    assert_eq!(r.step(Event::RunningResult(false), &mut ledger), Action::Start);
    assert_eq!(r.step(Event::StartOk, &mut ledger), Action::WaitVerify);
    assert_eq!(r.step(Event::Waited, &mut ledger), Action::QueryRunning);
    assert_eq!(r.step(Event::RunningResult(false), &mut ledger), Action::Backoff);
    assert_eq!(r.step(Event::Waited, &mut ledger), Action::Start);
}

#[test]
fn test_error_messages_name_their_cause() {
    assert!(ReconcileError::ImageUnavailable.message().contains("image"));
    assert!(ReconcileError::RuntimeUnavailable.message().contains("runtime"));
    assert!(ReconcileError::CreateFailed.message().contains("created"));
    assert!(ReconcileError::LedgerPersistFailed.message().contains("ledger"));
    assert!(ReconcileError::VersionUnreadable.message().contains("label"));
    let exhausted = ReconcileError::StartAttemptsExhausted { attempts: 10 };
    assert_eq!(exhausted.message(), "failed to start container after 10 attempts");
}
