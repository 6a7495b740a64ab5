use sandbox_sync::paths::PathError;
use sandbox_sync::sync::AttemptOutcome;
use sandbox_sync::sync::CreateErrorKind;
use sandbox_sync::sync::INITIAL_RETRY_DELAY_MS;
use sandbox_sync::sync::MAX_RETRIES;
use sandbox_sync::sync::PathOutcome;
use sandbox_sync::sync::RetryState;
use sandbox_sync::sync::RetryStep;
use sandbox_sync::sync::SideOutcome;
use sandbox_sync::sync::SyncResult;
use sandbox_sync::sync::is_transient;
use sandbox_sync::sync::plan_single_path;
use sandbox_sync::sync::summarize_outcomes;

#[test]
fn test_retry_succeeds_immediately() {
    let st = RetryState::new();
    let step = st.step(AttemptOutcome::Succeeded { newly_created: true });
    assert_eq!(step, RetryStep::Succeeded { newly_created: true });
}

#[test]
fn test_retry_already_exists_is_success() {
    let st = RetryState::new();
    let step = st.step(AttemptOutcome::Failed { kind: CreateErrorKind::AlreadyExists });
    assert_eq!(step, RetryStep::Succeeded { newly_created: false });
}

#[test]
fn test_retry_transient_backs_off_then_fails() {
    // A persistently transient failure is retried MAX_RETRIES times with
    // doubling delays, then reported as failed.
    let mut st = RetryState::new();
    assert_eq!(st.delay_ms, INITIAL_RETRY_DELAY_MS);
    let mut waits = Vec::new();
    let mut retries = 0u32;
    loop {
        match st.step(AttemptOutcome::Failed { kind: CreateErrorKind::PermissionDenied }) {
            RetryStep::Retrying { wait_ms, next } => {
                waits.push(wait_ms);
                retries += 1;
                st = next;
            }
            RetryStep::Failed => break,
            RetryStep::Succeeded { .. } => panic!("transient failure cannot succeed"),
        }
    }
    assert_eq!(retries, MAX_RETRIES);
    assert_eq!(waits, vec![50, 100, 200]);
}

#[test]
fn test_retry_permanent_fails_immediately() {
    let st = RetryState::new();
    let step = st.step(AttemptOutcome::Failed { kind: CreateErrorKind::Other });
    assert_eq!(step, RetryStep::Failed);
}

#[test]
fn test_transient_classification() {
    assert!(is_transient(CreateErrorKind::PermissionDenied));
    assert!(is_transient(CreateErrorKind::SharingViolation));
    assert!(is_transient(CreateErrorKind::LockViolation));
    assert!(!is_transient(CreateErrorKind::Other));
    assert!(!is_transient(CreateErrorKind::AlreadyExists));
}

#[test]
fn test_sync_result_new_is_clean() {
    let r = SyncResult::new();
    assert_eq!(r.created_total(), 0);
    assert_eq!(r.existing_total(), 0);
    assert!(r.is_ok());
}

#[test]
fn test_summarize_counts_both_sides() {
    let outcomes = vec![
        PathOutcome { scripts: SideOutcome::Created, data: SideOutcome::Existed },
        PathOutcome { scripts: SideOutcome::Existed, data: SideOutcome::Created },
        PathOutcome { scripts: SideOutcome::Created, data: SideOutcome::Created },
    ];
    let r = summarize_outcomes(&outcomes);
    assert_eq!(r.created_in_scripts, 2);
    assert_eq!(r.created_in_data, 2);
    assert_eq!(r.existing_in_scripts, 1);
    assert_eq!(r.existing_in_data, 1);
    assert_eq!(r.created_total(), 4);
    assert_eq!(r.existing_total(), 2);
    assert!(r.is_ok());
}

#[test]
fn test_summarize_records_errors_without_aborting_siblings() {
    let outcomes = vec![
        PathOutcome {
            scripts: SideOutcome::Failed { message: String::from("Failed to create a in scripts: denied") },
            data: SideOutcome::Created,
        },
        PathOutcome { scripts: SideOutcome::Created, data: SideOutcome::Existed },
    ];
    let r = summarize_outcomes(&outcomes);
    assert_eq!(r.errors.len(), 1);
    assert_eq!(r.errors[0], "Failed to create a in scripts: denied");
    assert_eq!(r.created_in_scripts, 1);
    assert_eq!(r.created_in_data, 1);
    assert_eq!(r.existing_in_data, 1);
    assert!(!r.is_ok());
}

#[test]
fn test_second_run_reports_all_existing() {
    // Idempotence at the outcome level: an unchanged pair of trees makes
    // every path report "already existed" on both sides.
    let union_size = 3;
    let mut outcomes = Vec::new();
    for _ in 0..union_size {
        outcomes.push(PathOutcome { scripts: SideOutcome::Existed, data: SideOutcome::Existed });
    }
    let r = summarize_outcomes(&outcomes);
    assert_eq!(r.created_total(), 0);
    assert_eq!(r.existing_in_scripts, union_size);
    assert_eq!(r.existing_in_data, union_size);
    assert!(r.is_ok());
}

#[test]
fn test_ensure_single_path_rejects_traversal() {
    let result = plan_single_path("/scripts", "/data", "../escape");
    assert_eq!(result.unwrap_err(), PathError::ParentReference);
}

#[test]
fn test_ensure_single_path_rejects_absolute() {
    let result = plan_single_path("/scripts", "/data", "/etc/passwd");
    assert_eq!(result.unwrap_err(), PathError::Absolute);
}

#[test]
fn test_ensure_single_path_targets() {
    let (s, d) = plan_single_path("/scripts", "/data", "deep/nested/path").unwrap();
    assert_eq!(s, "/scripts/deep/nested/path");
    assert_eq!(d, "/data/deep/nested/path");
}
