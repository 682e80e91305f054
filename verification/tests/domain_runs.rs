use std::collections::HashSet;

use konnekt_session::domain::activity::{ActivityConfig, ActivityResult};
use konnekt_session::domain::activity_run::{ActivityRun, ActivityRunError, RunStatus};
use konnekt_session::ident::Uuid;

fn random_uuid() -> u128 {
    uuid::Uuid::new_v4().as_u128()
}

fn make_run(participants: Vec<Uuid>) -> ActivityRun {
    let config = ActivityConfig::new(
        "quiz".to_string(),
        "Test Quiz".to_string(),
        serde_json::Value::Object(serde_json::Map::new()),
    );
    ActivityRun::new(random_uuid(), random_uuid(), config, participants.into_iter().collect::<HashSet<Uuid>>())
}

#[test]
fn test_create_activity_config() {
    let mut obj = serde_json::Map::new();
    obj.insert("question_count".to_string(), serde_json::Value::from(10));
    let config = serde_json::Value::Object(obj);
    let ac = ActivityConfig::new("trivia-v1".to_string(), "Friday Quiz".to_string(), config.clone());

    assert_eq!(ac.activity_type, "trivia-v1");
    assert_eq!(ac.name, "Friday Quiz");
    assert_eq!(ac.config, config);
}

#[test]
fn test_activity_result_builder() {
    let run_id = random_uuid();
    let participant_id = random_uuid();
    let mut obj = serde_json::Map::new();
    obj.insert(
        "answers".to_string(),
        serde_json::Value::Array(vec![
            serde_json::Value::from(1),
            serde_json::Value::from(2),
            serde_json::Value::from(3),
        ]),
    );

    let result = ActivityResult::new(run_id, participant_id)
        .with_score(42)
        .with_time(1500)
        .with_data(serde_json::Value::Object(obj));

    assert_eq!(result.score, Some(42));
    assert_eq!(result.time_taken_ms, Some(1500));
    assert!(!result.data.is_null());
}

#[test]
fn new_result_has_null_data() {
    let r = ActivityResult::new(1, 2);
    assert!(r.data.is_null());
    assert_eq!(r.score, None);
    assert_eq!(r.time_taken_ms, None);
}

#[test]
fn test_submit_completes_when_all_submitted() {
    let p1 = random_uuid();
    let p2 = random_uuid();
    let mut run = make_run(vec![p1, p2]);

    let completed = run.submit_result(ActivityResult::new(random_uuid(), p1)).unwrap();
    assert!(!completed);
    assert_eq!(run.status(), RunStatus::InProgress);

    let completed = run.submit_result(ActivityResult::new(random_uuid(), p2)).unwrap();
    assert!(completed);
    assert_eq!(run.status(), RunStatus::Completed);
}

#[test]
fn activity_run_test_remove_submitter_completes_run() {
    let p1 = random_uuid();
    let p2 = random_uuid();
    let mut run = make_run(vec![p1, p2]);

    run.submit_result(ActivityResult::new(random_uuid(), p1)).unwrap();

    let completed = run.remove_submitter(p2).unwrap();
    assert!(completed);
    assert_eq!(run.status(), RunStatus::Completed);
}

#[test]
fn test_all_disconnect_cancels_run() {
    let p1 = random_uuid();
    let mut run = make_run(vec![p1]);

    let completed = run.remove_submitter(p1).unwrap();
    assert!(completed);
    assert_eq!(run.status(), RunStatus::Cancelled);
}

#[test]
fn test_duplicate_submission_rejected() {
    let p1 = random_uuid();
    let p2 = random_uuid();
    let mut run = make_run(vec![p1, p2]);

    run.submit_result(ActivityResult::new(random_uuid(), p1)).unwrap();

    let err = run.submit_result(ActivityResult::new(random_uuid(), p1)).unwrap_err();
    assert_eq!(err, ActivityRunError::DuplicateSubmission(p1));
}

#[test]
fn test_non_submitter_rejected() {
    let p1 = random_uuid();
    let outsider = random_uuid();
    let mut run = make_run(vec![p1]);

    let err = run.submit_result(ActivityResult::new(random_uuid(), outsider)).unwrap_err();
    assert_eq!(err, ActivityRunError::NotARequiredSubmitter(outsider));
}

#[test]
fn test_snapshot_not_affected_by_late_joiners() {
    let p1 = random_uuid();
    let late_joiner = random_uuid();
    let mut run = make_run(vec![p1]);

    let err = run.submit_result(ActivityResult::new(random_uuid(), late_joiner)).unwrap_err();
    assert_eq!(err, ActivityRunError::NotARequiredSubmitter(late_joiner));
}

#[test]
fn finished_run_refuses_changes() {
    let p1 = random_uuid();
    let mut run = make_run(vec![p1]);
    run.submit_result(ActivityResult::new(random_uuid(), p1)).unwrap();
    assert!(run.is_complete());
    assert_eq!(run.cancel(), Err(ActivityRunError::NotInProgress));
    assert_eq!(
        run.submit_result(ActivityResult::new(random_uuid(), p1)),
        Err(ActivityRunError::NotInProgress)
    );
    assert_eq!(run.remove_submitter(p1), Err(ActivityRunError::NotInProgress));
}

#[test]
fn cancel_in_progress_run() {
    let mut run = make_run(vec![random_uuid()]);
    assert_eq!(run.cancel(), Ok(()));
    assert_eq!(run.status(), RunStatus::Cancelled);
}

#[test]
fn run_error_messages() {
    assert_eq!(ActivityRunError::NotInProgress.message(), "Run is not in progress");
}
