use mock_ota::job::JobStatus;
use mock_ota::reconcile::{
    handle_status_report, next_bus_action, BusAction, BusEvent, ReconcileOutcome,
    RETRY_BACKOFF_MILLIS,
};
use mock_ota::store::{DispatchError, JobStore, ReportOutcome};

const PREFIX: &str = "gaia/devices/";
const BASE: &str = "http://mock-ota:8090";

fn store_with_job(id: &str, device: &str, artifact: &str, version: &str, t: i64) -> JobStore {
    let mut store = JobStore::new();
    store.create(
        id.to_string(),
        device,
        artifact.to_string(),
        version.to_string(),
        t,
    );
    store
}

#[test]
fn create_and_get() {
    let mut store = JobStore::new();
    let job = store.create(
        "job-1".to_string(),
        "  device-1  ",
        "fw.bin".to_string(),
        "v2".to_string(),
        1_000,
    );
    assert_eq!(job.id, "job-1");
    assert_eq!(job.device_id, "device-1"); // trimmed on admission
    assert_eq!(job.artifact, "fw.bin");
    assert_eq!(job.version, "v2");
    assert_eq!(job.status, JobStatus::Created);
    assert_eq!(job.created_at, 1_000);
    assert!(job.dispatched_at.is_none());
    assert!(job.completed_at.is_none());
    assert!(job.message.is_none());

    let copy = store.get("job-1").unwrap();
    assert_eq!(copy.device_id, "device-1");
    assert!(store.get("job-2").is_none());

    let all = store.list();
    assert_eq!(all.len(), 1);
    assert_eq!(all[0].id, "job-1");
}

#[test]
fn create_under_a_taken_id_replaces() {
    let mut store = JobStore::new();
    store.create(
        "job-1".to_string(),
        "device-1",
        "fw.bin".to_string(),
        "v1".to_string(),
        1_000,
    );
    store.create(
        "job-1".to_string(),
        "device-2",
        "other.bin".to_string(),
        "v2".to_string(),
        2_000,
    );
    assert_eq!(store.list().len(), 1);
    let job = store.get("job-1").unwrap();
    assert_eq!(job.device_id, "device-2");
    assert_eq!(job.version, "v2");
}

#[test]
fn create_job_assigns_fresh_ids() {
    let mut store = JobStore::new();
    let a = store.create_job("device-1", "fw.bin".to_string(), "v1".to_string());
    let b = store.create_job("device-2", "fw.bin".to_string(), "v2".to_string());
    assert_eq!(a.status, JobStatus::Created);
    assert_ne!(a.id, b.id);
    assert_eq!(store.list().len(), 2);
}

#[test]
fn dispatch_stamps_and_messages() {
    let mut store = store_with_job("job-1", "device-1", "fw.bin", "v2", 1_000);
    let job = store.mark_dispatched("job-1", 2_000).unwrap();
    assert_eq!(job.status, JobStatus::Dispatched);
    assert_eq!(job.dispatched_at, Some(2_000));
    assert_eq!(job.message.as_deref(), Some("command dispatched"));
    assert!(job.completed_at.is_none());
}

#[test]
fn dispatch_twice_conflicts() {
    let mut store = store_with_job("job-1", "device-1", "fw.bin", "v2", 1_000);
    let first = store.mark_dispatched("job-1", 2_000).unwrap();
    assert_eq!(first.dispatched_at, Some(2_000));

    // The second dispatch conflicts and the stamp stands untouched.
    let second = store.mark_dispatched("job-1", 3_000);
    assert_eq!(second.unwrap_err(), DispatchError::AlreadyDispatched);
    let job = store.get("job-1").unwrap();
    assert_eq!(job.dispatched_at, Some(2_000));
    assert_eq!(job.status, JobStatus::Dispatched);
}

#[test]
fn dispatch_missing_job() {
    let mut store = JobStore::new();
    assert_eq!(
        store.mark_dispatched("nope", 1_000).unwrap_err(),
        DispatchError::NotFound
    );
}

#[test]
fn dispatch_terminal_job_is_refused() {
    let mut store = store_with_job("job-1", "device-1", "fw.bin", "v2", 1_000);
    store.mark_dispatched("job-1", 2_000).unwrap();
    match store.apply_report("job-1", JobStatus::Failed, None, "device-1", 3_000) {
        ReportOutcome::Applied(j) => assert_eq!(j.status, JobStatus::Failed),
        other => panic!("expected the report to apply, got {other:?}"),
    }
    assert_eq!(
        store.mark_dispatched("job-1", 4_000).unwrap_err(),
        DispatchError::AlreadyTerminal
    );
    assert_eq!(
        store
            .prepare_dispatch("job-1", BASE, PREFIX)
            .unwrap_err(),
        DispatchError::AlreadyTerminal
    );
}

#[test]
fn terminal_jobs_are_frozen() {
    let mut store = store_with_job("job-1", "device-1", "fw.bin", "v2", 1_000);
    store.mark_dispatched("job-1", 2_000).unwrap();
    match store.apply_report("job-1", JobStatus::Completed, None, "device-1", 3_000) {
        ReportOutcome::Applied(j) => {
            assert_eq!(j.status, JobStatus::Completed);
            assert_eq!(j.completed_at, Some(3_000));
        }
        other => panic!("expected the report to apply, got {other:?}"),
    }
    let before = store.get("job-1").unwrap();

    // A late report on a finished job is a no-op, not an error.
    match store.apply_report(
        "job-1",
        JobStatus::InProgress,
        Some("late".to_string()),
        "device-1",
        9_000,
    ) {
        ReportOutcome::Frozen => {}
        other => panic!("expected the job to be frozen, got {other:?}"),
    }
    let after = store.get("job-1").unwrap();
    assert_eq!(after.status, before.status);
    assert_eq!(after.dispatched_at, before.dispatched_at);
    assert_eq!(after.completed_at, before.completed_at);
    assert_eq!(after.message, before.message);
}

#[test]
fn prepare_dispatch_builds_topic_and_payload() {
    let store = store_with_job("job-1", "device-1", "fw.bin", "v2", 1_000);
    let cmd = store.prepare_dispatch("job-1", BASE, PREFIX).unwrap();
    assert_eq!(cmd.topic, "gaia/devices/device-1/ota");
    assert_eq!(
        cmd.payload,
        "{\"job_id\":\"job-1\",\"artifact_url\":\"http://mock-ota:8090/ota/artifacts/fw.bin\",\"version\":\"v2\"}"
    );
}

#[test]
fn report_mapping_drives_the_state_machine() {
    let mut store = store_with_job("job-1", "device-1", "fw.bin", "v2", 1_000);
    store.mark_dispatched("job-1", 2_000).unwrap();

    // `downloading` maps to `InProgress`.
    match handle_status_report(
        &mut store,
        PREFIX,
        "gaia/devices/device-1/ota/status",
        "job-1",
        "downloading",
        None,
        3_000,
    ) {
        ReconcileOutcome::Applied(j) => {
            assert_eq!(j.status, JobStatus::InProgress);
            assert_eq!(j.message.as_deref(), Some("reported by device-1"));
        }
        other => panic!("expected the report to apply, got {other:?}"),
    }

    // `success` maps to `Completed` and stamps `completed_at`.
    match handle_status_report(
        &mut store,
        PREFIX,
        "gaia/devices/device-1/ota/status",
        "job-1",
        "success",
        Some("done".to_string()),
        4_000,
    ) {
        ReconcileOutcome::Applied(j) => {
            assert_eq!(j.status, JobStatus::Completed);
            assert_eq!(j.completed_at, Some(4_000));
            assert_eq!(j.message.as_deref(), Some("done"));
        }
        other => panic!("expected the report to apply, got {other:?}"),
    }
}

#[test]
fn report_for_unknown_job_changes_nothing() {
    let mut store = store_with_job("job-1", "device-1", "fw.bin", "v2", 1_000);
    let before = store.get("job-1").unwrap();
    match handle_status_report(
        &mut store,
        PREFIX,
        "gaia/devices/device-1/ota/status",
        "job-9",
        "completed",
        None,
        3_000,
    ) {
        ReconcileOutcome::UnknownJob => {}
        other => panic!("expected the report to be dropped, got {other:?}"),
    }
    let after = store.get("job-1").unwrap();
    assert_eq!(after.status, before.status);
    assert!(store.get("job-9").is_none());
}

#[test]
fn report_on_bad_topic_is_dropped() {
    let mut store = store_with_job("job-1", "device-1", "fw.bin", "v2", 1_000);
    for topic in [
        "gaia/devices/device-1/ota",
        "gaia/devices/device-1/ota/status/extra",
        "gaia/devices//ota/status",
        "other/devices/device-1/ota/status",
        "gaia/devices/device-1/telemetry",
    ] {
        match handle_status_report(&mut store, PREFIX, topic, "job-1", "completed", None, 3_000) {
            ReconcileOutcome::BadTopic => {}
            other => panic!("expected {topic} to be refused, got {other:?}"),
        }
    }
    assert_eq!(store.get("job-1").unwrap().status, JobStatus::Created);
}

#[test]
fn unknown_status_word_is_a_liveness_signal() {
    let mut store = store_with_job("job-1", "device-1", "fw.bin", "v2", 1_000);
    store.mark_dispatched("job-1", 2_000).unwrap();
    match store.apply_report("job-1", JobStatus::InProgress, None, "device-1", 3_000) {
        ReportOutcome::Applied(j) => assert_eq!(j.status, JobStatus::InProgress),
        other => panic!("expected the report to apply, got {other:?}"),
    }
}

#[test]
fn failed_publish_leaves_the_job_untouched() {
    let mut store = store_with_job("job-1", "device-1", "fw.bin", "v2", 1_000);
    let r = store.settle_dispatch("job-1", false, 2_000);
    assert_eq!(r.unwrap_err(), DispatchError::PublishFailed);
    let job = store.get("job-1").unwrap();
    assert_eq!(job.status, JobStatus::Created);
    assert!(job.dispatched_at.is_none());

    // The caller may retry: the acknowledged publish then records it.
    let job = store.settle_dispatch("job-1", true, 3_000).unwrap();
    assert_eq!(job.status, JobStatus::Dispatched);
    assert_eq!(job.dispatched_at, Some(3_000));
}

#[test]
fn bus_loop_policy_never_stops() {
    assert!(matches!(
        next_bus_action(&BusEvent::Message),
        BusAction::HandleMessage
    ));
    assert!(matches!(
        next_bus_action(&BusEvent::Connected),
        BusAction::Resubscribe
    ));
    assert!(matches!(
        next_bus_action(&BusEvent::OtherIncoming),
        BusAction::Ignore
    ));
    assert!(matches!(next_bus_action(&BusEvent::Outgoing), BusAction::Ignore));
    match next_bus_action(&BusEvent::ConnectionError) {
        BusAction::Backoff(ms) => assert_eq!(ms, RETRY_BACKOFF_MILLIS),
        _ => panic!("a transport error must back off, never stop"),
    }
}

#[test]
fn error_status_codes() {
    assert_eq!(DispatchError::NotFound.status_code(), 404);
    assert_eq!(DispatchError::AlreadyDispatched.status_code(), 409);
    assert_eq!(DispatchError::AlreadyTerminal.status_code(), 409);
    assert_eq!(DispatchError::PublishFailed.status_code(), 502);
}

#[test]
fn full_lifecycle_end_to_end() {
    let mut store = JobStore::new();
    let job = store.create(
        "11111111-2222-3333-4444-555555555555".to_string(),
        "device-1",
        "fw.bin".to_string(),
        "v2".to_string(),
        1_000,
    );

    // Dispatch: the command goes out on the device's topic, carrying
    // the job identifier and an artifact URL ending in the route.
    let cmd = store.prepare_dispatch(&job.id, BASE, PREFIX).unwrap();
    assert_eq!(cmd.topic, "gaia/devices/device-1/ota");
    assert!(cmd.payload.contains(&job.id));
    assert!(cmd.payload.contains("/ota/artifacts/fw.bin\""));
    let dispatched = store.mark_dispatched(&job.id, 2_000).unwrap();
    assert_eq!(dispatched.status, JobStatus::Dispatched);

    // The device reports completion on its status topic.
    match handle_status_report(
        &mut store,
        PREFIX,
        "gaia/devices/device-1/ota/status",
        &job.id,
        "completed",
        None,
        5_000,
    ) {
        ReconcileOutcome::Applied(j) => assert_eq!(j.status, JobStatus::Completed),
        other => panic!("expected the report to apply, got {other:?}"),
    }

    let done = store.get(&job.id).unwrap();
    assert_eq!(done.status, JobStatus::Completed);
    let dispatched_at = done.dispatched_at.unwrap();
    let completed_at = done.completed_at.unwrap();
    assert_eq!(dispatched_at, 2_000);
    assert_eq!(completed_at, 5_000);
    assert!(dispatched_at <= completed_at);
}
