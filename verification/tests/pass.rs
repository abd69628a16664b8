use time::OffsetDateTime;
use unifi_protect_archive::archiver::{ArchiveOptions, ArchiveRange, ArchiveReport};
use unifi_protect_archive::config::Config;
use unifi_protect_archive::error::ArchiveError;
use unifi_protect_archive::pass::{
    archive_progress, run_once, run_once_with_options, wait_for_archive_completion, ArchivePass,
    ArchiveProgress, PassAction, PassEvent,
};
use unifi_protect_archive::protect::{ArchiveTask, Camera, PendingArchive};

fn camera(id: &str, connected: Option<bool>) -> Camera {
    Camera {
        id: id.to_string(),
        name: format!("Camera {id}"),
        is_connected: connected,
        is_recording: None,
    }
}

fn until(end_ms: i64) -> ArchiveOptions {
    ArchiveOptions {
        range: Some(ArchiveRange {
            start_ms: 0,
            end_ms,
        }),
        ..ArchiveOptions::default()
    }
}

fn deleting(end_ms: i64) -> ArchiveOptions {
    ArchiveOptions {
        delete_after_archive: true,
        confirm_delete_after_archive: true,
        ..until(end_ms)
    }
}

fn seconds(segment_seconds: u64) -> Config {
    Config {
        segment_seconds,
        ..Config::default()
    }
}

fn answered(id: Option<&str>) -> PassEvent {
    PassEvent::Submitted(ArchiveTask {
        file_id: id.map(|id| id.to_string()),
        filename: None,
    })
}

fn pending(entries: &[(&str, Option<&str>)]) -> Vec<PendingArchive> {
    entries
        .iter()
        .map(|(id, status)| PendingArchive {
            id: id.to_string(),
            status: status.map(|status| status.to_string()),
            filename: None,
        })
        .collect()
}

fn failed() -> PassEvent {
    PassEvent::Failed {
        message: "gone".to_string(),
    }
}

fn step(pass: &mut ArchivePass<'_>, event: PassEvent) -> PassAction {
    assert!(pass.expects(&event));
    pass.step(event)
}

fn submitted(action: PassAction) -> (String, i64, i64) {
    match action {
        PassAction::Submit(request) => (request.camera_id, request.start, request.end),
        other => panic!("no archive: {other:?}"),
    }
}

fn footage(id: &str, start_ms: i64, end_ms: i64) -> (String, i64, i64) {
    (id.to_string(), start_ms, end_ms)
}

fn report(action: PassAction) -> ArchiveReport {
    match action {
        PassAction::Finish(report) => report,
        other => panic!("no report: {other:?}"),
    }
}

fn error(action: PassAction) -> ArchiveError {
    match action {
        PassAction::Fail(error) => error,
        other => panic!("no error: {other:?}"),
    }
}

fn assert_waits(action: PassAction, expected: &str) {
    match action {
        PassAction::AwaitPending { file_id, seconds } => {
            assert_eq!((file_id.as_str(), seconds), (expected, 15));
        }
        other => panic!("no wait: {other:?}"),
    }
}

fn assert_deletes(action: PassAction, expected: (String, i64, i64)) {
    match action {
        PassAction::Delete {
            camera_id,
            start_ms,
            end_ms,
        } => assert_eq!((camera_id, start_ms, end_ms), expected),
        other => panic!("no deletion: {other:?}"),
    }
}

#[test]
fn archive_camera_skips_disconnected_cameras() {
    let config = Config::default();
    let (mut pass, first) = run_once_with_options(&config, until(60_000)).unwrap();
    assert!(matches!(first, PassAction::ListCameras));
    let offline = Camera {
        id: "1".to_string(),
        name: "Offline".to_string(),
        is_connected: Some(false),
        is_recording: Some(true),
    };

    let report = report(step(&mut pass, PassEvent::Cameras(vec![offline])));

    assert_eq!(report.camera_count, 1);
    assert_eq!(report.archive_count, 0);
    assert_eq!(report.delete_count, 0);
    assert_eq!(pass.cameras().len(), 1);
}

#[test]
fn a_pass_archives_the_range_that_it_is_asked_for() {
    let config = seconds(u32::MAX as u64);
    let options = ArchiveOptions {
        range: Some(ArchiveRange {
            start_ms: 5_000,
            end_ms: 65_000,
        }),
        ..ArchiveOptions::default()
    };
    let (mut pass, _) = run_once_with_options(&config, options.clone()).unwrap();
    let action = step(&mut pass, PassEvent::Cameras(vec![camera("1", None)]));
    assert_eq!(submitted(action), footage("1", 5_000, 65_000));

    let (mut pass, _) = run_once_with_options(&config, options).unwrap();
    let action = pass.step_at(PassEvent::Cameras(vec![camera("1", None)]), 1_000_000);
    assert_eq!(submitted(action), footage("1", 5_000, 65_000));
}

#[test]
fn a_pass_without_a_range_archives_the_lookback() {
    let config = seconds(7200);
    let (mut pass, _) = run_once(&config).unwrap();
    let action = pass.step_at(PassEvent::Cameras(vec![camera("1", None)]), 1_000_000);
    assert_eq!(submitted(action), footage("1", 996_280_000, 999_880_000));

    let before = OffsetDateTime::now_utc().unix_timestamp();
    let (mut pass, _) = run_once(&config).unwrap();
    let action = step(&mut pass, PassEvent::Cameras(vec![camera("1", None)]));
    let after = OffsetDateTime::now_utc().unix_timestamp();
    let (_, start_ms, end_ms) = submitted(action);
    assert_eq!(end_ms - start_ms, 3_600_000);
    assert!((before - 120) * 1000 <= end_ms && end_ms <= (after - 120) * 1000);

    let endless = Config {
        lookback_seconds: u64::MAX,
        ..seconds(60)
    };
    let (mut pass, _) = run_once(&endless).unwrap();
    assert!(matches!(
        error(step(&mut pass, PassEvent::Cameras(Vec::new()))),
        ArchiveError::LookbackOutOfRange
    ));
}

#[test]
fn a_refused_configuration_starts_no_pass() {
    assert!(matches!(
        run_once(&seconds(0)).err(),
        Some(ArchiveError::ZeroSegment)
    ));
}

#[test]
fn a_pass_archives_one_segment_after_the_other() {
    let config = seconds(4);
    let (mut pass, _) = run_once_with_options(&config, until(8500)).unwrap();
    let listed = vec![
        camera("1", Some(true)),
        camera("2", Some(false)),
        camera("3", None),
    ];
    let action = step(&mut pass, PassEvent::Cameras(listed));
    assert_eq!(submitted(action), footage("1", 0, 4000));

    assert_waits(step(&mut pass, answered(Some("a"))), "a");
    let still = PassEvent::Pending(pending(&[("z", Some("failed")), ("a", Some("uploading"))]));
    assert_waits(step(&mut pass, still), "a");
    let action = step(&mut pass, PassEvent::Pending(pending(&[("z", None)])));
    assert_eq!(submitted(action), footage("1", 4000, 8000));

    let action = step(&mut pass, answered(None));
    assert_eq!(submitted(action), footage("3", 0, 4000));
    let action = step(&mut pass, answered(None));
    assert_eq!(submitted(action), footage("3", 4000, 8000));
    let report = report(step(&mut pass, answered(None)));
    assert_eq!(report.camera_count, 3);
    assert_eq!(report.archive_count, 4);
    assert_eq!(report.delete_count, 0);
    assert!(!pass.expects(&answered(None)));
    assert!(!pass.expects(&failed()));
}

#[test]
fn a_pass_that_does_not_wait_goes_on_at_once() {
    let config = Config {
        wait_for_archive_completion: false,
        ..seconds(60)
    };
    let (mut pass, _) = run_once_with_options(&config, until(60_000)).unwrap();
    let action = step(&mut pass, PassEvent::Cameras(vec![camera("1", None)]));
    assert_eq!(submitted(action), footage("1", 0, 60_000));
    assert_eq!(report(step(&mut pass, answered(Some("a")))).archive_count, 1);
}

#[test]
fn footage_is_deleted_once_its_archive_is_no_longer_pending() {
    let config = seconds(4);
    let (mut pass, _) = run_once_with_options(&config, deleting(6000)).unwrap();
    let action = step(&mut pass, PassEvent::Cameras(vec![camera("1", Some(true))]));
    assert_eq!(submitted(action), footage("1", 0, 4000));
    assert_waits(step(&mut pass, answered(Some("a"))), "a");
    let action = step(&mut pass, PassEvent::Pending(Vec::new()));
    assert_deletes(action, footage("1", 0, 4000));
    let action = step(&mut pass, PassEvent::Deleted);
    assert_eq!(submitted(action), footage("1", 4000, 6000));
    assert_waits(step(&mut pass, answered(Some("b"))), "b");
    let action = step(&mut pass, PassEvent::Pending(pending(&[("a", None)])));
    assert_deletes(action, footage("1", 4000, 6000));
    let report = report(step(&mut pass, PassEvent::Deleted));
    assert_eq!(report.archive_count, 2);
    assert_eq!(report.delete_count, 2);
}

#[test]
fn an_archive_without_an_id_is_not_deleted() {
    let config = seconds(4);
    let (mut pass, _) = run_once_with_options(&config, deleting(6000)).unwrap();
    step(&mut pass, PassEvent::Cameras(vec![camera("1", Some(true))]));
    let error = error(step(&mut pass, answered(None)));
    assert_eq!(
        error.to_string(),
        "Protect archive response did not include a fileId; refusing to delete footage"
    );
    assert!(!pass.expects(&PassEvent::Deleted));
}

#[test]
fn a_failed_archive_ends_the_pass() {
    for (status, message) in [
        ("failed", "archive task a failed"),
        ("canceled", "archive task a was canceled"),
        ("canceledPending", "archive task a was canceled"),
    ] {
        let config = seconds(4);
        let (mut pass, _) = run_once_with_options(&config, deleting(6000)).unwrap();
        step(&mut pass, PassEvent::Cameras(vec![camera("1", Some(true))]));
        step(&mut pass, answered(Some("a")));
        let listed = PassEvent::Pending(pending(&[("a", Some(status)), ("a", None)]));
        assert_eq!(error(step(&mut pass, listed)).to_string(), message);
        assert!(!pass.expects(&PassEvent::Deleted));
    }
}

#[test]
fn a_failed_request_ends_the_pass() {
    let config = seconds(4);
    let (mut pass, _) = run_once(&config).unwrap();
    assert!(matches!(
        error(step(&mut pass, failed())),
        ArchiveError::RequestFailed { message } if message == "gone"
    ));

    let (mut pass, _) = run_once_with_options(&config, deleting(6000)).unwrap();
    step(&mut pass, PassEvent::Cameras(vec![camera("1", Some(true))]));
    step(&mut pass, answered(Some("a")));
    step(&mut pass, PassEvent::Pending(Vec::new()));
    let error = error(step(&mut pass, failed()));
    assert_eq!(
        error.to_string(),
        "failed to delete archived footage for Camera 1"
    );
    assert_eq!(error.cause().as_deref(), Some("gone"));
}

#[test]
fn a_pass_takes_the_cameras_it_is_asked_for() {
    let config = Config {
        camera_ids: vec!["3".to_string()],
        ..seconds(60)
    };
    let listed = || vec![camera("1", None), camera("3", None)];
    let (mut pass, _) = run_once_with_options(&config, until(60_000)).unwrap();
    let action = step(&mut pass, PassEvent::Cameras(listed()));
    assert_eq!(submitted(action), footage("3", 0, 60_000));

    let options = ArchiveOptions {
        camera_filters: vec!["Camera 1".to_string()],
        ..until(60_000)
    };
    let (mut pass, _) = run_once_with_options(&config, options).unwrap();
    let action = step(&mut pass, PassEvent::Cameras(listed()));
    assert_eq!(submitted(action), footage("1", 0, 60_000));

    let options = ArchiveOptions {
        camera_filters: vec!["5".to_string()],
        ..until(60_000)
    };
    let (mut pass, _) = run_once_with_options(&config, options).unwrap();
    assert!(matches!(
        error(step(&mut pass, PassEvent::Cameras(listed()))),
        ArchiveError::NoCameraMatched
    ));
}

#[test]
fn a_pass_stops_at_what_is_no_time() {
    for too_long in [u64::MAX, 18_446_744_073_709_551] {
        let config = seconds(too_long);
        let (mut pass, _) = run_once_with_options(&config, until(60_000)).unwrap();
        assert!(matches!(
            error(step(&mut pass, PassEvent::Cameras(vec![camera("1", None)]))),
            ArchiveError::Overflow
        ));
    }

    let config = seconds(60);
    let options = ArchiveOptions {
        range: Some(ArchiveRange {
            start_ms: i64::MIN,
            end_ms: 0,
        }),
        ..ArchiveOptions::default()
    };
    let (mut pass, _) = run_once_with_options(&config, options).unwrap();
    assert!(matches!(
        error(step(&mut pass, PassEvent::Cameras(vec![camera("1", None)]))),
        ArchiveError::ConvertTimestamp { timestamp_ms: i64::MIN }
    ));
}

#[test]
fn progress_is_that_of_the_first_entry() {
    let listed = pending(&[("b", None), ("a", Some("failed")), ("a", Some("canceled"))]);
    assert_eq!(archive_progress(&listed, "a"), ArchiveProgress::Failed);
    assert_eq!(archive_progress(&listed, "b"), ArchiveProgress::Pending);
    assert_eq!(archive_progress(&listed, "c"), ArchiveProgress::Left);
    let listed = pending(&[("a", Some("canceledPending"))]);
    assert_eq!(archive_progress(&listed, "a"), ArchiveProgress::Canceled);
    let listed = pending(&[("a", Some("Failed"))]);
    assert_eq!(archive_progress(&listed, "a"), ArchiveProgress::Pending);
}

#[test]
fn an_archive_is_followed_by_its_id() {
    let task = |id: Option<&str>| ArchiveTask {
        file_id: id.map(|id| id.to_string()),
        filename: None,
    };
    assert_eq!(
        wait_for_archive_completion(task(Some("a")), true).unwrap(),
        Some("a".to_string())
    );
    assert_eq!(wait_for_archive_completion(task(None), false).unwrap(), None);
    assert!(matches!(
        wait_for_archive_completion(task(None), true),
        Err(ArchiveError::MissingFileId)
    ));
}
