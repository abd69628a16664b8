use unifi_protect_archive::cli::{
    camera_line, daemon, daemon_start, init_config, parse_range, parse_timestamp_ms, CliError, DaemonEvent,
    DaemonStage,
};
use unifi_protect_archive::protect::Camera;

#[test]
fn parse_range_requires_both_bounds() {
    let error = parse_range(Some("2026-06-30T09:00:00Z".to_string()), None).unwrap_err();
    assert!(error.to_string().contains("--start and --end"));
}

#[test]
fn parse_range_accepts_rfc3339_with_timezone() {
    let range = parse_range(
        Some("2026-06-30T09:00:00Z".to_string()),
        Some("2026-06-30T10:00:00+01:00".to_string()),
    )
    .unwrap()
    .unwrap();

    assert_eq!(range.start_ms, range.end_ms);
}

#[test]
fn no_bounds_are_no_range() {
    assert!(parse_range(None, None).unwrap().is_none());
    assert!(matches!(
        parse_range(None, Some("2026-06-30T09:00:00Z".to_string())),
        Err(CliError::OneBound)
    ));
}

#[test]
fn the_first_bound_that_is_no_timestamp_is_named() {
    let good = || Some("2026-06-30T09:00:00Z".to_string());
    let bad = || Some("2026-06-30T09:00:00".to_string());
    assert_eq!(
        parse_range(bad(), bad()).unwrap_err().to_string(),
        "failed to parse --start; use RFC 3339 with a timezone"
    );
    assert_eq!(
        parse_range(good(), bad()).unwrap_err().to_string(),
        "failed to parse --end; use RFC 3339 with a timezone"
    );
    let error = parse_range(good(), bad()).unwrap_err();
    assert_eq!(
        error.cause().as_deref(),
        Some("the 'offset hour' component could not be parsed")
    );
    assert_eq!(CliError::OneBound.cause(), None);
}

#[test]
fn timestamps_are_read_to_the_millisecond() {
    let ms = |text| parse_timestamp_ms(text, "start").unwrap();
    assert_eq!(ms("1970-01-01T00:00:00Z"), 0);
    assert_eq!(ms("1970-01-01T00:00:01.2345Z"), 1234);
    assert_eq!(ms("1969-12-31T23:59:59.250Z"), -750);
    assert_eq!(ms("2026-06-30T13:38:27Z"), 1_782_826_707_000);
    assert_eq!(ms("2026-06-30T14:38:27+01:00"), 1_782_826_707_000);
    assert_eq!(ms("9999-12-31T23:59:59.999-23:59"), 253_402_387_139_999);
    assert_eq!(ms("0000-01-01T00:00:00+23:59"), -62_167_305_540_000);
}

#[test]
fn timestamps_of_one_instant_are_read_alike() {
    let ms = |text| parse_timestamp_ms(text, "start").unwrap();
    for text in [
        "1969-12-31T23:59:59.500Z",
        "1969-12-31t23:59:59.5z",
        "1970-01-01 00:59:59.50+01:00",
        "1969-12-31T23:29:59.5009-00:30",
        "1970-01-01_23:58:59.500999999999999+23:59",
    ] {
        assert_eq!(ms(text), -500);
    }
    assert_eq!(ms("2016-12-31T23:59:60Z"), 1_483_228_799_999);
}

#[test]
fn other_texts_are_no_timestamps() {
    for text in [
        "2026-06-30T09:00:00",
        "2026-06-30T09:00:00.5",
        "2026-06-30T09:00:00.Z",
        "2026-06-30T09:00:00+24:00",
        "2026-06-30T09:00:00+01:60",
        "2026-06-30T09:00:00+0100",
        "2026-06-30\u{e4}09:00:00Z",
        "2026-06-31T09:00:00Z",
        "2026-06-30T24:00:00Z",
        "2026-06-30T09:00:00Z ",
        "02026-06-30T09:00:00Z",
        "-026-06-30T09:00:00Z",
        "2016-12-31T23:58:60Z",
    ] {
        let error = parse_timestamp_ms(text, "end").unwrap_err();
        assert!(error.to_string().contains("failed to parse --end"));
    }
}

#[test]
fn a_sample_does_not_overwrite_a_file() {
    assert_eq!(
        init_config("a.toml", true, false).unwrap_err().to_string(),
        "a.toml already exists; pass --force to overwrite it"
    );
    assert!(!init_config("a.toml", true, true).unwrap().verify_tls);
    assert!(!init_config("a.toml", false, false).unwrap().verify_tls);
}

#[test]
fn a_camera_is_printed_on_one_line() {
    let camera = Camera {
        id: "1".to_string(),
        name: "Front".to_string(),
        is_connected: Some(true),
        is_recording: None,
    };
    assert_eq!(camera_line(&camera), "1\tFront\tconnected=true\trecording=unknown");
    let camera = Camera {
        is_connected: None,
        is_recording: Some(false),
        ..camera
    };
    assert_eq!(camera_line(&camera), "1\tFront\tconnected=unknown\trecording=false");
}

#[test]
fn the_daemon_reloads_and_waits() {
    let loaded = |poll_seconds| DaemonEvent::Loaded { poll_seconds };
    assert_eq!(daemon_start(), DaemonStage::Load);
    let pass = daemon(daemon_start(), loaded(10));
    assert_eq!(pass, DaemonStage::Pass);
    let reload = daemon(pass, DaemonEvent::PassEnded { succeeded: true });
    assert_eq!(reload, DaemonStage::Reload);
    let failed = daemon(pass, DaemonEvent::PassEnded { succeeded: false });
    assert_eq!(failed, DaemonStage::Reload);
    let wait = daemon(reload, loaded(20));
    assert_eq!(wait, DaemonStage::Wait { seconds: 20 });
    assert_eq!(daemon(wait, DaemonEvent::Waited), DaemonStage::Load);
    assert_eq!(daemon(wait, DaemonEvent::Interrupted), DaemonStage::Finished);
    assert_eq!(daemon(DaemonStage::Load, DaemonEvent::NotLoaded), DaemonStage::Failed);
    assert_eq!(daemon(reload, DaemonEvent::NotLoaded), DaemonStage::Failed);
}
