use time::OffsetDateTime;
use unifi_protect_archive::archiver::{
    api_key, archive_filename, archive_range, archive_range_at, archive_request,
    authenticated_client, camera_filters, default_archive_range, lookback_range_at, next_segment, selected_cameras,
    validate_config, ArchiveOptions, ArchiveRange, NextSegment, DELETE_CONFIRMATION,
};
use unifi_protect_archive::config::{AuthMethod, Config};
use unifi_protect_archive::error::ArchiveError;
use unifi_protect_archive::protect::Camera;

fn camera(id: &str, name: &str) -> Camera {
    Camera {
        id: id.to_string(),
        name: name.to_string(),
        is_connected: Some(true),
        is_recording: Some(true),
    }
}

fn config() -> Config {
    Config::default()
}

fn options() -> ArchiveOptions {
    ArchiveOptions::default()
}

#[test]
fn validate_config_accepts_defaults() {
    validate_config(&config(), &options()).unwrap();
}

#[test]
fn validate_config_rejects_zero_segment_length() {
    let config = Config {
        segment_seconds: 0,
        ..config()
    };

    let error = validate_config(&config, &options()).unwrap_err();

    assert!(error.to_string().contains("segment_seconds"));
}

#[test]
fn validate_config_requires_nas_host_and_shared_drive() {
    let missing_host = Config {
        archive_host: String::new(),
        ..config()
    };
    let missing_share = Config {
        archive_shared_drive: String::new(),
        ..config()
    };

    assert!(validate_config(&missing_host, &options())
        .unwrap_err()
        .to_string()
        .contains("archive_host"));
    assert!(validate_config(&missing_share, &options())
        .unwrap_err()
        .to_string()
        .contains("archive_shared_drive"));
}

#[test]
fn validate_config_rejects_empty_archive_destination() {
    let config = Config {
        archive_destination: "  ".to_string(),
        ..config()
    };

    let error = validate_config(&config, &options()).unwrap_err();

    assert!(error.to_string().contains("archive_destination"));
}

#[test]
fn validate_config_rejects_reversed_range() {
    let options = ArchiveOptions {
        range: Some(ArchiveRange {
            start_ms: 2000,
            end_ms: 1000,
        }),
        ..options()
    };

    let error = validate_config(&config(), &options).unwrap_err();

    assert!(error.to_string().contains("start must be before end"));
}

#[test]
fn validate_config_requires_completion_wait_before_delete() {
    let config = Config {
        wait_for_archive_completion: false,
        ..config()
    };
    let options = ArchiveOptions {
        delete_after_archive: true,
        confirm_delete_after_archive: true,
        ..options()
    };

    let error = validate_config(&config, &options).unwrap_err();

    assert!(error.to_string().contains("wait_for_archive_completion"));
}

#[test]
fn validate_config_requires_delete_confirmation() {
    let options = ArchiveOptions {
        delete_after_archive: true,
        ..options()
    };

    let error = validate_config(&config(), &options).unwrap_err();

    assert!(error.to_string().contains("destructive"));
}

#[test]
fn validate_config_accepts_cli_delete_confirmation() {
    let options = ArchiveOptions {
        delete_after_archive: true,
        confirm_delete_after_archive: true,
        ..options()
    };

    validate_config(&config(), &options).unwrap();
}

#[test]
fn validate_config_accepts_config_delete_confirmation() {
    let config = Config {
        delete_after_archive: true,
        delete_after_archive_confirmation: DELETE_CONFIRMATION.to_string(),
        ..config()
    };

    validate_config(&config, &options()).unwrap();
}

#[test]
fn selected_cameras_returns_all_when_no_filter_is_configured() {
    let cameras = vec![camera("1", "Front"), camera("2", "Back")];

    let selected = selected_cameras(cameras, &[]).unwrap();

    assert_eq!(selected.len(), 2);
}

#[test]
fn selected_cameras_matches_by_id_or_name() {
    let cameras = vec![camera("1", "Front"), camera("2", "Back")];
    let requested = vec!["1".to_string(), "Back".to_string()];

    let selected = selected_cameras(cameras, &requested).unwrap();

    assert_eq!(
        selected
            .iter()
            .map(|camera| camera.id.as_str())
            .collect::<Vec<_>>(),
        vec!["1", "2"]
    );
}

#[test]
fn selected_cameras_errors_when_nothing_matches() {
    let cameras = vec![camera("1", "Front")];
    let requested = vec!["Missing".to_string()];

    let error = selected_cameras(cameras, &requested).unwrap_err();

    assert!(error.to_string().contains("none of the configured"));
}

#[test]
fn archive_request_builds_provider_payload() {
    let camera = camera("camera-1", "Front/Door:Cam");

    let request = archive_request(&config(), &camera, 0, 1000).unwrap();

    assert_eq!(request.start, 0);
    assert_eq!(request.end, 1000);
    assert_eq!(request.camera_id, "camera-1");
    assert_eq!(request.destination, "NAS");
    assert_eq!(request.host, "nas.example.invalid");
    assert_eq!(request.shared_drive, "ProtectArchive");
    assert_eq!(
        request.filename,
        "Front_Door_Cam 1970-01-01T00-00-00Z - 1970-01-01T00-00-01Z.mp4"
    );
}

#[test]
fn default_archive_range_uses_lookback_and_minimum_age() {
    let config = Config {
        lookback_seconds: 60,
        minimum_age_seconds: 30,
        ..config()
    };

    let before = OffsetDateTime::now_utc().unix_timestamp() * 1000;
    let range = default_archive_range(&config).unwrap();
    let after = OffsetDateTime::now_utc().unix_timestamp() * 1000;

    assert_eq!(range.end_ms - range.start_ms, 60_000);
    assert!(range.end_ms <= after - 30_000);
    assert!(range.end_ms >= before - 31_000);
}

#[test]
fn each_refusal_has_its_error() {
    let not_nas = Config {
        archive_destination: "LOCAL".to_string(),
        archive_host: String::new(),
        archive_shared_drive: String::new(),
        ..config()
    };
    assert!(validate_config(&not_nas, &options()).is_ok());

    let blank_host = Config {
        archive_host: "\t\u{3000}".to_string(),
        ..config()
    };
    assert!(matches!(
        validate_config(&blank_host, &options()),
        Err(ArchiveError::MissingHost)
    ));

    let empty_range = ArchiveOptions {
        range: Some(ArchiveRange {
            start_ms: 1000,
            end_ms: 1000,
        }),
        ..options()
    };
    assert!(matches!(
        validate_config(&config(), &empty_range),
        Err(ArchiveError::ReversedRange)
    ));

    let everything_wrong = Config {
        segment_seconds: 0,
        archive_destination: String::new(),
        ..config()
    };
    assert!(matches!(
        validate_config(&everything_wrong, &empty_range),
        Err(ArchiveError::ZeroSegment)
    ));
    assert_eq!(
        ArchiveError::DeleteUnconfirmed.to_string(),
        "delete_after_archive is destructive; pass --i-understand-this-deletes-protect-footage \
         for run-once or set delete_after_archive_confirmation = \
         \"DELETE_PROTECT_FOOTAGE_AFTER_ARCHIVE\" in local config"
    );
}

#[test]
fn the_confirmation_has_to_be_exact() {
    let padded = Config {
        delete_after_archive: true,
        delete_after_archive_confirmation: format!(" {DELETE_CONFIRMATION}"),
        ..config()
    };
    assert!(matches!(
        validate_config(&padded, &options()),
        Err(ArchiveError::DeleteUnconfirmed)
    ));
}

#[test]
fn deletion_is_off_by_default() {
    let config = config();
    assert!(!config.delete_after_archive);
    assert!(config.wait_for_archive_completion);
    assert!(config.delete_after_archive_confirmation.is_empty());
    assert!(!options().delete_after_archive);
    assert!(!options().confirm_delete_after_archive);
}

#[test]
fn the_sample_differs_from_the_defaults_in_tls() {
    let sample = Config::sample();
    assert_eq!(sample.controller, "https://unifi-console.example.invalid");
    assert_eq!(sample.auth_method, AuthMethod::Auto);
    assert!(!sample.verify_tls);
    assert!(!sample.delete_after_archive);
    assert_eq!(sample.segment_seconds, 900);
    assert_eq!(sample.lookback_seconds, 3600);
    assert_eq!(sample.minimum_age_seconds, 120);
    assert_eq!(sample.poll_seconds, 300);
    assert_eq!(sample.archive_status_poll_seconds, 15);
    assert!(config().verify_tls);
}

#[test]
fn filters_of_the_options_come_first() {
    let config = Config {
        camera_ids: vec!["from-config".to_string()],
        ..config()
    };
    assert_eq!(camera_filters(&config, &options()), ["from-config".to_string()]);
    let options = ArchiveOptions {
        camera_filters: vec!["from-options".to_string()],
        ..options()
    };
    assert_eq!(camera_filters(&config, &options), ["from-options".to_string()]);
}

#[test]
fn the_password_method_takes_no_api_key() {
    let key = || Some("key".to_string());
    let with = |auth_method| Config {
        auth_method,
        ..config()
    };
    assert_eq!(api_key(&with(AuthMethod::Auto), key()), key());
    assert_eq!(api_key(&with(AuthMethod::ApiKey), key()), key());
    assert_eq!(api_key(&with(AuthMethod::Password), key()), None);
    assert_eq!(api_key(&with(AuthMethod::Auto), Some(" \n".to_string())), None);
    assert_eq!(api_key(&with(AuthMethod::Auto), None), None);
}

#[test]
fn a_client_without_a_key_has_to_log_in() {
    let (client, login) = authenticated_client(&config(), Some("key".to_string())).unwrap();
    assert!(client.uses_api_key());
    assert!(!login);

    let (client, login) = authenticated_client(&config(), None).unwrap();
    assert!(!client.uses_api_key());
    assert!(login);

    let password = Config {
        auth_method: AuthMethod::Password,
        verify_tls: false,
        ..config()
    };
    let (client, login) = authenticated_client(&password, Some("key".to_string())).unwrap();
    assert!(!client.uses_api_key());
    assert!(client.accept_invalid_certs);
    assert!(login);
}

#[test]
fn credentials_name_the_missing_variable() {
    let name = || Ok("service".to_string());
    let missing = || Err("environment variable not found".to_string());
    let credentials = config().credentials(name(), Ok("word".to_string())).unwrap();
    assert_eq!(credentials.username, "service");
    assert_eq!(credentials.password, "word");
    assert_eq!(
        config().credentials(missing(), Err("x".to_string())).unwrap_err().to_string(),
        "set $UNIFI_PROTECT_API_KEY or $UNIFI_PROTECT_USERNAME"
    );
    let error = config().credentials(name(), missing()).unwrap_err();
    assert_eq!(
        error.to_string(),
        "set $UNIFI_PROTECT_API_KEY or $UNIFI_PROTECT_PASSWORD"
    );
    assert_eq!(error.cause().as_deref(), Some("environment variable not found"));
}

#[test]
fn lookback_range_is_exact() {
    let range = lookback_range_at(&config(), 1_000_000).unwrap();
    assert_eq!(range.end_ms, (1_000_000 - 120) * 1000);
    assert_eq!(range.start_ms, (1_000_000 - 120 - 3600) * 1000);
}

#[test]
fn lookback_range_handles_extreme_settings() {
    let long = Config {
        lookback_seconds: i64::MAX as u64 / 1000,
        ..config()
    };
    let range = lookback_range_at(&long, -200_000_000_000).unwrap();
    assert_eq!(range.end_ms, -200_000_000_120_000);
    assert_eq!(range.start_ms, i64::MIN);

    let too_long = Config {
        lookback_seconds: u64::MAX,
        ..config()
    };
    assert!(lookback_range_at(&too_long, 0).is_none());

    let too_old = Config {
        minimum_age_seconds: i64::MAX as u64,
        ..config()
    };
    assert!(lookback_range_at(&too_old, 0).is_none());

    let older = Config {
        minimum_age_seconds: u64::MAX,
        lookback_seconds: 0,
        ..config()
    };
    assert!(lookback_range_at(&older, 0).is_none());

    let longer = Config {
        lookback_seconds: i64::MAX as u64 / 1000 + 1,
        ..config()
    };
    assert!(lookback_range_at(&longer, 0).is_none());
}

#[test]
fn a_requested_range_is_taken_as_it_is() {
    let options = ArchiveOptions {
        range: Some(ArchiveRange {
            start_ms: 1,
            end_ms: 2,
        }),
        ..options()
    };
    let range = archive_range(&config(), &options).unwrap();
    assert_eq!((range.start_ms, range.end_ms), (1, 2));
    let range = archive_range_at(&config(), &options, 1_000_000).unwrap();
    assert_eq!((range.start_ms, range.end_ms), (1, 2));
    let range = archive_range_at(&config(), &ArchiveOptions::default(), 1_000_000).unwrap();
    assert_eq!((range.start_ms, range.end_ms), (996_280_000, 999_880_000));
}

#[test]
fn file_names_hold_no_unsafe_character() {
    let name = archive_filename(&camera("1", "<a>:\"b\"/\\|?*"), 1_751_290_707_999, 0).unwrap();
    assert_eq!(
        name,
        "_a___b______ 2025-06-30T13-38-27Z - 1970-01-01T00-00-00Z.mp4"
    );
}

#[test]
fn file_names_need_a_writable_time() {
    let camera = camera("1", "Front");
    assert!(matches!(
        archive_filename(&camera, i64::MIN, 0),
        Err(ArchiveError::ConvertTimestamp { .. })
    ));
    assert!(matches!(
        archive_filename(&camera, -62_167_219_201_000, 0),
        Err(ArchiveError::FormatTimestamp { .. })
    ));
    assert_eq!(
        archive_filename(&camera, -62_167_219_200_999, 253_402_300_799_999).unwrap(),
        "Front 0000-01-01T00-00-00Z - 9999-12-31T23-59-59Z.mp4"
    );
    assert!(matches!(
        archive_filename(&camera, 0, 253_402_300_800_000),
        Err(ArchiveError::ConvertTimestamp { .. })
    ));
    assert_eq!(
        archive_filename(&camera, -999, -1000).unwrap(),
        "Front 1970-01-01T00-00-00Z - 1969-12-31T23-59-59Z.mp4"
    );
    assert!(matches!(
        archive_filename(&camera, -377_705_116_800_999, 0),
        Err(ArchiveError::FormatTimestamp { .. })
    ));
    assert!(matches!(
        archive_filename(&camera, -377_705_116_801_000, 0),
        Err(ArchiveError::ConvertTimestamp { .. })
    ));
}

#[test]
fn unwritable_times_tell_their_cause() {
    let camera = camera("1", "Front");
    let error = archive_filename(&camera, i64::MIN, 0).unwrap_err();
    assert_eq!(error.to_string(), "failed to convert timestamp");
    assert_eq!(error.cause().as_deref(), Some("timestamp was not in range"));
    let error = archive_filename(&camera, -62_167_219_201_000, 0).unwrap_err();
    assert_eq!(error.to_string(), "failed to format timestamp");
    assert_eq!(
        error.cause().as_deref(),
        Some("The year component cannot be formatted into the requested format.")
    );
    assert_eq!(ArchiveError::ZeroSegment.cause(), None);
}

fn auth_method_text(method: AuthMethod) -> &'static str {
    match method {
        AuthMethod::Auto => "auto",
        AuthMethod::ApiKey => "api-key",
        AuthMethod::Password => "password",
    }
}

fn render(config: &Config) -> String {
    let mut table = toml::Table::new();
    for (name, text) in [
        ("controller", config.controller.as_str()),
        ("auth_method", auth_method_text(config.auth_method)),
        (
            "delete_after_archive_confirmation",
            config.delete_after_archive_confirmation.as_str(),
        ),
    ] {
        table.insert(name.to_string(), toml::Value::String(text.to_string()));
    }
    for (name, flag) in [
        ("verify_tls", config.verify_tls),
        ("delete_after_archive", config.delete_after_archive),
    ] {
        table.insert(name.to_string(), toml::Value::Boolean(flag));
    }
    toml::to_string_pretty(&table).unwrap()
}

fn parse(text: &str) -> Config {
    let table = toml::from_str::<toml::Table>(text).unwrap();
    let text = |name: &str| table[name].as_str().unwrap().to_string();
    let flag = |name: &str| table[name].as_bool().unwrap();
    let auth_method = match text("auth_method").as_str() {
        "auto" => AuthMethod::Auto,
        "api-key" => AuthMethod::ApiKey,
        other => {
            assert_eq!(other, "password");
            AuthMethod::Password
        }
    };
    Config {
        controller: text("controller"),
        auth_method,
        delete_after_archive_confirmation: text("delete_after_archive_confirmation"),
        verify_tls: flag("verify_tls"),
        delete_after_archive: flag("delete_after_archive"),
        ..Config::default()
    }
}

#[test]
fn sample_config_round_trips() {
    let sample = render(&Config::sample());

    let config = parse(&sample);

    assert_eq!(config.controller, "https://unifi-console.example.invalid");
    assert_eq!(config.auth_method, AuthMethod::Auto);
    assert!(!config.verify_tls);
    assert!(!config.delete_after_archive);
    assert!(config.delete_after_archive_confirmation.is_empty());
}

#[test]
fn segments_end_with_the_range() {
    assert_eq!(next_segment(0, 10_000, 4), NextSegment::Until(4000));
    assert_eq!(next_segment(4000, 10_000, 4), NextSegment::Until(8000));
    assert_eq!(next_segment(8000, 10_000, 4), NextSegment::Until(10_000));
    assert_eq!(next_segment(10_000, 10_000, 4), NextSegment::Exhausted);
    assert_eq!(next_segment(9000, 10_000, 4), NextSegment::Exhausted);
    assert_eq!(next_segment(8999, 10_000, 4), NextSegment::Until(10_000));
    assert_eq!(next_segment(0, 1, u64::MAX), NextSegment::Overflow);
    assert_eq!(
        next_segment(0, 1000, 10_000_000_000_000_000),
        NextSegment::Exhausted
    );
    assert_eq!(
        next_segment(0, 60_000, 18_446_744_073_709_551),
        NextSegment::Overflow
    );
    assert_eq!(
        next_segment(0, 60_000, 9_223_372_036_854_775),
        NextSegment::Until(60_000)
    );
    assert_eq!(next_segment(i64::MAX - 999, i64::MAX, 1), NextSegment::Overflow);
    assert_eq!(
        next_segment(i64::MAX - 1001, i64::MAX, 900),
        NextSegment::Overflow
    );
}
