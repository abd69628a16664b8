use serde_json::Value;
use unifi_protect_archive::client::{
    classify_status, ensure_success, ApiRequest, ClientError, Header, Method, Operation,
    ProtectClient, StatusClass,
};
use unifi_protect_archive::config::Credentials;
use unifi_protect_archive::json::{redact_auth_body, redact_parsed};
use unifi_protect_archive::protect::{ArchiveVideoRequest, EventQuery};

fn client() -> ProtectClient {
    ProtectClient::new("https://unifi-console.example.invalid", true, None).unwrap()
}

fn credentials() -> Credentials {
    Credentials {
        username: "service".to_string(),
        password: "secret".to_string(),
    }
}

fn archive_video(fps: Option<u64>) -> ArchiveVideoRequest {
    ArchiveVideoRequest {
        start: 1,
        end: 2,
        filename: "clip.mp4".to_string(),
        lens: 0,
        destination: "NAS".to_string(),
        camera_id: "camera-1".to_string(),
        archive_type: "rotating".to_string(),
        channel: 0,
        fps,
        host: "nas.example.invalid".to_string(),
        shared_drive: "ProtectArchive".to_string(),
    }
}

fn header(name: &str, value: &str) -> Header {
    Header {
        name: name.to_string(),
        value: value.as_bytes().to_vec(),
    }
}

fn value_of(request: &ApiRequest, name: &str) -> Option<String> {
    request
        .headers
        .iter()
        .find(|header| header.name == name)
        .map(|header| String::from_utf8(header.value.clone()).unwrap())
}

fn response(operation: Operation, status: u16, body: &str) -> ClientError {
    client()
        .receive(operation, status, &vec![header("content-type", "application/json")], body)
        .unwrap_err()
}

#[test]
fn client_tracks_whether_api_key_was_configured() {
    let without_key =
        ProtectClient::new("https://unifi-console.example.invalid", true, None).unwrap();
    let with_key = ProtectClient::new(
        "https://unifi-console.example.invalid",
        true,
        Some("test-key".to_string()),
    )
    .unwrap();

    assert!(!without_key.uses_api_key());
    assert!(with_key.uses_api_key());
}

#[test]
fn client_rejects_invalid_controller_url() {
    let error = ProtectClient::new("not a url", true, None).unwrap_err();

    assert!(error.to_string().contains("controller URL is not valid"));
}

#[test]
fn client_rejects_api_keys_that_are_invalid_header_values() {
    let error = ProtectClient::new(
        "https://unifi-console.example.invalid",
        true,
        Some("bad\nkey".to_string()),
    )
    .unwrap_err();

    assert!(error
        .to_string()
        .contains("API key contains invalid header bytes"));
}

#[test]
fn client_builds_protect_urls_from_controller_base() {
    let client = ProtectClient::new("https://unifi-console.example.invalid", true, None).unwrap();

    let url = client.url("/proxy/protect/api/bootstrap").unwrap();

    assert_eq!(
        url.as_str(),
        "https://unifi-console.example.invalid/proxy/protect/api/bootstrap"
    );
}

#[test]
fn client_reports_permission_errors_without_parsing_body() {
    let error = response(Operation::Bootstrap, 403, r#"{"error":"forbidden"}"#);

    assert!(error.to_string().contains("rejected by Protect"));
}

#[test]
fn login_reports_mfa_requirement() {
    let error = response(Operation::Login, 500, r#"{"error":"MFA_AUTH_REQUIRED"}"#);

    assert!(error.to_string().contains("login requires MFA/SSO"));
}

#[test]
fn login_redacts_failed_auth_response_body() {
    let body = r#"{"meta":{"rc":"error"},"data":{"token":"secret"}}"#;

    let message = response(Operation::Login, 500, body).to_string();

    assert!(message.contains("login failed with HTTP 500"));
    assert!(!message.contains("secret"));
}

#[test]
fn non_auth_errors_include_response_body() {
    let error = response(
        Operation::FetchPendingArchives,
        502,
        r#"{"error":"bad gateway"}"#,
    );

    assert!(error.to_string().contains("HTTP 502 Bad Gateway"));
    assert!(error.to_string().contains("bad gateway"));
}

#[test]
fn empty_error_body_reports_status_only() {
    let error = response(Operation::FetchPendingArchives, 500, "");

    assert_eq!(
        error.to_string(),
        "fetch pending video archives failed with HTTP 500 Internal Server Error"
    );
}

#[test]
fn archive_video_request_uses_protect_field_names() {
    let json: Value = serde_json::from_str(&archive_video(None).to_json()).unwrap();

    assert_eq!(json["cameraId"], "camera-1");
    assert_eq!(json["sharedDrive"], "ProtectArchive");
    assert_eq!(json["type"], "rotating");
    assert!(json.get("fps").is_none());
}

#[test]
fn archive_video_request_serializes_optional_fps_when_present() {
    let json: Value = serde_json::from_str(&archive_video(Some(15)).to_json()).unwrap();

    assert_eq!(json["fps"], 15);
}

#[test]
fn redact_auth_body_removes_sensitive_data_field() {
    let redacted = redact_auth_body(r#"{"meta":{"rc":"error"},"data":{"token":"secret"}}"#);

    assert_eq!(redacted, r#"{"meta":{"rc":"error"}}"#);
}

#[test]
fn redact_auth_body_handles_non_json() {
    assert_eq!(redact_auth_body("not json"), "<redacted auth response>");
}

#[test]
fn redaction_keeps_the_other_members() {
    assert_eq!(redact_auth_body("[ 1, \"data\" ]"), "[1,\"data\"]");
    assert_eq!(
        redact_auth_body(" { \"b\\n\" : [1, 2.5], \"a\": null } "),
        "{\"a\":null,\"b\\n\":[1,2.5]}"
    );
    assert_eq!(redact_auth_body("{\"data\":1}"), "{}");
    assert_eq!(redact_auth_body("{\"data \":{\"data\":1}}"), "{\"data \":{\"data\":1}}");
    assert_eq!(redact_parsed(None), "<redacted auth response>");
    assert_eq!(redact_parsed(Some(("7".to_string(), None))), "7");
}

#[test]
fn requests_are_built_as_the_console_expects_them() {
    let mut client = client();
    let base = "https://unifi-console.example.invalid";

    let login = client.login(&credentials()).unwrap();
    assert_eq!(login.operation, Operation::Login);
    assert_eq!(login.method, Method::Post);
    assert_eq!(login.url, format!("{base}/api/auth/login"));
    assert_eq!(
        login.body.as_deref(),
        Some(r#"{"password":"secret","rememberMe":true,"username":"service"}"#)
    );
    assert_eq!(value_of(&login, "accept").as_deref(), Some("application/json"));
    assert_eq!(
        value_of(&login, "content-type").as_deref(),
        Some("application/json")
    );
    client
        .receive(
            Operation::Login,
            200,
            &vec![header("x-csrf-token", "login-token")],
            "{}",
        )
        .unwrap();

    let cameras = client.cameras().unwrap();
    assert_eq!(cameras.method, Method::Get);
    assert_eq!(cameras.url, format!("{base}/proxy/protect/api/bootstrap"));
    assert_eq!(cameras.body, None);
    assert_eq!(value_of(&cameras, "x-csrf-token"), None);
    assert_eq!(value_of(&cameras, "content-type"), None);

    let archive = client.archive_video_to_provider(&archive_video(None)).unwrap();
    assert_eq!(archive.method, Method::Post);
    assert_eq!(
        archive.url,
        format!("{base}/proxy/protect/api/cloud-provider/video-archive")
    );
    assert_eq!(
        value_of(&archive, "x-csrf-token").as_deref(),
        Some("login-token")
    );
    assert_eq!(
        archive.body.as_deref(),
        Some(
            "{\"start\":1,\"end\":2,\"filename\":\"clip.mp4\",\"lens\":0,\"destination\":\"NAS\",\
             \"cameraId\":\"camera-1\",\"type\":\"rotating\",\"channel\":0,\
             \"host\":\"nas.example.invalid\",\"sharedDrive\":\"ProtectArchive\"}"
        )
    );
    client
        .receive(
            Operation::VideoArchive,
            200,
            &vec![header("x-updated-csrf-token", "archive-token")],
            "{}",
        )
        .unwrap();

    let deletion = client.delete_video_range("camera-1", 1000, 2000).unwrap();
    assert_eq!(deletion.method, Method::Delete);
    assert_eq!(
        deletion.url,
        format!("{base}/proxy/protect/api/video?camera=camera-1&start=1000&end=2000")
    );
    assert_eq!(
        value_of(&deletion, "x-csrf-token").as_deref(),
        Some("archive-token")
    );
    client
        .receive(Operation::DeleteVideoRange, 204, &Vec::new(), "")
        .unwrap();

    let pending = client.pending_archives().unwrap();
    assert_eq!(pending.method, Method::Get);
    assert_eq!(
        pending.url,
        format!("{base}/proxy/protect/api/video-archive/fetch-pending")
    );

    let events = client
        .events(&EventQuery {
            start_ms: 1000,
            end_ms: 2000,
            camera_ids: vec!["camera-1".to_string(), "camera-2".to_string()],
            event_types: vec!["motion".to_string()],
            smart_detect_types: vec!["person".to_string()],
            limit: 50,
            offset: 10,
        })
        .unwrap();
    assert_eq!(events.method, Method::Get);
    assert_eq!(
        events.url,
        format!(
            "{base}/proxy/protect/api/events?start=1000&end=2000&limit=50&offset=10\
             &orderDirection=ASC&withoutDescriptions=true&cameras=camera-1&cameras=camera-2\
             &types=motion&smartDetectTypes=person"
        )
    );
}

#[test]
fn a_refused_client_tells_its_cause() {
    let error = ProtectClient::new("not a url", true, None).unwrap_err();
    assert_eq!(error.to_string(), "controller URL is not valid: not a url");
    assert_eq!(
        error.cause().as_deref(),
        Some("relative URL without a base")
    );
    let key = Some("bad\nkey".to_string());
    let error = ProtectClient::new("https://a.invalid", true, key).unwrap_err();
    assert_eq!(error.cause().as_deref(), Some("failed to parse header value"));
    assert_eq!(ClientError::MfaRequired.cause(), None);
}

#[test]
fn queries_are_escaped() {
    let deletion = client()
        .delete_video_range("a b&c=\u{e4}/*-._~", i64::MIN, -1)
        .unwrap();
    assert_eq!(
        deletion.url,
        "https://unifi-console.example.invalid/proxy/protect/api/video\
         ?camera=a+b%26c%3D%C3%A4%2F*-._%7E&start=-9223372036854775808&end=-1"
    );
}

#[test]
fn texts_are_quoted_as_json() {
    let login = client()
        .login(&Credentials {
            username: "a\"b\\c\u{1}\u{1f}\u{8}\u{c}\n\r\t".to_string(),
            password: "\u{7f}\u{2028}/".to_string(),
        })
        .unwrap();
    assert_eq!(
        login.body.as_deref(),
        Some(
            "{\"password\":\"\u{7f}\u{2028}/\",\"rememberMe\":true,\
             \"username\":\"a\\\"b\\\\c\\u0001\\u001f\\b\\f\\n\\r\\t\"}"
        )
    );
}

#[test]
fn paths_replace_that_of_the_console() {
    let client =
        ProtectClient::new("https://console.example.invalid/a/b?c=d#e", true, None).unwrap();
    assert_eq!(
        client.cameras().unwrap().url,
        "https://console.example.invalid/proxy/protect/api/bootstrap"
    );

    let client = ProtectClient::new("mailto:a@example.invalid", true, None).unwrap();
    assert!(matches!(
        client.cameras(),
        Err(ClientError::InvalidPath { .. })
    ));
    assert!(client
        .cameras()
        .unwrap_err()
        .to_string()
        .starts_with("failed to build Protect URL /proxy/protect/api/bootstrap: "));
}

#[test]
fn the_api_key_goes_with_every_request() {
    let client = ProtectClient::new(
        "https://unifi-console.example.invalid",
        false,
        Some("k\u{e4}y\t".to_string()),
    )
    .unwrap();
    assert!(client.accept_invalid_certs);
    let headers = client.default_headers();
    assert_eq!(headers.len(), 1);
    assert_eq!(headers[0].name, "x-api-key");
    assert_eq!(headers[0].value, "k\u{e4}y\t".as_bytes());
    assert!(self::client().default_headers().is_empty());
    for bad in ["\u{0}", "a\u{1f}", "\u{7f}"] {
        assert!(matches!(
            ProtectClient::new("https://a.invalid", true, Some(bad.to_string())),
            Err(ClientError::InvalidApiKey { .. })
        ));
    }
}

#[test]
fn the_token_stays_until_another_is_handed_out() {
    let mut client = client();
    let token = |client: &ProtectClient| client.csrf_token.clone();
    assert_eq!(token(&client), None);
    let both = vec![
        header("x-updated-csrf-token", "second"),
        header("x-csrf-token", "first"),
        header("x-csrf-token", "third"),
    ];
    client.store_csrf_token(&both);
    assert_eq!(token(&client), Some(b"first".to_vec()));
    client.store_csrf_token(&vec![header("x-other", "x")]);
    assert_eq!(token(&client), Some(b"first".to_vec()));

    let renewed = vec![header("x-csrf-token", "new")];
    client.receive(Operation::Bootstrap, 200, &renewed, "").unwrap();
    assert_eq!(token(&client), Some(b"first".to_vec()));
    assert!(client
        .receive(Operation::VideoArchive, 500, &renewed, "")
        .is_err());
    assert_eq!(token(&client), Some(b"new".to_vec()));
}

#[test]
fn statuses_are_taken_by_their_class() {
    assert_eq!(classify_status(199), StatusClass::Failure);
    assert_eq!(classify_status(200), StatusClass::Success);
    assert_eq!(classify_status(299), StatusClass::Success);
    assert_eq!(classify_status(300), StatusClass::Failure);
    assert_eq!(classify_status(401), StatusClass::Rejected);
    assert_eq!(classify_status(402), StatusClass::Failure);
    assert_eq!(classify_status(403), StatusClass::Rejected);
}

#[test]
fn failures_are_reported_by_operation() {
    let message = |operation, status, body| {
        ensure_success(operation, status, body)
            .unwrap_err()
            .to_string()
    };
    assert_eq!(
        message(Operation::VideoArchive, 500, "MFA_AUTH_REQUIRED"),
        "video archive failed with HTTP 500 Internal Server Error: MFA_AUTH_REQUIRED"
    );
    assert_eq!(
        message(Operation::DeleteVideoRange, 599, " \n"),
        "delete video range failed with HTTP 599 <unknown status code>"
    );
    assert_eq!(
        message(Operation::FetchEvents, 401, "secret"),
        "fetch events was rejected by Protect; check credentials and user permissions"
    );
    assert_eq!(
        message(Operation::Login, 418, "{\"data\":1,\"code\":\"x\"}"),
        "login failed with HTTP 418 I'm a teapot: {\"code\":\"x\"}"
    );
    assert!(ensure_success(Operation::Bootstrap, 204, "anything").is_ok());
}
