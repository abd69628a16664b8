//! The client of the console: the requests it sends, the token it keeps, and the responses it
//! accepts.

use crate::config::Credentials;
use crate::json::{
    json_string, json_value, member_views, object_text, quote, redact_auth_body, redaction,
    write_object,
};
use crate::protect::{ArchiveVideoRequest, EventQuery};
use crate::text::{
    blank, contains_text, decimal, is_blank, occurs, same_text, signed_text, unsigned_text,
};
use crate::url_text::{
    check_url, pair_views, query_text, resolve, resolved_url, url_error, write_query,
};
use vstd::prelude::*;
use vstd::string::*;
use vstd::utf8::*;

verus! {

/// What a request is for.
#[derive(Debug, Clone, Copy, PartialEq, Eq, Structural)]
pub enum Operation {
    Login,
    Bootstrap,
    VideoArchive,
    DeleteVideoRange,
    FetchPendingArchives,
    FetchEvents,
}

impl Operation {
    /// What the operation is called in messages.
    pub open spec fn spec_label(self) -> Seq<char> {
        match self {
            Operation::Login => "login"@,
            Operation::Bootstrap => "bootstrap"@,
            Operation::VideoArchive => "video archive"@,
            Operation::DeleteVideoRange => "delete video range"@,
            Operation::FetchPendingArchives => "fetch pending video archives"@,
            Operation::FetchEvents => "fetch events"@,
        }
    }

    /// What the operation is called in messages.
    pub fn label(self) -> (result: &'static str)
        ensures
            result@ == self.spec_label(),
    {
        match self {
            Operation::Login => "login",
            Operation::Bootstrap => "bootstrap",
            Operation::VideoArchive => "video archive",
            Operation::DeleteVideoRange => "delete video range",
            Operation::FetchPendingArchives => "fetch pending video archives",
            Operation::FetchEvents => "fetch events",
        }
    }

    /// Whether the token of a response to the operation is kept.
    pub open spec fn renews_token(self) -> bool {
        self == Operation::Login || self == Operation::VideoArchive || self
            == Operation::DeleteVideoRange
    }

    /// Whether a request for the operation carries the token.
    pub open spec fn carries_token(self) -> bool {
        self == Operation::VideoArchive || self == Operation::DeleteVideoRange
    }
}

/// An HTTP method.
#[derive(Debug, Clone, Copy, PartialEq, Eq, Structural)]
pub enum Method {
    Get,
    Post,
    Delete,
}

/// An HTTP header. Its name is in lower case.
#[derive(Debug, Clone)]
pub struct Header {
    pub name: String,
    pub value: Vec<u8>,
}

/// An HTTP request to the console.
#[derive(Debug, Clone)]
pub struct ApiRequest {
    pub operation: Operation,
    pub method: Method,
    pub url: String,
    pub headers: Vec<Header>,
    /// A JSON document.
    pub body: Option<String>,
}

/// An HTTP request as texts and bytes.
pub struct ApiRequestView {
    pub operation: Operation,
    pub method: Method,
    pub url: Seq<char>,
    pub headers: Seq<(Seq<char>, Seq<u8>)>,
    pub body: Option<Seq<char>>,
}

/// Headers as texts and bytes.
pub open spec fn header_views(headers: Seq<Header>) -> Seq<(Seq<char>, Seq<u8>)> {
    headers.map_values(|header: Header| (header.name@, header.value@))
}

impl View for ApiRequest {
    type V = ApiRequestView;

    open spec fn view(&self) -> ApiRequestView {
        ApiRequestView {
            operation: self.operation,
            method: self.method,
            url: self.url@,
            headers: header_views(self.headers@),
            body: match self.body {
                Some(body) => Some(body@),
                None => None,
            },
        }
    }
}

/// Why the console could not be asked, or refused.
#[derive(Debug, Clone)]
pub enum ClientError {
    /// The base URL of the console is none.
    InvalidController { controller: String, reason: String },
    /// The API key cannot stand in a header.
    InvalidApiKey { reason: String },
    /// The URL of a request cannot be built.
    InvalidPath { path: String, reason: String },
    /// The console did not accept who asked.
    Rejected { operation: Operation },
    /// The account needs a second factor.
    MfaRequired,
    /// The console failed, and said no more than its status.
    Status { operation: Operation, status: String },
    /// The console failed, and said something about it.
    Failure { operation: Operation, status: String, detail: String },
}

impl ClientError {
    /// The text shown for the error.
    pub open spec fn message(&self) -> Seq<char> {
        match self {
            ClientError::InvalidController { controller, .. } =>
                "controller URL is not valid: "@ + controller@,
            ClientError::InvalidApiKey { .. } => "API key contains invalid header bytes"@,
            ClientError::InvalidPath { path, reason } =>
                "failed to build Protect URL "@ + path@ + ": "@ + reason@,
            ClientError::Rejected { operation } =>
                operation.spec_label()
                    + " was rejected by Protect; check credentials and user permissions"@,
            ClientError::MfaRequired =>
                "login requires MFA/SSO; use a local service account without MFA or an API key with the required site/app access"@,
            ClientError::Status { operation, status } =>
                operation.spec_label() + " failed with HTTP "@ + status@,
            ClientError::Failure { operation, status, detail } =>
                operation.spec_label() + " failed with HTTP "@ + status@ + ": "@ + detail@,
        }
    }

    /// The text shown for the error.
    pub fn to_string(&self) -> (result: String)
        ensures
            result@ == self.message(),
    {
        match self {
            ClientError::InvalidController { controller, .. } =>
                "controller URL is not valid: ".to_owned().concat(controller.as_str()),
            ClientError::InvalidApiKey { .. } => "API key contains invalid header bytes".to_owned(),
            ClientError::InvalidPath { path, reason } =>
                "failed to build Protect URL ".to_owned().concat(path.as_str()).concat(": ").concat(
                    reason.as_str(),
                ),
            ClientError::Rejected { operation } => operation.label().to_owned().concat(
                " was rejected by Protect; check credentials and user permissions",
            ),
            ClientError::MfaRequired =>
                "login requires MFA/SSO; use a local service account without MFA or an API key with the required site/app access".to_owned(),
            ClientError::Status { operation, status } => operation.label().to_owned().concat(
                " failed with HTTP ",
            ).concat(status.as_str()),
            ClientError::Failure { operation, status, detail } =>
                operation.label().to_owned().concat(" failed with HTTP ").concat(
                    status.as_str(),
                ).concat(": ").concat(detail.as_str()),
        }
    }
}

impl ClientError {
    /// The text of what caused the error, where something else did and the message does not say so.
    pub open spec fn cause_text(&self) -> Option<Seq<char>> {
        match self {
            ClientError::InvalidController { reason, .. } => Some(reason@),
            ClientError::InvalidApiKey { reason } => Some(reason@),
            _ => None,
        }
    }

    /// The text of what caused the error, where something else did and the message does not say so.
    pub fn cause(&self) -> (result: Option<String>)
        ensures
            match self.cause_text() {
                Some(text) => result matches Some(told) && told@ == text,
                None => result is None,
            },
    {
        match self {
            ClientError::InvalidController { reason, .. } => Some(reason.clone()),
            ClientError::InvalidApiKey { reason } => Some(reason.clone()),
            _ => None,
        }
    }
}

/// The header that carries the token of a session.
pub open spec fn token_header() -> Seq<char> {
    "x-csrf-token"@
}

/// The header of a response that renews the token of a session.
pub open spec fn renewed_token_header() -> Seq<char> {
    "x-updated-csrf-token"@
}

/// The value of the first header with a name.
pub open spec fn first_value(headers: Seq<(Seq<char>, Seq<u8>)>, name: Seq<char>) -> Option<Seq<u8>>
    decreases headers.len(),
{
    if headers.len() == 0 {
        None
    } else if headers[0].0 == name {
        Some(headers[0].1)
    } else {
        first_value(headers.drop_first(), name)
    }
}

/// The token that a response hands out: the token header, or else the renewed one.
pub open spec fn token_in(headers: Seq<(Seq<char>, Seq<u8>)>) -> Option<Seq<u8>> {
    match first_value(headers, token_header()) {
        Some(token) => Some(token),
        None => first_value(headers, renewed_token_header()),
    }
}

fn find_header(headers: &Vec<Header>, name: &str) -> (result: Option<Vec<u8>>)
    ensures
        match first_value(header_views(headers@), name@) {
            Some(value) => result matches Some(found) && found@ == value,
            None => result is None,
        },
{
    let ghost views = header_views(headers@);
    assert(views.skip(0) =~= views);
    for i in 0..headers.len()
        invariant
            views == header_views(headers@),
            first_value(views.skip(i as int), name@) == first_value(views, name@),
    {
        assert(views.skip(i as int)[0] == views[i as int]);
        assert(views.skip(i as int).drop_first() =~= views.skip(i + 1));
        if same_text(headers[i].name.as_str(), name) {
            return Some(headers[i].value.clone());
        }
    }
    None
}

/// A byte that may stand in the value of a header.
pub open spec fn header_byte(b: u8) -> bool {
    b == 9 || (b >= 32 && b != 127)
}

/// A text that may stand in the value of a header.
pub open spec fn header_text(s: Seq<char>) -> bool {
    forall|i: int| 0 <= i < encode_utf8(s).len() ==> header_byte(#[trigger] encode_utf8(s)[i])
}

/// `HeaderValue::from_str`: whether it accepts the text, or the `Display` of its error, which is
/// always the same. It accepts the text unless one of the bytes is a control character other than a
/// tab.
#[verifier::external_body]
fn check_header(value: &str) -> (result: Result<(), String>)
    ensures
        result is Ok <==> header_text(value@),
        result matches Err(reason) ==> reason@ == "failed to parse header value"@,
{
    reqwest::header::HeaderValue::from_str(value).map(|_| ()).map_err(|error| error.to_string())
}

/// Whether an error says why there is no client for a controller and an API key.
pub open spec fn refuses_client(
    error: ClientError,
    controller: Seq<char>,
    api_key: Option<String>,
) -> bool {
    match url_error(controller) {
        Some(reason) => error matches ClientError::InvalidController {
            controller: told,
            reason: why,
        } && told@ == controller && why@ == reason,
        None => {
            &&& api_key is Some && !header_text(api_key->0@)
            &&& error matches ClientError::InvalidApiKey { reason } && reason@
                == "failed to parse header value"@
        },
    }
}

/// Whether there is a client for a controller and an API key.
pub open spec fn allows_client(controller: Seq<char>, api_key: Option<String>) -> bool {
    url_error(controller) is None && (api_key matches Some(key) ==> header_text(key@))
}

/// The reason phrase that belongs to a status code.
pub uninterp spec fn status_reason(status: u16) -> Seq<char>;

/// A status code and its reason phrase.
pub open spec fn status_line(status: u16) -> Seq<char> {
    decimal(status as int) + seq![' '] + status_reason(status)
}

/// The `Display` of a `StatusCode`: the number, a space, and the canonical reason phrase, or
/// `<unknown status code>` where there is none. A status code has three digits.
#[verifier::external_body]
fn write_status(status: u16) -> (result: String)
    requires
        100 <= status <= 999,
    ensures
        result@ == decimal(status as int) + seq![' '] + status_reason(status),
{
    format!("{}", reqwest::StatusCode::from_u16(status).unwrap())
}

/// How a status code is taken.
#[derive(Debug, Clone, Copy, PartialEq, Eq, Structural)]
pub enum StatusClass {
    /// The request succeeded.
    Success,
    /// The console did not accept who asked.
    Rejected,
    /// Anything else; the body of the response says more.
    Failure,
}

/// How a status code is taken.
pub open spec fn status_class(status: u16) -> StatusClass {
    if 200 <= status < 300 {
        StatusClass::Success
    } else if status == 401 || status == 403 {
        StatusClass::Rejected
    } else {
        StatusClass::Failure
    }
}

/// Tells how a status code is taken. The body of a response needs to be read only for a failure.
pub fn classify_status(status: u16) -> (result: StatusClass)
    ensures
        result == status_class(status),
{
    if 200 <= status && status < 300 {
        StatusClass::Success
    } else if status == 401 || status == 403 {
        StatusClass::Rejected
    } else {
        StatusClass::Failure
    }
}

/// What is made of a response.
pub open spec fn judged(
    result: Result<(), ClientError>,
    operation: Operation,
    status: u16,
    body: Seq<char>,
) -> bool {
    match status_class(status) {
        StatusClass::Success => result == Ok::<(), ClientError>(()),
        StatusClass::Rejected => result == Err::<(), ClientError>(
            ClientError::Rejected { operation },
        ),
        StatusClass::Failure => if blank(body) {
            result matches Err(ClientError::Status { operation: told, status: line }) && told
                == operation && line@ == status_line(status)
        } else if operation == Operation::Login && occurs(body, "MFA_AUTH_REQUIRED"@) {
            result == Err::<(), ClientError>(ClientError::MfaRequired)
        } else {
            result matches Err(ClientError::Failure { operation: told, status: line, detail })
                && told == operation && line@ == status_line(status) && detail@ == (
            if operation == Operation::Login {
                redaction(json_value(body))
            } else {
                body
            })
        },
    }
}

/// Accepts a response, or tells why not. What a failed login answers is shown redacted only.
pub fn ensure_success(operation: Operation, status: u16, body: &str) -> (result: Result<
    (),
    ClientError,
>)
    requires
        100 <= status <= 999,
    ensures
        judged(result, operation, status, body@),
{
    match classify_status(status) {
        StatusClass::Success => Ok(()),
        StatusClass::Rejected => Err(ClientError::Rejected { operation }),
        StatusClass::Failure => {
            if is_blank(body) {
                return Err(ClientError::Status { operation, status: write_status(status) });
            }
            if operation == Operation::Login && contains_text(body, "MFA_AUTH_REQUIRED") {
                return Err(ClientError::MfaRequired);
            }
            let detail = if operation == Operation::Login {
                redact_auth_body(body)
            } else {
                body.to_owned()
            };
            Err(ClientError::Failure { operation, status: write_status(status), detail })
        },
    }
}

/// The client of a console.
#[derive(Debug)]
pub struct ProtectClient {
    /// Base URL of the console.
    pub controller: String,
    /// Whether the certificate of the console may be invalid.
    pub accept_invalid_certs: bool,
    /// Sent with every request.
    pub api_key: Option<String>,
    /// The token of the session, once there is one.
    pub csrf_token: Option<Vec<u8>>,
}

/// The token as bytes.
pub open spec fn token_view(token: Option<Vec<u8>>) -> Option<Seq<u8>> {
    match token {
        Some(bytes) => Some(bytes@),
        None => None,
    }
}

fn json_header(name: &str) -> (result: Header)
    ensures
        result.name@ == name@,
        result.value@ == encode_utf8("application/json"@),
{
    Header { name: name.to_owned(), value: "application/json".as_bytes_vec() }
}

impl ProtectClient {
    /// A client for the console at `controller`, without a session.
    pub fn new(controller: &str, verify_tls: bool, api_key: Option<String>) -> (result: Result<
        ProtectClient,
        ClientError,
    >)
        ensures
            if !allows_client(controller@, api_key) {
                result matches Err(error) && refuses_client(error, controller@, api_key)
            } else {
                result matches Ok(client) && client.controller@ == controller@
                    && client.accept_invalid_certs == !verify_tls && client.api_key == api_key
                    && client.csrf_token is None
            },
    {
        if let Err(reason) = check_url(controller) {
            return Err(ClientError::InvalidController { controller: controller.to_owned(), reason });
        }
        if let Some(key) = &api_key {
            if let Err(reason) = check_header(key.as_str()) {
                return Err(ClientError::InvalidApiKey { reason });
            }
        }
        Ok(
            ProtectClient {
                controller: controller.to_owned(),
                accept_invalid_certs: !verify_tls,
                api_key,
                csrf_token: None,
            },
        )
    }

    /// Whether the client sends an API key.
    pub fn uses_api_key(&self) -> (result: bool)
        ensures
            result == (self.api_key is Some),
    {
        self.api_key.is_some()
    }

    /// The headers that go with every request: the API key, where there is one.
    pub fn default_headers(&self) -> (result: Vec<Header>)
        ensures
            header_views(result@) == (match self.api_key {
                Some(key) => seq![("x-api-key"@, encode_utf8(key@))],
                None => seq![],
            }),
    {
        let mut headers: Vec<Header> = Vec::new();
        if let Some(key) = &self.api_key {
            headers.push(
                Header { name: "x-api-key".to_owned(), value: key.as_str().as_bytes_vec() },
            );
            assert(header_views(headers@) =~= seq![("x-api-key"@, encode_utf8(key@))]);
        } else {
            assert(header_views(headers@) =~= seq![]);
        }
        headers
    }

    /// The URL of a path on the console.
    pub fn url(&self, path: &str) -> (result: Result<String, ClientError>)
        ensures
            match resolved_url(self.controller@, path@) {
                Ok(url) => result matches Ok(text) && text@ == url,
                Err(reason) => result matches Err(
                    ClientError::InvalidPath { path: told, reason: why },
                ) && told@ == path@ && why@ == reason,
            },
    {
        match resolve(self.controller.as_str(), path) {
            Ok(url) => Ok(url),
            Err(reason) => Err(ClientError::InvalidPath { path: path.to_owned(), reason }),
        }
    }

    /// Keeps the token that a response hands out; without one, the old token stays.
    pub fn store_csrf_token(&mut self, headers: &Vec<Header>)
        ensures
            token_view(final(self).csrf_token) == (match token_in(header_views(headers@)) {
                Some(token) => Some(token),
                None => token_view(old(self).csrf_token),
            }),
            final(self).controller == old(self).controller,
            final(self).accept_invalid_certs == old(self).accept_invalid_certs,
            final(self).api_key == old(self).api_key,
    {
        let token = match find_header(headers, "x-csrf-token") {
            Some(token) => Some(token),
            None => find_header(headers, "x-updated-csrf-token"),
        };
        if token.is_some() {
            self.csrf_token = token;
        }
    }

    /// The headers of a request beyond the default ones.
    pub open spec fn request_headers(&self, operation: Operation, has_body: bool) -> Seq<
        (Seq<char>, Seq<u8>),
    > {
        (if operation.carries_token() && self.csrf_token is Some {
            seq![(token_header(), self.csrf_token->0@)]
        } else {
            seq![]
        }) + seq![("accept"@, encode_utf8("application/json"@))] + (if has_body {
            seq![("content-type"@, encode_utf8("application/json"@))]
        } else {
            seq![]
        })
    }

    fn headers(&self, operation: Operation, has_body: bool) -> (result: Vec<Header>)
        ensures
            header_views(result@) == self.request_headers(operation, has_body),
    {
        let mut headers: Vec<Header> = Vec::new();
        let carries_token = match operation {
            Operation::VideoArchive | Operation::DeleteVideoRange => true,
            _ => false,
        };
        if carries_token {
            if let Some(token) = &self.csrf_token {
                headers.push(Header { name: "x-csrf-token".to_owned(), value: token.clone() });
            }
        }
        headers.push(json_header("accept"));
        if has_body {
            headers.push(json_header("content-type"));
        }
        assert(header_views(headers@) =~= self.request_headers(operation, has_body));
        headers
    }

    /// What a request is like: which URL it goes to, under which headers, with which body. There
    /// is none if the URL of the console does not take the path.
    pub open spec fn asks(
        &self,
        result: Result<ApiRequest, ClientError>,
        operation: Operation,
        method: Method,
        path: Seq<char>,
        query: Option<Seq<(Seq<char>, Seq<char>)>>,
        body: Option<Seq<char>>,
    ) -> bool {
        match resolved_url(self.controller@, path) {
            Ok(url) => result matches Ok(request) && request@ == (ApiRequestView {
                operation,
                method,
                url: match query {
                    Some(pairs) => url + seq!['?'] + query_text(pairs),
                    None => url,
                },
                headers: self.request_headers(operation, body is Some),
                body,
            }),
            Err(reason) => result matches Err(
                ClientError::InvalidPath { path: told, reason: why },
            ) && told@ == path && why@ == reason,
        }
    }

    fn request(
        &self,
        operation: Operation,
        method: Method,
        path: &str,
        query: Option<Vec<(String, String)>>,
        body: Option<String>,
    ) -> (result: Result<ApiRequest, ClientError>)
        ensures
            self.asks(
                result,
                operation,
                method,
                path@,
                match query {
                    Some(pairs) => Some(pair_views(pairs@)),
                    None => None,
                },
                match body {
                    Some(text) => Some(text@),
                    None => None,
                },
            ),
    {
        match self.url(path) {
            Err(error) => Err(error),
            Ok(url) => {
                let mut url = url;
                if let Some(pairs) = &query {
                    url.push('?');
                    url.append(write_query(pairs).as_str());
                    assert(url@ =~= resolved_url(self.controller@, path@)->Ok_0 + seq!['?']
                        + query_text(pair_views(pairs@)));
                }
                let headers = self.headers(operation, body.is_some());
                Ok(ApiRequest { operation, method, url, headers, body })
            },
        }
    }

    /// The JSON object that a login sends.
    pub open spec fn login_members(credentials: &Credentials) -> Seq<(Seq<char>, Seq<char>)> {
        seq![
            ("password"@, json_string(credentials.password@)),
            ("rememberMe"@, "true"@),
            ("username"@, json_string(credentials.username@)),
        ]
    }

    /// Asks for a session.
    pub fn login(&self, credentials: &Credentials) -> (result: Result<ApiRequest, ClientError>)
        ensures
            self.asks(
                result,
                Operation::Login,
                Method::Post,
                "/api/auth/login"@,
                None,
                Some(object_text(Self::login_members(credentials))),
            ),
    {
        let mut members: Vec<(String, String)> = Vec::new();
        members.push(("password".to_owned(), quote(credentials.password.as_str())));
        members.push(("rememberMe".to_owned(), "true".to_owned()));
        members.push(("username".to_owned(), quote(credentials.username.as_str())));
        assert(member_views(members@) =~= Self::login_members(credentials));
        let body = write_object(&members);
        self.request(Operation::Login, Method::Post, "/api/auth/login", None, Some(body))
    }

    /// Asks for the state of the console, which lists the cameras.
    pub fn cameras(&self) -> (result: Result<ApiRequest, ClientError>)
        ensures
            self.asks(
                result,
                Operation::Bootstrap,
                Method::Get,
                "/proxy/protect/api/bootstrap"@,
                None,
                None,
            ),
    {
        self.request(Operation::Bootstrap, Method::Get, "/proxy/protect/api/bootstrap", None, None)
    }

    /// Asks for an archive.
    pub fn archive_video_to_provider(&self, request: &ArchiveVideoRequest) -> (result: Result<
        ApiRequest,
        ClientError,
    >)
        ensures
            self.asks(
                result,
                Operation::VideoArchive,
                Method::Post,
                "/proxy/protect/api/cloud-provider/video-archive"@,
                None,
                Some(object_text(request.json_members())),
            ),
    {
        self.request(
            Operation::VideoArchive,
            Method::Post,
            "/proxy/protect/api/cloud-provider/video-archive",
            None,
            Some(request.to_json()),
        )
    }

    /// The query that deletes footage.
    pub open spec fn delete_pairs(camera_id: Seq<char>, start_ms: i64, end_ms: i64) -> Seq<
        (Seq<char>, Seq<char>),
    > {
        seq![
            ("camera"@, camera_id),
            ("start"@, decimal(start_ms as int)),
            ("end"@, decimal(end_ms as int)),
        ]
    }

    /// Asks to delete the footage of one camera between two instants.
    pub fn delete_video_range(&self, camera_id: &str, start_ms: i64, end_ms: i64) -> (result:
        Result<ApiRequest, ClientError>)
        ensures
            self.asks(
                result,
                Operation::DeleteVideoRange,
                Method::Delete,
                "/proxy/protect/api/video"@,
                Some(Self::delete_pairs(camera_id@, start_ms, end_ms)),
                None,
            ),
    {
        let mut pairs: Vec<(String, String)> = Vec::new();
        pairs.push(("camera".to_owned(), camera_id.to_owned()));
        pairs.push(("start".to_owned(), signed_text(start_ms)));
        pairs.push(("end".to_owned(), signed_text(end_ms)));
        assert(pair_views(pairs@) =~= Self::delete_pairs(camera_id@, start_ms, end_ms));
        self.request(
            Operation::DeleteVideoRange,
            Method::Delete,
            "/proxy/protect/api/video",
            Some(pairs),
            None,
        )
    }

    /// Asks for the archives that are pending.
    pub fn pending_archives(&self) -> (result: Result<ApiRequest, ClientError>)
        ensures
            self.asks(
                result,
                Operation::FetchPendingArchives,
                Method::Get,
                "/proxy/protect/api/video-archive/fetch-pending"@,
                None,
                None,
            ),
    {
        self.request(
            Operation::FetchPendingArchives,
            Method::Get,
            "/proxy/protect/api/video-archive/fetch-pending",
            None,
            None,
        )
    }

    /// The query that lists events.
    pub open spec fn event_pairs(query: &EventQuery) -> Seq<(Seq<char>, Seq<char>)> {
        seq![
            ("start"@, decimal(query.start_ms as int)),
            ("end"@, decimal(query.end_ms as int)),
            ("limit"@, decimal(query.limit as int)),
            ("offset"@, decimal(query.offset as int)),
            ("orderDirection"@, "ASC"@),
            ("withoutDescriptions"@, "true"@),
        ] + repeated("cameras"@, query.camera_ids@) + repeated("types"@, query.event_types@)
            + repeated("smartDetectTypes"@, query.smart_detect_types@)
    }

    /// Asks for events, in the order in which they happened.
    pub fn events(&self, query: &EventQuery) -> (result: Result<ApiRequest, ClientError>)
        ensures
            self.asks(
                result,
                Operation::FetchEvents,
                Method::Get,
                "/proxy/protect/api/events"@,
                Some(Self::event_pairs(query)),
                None,
            ),
    {
        let mut pairs: Vec<(String, String)> = Vec::new();
        pairs.push(("start".to_owned(), signed_text(query.start_ms)));
        pairs.push(("end".to_owned(), signed_text(query.end_ms)));
        pairs.push(("limit".to_owned(), unsigned_text(query.limit as u64)));
        pairs.push(("offset".to_owned(), unsigned_text(query.offset as u64)));
        pairs.push(("orderDirection".to_owned(), "ASC".to_owned()));
        pairs.push(("withoutDescriptions".to_owned(), "true".to_owned()));
        push_repeated(&mut pairs, "cameras", &query.camera_ids);
        push_repeated(&mut pairs, "types", &query.event_types);
        push_repeated(&mut pairs, "smartDetectTypes", &query.smart_detect_types);
        assert(pair_views(pairs@) =~= Self::event_pairs(query));
        self.request(
            Operation::FetchEvents,
            Method::Get,
            "/proxy/protect/api/events",
            Some(pairs),
            None,
        )
    }

    /// Takes a response: keeps the token that it hands out, if the operation has one, and accepts
    /// it or tells why not. The body matters only for a failure.
    pub fn receive(
        &mut self,
        operation: Operation,
        status: u16,
        headers: &Vec<Header>,
        body: &str,
    ) -> (result: Result<(), ClientError>)
        requires
            100 <= status <= 999,
        ensures
            judged(result, operation, status, body@),
            token_view(final(self).csrf_token) == (match token_in(header_views(headers@)) {
                Some(token) => if operation.renews_token() {
                    Some(token)
                } else {
                    token_view(old(self).csrf_token)
                },
                None => token_view(old(self).csrf_token),
            }),
            final(self).controller == old(self).controller,
            final(self).accept_invalid_certs == old(self).accept_invalid_certs,
            final(self).api_key == old(self).api_key,
    {
        match operation {
            Operation::Login | Operation::VideoArchive | Operation::DeleteVideoRange => {
                self.store_csrf_token(headers);
            },
            _ => {},
        }
        ensure_success(operation, status, body)
    }
}

/// One pair of the same name for each value.
pub open spec fn repeated(name: Seq<char>, values: Seq<String>) -> Seq<(Seq<char>, Seq<char>)> {
    values.map_values(|value: String| (name, value@))
}

fn push_repeated(pairs: &mut Vec<(String, String)>, name: &str, values: &Vec<String>)
    ensures
        pair_views(final(pairs)@) == pair_views(old(pairs)@) + repeated(name@, values@),
{
    let ghost before = pairs@;
    for i in 0..values.len()
        invariant
            pair_views(pairs@) == pair_views(before) + repeated(name@, values@.take(i as int)),
    {
        let ghost prior = pairs@;
        pairs.push((name.to_owned(), values[i].clone()));
        proof {
            let pair = (name@, values@[i as int]@);
            assert(pair_views(pairs@) =~= pair_views(prior).push(pair));
            assert(repeated(name@, values@.take(i + 1)) =~= repeated(
                name@,
                values@.take(i as int),
            ).push(pair));
        }
    }
    assert(values@.take(values.len() as int) =~= values@);
}

/// Unless a response is a failure, what is made of it does not depend on its body. In particular a
/// rejection says nothing of the body.
pub proof fn a_rejection_ignores_the_body(
    operation: Operation,
    status: u16,
    body: Seq<char>,
    other_body: Seq<char>,
    result: Result<(), ClientError>,
    other: Result<(), ClientError>,
)
    requires
        status_class(status) != StatusClass::Failure,
        judged(result, operation, status, body),
        judged(other, operation, status, other_body),
    ensures
        result == other,
{
}

/// The token of a session goes with each request for an archive or a deletion, and with no other
/// request.
pub proof fn the_token_goes_with_archives_and_deletions(
    client: ProtectClient,
    operation: Operation,
    has_body: bool,
)
    ensures
        first_value(client.request_headers(operation, has_body), token_header()) == (
        if operation == Operation::VideoArchive || operation == Operation::DeleteVideoRange {
            token_view(client.csrf_token)
        } else {
            None
        }),
{
    reveal_strlit("x-csrf-token");
    reveal_strlit("accept");
    reveal_strlit("content-type");
    reveal_with_fuel(first_value, 4);
    let headers = client.request_headers(operation, has_body);
    assert("accept"@.len() != token_header().len());
    assert("content-type"@[0] == 'c' && token_header()[0] == 'x');
    if !(operation.carries_token() && client.csrf_token is Some) {
        assert(headers[0].0 == "accept"@);
        if has_body {
            assert(headers.drop_first()[0].0 == "content-type"@);
        }
    }
}

/// A failed login shows at most its status and the redacted body.
pub proof fn a_failed_login_shows_a_redacted_body(
    status: u16,
    body: Seq<char>,
    result: Result<(), ClientError>,
)
    requires
        judged(result, Operation::Login, status, body),
        result is Err,
    ensures
        ({
            let shown = result->Err_0.message();
            let failed = "login"@ + " failed with HTTP "@ + status_line(status);
            ||| shown == ClientError::MfaRequired.message()
            ||| shown == (ClientError::Rejected { operation: Operation::Login }).message()
            ||| shown == failed
            ||| shown == failed + ": "@ + redaction(json_value(body))
        }),
{
}

} // verus!
