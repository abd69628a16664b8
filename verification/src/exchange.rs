//! What is exchanged with the console: the requests, over what they are made of, and what is made of
//! the responses.

use crate::cli::CliError;
use crate::client::{
    ensure_success, first_value, header_views, status_reason, token_in, ApiRequest, ClientError,
    Header, Method, Operation, ProtectClient,
};
use crate::config::{ConfigError, Credentials};
use crate::error::ArchiveError;
use crate::formats::a_query_value_reads_back;
use crate::json::{json_string, json_value, object_text, redaction};
use crate::promises::all_white;
use crate::protect::{ArchiveVideoRequest, EventQuery};
use crate::text::decimal;
use crate::url_text::{query_bytes, query_text, resolved_url};
use vstd::prelude::*;
use vstd::utf8::*;

verus! {

/// Whether a request has a purpose, a method, a URL and a body, takes and gives JSON, and carries the
/// token of the session, where it is to carry one and there is one.
pub open spec fn is_request(
    request: ApiRequest,
    client: &ProtectClient,
    operation: Operation,
    method: Method,
    url: Seq<char>,
    body: Option<Seq<char>>,
    carries_token: bool,
) -> bool {
    let token: int = if carries_token && client.csrf_token is Some {
        1
    } else {
        0
    };
    let headers = request.headers@;
    &&& request.operation == operation
    &&& request.method == method
    &&& request.url@ == url
    &&& request.body is Some == body is Some
    &&& request.body is Some ==> request.body->0@ == body->0
    &&& headers.len() == token + 1 + (if body is Some {
        1int
    } else {
        0int
    })
    &&& token == 1 ==> headers[0].name@ == "x-csrf-token"@ && headers[0].value@
        == client.csrf_token->0@
    &&& headers[token].name@ == "accept"@
    &&& headers[token].value@ == encode_utf8("application/json"@)
    &&& body is Some ==> headers[token + 1].name@ == "content-type"@ && headers[token + 1].value@
        == encode_utf8("application/json"@)
}

proof fn lemma_asks(
    client: &ProtectClient,
    result: Result<ApiRequest, ClientError>,
    operation: Operation,
    method: Method,
    path: Seq<char>,
    query: Option<Seq<(Seq<char>, Seq<char>)>>,
    body: Option<Seq<char>>,
)
    requires
        client.asks(result, operation, method, path, query, body),
    ensures
        result is Ok <==> resolved_url(client.controller@, path) is Ok,
        result is Ok ==> {
            let url = resolved_url(client.controller@, path)->Ok_0;
            is_request(
                result->Ok_0,
                client,
                operation,
                method,
                match query {
                    Some(pairs) => url + seq!['?'] + query_text(pairs),
                    None => url,
                },
                body,
                operation == Operation::VideoArchive || operation == Operation::DeleteVideoRange,
            )
        },
        result is Err ==> result->Err_0 is InvalidPath && result->Err_0->path@ == path
            && result->Err_0->InvalidPath_reason@ == resolved_url(client.controller@, path)->Err_0,
{
    if result is Ok {
        let request = result->Ok_0;
        let headers = request.headers@;
        let views = client.request_headers(operation, body is Some);
        assert(header_views(headers) == views);
        assert(headers.len() == views.len());
        assert forall|i: int| 0 <= i < headers.len() implies views[i] == (
            (#[trigger] headers[i]).name@,
            headers[i].value@,
        ) by {
            assert(header_views(headers)[i] == (headers[i].name@, headers[i].value@));
        }
        let token: int = if operation.carries_token() && client.csrf_token is Some {
            1
        } else {
            0
        };
        assert(headers[token] == headers[token]);
        assert(views[token] == (headers[token].name@, headers[token].value@));
        if token == 1 {
            assert(views[0] == (headers[0].name@, headers[0].value@));
        }
        if body is Some {
            assert(views[token + 1] == (headers[token + 1].name@, headers[token + 1].value@));
        }
    }
}

/// A login posts the user name and the password, as JSON strings, and asks to be remembered.
pub proof fn a_login_sends_the_credentials(
    client: &ProtectClient,
    credentials: &Credentials,
    result: Result<ApiRequest, ClientError>,
)
    requires
        call_ensures(ProtectClient::login, (client, credentials), result),
        result is Ok,
    ensures
        ({
            let url = resolved_url(client.controller@, "/api/auth/login"@);
            &&& url is Ok
            &&& is_request(
                result->Ok_0,
                client,
                Operation::Login,
                Method::Post,
                url->Ok_0,
                Some(
                    object_text(
                        seq![
                            ("password"@, json_string(credentials.password@)),
                            ("rememberMe"@, "true"@),
                            ("username"@, json_string(credentials.username@)),
                        ],
                    ),
                ),
                false,
            )
        }),
{
    let body = object_text(
        seq![
            ("password"@, json_string(credentials.password@)),
            ("rememberMe"@, "true"@),
            ("username"@, json_string(credentials.username@)),
        ],
    );
    lemma_asks(
        client,
        result,
        Operation::Login,
        Method::Post,
        "/api/auth/login"@,
        None,
        Some(body),
    );
}

/// The cameras and the pending archives are fetched from their places on the console.
pub proof fn lists_are_fetched_from_their_places(
    client: &ProtectClient,
    cameras: Result<ApiRequest, ClientError>,
    pending: Result<ApiRequest, ClientError>,
)
    requires
        call_ensures(ProtectClient::cameras, (client,), cameras),
        call_ensures(ProtectClient::pending_archives, (client,), pending),
    ensures
        ({
            let bootstrap = resolved_url(client.controller@, "/proxy/protect/api/bootstrap"@);
            let fetch = resolved_url(
                client.controller@,
                "/proxy/protect/api/video-archive/fetch-pending"@,
            );
            &&& cameras is Ok <==> bootstrap is Ok
            &&& pending is Ok <==> fetch is Ok
            &&& cameras is Ok ==> is_request(
                cameras->Ok_0,
                client,
                Operation::Bootstrap,
                Method::Get,
                bootstrap->Ok_0,
                None,
                false,
            )
            &&& pending is Ok ==> is_request(
                pending->Ok_0,
                client,
                Operation::FetchPendingArchives,
                Method::Get,
                fetch->Ok_0,
                None,
                false,
            )
        }),
{
    lemma_asks(
        client,
        cameras,
        Operation::Bootstrap,
        Method::Get,
        "/proxy/protect/api/bootstrap"@,
        None,
        None,
    );
    lemma_asks(
        client,
        pending,
        Operation::FetchPendingArchives,
        Method::Get,
        "/proxy/protect/api/video-archive/fetch-pending"@,
        None,
        None,
    );
}

/// An archive is asked for by posting the JSON of the request, with the token of the session.
pub proof fn an_archive_is_asked_for_by_its_json(
    client: &ProtectClient,
    request: &ArchiveVideoRequest,
    json: String,
    result: Result<ApiRequest, ClientError>,
)
    requires
        call_ensures(ProtectClient::archive_video_to_provider, (client, request), result),
        call_ensures(ArchiveVideoRequest::to_json, (request,), json),
    ensures
        ({
            let url = resolved_url(
                client.controller@,
                "/proxy/protect/api/cloud-provider/video-archive"@,
            );
            &&& result is Ok <==> url is Ok
            &&& result is Ok ==> is_request(
                result->Ok_0,
                client,
                Operation::VideoArchive,
                Method::Post,
                url->Ok_0,
                Some(json@),
                true,
            )
        }),
{
    lemma_asks(
        client,
        result,
        Operation::VideoArchive,
        Method::Post,
        "/proxy/protect/api/cloud-provider/video-archive"@,
        None,
        Some(json@),
    );
}

/// A value as it stands in a query string.
pub open spec fn in_query(value: Seq<char>) -> Seq<char> {
    query_bytes(encode_utf8(value))
}

/// A name and a value as they stand in a query string.
pub open spec fn pair_in_query(name: Seq<char>, value: Seq<char>) -> Seq<char> {
    in_query(name) + seq!['='] + in_query(value)
}

/// A deletion names the camera, the start and the end of the footage, in this order, and carries the
/// token of the session.
pub proof fn a_deletion_names_its_footage(
    client: &ProtectClient,
    camera_id: &str,
    start_ms: i64,
    end_ms: i64,
    result: Result<ApiRequest, ClientError>,
)
    requires
        call_ensures(
            ProtectClient::delete_video_range,
            (client, camera_id, start_ms, end_ms),
            result,
        ),
    ensures
        ({
            let url = resolved_url(client.controller@, "/proxy/protect/api/video"@);
            &&& result is Ok <==> url is Ok
            &&& result is Ok ==> is_request(
                result->Ok_0,
                client,
                Operation::DeleteVideoRange,
                Method::Delete,
                url->Ok_0 + seq!['?'] + (pair_in_query("camera"@, camera_id@) + seq!['&']
                    + pair_in_query("start"@, decimal(start_ms as int)) + seq!['&']
                    + pair_in_query("end"@, decimal(end_ms as int))),
                None,
                true,
            )
        }),
{
    let pairs = seq![
        ("camera"@, camera_id@),
        ("start"@, decimal(start_ms as int)),
        ("end"@, decimal(end_ms as int)),
    ];
    lemma_asks(
        client,
        result,
        Operation::DeleteVideoRange,
        Method::Delete,
        "/proxy/protect/api/video"@,
        Some(pairs),
        None,
    );
    lemma_three_pairs(pairs[0], pairs[1], pairs[2]);
    assert(pairs =~= seq![pairs[0], pairs[1], pairs[2]]);
}

proof fn lemma_three_pairs(
    a: (Seq<char>, Seq<char>),
    b: (Seq<char>, Seq<char>),
    c: (Seq<char>, Seq<char>),
)
    ensures
        query_text(seq![a, b, c]) == pair_in_query(a.0, a.1) + seq!['&'] + pair_in_query(b.0, b.1)
            + seq!['&'] + pair_in_query(c.0, c.1),
{
    assert(seq![a, b, c].drop_last() =~= seq![a, b]);
    assert(seq![a, b].drop_last() =~= seq![a]);
    assert(query_text(seq![a]) == pair_in_query(a.0, a.1));
    assert(query_text(seq![a, b]) == query_text(seq![a]) + seq!['&'] + pair_in_query(b.0, b.1));
}

/// Deletions that go to the same URL delete the same footage.
pub proof fn the_url_of_a_deletion_fixes_its_footage(
    client: &ProtectClient,
    camera_id: &str,
    start_ms: i64,
    end_ms: i64,
    other_camera_id: &str,
    other_start_ms: i64,
    other_end_ms: i64,
    result: Result<ApiRequest, ClientError>,
    other: Result<ApiRequest, ClientError>,
)
    requires
        call_ensures(
            ProtectClient::delete_video_range,
            (client, camera_id, start_ms, end_ms),
            result,
        ),
        call_ensures(
            ProtectClient::delete_video_range,
            (client, other_camera_id, other_start_ms, other_end_ms),
            other,
        ),
        result is Ok,
        other is Ok,
        result->Ok_0.url@ == other->Ok_0.url@,
    ensures
        camera_id@ == other_camera_id@,
        start_ms == other_start_ms,
        end_ms == other_end_ms,
{
    a_deletion_names_its_footage(client, camera_id, start_ms, end_ms, result);
    a_deletion_names_its_footage(client, other_camera_id, other_start_ms, other_end_ms, other);
    let url = resolved_url(client.controller@, "/proxy/protect/api/video"@)->Ok_0;
    let (a, b, c) = (camera_id@, decimal(start_ms as int), decimal(end_ms as int));
    let (d, e, f) = (other_camera_id@, decimal(other_start_ms as int), decimal(other_end_ms as int));
    lemma_pairs_read_back(url + seq!['?'], "camera"@, "start"@, "end"@, a, b, c, d, e, f);
    crate::formats::a_numeral_reads_back_as_its_number(start_ms as int);
    crate::formats::a_numeral_reads_back_as_its_number(end_ms as int);
    crate::formats::a_numeral_reads_back_as_its_number(other_start_ms as int);
    crate::formats::a_numeral_reads_back_as_its_number(other_end_ms as int);
}

proof fn lemma_skip_prefix(p: Seq<char>, x: Seq<char>, y: Seq<char>)
    requires
        p + x == p + y,
    ensures
        x == y,
{
    assert((p + x).skip(p.len() as int) =~= x);
    assert((p + y).skip(p.len() as int) =~= y);
}

proof fn lemma_pairs_nest(
    head: Seq<char>,
    k: Seq<char>,
    l: Seq<char>,
    m: Seq<char>,
    a: Seq<char>,
    b: Seq<char>,
    c: Seq<char>,
)
    ensures
        head + (pair_in_query(k, a) + seq!['&'] + pair_in_query(l, b) + seq!['&'] + pair_in_query(
            m,
            c,
        )) + seq!['&'] == (head + in_query(k) + seq!['=']) + (in_query(a) + (seq!['&'] + ((in_query(
            l,
        ) + seq!['=']) + (in_query(b) + (seq!['&'] + ((in_query(m) + seq!['=']) + (in_query(c) + (
        seq!['&'] + seq![])))))))),
{
    assert(head + (pair_in_query(k, a) + seq!['&'] + pair_in_query(l, b) + seq!['&']
        + pair_in_query(m, c)) + seq!['&'] =~= (head + in_query(k) + seq!['=']) + (in_query(a) + (
    seq!['&'] + ((in_query(l) + seq!['=']) + (in_query(b) + (seq!['&'] + ((in_query(m) + seq!['='])
        + (in_query(c) + (seq!['&'] + seq![])))))))));
}

proof fn lemma_pairs_read_back(
    head: Seq<char>,
    k: Seq<char>,
    l: Seq<char>,
    m: Seq<char>,
    a: Seq<char>,
    b: Seq<char>,
    c: Seq<char>,
    d: Seq<char>,
    e: Seq<char>,
    f: Seq<char>,
)
    requires
        head + (pair_in_query(k, a) + seq!['&'] + pair_in_query(l, b) + seq!['&'] + pair_in_query(
            m,
            c,
        )) == head + (pair_in_query(k, d) + seq!['&'] + pair_in_query(l, e) + seq!['&']
            + pair_in_query(m, f)),
    ensures
        a == d,
        b == e,
        c == f,
{
    lemma_pairs_nest(head, k, l, m, a, b, c);
    lemma_pairs_nest(head, k, l, m, d, e, f);
    let c_end = in_query(c) + (seq!['&'] + seq![]);
    let f_end = in_query(f) + (seq!['&'] + seq![]);
    let b_end = in_query(b) + (seq!['&'] + ((in_query(m) + seq!['=']) + c_end));
    let e_end = in_query(e) + (seq!['&'] + ((in_query(m) + seq!['=']) + f_end));
    let a_end = in_query(a) + (seq!['&'] + ((in_query(l) + seq!['=']) + b_end));
    let d_end = in_query(d) + (seq!['&'] + ((in_query(l) + seq!['=']) + e_end));
    lemma_skip_prefix(head + in_query(k) + seq!['='], a_end, d_end);
    a_query_value_reads_back(
        a,
        (in_query(l) + seq!['=']) + b_end,
        d,
        (in_query(l) + seq!['=']) + e_end,
    );
    lemma_skip_prefix(in_query(l) + seq!['='], b_end, e_end);
    a_query_value_reads_back(
        b,
        (in_query(m) + seq!['=']) + c_end,
        e,
        (in_query(m) + seq!['=']) + f_end,
    );
    lemma_skip_prefix(in_query(m) + seq!['='], c_end, f_end);
    a_query_value_reads_back(c, seq![], f, seq![]);
}

/// A query for events names the start, the end, the limit and the offset, asks for ascending order
/// and no descriptions, and then names each camera, each type of event and each type of detection.
pub proof fn an_event_query_names_everything_asked_for(
    client: &ProtectClient,
    query: &EventQuery,
    pairs: Seq<(Seq<char>, Seq<char>)>,
    result: Result<ApiRequest, ClientError>,
)
    requires
        call_ensures(ProtectClient::events, (client, query), result),
        ({
            let n = query.camera_ids@.len() as int;
            let m = query.event_types@.len() as int;
            let k = query.smart_detect_types@.len() as int;
            &&& pairs.len() == 6 + n + m + k
            &&& pairs[0] == ("start"@, decimal(query.start_ms as int))
            &&& pairs[1] == ("end"@, decimal(query.end_ms as int))
            &&& pairs[2] == ("limit"@, decimal(query.limit as int))
            &&& pairs[3] == ("offset"@, decimal(query.offset as int))
            &&& pairs[4] == ("orderDirection"@, "ASC"@)
            &&& pairs[5] == ("withoutDescriptions"@, "true"@)
            &&& forall|i: int|
                0 <= i < n ==> #[trigger] pairs[6 + i] == ("cameras"@, query.camera_ids@[i]@)
            &&& forall|i: int|
                0 <= i < m ==> #[trigger] pairs[6 + n + i] == (
                    "types"@,
                    query.event_types@[i]@,
                )
            &&& forall|i: int|
                0 <= i < k ==> #[trigger] pairs[6 + n + m + i] == (
                    "smartDetectTypes"@,
                    query.smart_detect_types@[i]@,
                )
        }),
    ensures
        ({
            let url = resolved_url(client.controller@, "/proxy/protect/api/events"@);
            &&& result is Ok <==> url is Ok
            &&& result is Ok ==> is_request(
                result->Ok_0,
                client,
                Operation::FetchEvents,
                Method::Get,
                url->Ok_0 + seq!['?'] + query_text(pairs),
                None,
                false,
            )
        }),
{
    let n = query.camera_ids@.len() as int;
    let m = query.event_types@.len() as int;
    let all = ProtectClient::event_pairs(query);
    assert forall|i: int| 0 <= i < pairs.len() implies pairs[i] == #[trigger] all[i] by {
        if i < 6 {
        } else if i < 6 + n {
            assert(pairs[6 + (i - 6)] == ("cameras"@, query.camera_ids@[i - 6]@));
        } else if i < 6 + n + m {
            assert(pairs[6 + n + (i - 6 - n)] == ("types"@, query.event_types@[i - 6 - n]@));
        } else {
            assert(pairs[6 + n + m + (i - 6 - n - m)] == (
                "smartDetectTypes"@,
                query.smart_detect_types@[i - 6 - n - m]@,
            ));
        }
    }
    assert(all =~= pairs);
    lemma_asks(
        client,
        result,
        Operation::FetchEvents,
        Method::Get,
        "/proxy/protect/api/events"@,
        Some(pairs),
        None,
    );
}

/// The API key, where there is one, goes with every request as it is.
pub proof fn the_api_key_goes_with_every_request(client: &ProtectClient, result: Vec<Header>)
    requires
        call_ensures(ProtectClient::default_headers, (client,), result),
    ensures
        client.api_key is None ==> result@.len() == 0,
        client.api_key is Some ==> result@.len() == 1 && result@[0].name@ == "x-api-key"@
            && result@[0].value@ == encode_utf8(client.api_key->0@),
{
    assert(header_views(result@).len() == result@.len());
    if result@.len() > 0 {
        assert(header_views(result@)[0] == (result@[0].name@, result@[0].value@));
    }
}

/// The token that a response hands out is that of its first header called `x-csrf-token` or, where
/// there is none, that of the first called `x-updated-csrf-token`.
pub proof fn the_token_is_that_of_the_first_token_header(
    headers: Seq<(Seq<char>, Seq<u8>)>,
    i: int,
)
    requires
        0 <= i < headers.len(),
    ensures
        headers[i].0 == "x-csrf-token"@ && (forall|k: int|
            0 <= k < i ==> (#[trigger] headers[k]).0 != "x-csrf-token"@) ==> token_in(headers)
            == Some(headers[i].1),
        headers[i].0 == "x-updated-csrf-token"@ && (forall|k: int|
            0 <= k < i ==> (#[trigger] headers[k]).0 != "x-updated-csrf-token"@) && (forall|k: int|
            0 <= k < headers.len() ==> (#[trigger] headers[k]).0 != "x-csrf-token"@) ==> token_in(
            headers,
        ) == Some(headers[i].1),
        (forall|k: int|
            0 <= k < headers.len() ==> (#[trigger] headers[k]).0 != "x-csrf-token"@ && headers[k].0
                != "x-updated-csrf-token"@) ==> token_in(headers) is None,
{
    let first = "x-csrf-token"@;
    let second = "x-updated-csrf-token"@;
    if headers[i].0 == first && (forall|k: int|
        0 <= k < i ==> (#[trigger] headers[k]).0 != first) {
        lemma_first_value(headers, first, i);
    }
    if forall|k: int| 0 <= k < headers.len() ==> (#[trigger] headers[k]).0 != first {
        lemma_no_value(headers, first);
        if headers[i].0 == second && (forall|k: int|
            0 <= k < i ==> (#[trigger] headers[k]).0 != second) {
            lemma_first_value(headers, second, i);
        }
    }
    if forall|k: int|
        0 <= k < headers.len() ==> (#[trigger] headers[k]).0 != first && headers[k].0 != second {
        lemma_no_value(headers, second);
    }
}

proof fn lemma_first_value(headers: Seq<(Seq<char>, Seq<u8>)>, name: Seq<char>, i: int)
    requires
        0 <= i < headers.len(),
        headers[i].0 == name,
        forall|k: int| 0 <= k < i ==> (#[trigger] headers[k]).0 != name,
    ensures
        first_value(headers, name) == Some(headers[i].1),
    decreases i,
{
    if i > 0 {
        let rest = headers.drop_first();
        assert(headers[0].0 != name);
        assert forall|k: int| 0 <= k < i - 1 implies (#[trigger] rest[k]).0 != name by {
            assert(headers[k + 1].0 != name);
        }
        lemma_first_value(rest, name, i - 1);
    }
}

proof fn lemma_no_value(headers: Seq<(Seq<char>, Seq<u8>)>, name: Seq<char>)
    requires
        forall|k: int| 0 <= k < headers.len() ==> (#[trigger] headers[k]).0 != name,
    ensures
        first_value(headers, name) is None,
    decreases headers.len(),
{
    if headers.len() > 0 {
        let rest = headers.drop_first();
        assert(headers[0].0 != name);
        assert forall|k: int| 0 <= k < rest.len() implies (#[trigger] rest[k]).0 != name by {
            assert(headers[k + 1].0 != name);
        }
        lemma_no_value(rest, name);
    }
}

/// Headers are taken in their order, with their names and their bytes.
pub proof fn headers_are_taken_as_they_are(headers: Seq<Header>, i: int)
    requires
        0 <= i < headers.len(),
    ensures
        header_views(headers).len() == headers.len(),
        header_views(headers)[i] == (headers[i].name@, headers[i].value@),
{
}

/// Whether a text holds another one.
pub open spec fn holds(text: Seq<char>, part: Seq<char>) -> bool {
    exists|at: int|
        0 <= at && at + part.len() <= text.len() && part == #[trigger] text.subrange(
            at,
            at + part.len() as int,
        )
}

/// A response succeeds exactly with a status from 200 to 299, and is rejected exactly with 401 or
/// 403. Any other status is reported, and with it the body, unless that is blank: of a login, only
/// that it needs a second factor, or else the redacted body; of anything else, the body as it is.
pub proof fn a_response_is_judged_by_its_status_and_body(
    operation: Operation,
    status: u16,
    body: &str,
    result: Result<(), ClientError>,
)
    requires
        100 <= status <= 999,
        call_ensures(ensure_success, (operation, status, body), result),
    ensures
        ({
            let rejected = status == 401 || status == 403;
            let failed = !(200 <= status <= 299) && !rejected;
            let blank = all_white(body@);
            let login = operation == Operation::Login;
            let mfa = login && holds(body@, "MFA_AUTH_REQUIRED"@);
            let line = decimal(status as int) + seq![' '] + status_reason(status);
            &&& result is Ok <==> 200 <= status <= 299
            &&& result is Err && result->Err_0 is Rejected <==> rejected
            &&& result is Err && result->Err_0 is Status <==> failed && blank
            &&& result is Err && result->Err_0 is MfaRequired <==> failed && !blank && mfa
            &&& result is Err && result->Err_0 is Failure <==> failed && !blank && !mfa
            &&& rejected ==> result->Err_0->Rejected_operation == operation
            &&& failed && blank ==> result->Err_0->Status_operation == operation
                && result->Err_0->Status_status@ == line
            &&& failed && !blank && !mfa ==> {
                &&& result->Err_0->Failure_operation == operation
                &&& result->Err_0->Failure_status@ == line
                &&& result->Err_0->detail@ == (if login {
                    redaction(json_value(body@))
                } else {
                    body@
                })
            }
        }),
{
    let part = "MFA_AUTH_REQUIRED"@;
    if crate::text::occurs(body@, part) {
        let at = choose|at: int| crate::text::occurs_at(body@, part, at);
        assert(part == body@.subrange(at, at + part.len() as int));
    }
    if holds(body@, part) {
        let at = choose|at: int|
            0 <= at && at + part.len() <= body@.len() && part == #[trigger] body@.subrange(
                at,
                at + part.len() as int,
            );
        assert(crate::text::occurs_at(body@, part, at));
    }
}

/// Each operation has its name in messages.
pub open spec fn called(operation: Operation) -> Seq<char> {
    match operation {
        Operation::Login => "login"@,
        Operation::Bootstrap => "bootstrap"@,
        Operation::VideoArchive => "video archive"@,
        Operation::DeleteVideoRange => "delete video range"@,
        Operation::FetchPendingArchives => "fetch pending video archives"@,
        Operation::FetchEvents => "fetch events"@,
    }
}

/// What is shown for an error of the client says what failed and why.
pub proof fn a_client_error_says_what_failed(error: &ClientError, result: String)
    requires
        call_ensures(ClientError::to_string, (error,), result),
    ensures
        error is InvalidController ==> result@ == "controller URL is not valid: "@
            + error->controller@,
        error is InvalidApiKey ==> result@ == "API key contains invalid header bytes"@,
        error is InvalidPath ==> result@ == "failed to build Protect URL "@ + error->path@ + ": "@
            + error->InvalidPath_reason@,
        error is Rejected ==> result@ == called(error->Rejected_operation)
            + " was rejected by Protect; check credentials and user permissions"@,
        error is Status ==> result@ == called(error->Status_operation) + " failed with HTTP "@
            + error->Status_status@,
        error is Failure ==> result@ == called(error->Failure_operation) + " failed with HTTP "@
            + error->Failure_status@ + ": "@ + error->detail@,
        error is MfaRequired ==> result@
            == "login requires MFA/SSO; use a local service account without MFA or an API key with the required site/app access"@,
{
}

/// What is shown for an error of a pass says what failed and why.
pub proof fn an_archive_error_says_what_failed(error: &ArchiveError, result: String)
    requires
        call_ensures(ArchiveError::to_string, (error,), result),
    ensures
        error is ZeroSegment ==> result@ == "segment_seconds must be greater than zero"@,
        error is MissingDestination ==> result@ == "archive_destination must be set"@,
        error is MissingHost ==> result@
            == "archive_host must be set for NAS/UniFi Drive archives"@,
        error is MissingSharedDrive ==> result@
            == "archive_shared_drive must be set for NAS/UniFi Drive archives"@,
        error is ReversedRange ==> result@ == "archive range start must be before end"@,
        error is DeleteWithoutWait ==> result@
            == "delete_after_archive requires wait_for_archive_completion = true"@,
        error is NoCameraMatched ==> result@
            == "none of the configured camera_ids matched Protect camera ids or names"@,
        error is ConvertTimestamp ==> result@ == "failed to convert timestamp"@,
        error is FormatTimestamp ==> result@ == "failed to format timestamp"@,
        error is MissingFileId ==> result@
            == "Protect archive response did not include a fileId; refusing to delete footage"@,
        error is ArchiveFailed ==> result@ == "archive task "@ + error->ArchiveFailed_file_id@
            + " failed"@,
        error is ArchiveCanceled ==> result@ == "archive task "@ + error->ArchiveCanceled_file_id@
            + " was canceled"@,
        error is DeleteFailed ==> result@ == "failed to delete archived footage for "@
            + error->camera_name@,
        error is RequestFailed ==> result@ == error->message@,
{
}

/// What is shown for an error of the command line or of the environment says what to mend.
pub proof fn a_command_line_error_says_what_to_mend(
    error: &CliError,
    result: String,
    missing: &ConfigError,
    missing_result: String,
)
    requires
        call_ensures(CliError::to_string, (error,), result),
        call_ensures(ConfigError::to_string, (missing,), missing_result),
    ensures
        error is OneBound ==> result@ == "--start and --end must be provided together"@,
        error is InvalidTimestamp ==> result@ == "failed to parse --"@ + error->label@
            + "; use RFC 3339 with a timezone"@,
        error is ConfigExists ==> result@ == error->path@
            + " already exists; pass --force to overwrite it"@,
        missing_result@ == "set $"@ + missing->api_key_env@ + " or $"@ + missing->variable@,
{
}

/// The token of a response is kept exactly of logins, archives and deletions.
pub proof fn the_token_is_renewed_by_logins_archives_and_deletions(operation: Operation)
    ensures
        operation.renews_token() <==> operation != Operation::Bootstrap && operation
            != Operation::FetchPendingArchives && operation != Operation::FetchEvents,
{
}

/// An error that something else caused tells what did.
pub proof fn an_error_tells_its_cause(
    error: &ClientError,
    archive_error: &ArchiveError,
    cli_error: &CliError,
    cause: Option<String>,
    archive_cause: Option<String>,
    cli_cause: Option<String>,
)
    requires
        call_ensures(ClientError::cause, (error,), cause),
        call_ensures(ArchiveError::cause, (archive_error,), archive_cause),
        call_ensures(CliError::cause, (cli_error,), cli_cause),
    ensures
        error is InvalidController ==> cause is Some && cause->0@
            == error->InvalidController_reason@,
        error is InvalidApiKey ==> cause is Some && cause->0@ == error->InvalidApiKey_reason@,
        archive_error is DeleteFailed ==> archive_cause is Some && archive_cause->0@
            == archive_error->reason@,
        archive_error is ConvertTimestamp && !(-377_705_116_800_999
            <= archive_error->ConvertTimestamp_timestamp_ms <= 253_402_300_799_999)
            ==> archive_cause is Some && archive_cause->0@ == "timestamp was not in range"@,
        cli_error is InvalidTimestamp ==> cli_cause is Some && cli_cause->0@ == cli_error->reason@,
{
}

} // verus!
