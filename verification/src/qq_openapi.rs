//! The QQBot OpenAPI client of the IM adapter: JSON requests, the access-token
//! exchange, the retry policy, and the calls behind the adapter's effects.
use vstd::prelude::*;
use vstd::string::*;

use crate::im_qqbot::{
    absolute_url, absolute_url_chars, authorization_header, token_fresh, AccessToken, HttpMethod, MediaChunk,
    QqAuthManager, QqIdSource, QqMediaProvider,
};
use crate::json::{
    json_get, json_str, json_u64, lemma_members_view, member_set, members_get, members_view,
    JsonValue, JsonView,
};
use crate::qqbot::{
    media_payload_error, payload_error_text, send_payload_error, InteractionAckPayload,
    MediaUploadPayload, QqBotConfig, QqScene, RecallMessagePayload, SendMessagePayload,
    UserShareLinkPayload,
};
use crate::text::{decimal, decimal_chars, is_blank, is_blank_chars};

verus! {

#[derive(Debug, PartialEq, Eq)]
pub struct QqHttpRequest {
    pub method: HttpMethod,
    pub url: String,
    pub headers: Vec<(String, String)>,
    pub body: Option<JsonValue>,
    pub binary_body: Option<Vec<u8>>,
}

#[derive(Debug, PartialEq, Eq)]
pub struct QqHttpResponse {
    pub status: u16,
    pub body: JsonValue,
}

#[derive(Debug, PartialEq, Eq)]
pub enum QqOpenApiError {
    Network(String),
    HttpStatus { status: u16, body: JsonValue },
    InvalidResponse(String),
    InvalidPayload(String),
    Media(String),
}

/// Sends HTTP requests; supplied by the adapter's user.
pub trait QqHttpClient {
    fn send(&mut self, request: QqHttpRequest) -> Result<QqHttpResponse, QqOpenApiError>;
}

/// An HTTP client with the record of the requests handed to it and the answers
/// it gave, oldest first.
pub struct RecordedHttpClient<H: QqHttpClient> {
    client: H,
    record: Ghost<Seq<(QqHttpRequest, Result<QqHttpResponse, QqOpenApiError>)>>,
}

impl<H: QqHttpClient> RecordedHttpClient<H> {
    /// The requests handed to the client, oldest first.
    pub closed spec fn sent(&self) -> Seq<QqHttpRequest> {
        self.record@.map_values(|e: (QqHttpRequest, Result<QqHttpResponse, QqOpenApiError>)| e.0)
    }

    /// The client's answers, each at the position of its request.
    pub closed spec fn answers(&self) -> Seq<Result<QqHttpResponse, QqOpenApiError>> {
        self.record@.map_values(|e: (QqHttpRequest, Result<QqHttpResponse, QqOpenApiError>)| e.1)
    }

    pub closed spec fn client(&self) -> H {
        self.client
    }

    /// Each request has its answer.
    pub proof fn lemma_aligned(&self)
        ensures
            self.sent().len() == self.answers().len(),
    {
    }

    /// Starts a record for `client`, with nothing sent yet.
    pub fn new(client: H) -> (r: Self)
        ensures
            r.sent() == Seq::<QqHttpRequest>::empty(),
            r.answers() == Seq::<Result<QqHttpResponse, QqOpenApiError>>::empty(),
            r.client() == client,
    {
        let r = RecordedHttpClient { client, record: Ghost(Seq::empty()) };
        assert(r.sent() =~= Seq::<QqHttpRequest>::empty());
        assert(r.answers() =~= Seq::<Result<QqHttpResponse, QqOpenApiError>>::empty());
        r
    }

    /// Hands `request` to the client and records it with the answer.
    pub fn send(&mut self, request: QqHttpRequest) -> (r: Result<QqHttpResponse, QqOpenApiError>)
        ensures
            final(self).sent() == old(self).sent().push(request),
            final(self).answers() == old(self).answers().push(r),
    {
        let ghost req = request;
        let answer = self.client.send(request);
        proof {
            self.record@ = self.record@.push((req, answer));
            assert(self.sent() =~= old(self).sent().push(req));
            assert(self.answers() =~= old(self).answers().push(answer));
        }
        answer
    }
}

/// `later` extends `earlier`.
pub open spec fn answers_extend(
    earlier: Seq<Result<QqHttpResponse, QqOpenApiError>>,
    later: Seq<Result<QqHttpResponse, QqOpenApiError>>,
) -> bool {
    earlier.len() <= later.len() && later.take(earlier.len() as int) == earlier
}

proof fn lemma_answers_push(
    a: Seq<Result<QqHttpResponse, QqOpenApiError>>,
    b: Seq<Result<QqHttpResponse, QqOpenApiError>>,
    x: Result<QqHttpResponse, QqOpenApiError>,
)
    requires
        answers_extend(a, b),
    ensures
        answers_extend(a, b.push(x)),
{
    assert(b.push(x).take(a.len() as int) =~= b.take(a.len() as int));
}

proof fn lemma_answers_trans(
    a: Seq<Result<QqHttpResponse, QqOpenApiError>>,
    b: Seq<Result<QqHttpResponse, QqOpenApiError>>,
    c: Seq<Result<QqHttpResponse, QqOpenApiError>>,
)
    requires
        answers_extend(a, b),
        answers_extend(b, c),
    ensures
        answers_extend(a, c),
{
    assert(c.take(a.len() as int) =~= b.take(a.len() as int));
}

/// The requests sent between two states of a client's record.
pub open spec fn sent_since(before: Seq<QqHttpRequest>, after: Seq<QqHttpRequest>) -> Seq<QqHttpRequest> {
    after.skip(before.len() as int)
}

/// `after` extends `before`.
pub open spec fn extends(before: Seq<QqHttpRequest>, after: Seq<QqHttpRequest>) -> bool {
    before.len() <= after.len() && after.take(before.len() as int) == before
}

/// `r` is the request that fetches an access token for `config`.
pub open spec fn is_token_request(r: QqHttpRequest, config: QqBotConfig) -> bool {
    &&& r.method == HttpMethod::Post
    &&& r.url == config.token_url
    &&& r.body matches Some(b) && token_body(b, config)
    &&& header_views(r.headers@) == seq![("Content-Type"@, "application/json"@)]
    &&& r.binary_body is None
}

/// `r` is one attempt of the OpenAPI call `method url body`: JSON with a bearer token.
pub open spec fn is_api_request(r: QqHttpRequest, method: HttpMethod, url: Seq<char>, body: JsonView) -> bool {
    &&& r.method == method
    &&& r.url@ == url
    &&& r.body matches Some(b) && b@ == body
    &&& r.binary_body is None
    &&& r.headers@.len() == 2
    &&& r.headers@[0].0@ == "Content-Type"@ && r.headers@[0].1@ == "application/json"@
    &&& r.headers@[1].0@ == "Authorization"@
}

/// Every request in `log` is a token request or an attempt of the call.
pub open spec fn call_log(log: Seq<QqHttpRequest>, config: QqBotConfig, method: HttpMethod, url: Seq<char>, body: JsonView) -> bool {
    forall|i: int|
        0 <= i < log.len() ==> is_token_request(#[trigger] log[i], config) || is_api_request(log[i], method, url, body)
}

/// A call that got its answer: token requests and attempts, the last an attempt.
pub open spec fn completed_call(log: Seq<QqHttpRequest>, config: QqBotConfig, method: HttpMethod, url: Seq<char>, body: JsonView) -> bool {
    call_log(log, config, method, url, body) && log.len() > 0 && is_api_request(log.last(), method, url, body)
}

pub open spec fn success_status(status: u16) -> bool {
    200 <= status < 300
}

/// Rate limiting and server errors are worth another attempt.
pub open spec fn status_retryable(status: u16) -> bool {
    status == 429 || status >= 500
}

pub open spec fn error_retryable(e: QqOpenApiError) -> bool {
    match e {
        QqOpenApiError::Network(_) => true,
        QqOpenApiError::HttpStatus { status, .. } => status_retryable(status),
        _ => false,
    }
}

proof fn lemma_call_log_push(
    start: Seq<QqHttpRequest>,
    log: Seq<QqHttpRequest>,
    x: QqHttpRequest,
    config: QqBotConfig,
    method: HttpMethod,
    url: Seq<char>,
    body: JsonView,
)
    requires
        extends(start, log),
        call_log(sent_since(start, log), config, method, url, body),
        is_token_request(x, config) || is_api_request(x, method, url, body),
    ensures
        extends(start, log.push(x)),
        call_log(sent_since(start, log.push(x)), config, method, url, body),
        sent_since(start, log.push(x)).len() > 0,
        sent_since(start, log.push(x)).last() == x,
{
    assert(sent_since(start, log.push(x)) =~= sent_since(start, log).push(x));
    assert(log.push(x).take(start.len() as int) =~= log.take(start.len() as int));
    let seg = sent_since(start, log.push(x));
    assert forall|i: int| 0 <= i < seg.len() implies is_token_request(#[trigger] seg[i], config) || is_api_request(
        seg[i],
        method,
        url,
        body,
    ) by {
        if i < seg.len() - 1 {
            assert(seg[i] == sent_since(start, log)[i]);
        }
    }
}

proof fn lemma_extends_push(start: Seq<QqHttpRequest>, log: Seq<QqHttpRequest>, x: QqHttpRequest)
    requires
        extends(start, log),
    ensures
        extends(start, log.push(x)),
{
    assert(log.push(x).take(start.len() as int) =~= log.take(start.len() as int));
}

proof fn lemma_extends_trans(a: Seq<QqHttpRequest>, b: Seq<QqHttpRequest>, c: Seq<QqHttpRequest>)
    requires
        extends(a, b),
        extends(b, c),
    ensures
        extends(a, c),
{
    assert(c.take(a.len() as int) =~= b.take(a.len() as int));
}

/// The answer `a` is a response with `status`.
pub open spec fn answered_with(a: Result<QqHttpResponse, QqOpenApiError>, status: u16) -> bool {
    a matches Ok(resp) && resp.status == status
}

/// Some answer from position `from` up to `to` is a 401.
pub open spec fn answered_401(answers: Seq<Result<QqHttpResponse, QqOpenApiError>>, from: int, to: int) -> bool {
    exists|k: int| from <= k < to && answered_with(#[trigger] answers[k], 401)
}

/// What an OpenAPI call's result says of the answers it got, the requests from
/// `start` on being the call's. It succeeds only when its last request was an
/// attempt of the call answered with a 2xx status, and hands back that answer's
/// body. When it fails right after an attempt, the failure is that attempt's: the
/// client's error, or the status and body of an answer that is not 2xx, except
/// that a first 401 on the last allowed attempt ends as `retry exhausted`.
pub open spec fn api_result(
    r: Result<JsonValue, QqOpenApiError>,
    start: int,
    sent: Seq<QqHttpRequest>,
    answers: Seq<Result<QqHttpResponse, QqOpenApiError>>,
    method: HttpMethod,
    url: Seq<char>,
    body: JsonView,
) -> bool {
    let attempted = sent.len() > start && is_api_request(sent.last(), method, url, body);
    &&& r matches Ok(b) ==> attempted && (answers.last() matches Ok(resp) && success_status(resp.status) && resp.body
        == b)
    &&& (r is Err && attempted) ==> match answers.last() {
        Ok(resp) => !success_status(resp.status) && (r == Err::<JsonValue, QqOpenApiError>(
            QqOpenApiError::HttpStatus { status: resp.status, body: resp.body },
        ) || (resp.status == 401 && !answered_401(answers, start, answers.len() - 1) && (r matches Err(
            QqOpenApiError::InvalidResponse(m),
        ) && m@ == "retry exhausted"@))),
        Err(e) => r == Err::<JsonValue, QqOpenApiError>(e),
    }
}

/// A call's success is a 2xx answer to its last request, whose body it hands back.
pub open spec fn answered_ok(
    r: Result<JsonValue, QqOpenApiError>,
    start: int,
    sent: Seq<QqHttpRequest>,
    answers: Seq<Result<QqHttpResponse, QqOpenApiError>>,
) -> bool {
    r matches Ok(b) ==> sent.len() > start && (answers.last() matches Ok(resp) && success_status(resp.status)
        && resp.body == b)
}

/// Every part upload (a PUT) among the requests at positions `start` up to `end`
/// was answered with a 2xx status.
pub open spec fn puts_accepted(
    sent: Seq<QqHttpRequest>,
    answers: Seq<Result<QqHttpResponse, QqOpenApiError>>,
    start: int,
    end: int,
) -> bool {
    forall|k: int|
        start <= k < end && (#[trigger] sent[k]).method == HttpMethod::Put ==> (answers[k] matches Ok(resp)
            && success_status(resp.status))
}

/// When the requests from `start` on end with a part upload, the result is that
/// upload's failure: the client's error, or the status and body of its answer,
/// which is not 2xx.
pub open spec fn ends_on_failed_put(
    r: Result<JsonValue, QqOpenApiError>,
    sent: Seq<QqHttpRequest>,
    answers: Seq<Result<QqHttpResponse, QqOpenApiError>>,
    start: int,
) -> bool {
    (sent.len() > start && sent.last().method == HttpMethod::Put) ==> match answers.last() {
        Ok(resp) => !success_status(resp.status) && r == Err::<JsonValue, QqOpenApiError>(
            QqOpenApiError::HttpStatus { status: resp.status, body: resp.body },
        ),
        Err(e) => r == Err::<JsonValue, QqOpenApiError>(e),
    }
}

proof fn lemma_posts_keep_puts_accepted(
    s0: Seq<QqHttpRequest>,
    a0: Seq<Result<QqHttpResponse, QqOpenApiError>>,
    s1: Seq<QqHttpRequest>,
    a1: Seq<Result<QqHttpResponse, QqOpenApiError>>,
    start: int,
    config: QqBotConfig,
    url: Seq<char>,
    body: JsonView,
)
    requires
        0 <= start <= s0.len(),
        puts_accepted(s0, a0, start, s0.len() as int),
        extends(s0, s1),
        answers_extend(a0, a1),
        s0.len() == a0.len(),
        s1.len() == a1.len(),
        call_log(sent_since(s0, s1), config, HttpMethod::Post, url, body),
    ensures
        puts_accepted(s1, a1, start, s1.len() as int),
        s1.len() > s0.len() ==> s1.last().method == HttpMethod::Post,
{
    let seg = sent_since(s0, s1);
    assert forall|k: int| s0.len() <= k < s1.len() implies (#[trigger] s1[k]).method == HttpMethod::Post by {
        assert(seg[k - s0.len()] == s1[k]);
        assert(is_token_request(seg[k - s0.len()], config) || is_api_request(seg[k - s0.len()], HttpMethod::Post, url, body));
    }
    assert forall|k: int| start <= k < s1.len() && (#[trigger] s1[k]).method == HttpMethod::Put implies (a1[k] matches Ok(
        resp,
    ) && success_status(resp.status)) by {
        if k < s0.len() {
            assert(s1.take(s0.len() as int)[k] == s0[k]);
            assert(a1.take(a0.len() as int)[k] == a0[k]);
        }
    }
    if s1.len() > s0.len() {
        assert(s1[s1.len() - 1].method == HttpMethod::Post);
    }
}

impl QqOpenApiError {
    /// Whether the failed request may be sent again.
    pub fn retryable(&self) -> (r: bool)
        ensures
            r == error_retryable(*self),
    {
        match self {
            QqOpenApiError::Network(_) => true,
            QqOpenApiError::HttpStatus { status, .. } => *status == 429 || *status >= 500,
            _ => false,
        }
    }
}

fn invalid_response(field: &str) -> (r: QqOpenApiError)
    ensures
        r matches QqOpenApiError::InvalidResponse(m) && m@ == field@,
{
    QqOpenApiError::InvalidResponse(String::from_str(field))
}

/// A header list as pairs of texts.
pub open spec fn header_views(headers: Seq<(String, String)>) -> Seq<(Seq<char>, Seq<char>)> {
    headers.map_values(|h: (String, String)| (h.0@, h.1@))
}

/// A request that carries `body` as JSON.
pub fn request_json(method: HttpMethod, url: String, body: JsonValue) -> (r: QqHttpRequest)
    ensures
        r.method == method,
        r.url == url,
        header_views(r.headers@) == seq![("Content-Type"@, "application/json"@)],
        r.body == Some(body),
        r.binary_body is None,
{
    let mut headers: Vec<(String, String)> = Vec::new();
    headers.push((String::from_str("Content-Type"), String::from_str("application/json")));
    assert(header_views(headers@) =~= seq![("Content-Type"@, "application/json"@)]);
    QqHttpRequest { method, url, headers, body: Some(body), binary_body: None }
}

/// The non-empty text of member `field`.
pub open spec fn text_field(body: JsonValue, field: Seq<char>) -> Option<Seq<char>> {
    match json_str(json_get(body, field)) {
        Some(s) => if s.len() > 0 {
            Some(s)
        } else {
            None
        },
        None => None,
    }
}

/// The non-empty text of member `field`; anything else is an invalid response.
pub fn json_field<'a>(body: &'a JsonValue, field: &str) -> (r: Result<&'a str, QqOpenApiError>)
    ensures
        match text_field(*body, field@) {
            Some(s) => r matches Ok(t) && t@ == s,
            None => r matches Err(QqOpenApiError::InvalidResponse(m)) && m@ == field@,
        },
{
    match body.get(field) {
        Some(v) => match v.as_str() {
            Some(s) => {
                if s.unicode_len() > 0 {
                    Ok(s)
                } else {
                    Err(invalid_response(field))
                }
            },
            None => Err(invalid_response(field)),
        },
        None => Err(invalid_response(field)),
    }
}

/// An upload answer must name the uploaded file.
fn ensure_file_info(body: &JsonValue) -> (r: Result<(), QqOpenApiError>)
    ensures
        text_field(*body, "file_info"@) is Some ==> r is Ok,
        text_field(*body, "file_info"@) is None ==> (r matches Err(QqOpenApiError::InvalidResponse(m)) && m@
            == "file_info"@),
{
    match json_field(body, "file_info") {
        Ok(_) => Ok(()),
        Err(e) => Err(e),
    }
}

/// Numbers a message body that has no `msg_seq` yet; other bodies are left as they are.
fn ensure_msg_seq(body: &mut JsonValue, msg_seq: u64)
    ensures
        match *old(body) {
            JsonValue::Object(m) => if members_get(m@, "msg_seq"@) is Some {
                *final(body) == *old(body)
            } else {
                *final(body) matches JsonValue::Object(n) && member_set(
                    m@,
                    n@,
                    "msg_seq"@,
                    JsonValue::Unsigned(msg_seq),
                )
            },
            _ => *final(body) == *old(body),
        },
{
    if body.is_object() && !body.contains_key("msg_seq") {
        body.insert(String::from_str("msg_seq"), JsonValue::Unsigned(msg_seq));
    }
}

/// The upload address of part `index`: the first part with that index that has one.
pub open spec fn part_url(part: JsonValue, index: u64) -> Option<Seq<char>> {
    if json_u64(json_get(part, "index"@)) == Some(index) {
        json_str(json_get(part, "presigned_url"@))
    } else {
        None
    }
}

pub open spec fn first_part_url(parts: Seq<JsonValue>, index: u64) -> Option<Seq<char>>
    decreases parts.len(),
{
    if parts.len() == 0 {
        None
    } else {
        match part_url(parts[0], index) {
            Some(u) => Some(u),
            None => first_part_url(parts.drop_first(), index),
        }
    }
}

/// The upload address of part `index` in an upload-prepare answer.
pub open spec fn presigned_url(prepare: JsonValue, index: u64) -> Option<Seq<char>> {
    match json_get(prepare, "parts"@) {
        Some(JsonValue::Array(parts)) => first_part_url(parts@, index),
        _ => None,
    }
}

fn presigned_url_for(prepare: &JsonValue, index: u64) -> (r: Result<String, QqOpenApiError>)
    ensures
        match presigned_url(*prepare, index) {
            Some(u) => r matches Ok(s) && s@ == u,
            None => r matches Err(QqOpenApiError::InvalidResponse(m)) && m@ == "parts.presigned_url"@,
        },
{
    let parts = match prepare.get("parts") {
        Some(v) => match v.as_array() {
            Some(parts) => parts,
            None => {
                return Err(invalid_response("parts.presigned_url"));
            },
        },
        None => {
            return Err(invalid_response("parts.presigned_url"));
        },
    };
    let mut k: usize = 0;
    assert(parts@.skip(0) =~= parts@);
    while k < parts.len()
        invariant
            0 <= k <= parts@.len(),
            presigned_url(*prepare, index) == first_part_url(parts@.skip(k as int), index),
        decreases parts@.len() - k,
    {
        assert(parts@.skip(k as int).drop_first() =~= parts@.skip(k + 1));
        assert(parts@.skip(k as int)[0] == parts@[k as int]);
        let part = &parts[k];
        let part_index = match part.get("index") {
            Some(v) => v.as_u64(),
            None => None,
        };
        if part_index == Some(index) {
            match part.get("presigned_url") {
                Some(v) => match v.as_str() {
                    Some(url) => {
                        return Ok(String::from_str(url));
                    },
                    None => {},
                },
                None => {},
            }
        }
        k = k + 1;
    }
    Err(invalid_response("parts.presigned_url"))
}

/// The body of the token request: the app id and the client secret.
pub open spec fn token_body(body: JsonValue, config: QqBotConfig) -> bool {
    &&& body is Object
    &&& json_get(body, "appId"@) == Some(JsonValue::Text(config.app_id))
    &&& json_get(body, "clientSecret"@) == Some(JsonValue::Text(config.client_secret))
}

/// The request that fetches an access token.
pub fn token_request(config: &QqBotConfig) -> (r: QqHttpRequest)
    ensures
        r.method == HttpMethod::Post,
        r.url == config.token_url,
        r.body matches Some(b) && token_body(b, *config),
        header_views(r.headers@) == seq![("Content-Type"@, "application/json"@)],
        r.binary_body is None,
{
    let mut body = JsonValue::empty_object();
    let ghost m0 = body->Object_0@;
    body.insert(String::from_str("appId"), JsonValue::Text(config.app_id.clone()));
    let ghost m1 = body->Object_0@;
    body.insert(String::from_str("clientSecret"), JsonValue::Text(config.client_secret.clone()));
    let ghost m2 = body->Object_0@;
    proof {
        crate::json::lemma_member_set(m0, m1, "appId"@, JsonValue::Text(config.app_id), "clientSecret"@);
        crate::json::lemma_member_set(
            m1,
            m2,
            "clientSecret"@,
            JsonValue::Text(config.client_secret),
            "appId"@,
        );
        reveal_strlit("appId");
        reveal_strlit("clientSecret");
        assert("clientSecret"@.len() != "appId"@.len());
    }
    request_json(HttpMethod::Post, config.token_url.clone(), body)
}

/// A token is handed out only from a 2xx answer.
pub open spec fn token_answer_accepted(a: Result<QqHttpResponse, QqOpenApiError>, r: Result<String, QqOpenApiError>) -> bool {
    r is Ok ==> (a matches Ok(resp) && success_status(resp.status))
}

impl QqAuthManager {
    /// Takes in the answer to a token request made at `current_step`: a 2xx answer
    /// with a non-empty `access_token` and an unsigned `expires_in` is cached and its
    /// token handed out; anything else is an error and the cache stays as it was.
    pub fn accept_token_response(&mut self, current_step: u64, response: Result<QqHttpResponse, QqOpenApiError>) -> (r:
        Result<String, QqOpenApiError>)
        ensures
            match response {
                Err(e) => r == Err::<String, QqOpenApiError>(e) && final(self).cached() == old(self).cached(),
                Ok(resp) => if !success_status(resp.status) {
                    r == Err::<String, QqOpenApiError>(
                        (QqOpenApiError::HttpStatus { status: resp.status, body: resp.body }),
                    ) && final(self).cached() == old(self).cached()
                } else if text_field(resp.body, "access_token"@) is None {
                    (r matches Err(QqOpenApiError::InvalidResponse(m)) && m@ == "access_token"@)
                        && final(self).cached() == old(self).cached()
                } else if json_u64(json_get(resp.body, "expires_in"@)) is None || current_step + json_u64(
                    json_get(resp.body, "expires_in"@),
                )->0 > u64::MAX {
                    (r matches Err(QqOpenApiError::InvalidResponse(m)) && m@ == "expires_in"@)
                        && final(self).cached() == old(self).cached()
                } else {
                    r matches Ok(s) && s@ == text_field(resp.body, "access_token"@)->0 && final(self).cached()
                        == Some(
                        (AccessToken {
                            token: s,
                            expires_at_step: (current_step + json_u64(json_get(resp.body, "expires_in"@))->0) as u64,
                        }),
                    )
                },
            },
    {
        let response = match response {
            Ok(resp) => resp,
            Err(e) => {
                return Err(e);
            },
        };
        if !(200 <= response.status && response.status < 300) {
            return Err(QqOpenApiError::HttpStatus { status: response.status, body: response.body });
        }
        let token = match json_field(&response.body, "access_token") {
            Ok(t) => String::from_str(t),
            Err(e) => {
                return Err(e);
            },
        };
        let expires_in = match response.body.get("expires_in") {
            Some(v) => match v.as_u64() {
                Some(n) => n,
                None => {
                    return Err(invalid_response("expires_in"));
                },
            },
            None => {
                return Err(invalid_response("expires_in"));
            },
        };
        if expires_in > u64::MAX - current_step {
            return Err(invalid_response("expires_in"));
        }
        self.store_token(token.clone(), current_step, expires_in);
        Ok(token)
    }

    /// The token for a request at `current_step`: the cached one while it is fresh,
    /// otherwise a new one fetched through `client`.
    pub fn bearer_token<H: QqHttpClient>(
        &mut self,
        config: &QqBotConfig,
        client: &mut RecordedHttpClient<H>,
        current_step: u64,
    ) -> (r:
        Result<String, QqOpenApiError>)
        ensures
            (old(self).cached() matches Some(t) && token_fresh(t, config.token_refresh_margin_secs, current_step))
                ==> r == Ok::<String, QqOpenApiError>(old(self).cached()->0.token) && final(self).cached() == old(
                self,
            ).cached(),
            r matches Ok(s) ==> (final(self).cached() matches Some(t) && t.token == s && t.expires_at_step
                >= current_step),
            r is Err ==> final(self).cached() == old(self).cached(),
            (old(self).cached() matches Some(t) && token_fresh(t, config.token_refresh_margin_secs, current_step))
                ==> final(client).sent() == old(client).sent(),
            !(old(self).cached() matches Some(t) && token_fresh(t, config.token_refresh_margin_secs, current_step))
                ==> (exists|req: QqHttpRequest|
                final(client).sent() == old(client).sent().push(req) && #[trigger] is_token_request(req, *config)),
            (old(self).cached() matches Some(t) && token_fresh(t, config.token_refresh_margin_secs, current_step))
                ==> final(client).answers() == old(client).answers(),
            !(old(self).cached() matches Some(t) && token_fresh(t, config.token_refresh_margin_secs, current_step))
                ==> (exists|a: Result<QqHttpResponse, QqOpenApiError>|
                final(client).answers() == old(client).answers().push(a) && (#[trigger] token_answer_accepted(a, r))),
    {
        match self.cached_token(config.token_refresh_margin_secs, current_step) {
            Some(token) => {
                return Ok(token);
            },
            None => {},
        }
        let request = token_request(config);
        let ghost sent_request = request;
        let response = client.send(request);
        let ghost answer = response;
        assert(is_token_request(sent_request, *config));
        let r = self.accept_token_response(current_step, response);
        assert(token_answer_accepted(answer, r));
        r
    }
}

/// How one attempt of an OpenAPI request ended.
#[derive(Clone, Copy, Debug, PartialEq, Eq, Structural)]
pub enum AttemptOutcome {
    /// The server answered with this status.
    Status(u16),
    /// The request failed before an answer; some failures are worth another attempt.
    Failure { retryable: bool },
}

/// What to do after an attempt.
#[derive(Clone, Copy, Debug, PartialEq, Eq, Structural)]
pub enum RetryAction {
    /// Hand the answer back.
    Return,
    /// Drop the token and try again with a new one.
    RefreshToken,
    /// Try again.
    Retry,
    /// Fail with what the attempt gave.
    GiveUp,
}

/// The retry policy: a 2xx answer is returned; the first 401 drops the token and
/// tries again; rate limiting, server errors and retryable failures are tried again
/// while attempts are left; anything else fails.
pub open spec fn retry_action(attempt: int, max_attempts: int, refreshed: bool, outcome: AttemptOutcome) -> RetryAction {
    match outcome {
        AttemptOutcome::Status(status) => if success_status(status) {
            RetryAction::Return
        } else if status == 401 && !refreshed {
            RetryAction::RefreshToken
        } else if status_retryable(status) && attempt < max_attempts {
            RetryAction::Retry
        } else {
            RetryAction::GiveUp
        },
        AttemptOutcome::Failure { retryable } => if retryable && attempt < max_attempts {
            RetryAction::Retry
        } else {
            RetryAction::GiveUp
        },
    }
}

pub fn decide_retry(attempt: u16, max_attempts: u16, refreshed: bool, outcome: AttemptOutcome) -> (r: RetryAction)
    ensures
        r == retry_action(attempt as int, max_attempts as int, refreshed, outcome),
{
    match outcome {
        AttemptOutcome::Status(status) => {
            if 200 <= status && status < 300 {
                RetryAction::Return
            } else if status == 401 && !refreshed {
                RetryAction::RefreshToken
            } else if (status == 429 || status >= 500) && attempt < max_attempts {
                RetryAction::Retry
            } else {
                RetryAction::GiveUp
            }
        },
        AttemptOutcome::Failure { retryable } => {
            if retryable && attempt < max_attempts {
                RetryAction::Retry
            } else {
                RetryAction::GiveUp
            }
        },
    }
}

/// How many requests the policy sends when its attempts, from `attempt` on, end with
/// `outcomes`; the attempts stop after `max_attempts`.
pub open spec fn requests_sent(attempt: int, max_attempts: int, refreshed: bool, outcomes: Seq<AttemptOutcome>) -> int
    decreases outcomes.len(),
{
    if outcomes.len() == 0 || attempt > max_attempts {
        0
    } else {
        match retry_action(attempt, max_attempts, refreshed, outcomes[0]) {
            RetryAction::RefreshToken => 1 + requests_sent(attempt + 1, max_attempts, true, outcomes.drop_first()),
            RetryAction::Retry => 1 + requests_sent(attempt + 1, max_attempts, refreshed, outcomes.drop_first()),
            _ => 1,
        }
    }
}

/// How many times the policy drops the token under the same outcomes.
pub open spec fn token_refreshes(attempt: int, max_attempts: int, refreshed: bool, outcomes: Seq<AttemptOutcome>) -> int
    decreases outcomes.len(),
{
    if outcomes.len() == 0 || attempt > max_attempts {
        0
    } else {
        match retry_action(attempt, max_attempts, refreshed, outcomes[0]) {
            RetryAction::RefreshToken => 1 + token_refreshes(attempt + 1, max_attempts, true, outcomes.drop_first()),
            RetryAction::Retry => token_refreshes(attempt + 1, max_attempts, refreshed, outcomes.drop_first()),
            _ => 0,
        }
    }
}

/// Whatever the answers, a request is sent at most `max_attempts` times, and the
/// token is dropped for a 401 at most once.
pub proof fn lemma_retry_bounded(attempt: int, max_attempts: int, refreshed: bool, outcomes: Seq<AttemptOutcome>)
    requires
        1 <= attempt,
    ensures
        requests_sent(attempt, max_attempts, refreshed, outcomes) <= if attempt <= max_attempts {
            max_attempts - attempt + 1
        } else {
            0
        },
        token_refreshes(attempt, max_attempts, refreshed, outcomes) <= if refreshed {
            0int
        } else {
            1int
        },
    decreases outcomes.len(),
{
    if outcomes.len() > 0 && attempt <= max_attempts {
        let rest = outcomes.drop_first();
        lemma_retry_bounded(attempt + 1, max_attempts, refreshed, rest);
        lemma_retry_bounded(attempt + 1, max_attempts, true, rest);
    }
}

/// The members an optional text adds to a body.
pub open spec fn optional_member(key: Seq<char>, value: Option<String>) -> Seq<(Seq<char>, JsonView)> {
    match value {
        Some(v) => seq![(key, JsonView::Text(v@))],
        None => Seq::empty(),
    }
}

/// The text of an optional string, or `default`.
pub open spec fn text_or(value: Option<String>, default: Seq<char>) -> Seq<char> {
    match value {
        Some(v) => v@,
        None => default,
    }
}

fn push_optional(members: &mut Vec<(String, JsonValue)>, key: &str, value: Option<String>)
    ensures
        members_view(final(members)@, final(members)@.len()) == members_view(old(members)@, old(members)@.len())
            + optional_member(key@, value),
{
    proof {
        lemma_members_view(old(members)@, old(members)@.len());
    }
    let ghost before = members@;
    match value {
        Some(v) => {
            members.push((String::from_str(key), JsonValue::Text(v)));
            proof {
                lemma_members_view(members@, members@.len());
                assert(members_view(members@, members@.len()) =~= members_view(before, before.len())
                    + optional_member(key@, value));
            }
        },
        None => {
            assert(members_view(before, before.len()) + optional_member(key@, value) =~= members_view(
                before,
                before.len(),
            ));
        },
    }
}

fn text_or_default(value: &Option<String>, default: &str) -> (r: String)
    ensures
        r@ == text_or(*value, default@),
{
    match value {
        Some(v) => v.clone(),
        None => String::from_str(default),
    }
}

/// One OpenAPI call: its method, its path below the API base, and its JSON body.
#[derive(Debug, PartialEq, Eq)]
pub struct OpenApiCall {
    pub method: HttpMethod,
    pub path: String,
    pub body: JsonValue,
}

/// The body that acknowledges an interaction.
pub fn interaction_ack_body(code: u8) -> (r: JsonValue)
    ensures
        r@ == JsonView::Object(seq![("code"@, JsonView::Unsigned(code as u64))]),
{
    let mut members: Vec<(String, JsonValue)> = Vec::new();
    members.push((String::from_str("code"), JsonValue::Unsigned(code as u64)));
    proof {
        lemma_members_view(members@, members@.len());
    }
    let r = JsonValue::Object(members);
    assert(members_view(members@, members@.len()) =~= seq![("code"@, JsonView::Unsigned(code as u64))]);
    r
}

/// The body that asks for a user share link.
pub fn share_link_body(callback_data: Option<String>) -> (r: JsonValue)
    ensures
        r@ == JsonView::Object(optional_member("callbackData"@, callback_data)),
{
    let mut members: Vec<(String, JsonValue)> = Vec::new();
    proof {
        lemma_members_view(members@, 0);
    }
    push_optional(&mut members, "callbackData", callback_data);
    assert(Seq::<(Seq<char>, JsonView)>::empty() + optional_member("callbackData"@, callback_data)
        =~= optional_member("callbackData"@, callback_data));
    JsonValue::Object(members)
}

/// The body that turns an upload id into a file.
pub fn upload_id_body(upload_id: &str) -> (r: JsonValue)
    ensures
        r@ == JsonView::Object(seq![("upload_id"@, JsonView::Text(upload_id@))]),
{
    let mut members: Vec<(String, JsonValue)> = Vec::new();
    members.push((String::from_str("upload_id"), JsonValue::Text(String::from_str(upload_id))));
    proof {
        lemma_members_view(members@, members@.len());
    }
    assert(members_view(members@, members@.len()) =~= seq![("upload_id"@, JsonView::Text(upload_id@))]);
    JsonValue::Object(members)
}

/// The body of a direct upload from a URL or inline data.
pub open spec fn direct_upload_view(p: MediaUploadPayload) -> JsonView {
    JsonView::Object(
        seq![
            ("file_type"@, JsonView::Unsigned(p.file_type as u64)),
            ("srv_send_msg"@, JsonView::Bool(p.srv_send_msg == Some(true))),
        ] + optional_member("url"@, p.url) + optional_member("file_data"@, p.file_data) + optional_member(
            "file_name"@,
            p.file_name,
        ),
    )
}

pub fn direct_upload_body(payload: &MediaUploadPayload) -> (r: JsonValue)
    ensures
        r@ == direct_upload_view(*payload),
{
    let mut members: Vec<(String, JsonValue)> = Vec::new();
    let send = match payload.srv_send_msg {
        Some(b) => b,
        None => false,
    };
    members.push((String::from_str("file_type"), JsonValue::Unsigned(payload.file_type as u64)));
    members.push((String::from_str("srv_send_msg"), JsonValue::Bool(send)));
    proof {
        lemma_members_view(members@, members@.len());
    }
    let ghost base = members_view(members@, members@.len());
    assert(base =~= seq![
        ("file_type"@, JsonView::Unsigned(payload.file_type as u64)),
        ("srv_send_msg"@, JsonView::Bool(payload.srv_send_msg == Some(true))),
    ]);
    push_optional(&mut members, "url", payload.url.clone());
    push_optional(&mut members, "file_data", payload.file_data.clone());
    push_optional(&mut members, "file_name", payload.file_name.clone());
    JsonValue::Object(members)
}

/// The body that prepares a chunked upload.
pub open spec fn upload_prepare_view(p: MediaUploadPayload) -> JsonView {
    JsonView::Object(
        seq![
            ("file_type"@, JsonView::Unsigned(p.file_type as u64)),
            ("file_name"@, JsonView::Text(text_or(p.file_name, "media.bin"@))),
            ("file_size"@, JsonView::Unsigned(
                match p.file_size {
                    Some(n) => n,
                    None => 0,
                },
            )),
            ("md5"@, JsonView::Text(text_or(p.md5, ""@))),
            ("sha1"@, JsonView::Text(text_or(p.sha1, ""@))),
            ("md5_10m"@, JsonView::Text(text_or(p.md5_10m, ""@))),
        ],
    )
}

pub fn upload_prepare_body(payload: &MediaUploadPayload) -> (r: JsonValue)
    ensures
        r@ == upload_prepare_view(*payload),
{
    let mut members: Vec<(String, JsonValue)> = Vec::new();
    let size = match payload.file_size {
        Some(n) => n,
        None => 0,
    };
    members.push((String::from_str("file_type"), JsonValue::Unsigned(payload.file_type as u64)));
    members.push(
        (String::from_str("file_name"), JsonValue::Text(text_or_default(&payload.file_name, "media.bin"))),
    );
    members.push((String::from_str("file_size"), JsonValue::Unsigned(size)));
    members.push((String::from_str("md5"), JsonValue::Text(text_or_default(&payload.md5, ""))));
    members.push((String::from_str("sha1"), JsonValue::Text(text_or_default(&payload.sha1, ""))));
    members.push((String::from_str("md5_10m"), JsonValue::Text(text_or_default(&payload.md5_10m, ""))));
    proof {
        lemma_members_view(members@, members@.len());
    }
    assert(members_view(members@, members@.len()) =~= upload_prepare_view(*payload)->Object_0);
    JsonValue::Object(members)
}

/// The body that reports one uploaded part.
pub open spec fn part_finish_view(upload_id: Seq<char>, index: u64, block_size: u64, md5: Seq<char>) -> JsonView {
    JsonView::Object(
        seq![
            ("upload_id"@, JsonView::Text(upload_id)),
            ("part_index"@, JsonView::Unsigned(index)),
            ("block_size"@, JsonView::Unsigned(block_size)),
            ("md5"@, JsonView::Text(md5)),
        ],
    )
}

pub fn part_finish_body(upload_id: &str, index: u64, block_size: u64, md5: &str) -> (r: JsonValue)
    ensures
        r@ == part_finish_view(upload_id@, index, block_size, md5@),
{
    let mut members: Vec<(String, JsonValue)> = Vec::new();
    members.push((String::from_str("upload_id"), JsonValue::Text(String::from_str(upload_id))));
    members.push((String::from_str("part_index"), JsonValue::Unsigned(index)));
    members.push((String::from_str("block_size"), JsonValue::Unsigned(block_size)));
    members.push((String::from_str("md5"), JsonValue::Text(String::from_str(md5))));
    proof {
        lemma_members_view(members@, members@.len());
    }
    assert(members_view(members@, members@.len()) =~= part_finish_view(upload_id@, index, block_size, md5@)->Object_0);
    JsonValue::Object(members)
}

/// The request that puts one part's bytes to its upload address.
pub fn part_upload_request(url: String, bytes: Vec<u8>) -> (r: QqHttpRequest)
    ensures
        r.method == HttpMethod::Put,
        r.url == url,
        header_views(r.headers@) == seq![("Content-Length"@, decimal_chars(bytes@.len()))],
        r.body is None,
        r.binary_body == Some(bytes),
{
    let mut headers: Vec<(String, String)> = Vec::new();
    headers.push((String::from_str("Content-Length"), decimal(bytes.len() as u64)));
    assert(header_views(headers@) =~= seq![("Content-Length"@, decimal_chars(bytes@.len()))]);
    QqHttpRequest { method: HttpMethod::Put, url, headers, body: None, binary_body: Some(bytes) }
}

/// What an upload-prepare answer must carry: a non-empty upload id and the
/// block size, as an unsigned number.
pub fn prepare_reply(prepare: &JsonValue) -> (r: Result<(String, u64), QqOpenApiError>)
    ensures
        match text_field(*prepare, "upload_id"@) {
            None => r matches Err(QqOpenApiError::InvalidResponse(m)) && m@ == "upload_id"@,
            Some(u) => match json_u64(json_get(*prepare, "block_size"@)) {
                Some(b) => r matches Ok((s, n)) && s@ == u && n == b,
                None => r matches Err(QqOpenApiError::InvalidResponse(m)) && m@ == "block_size"@,
            },
        },
{
    let upload_id = String::from_str(json_field(prepare, "upload_id")?);
    let block_size = match prepare.get("block_size") {
        Some(v) => match v.as_u64() {
            Some(n) => n,
            None => {
                return Err(invalid_response("block_size"));
            },
        },
        None => {
            return Err(invalid_response("block_size"));
        },
    };
    Ok((upload_id, block_size))
}

/// One part of an upload: the request that puts its bytes to its address, and
/// the body that reports it afterwards.
pub struct UploadStep {
    pub put: QqHttpRequest,
    pub finish: JsonValue,
}

/// The parts of an upload in the order they were read. Where a part has no
/// upload address the steps stop before it, and `missing` holds the error.
pub struct UploadPlan {
    pub steps: Vec<UploadStep>,
    pub missing: Option<QqOpenApiError>,
}

/// `step` uploads and reports `chunk` at the address the prepare answer gives it.
pub open spec fn planned_step(
    step: UploadStep,
    prepare: JsonValue,
    upload_id: Seq<char>,
    block_size: u64,
    chunk: MediaChunk,
) -> bool {
    &&& step.put.method == HttpMethod::Put
    &&& presigned_url(prepare, chunk.index) matches Some(u) && step.put.url@ == u
    &&& header_views(step.put.headers@) == seq![("Content-Length"@, decimal_chars(chunk.bytes@.len()))]
    &&& step.put.body is None
    &&& step.put.binary_body == Some(chunk.bytes)
    &&& step.finish@ == part_finish_view(upload_id, chunk.index, block_size, chunk.md5@)
}

/// Part `i` of the record starts at `bounds[i]` with its upload request, and the
/// completed call that reports it runs to the next part's start.
pub open spec fn parts_at(
    log: Seq<QqHttpRequest>,
    bounds: Seq<int>,
    puts: Seq<QqHttpRequest>,
    reports: Seq<JsonView>,
    config: QqBotConfig,
    url: Seq<char>,
) -> bool {
    &&& bounds.len() == puts.len() + 1
    &&& reports.len() == puts.len()
    &&& bounds[0] == 0
    &&& bounds.last() == log.len()
    &&& forall|i: int| 0 <= i < puts.len() ==> #[trigger] part_at(log, bounds, puts, reports, config, url, i)
}

/// Part `i` of the record: its upload request at `bounds[i]`, then its report.
pub open spec fn part_at(
    log: Seq<QqHttpRequest>,
    bounds: Seq<int>,
    puts: Seq<QqHttpRequest>,
    reports: Seq<JsonView>,
    config: QqBotConfig,
    url: Seq<char>,
    i: int,
) -> bool {
    &&& 0 <= bounds[i] < bounds[i + 1] <= log.len()
    &&& log[bounds[i]] == puts[i]
    &&& completed_call(log.subrange(bounds[i] + 1, bounds[i + 1]), config, HttpMethod::Post, url, reports[i])
}

/// The record of uploaded parts: for each part, its upload request, then the
/// completed call that reports it.
pub open spec fn parts_log(
    log: Seq<QqHttpRequest>,
    puts: Seq<QqHttpRequest>,
    reports: Seq<JsonView>,
    config: QqBotConfig,
    url: Seq<char>,
) -> bool {
    exists|bounds: Seq<int>| #[trigger] parts_at(log, bounds, puts, reports, config, url)
}

proof fn lemma_parts_log_empty(log: Seq<QqHttpRequest>, config: QqBotConfig, url: Seq<char>)
    requires
        log.len() == 0,
    ensures
        parts_log(log, Seq::empty(), Seq::empty(), config, url),
{
    assert(parts_at(log, seq![0int], Seq::empty(), Seq::empty(), config, url));
}

proof fn lemma_parts_log_extend(
    log: Seq<QqHttpRequest>,
    log2: Seq<QqHttpRequest>,
    p0: int,
    put: QqHttpRequest,
    puts: Seq<QqHttpRequest>,
    reports: Seq<JsonView>,
    report: JsonView,
    config: QqBotConfig,
    url: Seq<char>,
)
    requires
        0 <= p0 <= log.len(),
        extends(log.push(put), log2),
        parts_log(log.subrange(p0, log.len() as int), puts, reports, config, url),
        completed_call(sent_since(log.push(put), log2), config, HttpMethod::Post, url, report),
    ensures
        parts_log(log2.subrange(p0, log2.len() as int), puts.push(put), reports.push(report), config, url),
{
    let x = log.subrange(p0, log.len() as int);
    let y = log2.subrange(p0, log2.len() as int);
    let bounds = choose|bounds: Seq<int>| #[trigger] parts_at(x, bounds, puts, reports, config, url);
    let b2 = bounds.push(y.len() as int);
    let p2 = puts.push(put);
    let r2 = reports.push(report);
    assert forall|i: int| 0 <= i < log.len() implies log2[i] == log[i] by {
        assert(log2.take(log.len() + 1 as int)[i] == log.push(put)[i]);
    }
    assert(log2.take(log.len() + 1 as int)[log.len() as int] == log.push(put)[log.len() as int]);
    assert forall|i: int| 0 <= i < p2.len() implies #[trigger] part_at(y, b2, p2, r2, config, url, i) by {
        if i < puts.len() {
            assert(part_at(x, bounds, puts, reports, config, url, i));
            assert(puts[i] == p2[i]);
            assert(y.subrange(bounds[i] + 1, bounds[i + 1]) =~= x.subrange(bounds[i] + 1, bounds[i + 1]));
        } else {
            assert(y.subrange(x.len() + 1 as int, y.len() as int) =~= sent_since(log.push(put), log2));
        }
    }
    assert(b2.len() == p2.len() + 1);
    assert(r2.len() == p2.len());
    assert(b2[0] == bounds[0]);
    assert(b2.last() == y.len());
    assert(b2[0] == 0);
    assert(parts_at(y, b2, p2, r2, config, url));
}

/// The upload requests of a plan's steps, in order.
pub open spec fn step_puts(steps: Seq<UploadStep>) -> Seq<QqHttpRequest> {
    steps.map_values(|s: UploadStep| s.put)
}

/// The part reports of a plan's steps, in order.
pub open spec fn step_reports(steps: Seq<UploadStep>) -> Seq<JsonView> {
    steps.map_values(|s: UploadStep| s.finish@)
}

/// The address of a scene target's OpenAPI path under the configured base.
pub open spec fn scene_url_of(config: QqBotConfig, scene: QqScene, target_openid: Seq<char>, suffix: Seq<char>) -> Seq<char> {
    absolute_url_chars(config.openapi_base_url@, scene.target_prefix() + target_openid + suffix)
}

/// The address of an upload's OpenAPI path under the configured base.
pub open spec fn scene_url(config: QqBotConfig, p: MediaUploadPayload, suffix: Seq<char>) -> Seq<char> {
    scene_url_of(config, p.scene, p.target_openid@, suffix)
}

/// The requests of a chunked upload, with the prepare answer, the parts read and
/// the plan: the completed prepare call, then each planned part's upload request
/// and its completed report, then the completed call that exchanges the upload id.
pub open spec fn upload_record(
    log: Seq<QqHttpRequest>,
    config: QqBotConfig,
    payload: MediaUploadPayload,
    m1: int,
    m2: int,
    prepare: JsonValue,
    chunks: Seq<MediaChunk>,
    steps: Seq<UploadStep>,
) -> bool {
    &&& 0 <= m1 <= m2 <= log.len()
    &&& completed_call(
        log.take(m1),
        config,
        HttpMethod::Post,
        scene_url(config, payload, "/upload_prepare"@),
        upload_prepare_view(payload),
    )
    &&& text_field(prepare, "upload_id"@) is Some
    &&& json_u64(json_get(prepare, "block_size"@)) is Some
    &&& steps.len() == chunks.len()
    &&& forall|i: int|
        0 <= i < steps.len() ==> planned_step(
            #[trigger] steps[i],
            prepare,
            text_field(prepare, "upload_id"@)->0,
            json_u64(json_get(prepare, "block_size"@))->0,
            chunks[i],
        )
    &&& parts_log(
        log.subrange(m1, m2),
        step_puts(steps),
        step_reports(steps),
        config,
        scene_url(config, payload, "/upload_part_finish"@),
    )
    &&& completed_call(
        log.skip(m2),
        config,
        HttpMethod::Post,
        scene_url(config, payload, "/files"@),
        JsonView::Object(seq![("upload_id"@, JsonView::Text(text_field(prepare, "upload_id"@)->0))]),
    )
}

/// The steps that upload `chunks` one after another, up to the first part the
/// prepare answer has no address for.
pub fn chunk_plan(prepare: &JsonValue, upload_id: &str, block_size: u64, chunks: Vec<MediaChunk>) -> (r: UploadPlan)
    ensures
        r.steps@.len() <= chunks@.len(),
        forall|i: int|
            0 <= i < r.steps@.len() ==> planned_step(
                #[trigger] r.steps@[i],
                *prepare,
                upload_id@,
                block_size,
                chunks@[i],
            ),
        r.missing is Some <==> r.steps@.len() < chunks@.len(),
        r.missing is Some ==> presigned_url(*prepare, chunks@[r.steps@.len() as int].index) is None && (
        r.missing matches Some(QqOpenApiError::InvalidResponse(m)) && m@ == "parts.presigned_url"@),
{
    let ghost all = chunks@;
    let mut remaining = chunks;
    let mut steps: Vec<UploadStep> = Vec::new();
    let n = remaining.len();
    assert(all.skip(0) =~= all);
    while steps.len() < n
        invariant
            steps@.len() <= n == all.len(),
            all == chunks@,
            remaining@ == all.skip(steps@.len() as int),
            forall|i: int|
                0 <= i < steps@.len() ==> planned_step(
                    #[trigger] steps@[i],
                    *prepare,
                    upload_id@,
                    block_size,
                    all[i],
                ),
        decreases n - steps@.len(),
    {
        let ghost k = steps@.len() as int;
        let chunk = remaining.remove(0);
        assert(chunk == all[k]);
        assert(remaining@ =~= all.skip(k + 1));
        let url = match presigned_url_for(prepare, chunk.index) {
            Ok(u) => u,
            Err(e) => {
                return UploadPlan { steps, missing: Some(e) };
            },
        };
        let finish = part_finish_body(upload_id, chunk.index, block_size, chunk.md5.as_str());
        let put = part_upload_request(url, chunk.bytes);
        steps.push(UploadStep { put, finish });
    }
    UploadPlan { steps, missing: None }
}

/// The answer to a part's upload: a 2xx status accepts it, any other status is
/// the upload's error, carrying the status and the body.
pub fn check_chunk_put(response: QqHttpResponse) -> (r: Result<(), QqOpenApiError>)
    ensures
        r is Ok <==> success_status(response.status),
        r is Err ==> r == Err::<(), QqOpenApiError>(
            QqOpenApiError::HttpStatus { status: response.status, body: response.body },
        ),
{
    if 200 <= response.status && response.status < 300 {
        Ok(())
    } else {
        Err(QqOpenApiError::HttpStatus { status: response.status, body: response.body })
    }
}

/// The HTTP client and the media reader the service works with.
pub struct QqBotClients<H: QqHttpClient, M: QqMediaProvider> {
    pub http: H,
    pub media: M,
}

impl<H: QqHttpClient, M: QqMediaProvider> QqBotClients<H, M> {
    pub fn new(http: H, media: M) -> (r: Self)
        ensures
            r.http == http,
            r.media == media,
    {
        QqBotClients { http, media }
    }
}

/// The OpenAPI calls behind the adapter's effects, with token handling and retries.
pub struct QqOpenApiService<H: QqHttpClient, M: QqMediaProvider, I: QqIdSource> {
    config: QqBotConfig,
    auth: QqAuthManager,
    http: RecordedHttpClient<H>,
    media: M,
    id_source: I,
}

impl<H: QqHttpClient, M: QqMediaProvider, I: QqIdSource> QqOpenApiService<H, M, I> {
    pub closed spec fn config(&self) -> QqBotConfig {
        self.config
    }

    pub closed spec fn auth(&self) -> QqAuthManager {
        self.auth
    }

    /// The requests the service has handed to its HTTP client, oldest first.
    pub closed spec fn sent(&self) -> Seq<QqHttpRequest> {
        self.http.sent()
    }

    /// The HTTP client's answers, each at the position of its request.
    pub closed spec fn answers(&self) -> Seq<Result<QqHttpResponse, QqOpenApiError>> {
        self.http.answers()
    }

    pub fn new(config: QqBotConfig, clients: QqBotClients<H, M>, id_source: I) -> (r: Self)
        ensures
            r.config() == config,
            r.auth().cached() is None,
            r.sent() == Seq::<QqHttpRequest>::empty(),
    {
        let QqBotClients { http, media } = clients;
        QqOpenApiService { config, auth: QqAuthManager::new(), http: RecordedHttpClient::new(http), media, id_source }
    }

    /// Sends one JSON call under the retry policy: each attempt carries a bearer
    /// token, the first 401 drops the token, and at most
    /// `max(1, max_retry_attempts)` attempts are made.
    fn execute_openapi_json(&mut self, method: HttpMethod, path: String, body: JsonValue, current_step: u64) -> (r:
        Result<JsonValue, QqOpenApiError>)
        ensures
            final(self).config == old(self).config,
            r is Ok ==> (final(self).auth.cached() matches Some(t) && t.expires_at_step >= current_step),
            extends(old(self).http.sent(), final(self).http.sent()),
            call_log(
                sent_since(old(self).http.sent(), final(self).http.sent()),
                old(self).config,
                method,
                absolute_url_chars(old(self).config.openapi_base_url@, path@),
                body@,
            ),
            r is Ok ==> completed_call(
                sent_since(old(self).http.sent(), final(self).http.sent()),
                old(self).config,
                method,
                absolute_url_chars(old(self).config.openapi_base_url@, path@),
                body@,
            ),
            final(self).http.sent().len() > old(self).http.sent().len(),
            answers_extend(old(self).http.answers(), final(self).http.answers()),
            api_result(
                r,
                old(self).http.sent().len() as int,
                final(self).http.sent(),
                final(self).http.answers(),
                method,
                absolute_url_chars(old(self).config.openapi_base_url@, path@),
                body@,
            ),
    {
        let ghost start = self.http.sent();
        let ghost start_answers = self.http.answers();
        proof {
            self.http.lemma_aligned();
            assert(start_answers.take(start_answers.len() as int) =~= start_answers);
        }
        let ghost mut last_refresh = false;
        let url = absolute_url(self.config.openapi_base_url.as_str(), path.as_str());
        proof {
            assert(start.take(start.len() as int) =~= start);
            assert(sent_since(start, start) =~= Seq::<QqHttpRequest>::empty());
        }
        let max_attempts: u16 = if self.config.max_retry_attempts > 1 {
            self.config.max_retry_attempts as u16
        } else {
            1
        };
        let mut refreshed = false;
        let mut attempt: u16 = 1;
        while attempt <= max_attempts
            invariant
                1 <= attempt <= max_attempts + 1,
                max_attempts <= 255,
                self.config == old(self).config,
                start == old(self).http.sent(),
                url@ == absolute_url_chars(self.config.openapi_base_url@, path@),
                extends(start, self.http.sent()),
                call_log(sent_since(start, self.http.sent()), self.config, method, url@, body@),
                start_answers == old(self).http.answers(),
                start.len() == start_answers.len(),
                answers_extend(start_answers, self.http.answers()),
                self.http.sent().len() == self.http.answers().len(),
                refreshed <==> answered_401(self.http.answers(), start.len() as int, self.http.answers().len() as int),
                attempt > 1 ==> self.http.sent().len() > start.len(),
                attempt > 1 && !last_refresh ==> attempt <= max_attempts,
                attempt > 1 && last_refresh ==> self.http.sent().len() > start.len() && is_api_request(
                    self.http.sent().last(),
                    method,
                    url@,
                    body@,
                ) && answered_with(self.http.answers().last(), 401) && !answered_401(
                    self.http.answers(),
                    start.len() as int,
                    self.http.answers().len() - 1,
                ),
            decreases max_attempts + 1 - attempt,
        {
            let ghost before_token = self.http.sent();
            let ghost answers_before_token = self.http.answers();
            let token = match self.auth.bearer_token(&self.config, &mut self.http, current_step) {
                Ok(t) => t,
                Err(e) => {
                    proof {
                        let req = choose|req: QqHttpRequest|
                            self.http.sent() == before_token.push(req) && #[trigger] is_token_request(req, self.config);
                        lemma_call_log_push(start, before_token, req, self.config, method, url@, body@);
                        let a = choose|a: Result<QqHttpResponse, QqOpenApiError>|
                            self.http.answers() == answers_before_token.push(a) && (#[trigger] token_answer_accepted(a, Err::<String, QqOpenApiError>(e)));
                        lemma_answers_push(start_answers, answers_before_token, a);
                        assert(header_views(req.headers@).len() == 1);
                        assert(!is_api_request(self.http.sent().last(), method, url@, body@));
                    }
                    return Err(e);
                },
            };
            proof {
                if self.http.sent() != before_token {
                    let req = choose|req: QqHttpRequest|
                        self.http.sent() == before_token.push(req) && #[trigger] is_token_request(req, self.config);
                    lemma_call_log_push(start, before_token, req, self.config, method, url@, body@);
                    let a = choose|a: Result<QqHttpResponse, QqOpenApiError>|
                        self.http.answers() == answers_before_token.push(a) && (#[trigger] token_answer_accepted(a, Ok::<String, QqOpenApiError>(token)));
                    lemma_answers_push(start_answers, answers_before_token, a);
                    assert(!answered_with(a, 401));
                    assert(answered_401(self.http.answers(), start.len() as int, self.http.answers().len() as int)
                        == answered_401(answers_before_token, start.len() as int, answers_before_token.len() as int)) by {
                        let n = answers_before_token.len() as int;
                        if answered_401(self.http.answers(), start.len() as int, self.http.answers().len() as int) {
                            let k = choose|k: int| start.len() <= k < self.http.answers().len() && answered_with(#[trigger] self.http.answers()[k], 401);
                            assert(k != n);
                            assert(answers_before_token[k] == self.http.answers()[k]);
                        }
                        if answered_401(answers_before_token, start.len() as int, n) {
                            let k = choose|k: int| start.len() <= k < n && answered_with(#[trigger] answers_before_token[k], 401);
                            assert(answers_before_token[k] == self.http.answers()[k]);
                        }
                    }
                } else {
                    assert(self.http.answers() == answers_before_token);
                }
            }
            let ghost answers_before_send = self.http.answers();
            let mut request = request_json(method, url.clone(), body.copy());
            let ghost h0 = request.headers@;
            proof {
                assert(header_views(h0).len() == 1);
                assert(header_views(h0)[0] == (h0[0].0@, h0[0].1@));
            }
            request.headers.push((String::from_str("Authorization"), authorization_header(token.as_str())));
            let ghost sent_request = request;
            assert(request.headers@[0] == h0[0]);
            let ghost before_send = self.http.sent();
            proof {
                assert(is_api_request(sent_request, method, url@, body@));
            }
            let response = self.http.send(request);
            proof {
                lemma_call_log_push(start, before_send, sent_request, self.config, method, url@, body@);
                lemma_answers_push(start_answers, answers_before_send, response);
                self.http.lemma_aligned();
                let n = answers_before_send.len() as int;
                assert forall|k: int| start.len() <= k < n implies self.http.answers()[k] == answers_before_send[k] by {}
                assert(answered_401(self.http.answers(), start.len() as int, n) == answered_401(
                    answers_before_send,
                    start.len() as int,
                    n,
                )) by {
                    if answered_401(self.http.answers(), start.len() as int, n) {
                        let k = choose|k: int| start.len() <= k < n && answered_with(#[trigger] self.http.answers()[k], 401);
                        assert(answers_before_send[k] == self.http.answers()[k]);
                    }
                    if answered_401(answers_before_send, start.len() as int, n) {
                        let k = choose|k: int| start.len() <= k < n && answered_with(#[trigger] answers_before_send[k], 401);
                        assert(answers_before_send[k] == self.http.answers()[k]);
                    }
                }
                assert(answered_401(self.http.answers(), start.len() as int, n + 1) <==> (answered_401(
                    answers_before_send,
                    start.len() as int,
                    n,
                ) || answered_with(response, 401))) by {
                    if answered_401(self.http.answers(), start.len() as int, n + 1) {
                        let k = choose|k: int| start.len() <= k < n + 1 && answered_with(#[trigger] self.http.answers()[k], 401);
                        if k < n {
                            assert(answered_401(self.http.answers(), start.len() as int, n));
                        }
                    }
                    if answered_with(response, 401) {
                        assert(answered_with(self.http.answers()[n], 401));
                    }
                    if answered_401(answers_before_send, start.len() as int, n) {
                        let k = choose|k: int| start.len() <= k < n && answered_with(#[trigger] answers_before_send[k], 401);
                        assert(answered_with(self.http.answers()[k], 401));
                    }
                }
            }
            let outcome = match &response {
                Ok(resp) => AttemptOutcome::Status(resp.status),
                Err(e) => AttemptOutcome::Failure { retryable: e.retryable() },
            };
            match decide_retry(attempt, max_attempts, refreshed, outcome) {
                RetryAction::Return => {
                    return match response {
                        Ok(resp) => Ok(resp.body),
                        Err(e) => Err(e),
                    };
                },
                RetryAction::RefreshToken => {
                    refreshed = true;
                    self.auth.invalidate();
                    proof {
                        last_refresh = true;
                    }
                },
                RetryAction::Retry => {
                    proof {
                        last_refresh = false;
                    }
                },
                RetryAction::GiveUp => {
                    return match response {
                        Ok(resp) => Err(QqOpenApiError::HttpStatus { status: resp.status, body: resp.body }),
                        Err(e) => Err(e),
                    };
                },
            }
            attempt = attempt + 1;
        }
        Err(invalid_response("retry exhausted"))
    }

    /// Sends a message. A body that breaks the scene's rules is refused before any
    /// request; otherwise the body gets the next message sequence number unless it
    /// has one.
    pub fn send_message(&mut self, payload: SendMessagePayload, current_step: u64) -> (r: Result<
        JsonValue,
        QqOpenApiError,
    >)
        ensures
            send_payload_error(payload) matches Some(e) ==> (r matches Err(QqOpenApiError::InvalidPayload(m)) && m@
                == payload_error_text(e)) && *final(self) == *old(self),
            final(self).config() == old(self).config(),
            extends(old(self).sent(), final(self).sent()),
            r is Ok ==> exists|body: JsonView|
                #[trigger] completed_call(
                    sent_since(old(self).sent(), final(self).sent()),
                    old(self).config(),
                    HttpMethod::Post,
                    scene_url_of(old(self).config(), payload.scene, payload.target_openid@, "/messages"@),
                    body,
                ),
            send_payload_error(payload) is None ==> exists|body: JsonView|
                #[trigger] api_result(
                    r,
                    old(self).sent().len() as int,
                    final(self).sent(),
                    final(self).answers(),
                    HttpMethod::Post,
                    scene_url_of(old(self).config(), payload.scene, payload.target_openid@, "/messages"@),
                    body,
                ),
            payload.scene == QqScene::Group && (json_get(payload.body, "stream"@) is Some || json_get(
                payload.body,
                "prompt_keyboard"@,
            ) is Some || json_get(payload.body, "action_button"@) is Some) ==> (r matches Err(
                QqOpenApiError::InvalidPayload(_),
            )) && *final(self) == *old(self),
    {
        proof {
            let here = self.http.sent();
            assert(here.take(here.len() as int) =~= here);
        }
        let mut body = match payload.validated_body() {
            Ok(b) => b,
            Err(e) => {
                return Err(QqOpenApiError::InvalidPayload(e.message()));
            },
        };
        let msg_seq = self.id_source.next_msg_seq();
        ensure_msg_seq(&mut body, msg_seq);
        let path = payload.scene.messages_path(payload.target_openid.as_str());
        let ghost sent_body = body@;
        let answer = self.execute_openapi_json(HttpMethod::Post, path, body, current_step);
        proof {
            assert(api_result(
                answer,
                old(self).sent().len() as int,
                self.sent(),
                self.answers(),
                HttpMethod::Post,
                scene_url_of(old(self).config(), payload.scene, payload.target_openid@, "/messages"@),
                sent_body,
            ));
            if answer is Ok {
                assert(completed_call(
                    sent_since(old(self).sent(), self.sent()),
                    old(self).config(),
                    HttpMethod::Post,
                    scene_url_of(self.config, payload.scene, payload.target_openid@, "/messages"@),
                    sent_body,
                ));
            }
        }
        answer
    }

    /// Uploads media from an upload id, a resource, or a URL or inline data. An
    /// invalid request is refused before any request; every upload must end with
    /// the answer naming the file.
    pub fn upload_media(&mut self, payload: MediaUploadPayload, current_step: u64) -> (r: Result<
        JsonValue,
        QqOpenApiError,
    >)
        ensures
            media_payload_error(payload) matches Some(e) ==> (r matches Err(QqOpenApiError::InvalidPayload(m)) && m@
                == payload_error_text(e)) && *final(self) == *old(self),
            final(self).config() == old(self).config(),
            r matches Ok(body) ==> text_field(body, "file_info"@) is Some && (final(self).auth().cached() matches Some(
                t,
            ) && t.expires_at_step >= current_step),
            extends(old(self).sent(), final(self).sent()),
            payload.upload_id matches Some(u) ==> r is Ok ==> completed_call(
                sent_since(old(self).sent(), final(self).sent()),
                old(self).config(),
                HttpMethod::Post,
                scene_url(old(self).config(), payload, "/files"@),
                JsonView::Object(seq![("upload_id"@, JsonView::Text(u@))]),
            ),
            r is Ok && payload.upload_id is None && payload.resource_ref is Some ==> exists|
                m1: int,
                m2: int,
                prepare: JsonValue,
                chunks: Seq<MediaChunk>,
                steps: Seq<UploadStep>,
            |
                #[trigger] upload_record(
                    sent_since(old(self).sent(), final(self).sent()),
                    old(self).config(),
                    payload,
                    m1,
                    m2,
                    prepare,
                    chunks,
                    steps,
                ),
            r is Ok && payload.upload_id is None && payload.resource_ref is None ==> completed_call(
                sent_since(old(self).sent(), final(self).sent()),
                old(self).config(),
                HttpMethod::Post,
                scene_url(old(self).config(), payload, "/files"@),
                direct_upload_view(payload),
            ),
            puts_accepted(final(self).sent(), final(self).answers(), old(self).sent().len() as int, final(self).sent().len() - 1),
            r is Ok ==> puts_accepted(final(self).sent(), final(self).answers(), old(self).sent().len() as int, final(self).sent().len() as int),
            ends_on_failed_put(r, final(self).sent(), final(self).answers(), old(self).sent().len() as int),
            answered_ok(r, old(self).sent().len() as int, final(self).sent(), final(self).answers()),
    {
        proof {
            let here = self.http.sent();
            assert(here.take(here.len() as int) =~= here);
        }
        match payload.validate() {
            Ok(()) => {},
            Err(e) => {
                return Err(QqOpenApiError::InvalidPayload(e.message()));
            },
        }
        match &payload.upload_id {
            Some(upload_id) => {
                let ghost s0 = self.http.sent();
                let ghost a0 = self.http.answers();
                proof {
                    self.http.lemma_aligned();
                }
                let answer = self.exchange_upload_id(&payload, upload_id.as_str(), current_step);
                proof {
                    self.http.lemma_aligned();
                    lemma_posts_keep_puts_accepted(
                        s0,
                        a0,
                        self.http.sent(),
                        self.http.answers(),
                        s0.len() as int,
                        self.config,
                        scene_url(self.config, payload, "/files"@),
                        JsonView::Object(seq![("upload_id"@, JsonView::Text(upload_id@))]),
                    );
                }
                return answer;
            },
            None => {},
        }
        if payload.resource_ref.is_some() {
            return self.upload_resource_chunks(payload, current_step);
        }
        let body = direct_upload_body(&payload);
        let path = payload.scene.files_path(payload.target_openid.as_str());
        let ghost s0 = self.http.sent();
        let ghost a0 = self.http.answers();
        proof {
            self.http.lemma_aligned();
        }
        let answer = self.execute_openapi_json(HttpMethod::Post, path, body, current_step);
        proof {
            self.http.lemma_aligned();
            lemma_posts_keep_puts_accepted(
                s0,
                a0,
                self.http.sent(),
                self.http.answers(),
                s0.len() as int,
                self.config,
                scene_url(self.config, payload, "/files"@),
                direct_upload_view(payload),
            );
        }
        let response = answer?;
        ensure_file_info(&response)?;
        Ok(response)
    }

    /// Recalls a message; the target and the message id must not be blank.
    pub fn recall_message(&mut self, payload: RecallMessagePayload, current_step: u64) -> (r: Result<
        JsonValue,
        QqOpenApiError,
    >)
        ensures
            is_blank_chars(payload.target_openid@) || is_blank_chars(payload.message_id@) ==> (r matches Err(
                QqOpenApiError::InvalidPayload(m),
            ) && m@ == "target_openid and message_id are required"@) && *final(self) == *old(self),
            final(self).config() == old(self).config(),
            extends(old(self).sent(), final(self).sent()),
            r is Ok ==> completed_call(
                sent_since(old(self).sent(), final(self).sent()),
                old(self).config(),
                HttpMethod::Delete,
                absolute_url_chars(
                    old(self).config().openapi_base_url@,
                    payload.scene.target_prefix() + payload.target_openid@ + "/messages/"@ + payload.message_id@,
                ),
                JsonView::Null,
            ),
            !(is_blank_chars(payload.target_openid@) || is_blank_chars(payload.message_id@)) ==> api_result(
                r,
                old(self).sent().len() as int,
                final(self).sent(),
                final(self).answers(),
                HttpMethod::Delete,
                absolute_url_chars(
                    old(self).config().openapi_base_url@,
                    payload.scene.target_prefix() + payload.target_openid@ + "/messages/"@ + payload.message_id@,
                ),
                JsonView::Null,
            ),
    {
        proof {
            let here = self.http.sent();
            assert(here.take(here.len() as int) =~= here);
        }
        if is_blank(payload.target_openid.as_str()) || is_blank(payload.message_id.as_str()) {
            return Err(QqOpenApiError::InvalidPayload(String::from_str("target_openid and message_id are required")));
        }
        let path = payload.scene.recall_path(payload.target_openid.as_str(), payload.message_id.as_str());
        self.execute_openapi_json(HttpMethod::Delete, path, JsonValue::Null, current_step)
    }

    /// Acknowledges an interaction with a code from 0 to 5.
    pub fn ack_interaction(&mut self, payload: InteractionAckPayload, current_step: u64) -> (r: Result<
        JsonValue,
        QqOpenApiError,
    >)
        ensures
            is_blank_chars(payload.interaction_id@) || payload.code > 5 ==> (r matches Err(
                QqOpenApiError::InvalidPayload(m),
            ) && m@ == "interaction_id and code 0..=5 are required"@) && *final(self) == *old(self),
            final(self).config() == old(self).config(),
            extends(old(self).sent(), final(self).sent()),
            r is Ok ==> completed_call(
                sent_since(old(self).sent(), final(self).sent()),
                old(self).config(),
                HttpMethod::Put,
                absolute_url_chars(old(self).config().openapi_base_url@, "/interactions/"@ + payload.interaction_id@),
                JsonView::Object(seq![("code"@, JsonView::Unsigned(payload.code as u64))]),
            ),
            !(is_blank_chars(payload.interaction_id@) || payload.code > 5) ==> api_result(
                r,
                old(self).sent().len() as int,
                final(self).sent(),
                final(self).answers(),
                HttpMethod::Put,
                absolute_url_chars(old(self).config().openapi_base_url@, "/interactions/"@ + payload.interaction_id@),
                JsonView::Object(seq![("code"@, JsonView::Unsigned(payload.code as u64))]),
            ),
    {
        proof {
            let here = self.http.sent();
            assert(here.take(here.len() as int) =~= here);
        }
        if is_blank(payload.interaction_id.as_str()) || payload.code > 5 {
            return Err(QqOpenApiError::InvalidPayload(String::from_str("interaction_id and code 0..=5 are required")));
        }
        let mut path = String::from_str("/interactions/");
        path.append(payload.interaction_id.as_str());
        self.execute_openapi_json(HttpMethod::Put, path, interaction_ack_body(payload.code), current_step)
    }

    /// Asks for a link that shares the bot with a user.
    pub fn create_user_share_link(&mut self, payload: UserShareLinkPayload, current_step: u64) -> (r: Result<
        JsonValue,
        QqOpenApiError,
    >)
        ensures
            final(self).config() == old(self).config(),
            r is Ok ==> (final(self).auth().cached() matches Some(t) && t.expires_at_step >= current_step),
            extends(old(self).sent(), final(self).sent()),
            call_log(
                sent_since(old(self).sent(), final(self).sent()),
                old(self).config(),
                HttpMethod::Post,
                absolute_url_chars(old(self).config().openapi_base_url@, "/v2/bot/share_url"@),
                JsonView::Object(optional_member("callbackData"@, payload.callback_data)),
            ),
            r is Ok ==> completed_call(
                sent_since(old(self).sent(), final(self).sent()),
                old(self).config(),
                HttpMethod::Post,
                absolute_url_chars(old(self).config().openapi_base_url@, "/v2/bot/share_url"@),
                JsonView::Object(optional_member("callbackData"@, payload.callback_data)),
            ),            api_result(
                r,
                old(self).sent().len() as int,
                final(self).sent(),
                final(self).answers(),
                HttpMethod::Post,
                absolute_url_chars(old(self).config().openapi_base_url@, "/v2/bot/share_url"@),
                JsonView::Object(optional_member("callbackData"@, payload.callback_data)),
            ),
    {
        let body = share_link_body(payload.callback_data);
        self.execute_openapi_json(HttpMethod::Post, String::from_str("/v2/bot/share_url"), body, current_step)
    }

    fn exchange_upload_id(&mut self, payload: &MediaUploadPayload, upload_id: &str, current_step: u64) -> (r: Result<
        JsonValue,
        QqOpenApiError,
    >)
        ensures
            final(self).config() == old(self).config(),
            r matches Ok(body) ==> text_field(body, "file_info"@) is Some && (final(self).auth().cached() matches Some(
                t,
            ) && t.expires_at_step >= current_step),
            extends(old(self).http.sent(), final(self).http.sent()),
            r is Ok ==> completed_call(
                sent_since(old(self).http.sent(), final(self).http.sent()),
                old(self).config,
                HttpMethod::Post,
                scene_url(old(self).config, *payload, "/files"@),
                JsonView::Object(seq![("upload_id"@, JsonView::Text(upload_id@))]),
            ),
            call_log(
                sent_since(old(self).http.sent(), final(self).http.sent()),
                old(self).config,
                HttpMethod::Post,
                scene_url(old(self).config, *payload, "/files"@),
                JsonView::Object(seq![("upload_id"@, JsonView::Text(upload_id@))]),
            ),
            final(self).http.sent().len() > old(self).http.sent().len(),
            answers_extend(old(self).http.answers(), final(self).http.answers()),
            answered_ok(r, old(self).http.sent().len() as int, final(self).http.sent(), final(self).http.answers()),
    {
        let path = payload.scene.files_path(payload.target_openid.as_str());
        let response = self.execute_openapi_json(HttpMethod::Post, path, upload_id_body(upload_id), current_step)?;
        ensure_file_info(&response)?;
        Ok(response)
    }

    /// Uploads a resource in the blocks the server asks for: prepare, put each part
    /// to its address and report it, then turn the upload id into a file.
    fn upload_resource_chunks(&mut self, payload: MediaUploadPayload, current_step: u64) -> (r: Result<
        JsonValue,
        QqOpenApiError,
    >)
        ensures
            payload.resource_ref is None ==> (r matches Err(QqOpenApiError::InvalidPayload(m)) && m@
                == "resource_ref is required"@) && *final(self) == *old(self),
            final(self).config() == old(self).config(),
            r matches Ok(body) ==> text_field(body, "file_info"@) is Some && (final(self).auth().cached() matches Some(
                t,
            ) && t.expires_at_step >= current_step),
            extends(old(self).http.sent(), final(self).http.sent()),
            r is Ok ==> exists|m1: int, m2: int, prepare: JsonValue, chunks: Seq<MediaChunk>, steps: Seq<UploadStep>|
                #[trigger] upload_record(
                    sent_since(old(self).sent(), final(self).sent()),
                    old(self).config(),
                    payload,
                    m1,
                    m2,
                    prepare,
                    chunks,
                    steps,
                ),
            puts_accepted(final(self).sent(), final(self).answers(), old(self).sent().len() as int, final(self).sent().len() - 1),
            r is Ok ==> puts_accepted(final(self).sent(), final(self).answers(), old(self).sent().len() as int, final(self).sent().len() as int),
            ends_on_failed_put(r, final(self).sent(), final(self).answers(), old(self).sent().len() as int),
            answers_extend(old(self).answers(), final(self).answers()),
            answered_ok(r, old(self).sent().len() as int, final(self).sent(), final(self).answers()),
    {
        proof {
            let here = self.http.sent();
            assert(here.take(here.len() as int) =~= here);
            let ans = self.http.answers();
            assert(ans.take(ans.len() as int) =~= ans);
        }
        let resource_ref = match &payload.resource_ref {
            Some(r) => r.clone(),
            None => {
                return Err(QqOpenApiError::InvalidPayload(String::from_str("resource_ref is required")));
            },
        };
        let ghost start = self.http.sent();
        let ghost start_answers = self.http.answers();
        proof {
            self.http.lemma_aligned();
        }
        let prepared = self.execute_openapi_json(
            HttpMethod::Post,
            payload.scene.upload_prepare_path(payload.target_openid.as_str()),
            upload_prepare_body(&payload),
            current_step,
        );
        proof {
            self.http.lemma_aligned();
            lemma_posts_keep_puts_accepted(
                start,
                start_answers,
                self.http.sent(),
                self.http.answers(),
                start.len() as int,
                self.config,
                scene_url(self.config, payload, "/upload_prepare"@),
                upload_prepare_view(payload),
            );
        }
        let prepare = prepared?;
        let ghost p0 = self.http.sent().len() as int;
        let ghost prep_log = self.http.sent();
        proof {
            assert(prep_log.take(p0) =~= prep_log);
        }
        let (upload_id, block_size) = prepare_reply(&prepare)?;
        let chunks = match self.media.read_chunks(resource_ref.as_str(), block_size) {
            Ok(chunks) => chunks,
            Err(e) => {
                return Err(QqOpenApiError::Media(e.message()));
            },
        };
        let ghost cs = chunks@;
        let UploadPlan { steps, missing } = chunk_plan(&prepare, upload_id.as_str(), block_size, chunks);
        let ghost all = steps@;
        let mut remaining = steps;
        let n = remaining.len();
        let mut k: usize = 0;
        proof {
            let here = self.http.sent();
            assert(here.subrange(p0, here.len() as int) =~= Seq::<QqHttpRequest>::empty());
            assert(all.take(0) =~= Seq::<UploadStep>::empty());
            assert(step_puts(all.take(0)) =~= Seq::<QqHttpRequest>::empty());
            assert(step_reports(all.take(0)) =~= Seq::<JsonView>::empty());
            lemma_parts_log_empty(here.subrange(p0, here.len() as int), self.config, scene_url(self.config, payload, "/upload_part_finish"@));
            assert(remaining@ =~= all.skip(0));
        }
        while k < n
            invariant
                k <= n == all.len(),
                remaining@ == all.skip(k as int),
                payload.resource_ref is Some,
                self.config == old(self).config,
                start == old(self).http.sent(),
                0 <= p0 <= self.http.sent().len(),
                extends(start, self.http.sent()),
                start.len() <= p0,
                self.http.sent().take(p0) == prep_log,
                prep_log.len() == p0,
                extends(start, prep_log),
                parts_log(
                    self.http.sent().subrange(p0, self.http.sent().len() as int),
                    step_puts(all.take(k as int)),
                    step_reports(all.take(k as int)),
                    self.config,
                    scene_url(self.config, payload, "/upload_part_finish"@),
                ),
                forall|i: int| 0 <= i < all.len() ==> (#[trigger] all[i]).put.method == HttpMethod::Put,
                start_answers == old(self).http.answers(),
                answers_extend(start_answers, self.http.answers()),
                self.http.sent().len() == self.http.answers().len(),
                puts_accepted(self.http.sent(), self.http.answers(), start.len() as int, self.http.sent().len() as int),
                self.http.sent().len() > start.len() && self.http.sent().last().method == HttpMethod::Post,
            decreases n - k,
        {
            let step = remaining.remove(0);
            assert(step == all[k as int]);
            assert(remaining@ =~= all.skip(k + 1));
            let ghost put = step.put;
            let ghost report = step.finish@;
            let ghost before = self.http.sent();
            let ghost before_answers = self.http.answers();
            let response = self.http.send(step.put);
            proof {
                lemma_extends_push(start, before, put);
                lemma_answers_push(start_answers, before_answers, response);
                assert(self.http.sent().take(p0) =~= before.take(p0));
                assert(put.method == HttpMethod::Put);
                let s1 = self.http.sent();
                let a1 = self.http.answers();
                assert forall|j: int| start.len() <= j < s1.len() - 1 && (#[trigger] s1[j]).method == HttpMethod::Put implies (a1[j] matches Ok(
                    resp,
                ) && success_status(resp.status)) by {
                    assert(s1[j] == before[j]);
                    assert(a1[j] == before_answers[j]);
                }
            }
            let response = response?;
            check_chunk_put(response)?;
            proof {
                let s1 = self.http.sent();
                let a1 = self.http.answers();
                assert forall|j: int| start.len() <= j < s1.len() && (#[trigger] s1[j]).method == HttpMethod::Put implies (a1[j] matches Ok(
                    resp,
                ) && success_status(resp.status)) by {
                    if j < s1.len() - 1 {
                        assert(s1[j] == before[j]);
                        assert(a1[j] == before_answers[j]);
                    }
                }
            }
            let ghost after_put = self.http.sent();
            let ghost after_put_answers = self.http.answers();
            let reported = self.execute_openapi_json(
                HttpMethod::Post,
                payload.scene.upload_part_finish_path(payload.target_openid.as_str()),
                step.finish,
                current_step,
            );
            proof {
                lemma_extends_trans(start, after_put, self.http.sent());
                lemma_extends_trans(prep_log, after_put, self.http.sent());
                assert(self.http.sent().take(p0) =~= after_put.take(p0));
                lemma_answers_trans(start_answers, after_put_answers, self.http.answers());
                self.http.lemma_aligned();
                lemma_posts_keep_puts_accepted(
                    after_put,
                    after_put_answers,
                    self.http.sent(),
                    self.http.answers(),
                    start.len() as int,
                    self.config,
                    scene_url(self.config, payload, "/upload_part_finish"@),
                    step.finish@,
                );
            }
            let _ = reported?;
            proof {
                lemma_parts_log_extend(
                    before,
                    self.http.sent(),
                    p0,
                    put,
                    step_puts(all.take(k as int)),
                    step_reports(all.take(k as int)),
                    report,
                    self.config,
                    scene_url(self.config, payload, "/upload_part_finish"@),
                );
                assert(step_puts(all.take(k + 1)) =~= step_puts(all.take(k as int)).push(put));
                assert(step_reports(all.take(k + 1)) =~= step_reports(all.take(k as int)).push(report));
                let now = self.http.sent();
                assert(now.take(p0) =~= before.take(p0));
                assert(now.take(start.len() as int) =~= before.take(start.len() as int));
            }
            k = k + 1;
        }
        if let Some(e) = missing {
            return Err(e);
        }
        let ghost p2 = self.http.sent().len() as int;
        let ghost mid = self.http.sent();
        let ghost mid_answers = self.http.answers();
        let answer = self.exchange_upload_id(&payload, upload_id.as_str(), current_step);
        proof {
            lemma_extends_trans(start, mid, self.http.sent());
            lemma_answers_trans(start_answers, mid_answers, self.http.answers());
            self.http.lemma_aligned();
            lemma_posts_keep_puts_accepted(
                mid,
                mid_answers,
                self.http.sent(),
                self.http.answers(),
                start.len() as int,
                self.config,
                scene_url(self.config, payload, "/files"@),
                JsonView::Object(seq![("upload_id"@, JsonView::Text(upload_id@))]),
            );
            if answer is Ok {
                let fin = self.http.sent();
                let seg = sent_since(start, fin);
                let m1 = p0 - start.len();
                let m2 = p2 - start.len();
                assert(all.take(n as int) =~= all);
                assert(fin.take(p2) =~= mid);
                assert(seg.subrange(m1, m2) =~= mid.subrange(p0, p2));
                assert(seg.skip(m2) =~= sent_since(mid, fin));
                assert(seg.take(m1) =~= sent_since(start, mid.take(p0)));
                assert(upload_record(seg, self.config, payload, m1, m2, prepare, cs, all));
                assert(upload_record(sent_since(old(self).sent(), self.sent()), old(self).config(), payload, m1, m2, prepare, cs, all));
            }
        }
        answer
    }
}

} // verus!
