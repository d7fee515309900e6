use std::cell::RefCell;
use std::rc::Rc;

use mutsuki_runtime::im_qqbot::{HttpMethod, MediaChunk, QqIdSource, QqMediaError, QqMediaProvider};
use mutsuki_runtime::json::JsonValue;
use mutsuki_runtime::qq_openapi::{
    chunk_plan, decide_retry, json_field, prepare_reply, request_json, AttemptOutcome, QqBotClients, QqHttpClient,
    QqHttpRequest, QqHttpResponse, QqOpenApiError, QqOpenApiService, RetryAction,
};
use mutsuki_runtime::redaction::redact_json;
use mutsuki_runtime::qqbot::{
    InteractionAckPayload, MediaUploadPayload, PayloadError, QqBotConfig, QqScene,
    RecallMessagePayload, SendMessagePayload, UserShareLinkPayload,
};

fn text(s: &str) -> JsonValue {
    JsonValue::Text(s.into())
}

fn object(members: Vec<(&str, JsonValue)>) -> JsonValue {
    JsonValue::Object(members.into_iter().map(|(k, v)| (k.to_string(), v)).collect())
}

struct ScriptedClient {
    requests: Rc<RefCell<Vec<QqHttpRequest>>>,
    responses: Vec<Result<QqHttpResponse, QqOpenApiError>>,
}

impl QqHttpClient for ScriptedClient {
    fn send(&mut self, request: QqHttpRequest) -> Result<QqHttpResponse, QqOpenApiError> {
        self.requests.borrow_mut().push(request);
        if self.responses.is_empty() {
            return Err(QqOpenApiError::Network("no scripted response".into()));
        }
        self.responses.remove(0)
    }
}

struct FixedMedia {
    chunks: Vec<MediaChunk>,
}

impl QqMediaProvider for FixedMedia {
    fn read_chunks(&mut self, resource_ref: &str, _block_size: u64) -> Result<Vec<MediaChunk>, QqMediaError> {
        if resource_ref == "missing" {
            return Err(QqMediaError::NotFound(resource_ref.into()));
        }
        Ok(self.chunks.clone())
    }
}

struct NoopIdSource {
    next: u64,
}

impl NoopIdSource {
    fn new(next: u64) -> Self {
        Self { next }
    }
}

impl QqIdSource for NoopIdSource {
    fn next_msg_seq(&mut self) -> u64 {
        let next = self.next;
        self.next += 1;
        next
    }
}

fn ok(body: JsonValue) -> Result<QqHttpResponse, QqOpenApiError> {
    Ok(QqHttpResponse { status: 200, body })
}

fn status(code: u16, body: JsonValue) -> Result<QqHttpResponse, QqOpenApiError> {
    Ok(QqHttpResponse { status: code, body })
}

fn token(value: &str) -> Result<QqHttpResponse, QqOpenApiError> {
    ok(object(vec![
        ("access_token", text(value)),
        ("expires_in", JsonValue::Unsigned(7200)),
    ]))
}

type Service = QqOpenApiService<ScriptedClient, FixedMedia, NoopIdSource>;

fn service(
    responses: Vec<Result<QqHttpResponse, QqOpenApiError>>,
    chunks: Vec<MediaChunk>,
) -> (Service, Rc<RefCell<Vec<QqHttpRequest>>>) {
    service_with(responses, chunks, NoopIdSource::new(700))
}

fn service_with(
    responses: Vec<Result<QqHttpResponse, QqOpenApiError>>,
    chunks: Vec<MediaChunk>,
    id_source: NoopIdSource,
) -> (Service, Rc<RefCell<Vec<QqHttpRequest>>>) {
    let requests = Rc::new(RefCell::new(Vec::new()));
    let client = ScriptedClient {
        requests: requests.clone(),
        responses,
    };
    let clients = QqBotClients::new(client, FixedMedia { chunks });
    (
        QqOpenApiService::new(QqBotConfig::new("APP_ID", "SECRET"), clients, id_source),
        requests,
    )
}

fn header<'a>(request: &'a QqHttpRequest, name: &str) -> Option<&'a str> {
    request
        .headers
        .iter()
        .find(|(k, _)| k == name)
        .map(|(_, v)| v.as_str())
}

fn c2c_message() -> SendMessagePayload {
    SendMessagePayload {
        scene: QqScene::C2c,
        target_openid: "USER_OPENID".into(),
        body: object(vec![("msg_type", JsonValue::Unsigned(0)), ("content", text("hello"))]),
    }
}

fn media(scene: QqScene) -> MediaUploadPayload {
    MediaUploadPayload {
        scene,
        target_openid: "GROUP_OPENID".into(),
        file_type: 1,
        url: None,
        file_data: None,
        resource_ref: None,
        upload_id: None,
        srv_send_msg: None,
        file_name: None,
        file_size: None,
        md5: None,
        sha1: None,
        md5_10m: None,
    }
}

#[test]
fn json_objects_read_and_set_members() {
    let mut body = object(vec![("a", JsonValue::Unsigned(1)), ("b", text("x"))]);
    assert_eq!(body.get("b").and_then(|v| v.as_str()), Some("x"));
    assert_eq!(body.get("a").and_then(|v| v.as_u64()), Some(1));
    assert!(body.get("c").is_none());
    body.insert("a".into(), JsonValue::Bool(true));
    body.insert("c".into(), JsonValue::Null);
    assert_eq!(
        body,
        object(vec![
            ("a", JsonValue::Bool(true)),
            ("b", text("x")),
            ("c", JsonValue::Null)
        ])
    );
    let mut not_object = JsonValue::Unsigned(3);
    not_object.insert("a".into(), JsonValue::Null);
    assert_eq!(not_object, JsonValue::Unsigned(3));
    let nested = JsonValue::Array(vec![body.copy(), JsonValue::Negative(-2)]);
    assert_eq!(nested.copy(), nested);
}

#[test]
fn json_field_requires_non_empty_text() {
    let body = object(vec![("id", text("M1")), ("empty", text("")), ("n", JsonValue::Unsigned(1))]);
    assert_eq!(json_field(&body, "id").unwrap(), "M1");
    for field in ["empty", "n", "missing"] {
        match json_field(&body, field) {
            Err(QqOpenApiError::InvalidResponse(m)) => assert_eq!(m, field),
            other => panic!("unexpected {other:?}"),
        }
    }
}

#[test]
fn json_requests_carry_content_type() {
    let request = request_json(HttpMethod::Post, "https://x/y".into(), JsonValue::Null);
    assert_eq!(header(&request, "Content-Type"), Some("application/json"));
    assert_eq!(request.body, Some(JsonValue::Null));
    assert!(request.binary_body.is_none());
}

#[test]
fn retry_policy_decisions() {
    assert_eq!(decide_retry(1, 3, false, AttemptOutcome::Status(204)), RetryAction::Return);
    assert_eq!(decide_retry(1, 3, false, AttemptOutcome::Status(401)), RetryAction::RefreshToken);
    assert_eq!(decide_retry(1, 3, true, AttemptOutcome::Status(401)), RetryAction::GiveUp);
    assert_eq!(decide_retry(1, 3, false, AttemptOutcome::Status(429)), RetryAction::Retry);
    assert_eq!(decide_retry(3, 3, false, AttemptOutcome::Status(503)), RetryAction::GiveUp);
    assert_eq!(decide_retry(2, 3, false, AttemptOutcome::Status(404)), RetryAction::GiveUp);
    assert_eq!(
        decide_retry(2, 3, false, AttemptOutcome::Failure { retryable: true }),
        RetryAction::Retry
    );
    assert_eq!(
        decide_retry(2, 3, false, AttemptOutcome::Failure { retryable: false }),
        RetryAction::GiveUp
    );
}

#[test]
fn openapi_runner_refreshes_token_once_after_401() {
    let (mut service, requests) = service(
        vec![
            token("TOKEN_A"),
            status(401, object(vec![("message", text("expired")), ("access_token", text("SECRET"))])),
            token("TOKEN_B"),
            ok(object(vec![("id", text("MESSAGE_ID"))])),
        ],
        Vec::new(),
    );

    let response = service.send_message(c2c_message(), 1).unwrap();

    assert_eq!(response.get("id").and_then(|v| v.as_str()), Some("MESSAGE_ID"));
    let requests = requests.borrow();
    assert_eq!(requests.len(), 4);
    assert_eq!(requests[0].url, "https://bots.qq.com/app/getAppAccessToken");
    assert_eq!(header(&requests[1], "Authorization"), Some("QQBot TOKEN_A"));
    assert_eq!(header(&requests[3], "Authorization"), Some("QQBot TOKEN_B"));
    assert_eq!(requests[3].url, "https://api.sgroup.qq.com/v2/users/USER_OPENID/messages");
    assert_eq!(
        requests[3].body.as_ref().unwrap().get("msg_seq"),
        Some(&JsonValue::Unsigned(700))
    );
}

#[test]
fn cached_token_is_reused_and_server_errors_are_retried() {
    let (mut service, requests) = service(
        vec![
            token("TOKEN_A"),
            status(503, JsonValue::Null),
            ok(object(vec![("id", text("FIRST"))])),
            ok(object(vec![("id", text("SECOND"))])),
        ],
        Vec::new(),
    );
    service.send_message(c2c_message(), 1).unwrap();
    service.send_message(c2c_message(), 2).unwrap();
    let requests = requests.borrow();
    assert_eq!(requests.len(), 4);
    assert_eq!(
        requests[3].body.as_ref().unwrap().get("msg_seq"),
        Some(&JsonValue::Unsigned(701))
    );
}

#[test]
fn retries_stop_after_the_configured_attempts() {
    let (mut service, requests) = service(
        vec![
            token("TOKEN_A"),
            status(500, JsonValue::Null),
            status(502, JsonValue::Null),
            status(503, text("busy")),
        ],
        Vec::new(),
    );
    let err = service.send_message(c2c_message(), 1).unwrap_err();
    assert_eq!(
        err,
        QqOpenApiError::HttpStatus {
            status: 503,
            body: text("busy")
        }
    );
    assert_eq!(requests.borrow().len(), 4);
}

#[test]
fn group_message_rejects_c2c_only_fields() {
    let (mut service, requests) = service_with(
        vec![token("TOKEN_A"), ok(object(vec![("id", text("should-not-be-used"))]))],
        Vec::new(),
        NoopIdSource::new(100),
    );
    let payload = SendMessagePayload {
        scene: QqScene::Group,
        target_openid: "GROUP_OPENID".into(),
        body: object(vec![
            ("msg_type", JsonValue::Unsigned(2)),
            ("markdown", object(vec![("content", text("hello"))])),
            ("stream", object(vec![("state", JsonValue::Unsigned(1)), ("index", JsonValue::Unsigned(0))])),
        ]),
    };
    let err = service.send_message(payload, 1).unwrap_err();
    match err {
        QqOpenApiError::InvalidPayload(m) => assert!(m.contains("stream")),
        other => panic!("unexpected {other:?}"),
    }
    assert!(requests.borrow().is_empty());
}

#[test]
fn c2c_stream_rules_and_payload_messages() {
    let mut payload = c2c_message();
    payload.body.insert("stream".into(), object(vec![("index", JsonValue::Unsigned(2))]));
    assert_eq!(payload.validated_body(), Err(PayloadError::InvalidStreamIndex));
    payload.body.insert(
        "stream".into(),
        object(vec![("index", JsonValue::Unsigned(2)), ("id", text("s"))]),
    );
    assert!(payload.validated_body().is_ok());
    payload.body.insert("stream".into(), text("bad"));
    assert_eq!(payload.validated_body(), Err(PayloadError::InvalidField("stream")));
    payload.body = JsonValue::Null;
    assert_eq!(payload.validated_body(), Err(PayloadError::NotObject));
    assert_eq!(
        PayloadError::MissingField("msg_type").message(),
        "missing required field: msg_type"
    );
    assert_eq!(
        PayloadError::InvalidStreamIndex.message(),
        "stream.index must be 0 for the first C2C stream fragment"
    );
}

#[test]
fn media_upload_fails_when_file_info_is_empty() {
    let (mut service, _) = service_with(
        vec![token("TOKEN_A"), ok(object(vec![("file_info", text(""))]))],
        Vec::new(),
        NoopIdSource::new(1),
    );
    let mut payload = media(QqScene::Group);
    payload.url = Some("https://example.com/image.png".into());
    let err = service.upload_media(payload, 1).unwrap_err();
    assert!(format!("{err:?}").contains("file_info"));
    assert_eq!(err, QqOpenApiError::InvalidResponse("file_info".into()));
}

#[test]
fn direct_upload_sends_the_documented_body() {
    let (mut service, requests) = service(
        vec![token("TOKEN_A"), ok(object(vec![("file_info", text("INFO"))]))],
        Vec::new(),
    );
    let mut payload = media(QqScene::C2c);
    payload.url = Some("https://example.com/a.png".into());
    payload.file_name = Some("a.png".into());
    service.upload_media(payload, 1).unwrap();
    let requests = requests.borrow();
    assert_eq!(requests[1].url, "https://api.sgroup.qq.com/v2/users/GROUP_OPENID/files");
    assert_eq!(
        requests[1].body,
        Some(object(vec![
            ("file_type", JsonValue::Unsigned(1)),
            ("srv_send_msg", JsonValue::Bool(false)),
            ("url", text("https://example.com/a.png")),
            ("file_name", text("a.png")),
        ]))
    );
}

#[test]
fn invalid_uploads_are_refused_before_any_request() {
    let (mut service, requests) = service(Vec::new(), Vec::new());
    let payload = media(QqScene::Group);
    assert_eq!(
        service.upload_media(payload, 1).unwrap_err(),
        QqOpenApiError::InvalidPayload("exactly one media upload source is required".into())
    );
    let mut blank = media(QqScene::Group);
    blank.target_openid = "  ".into();
    blank.url = Some("u".into());
    assert_eq!(
        service.upload_media(blank, 1).unwrap_err(),
        QqOpenApiError::InvalidPayload("missing required field: target_openid".into())
    );
    assert!(requests.borrow().is_empty());
}

#[test]
fn resource_upload_puts_each_part_then_exchanges_the_upload_id() {
    let prepare = object(vec![
        ("upload_id", text("UP")),
        ("block_size", JsonValue::Unsigned(4)),
        (
            "parts",
            JsonValue::Array(vec![
                object(vec![("index", JsonValue::Unsigned(1)), ("presigned_url", text("https://s/1"))]),
                object(vec![("index", JsonValue::Unsigned(2)), ("presigned_url", text("https://s/2"))]),
            ]),
        ),
    ]);
    let chunks = vec![
        MediaChunk { index: 1, bytes: vec![1, 2, 3, 4], md5: "m1".into() },
        MediaChunk { index: 2, bytes: vec![5], md5: "m2".into() },
    ];
    let (mut service, requests) = service(
        vec![
            token("TOKEN_A"),
            ok(prepare),
            ok(JsonValue::Null),
            ok(JsonValue::Null),
            ok(JsonValue::Null),
            ok(JsonValue::Null),
            ok(object(vec![("file_info", text("INFO"))])),
        ],
        chunks,
    );
    let mut payload = media(QqScene::Group);
    payload.resource_ref = Some("resource:1".into());
    let response = service.upload_media(payload, 1).unwrap();
    assert_eq!(response.get("file_info"), Some(&text("INFO")));

    let requests = requests.borrow();
    assert_eq!(requests.len(), 7);
    assert_eq!(requests[1].url, "https://api.sgroup.qq.com/v2/groups/GROUP_OPENID/upload_prepare");
    assert_eq!(
        requests[1].body.as_ref().unwrap().get("file_name"),
        Some(&text("media.bin"))
    );
    assert_eq!(requests[2].url, "https://s/1");
    assert_eq!(requests[2].method, HttpMethod::Put);
    assert_eq!(header(&requests[2], "Content-Length"), Some("4"));
    assert_eq!(requests[2].binary_body, Some(vec![1, 2, 3, 4]));
    assert_eq!(
        requests[3].body,
        Some(object(vec![
            ("upload_id", text("UP")),
            ("part_index", JsonValue::Unsigned(1)),
            ("block_size", JsonValue::Unsigned(4)),
            ("md5", text("m1")),
        ]))
    );
    assert_eq!(requests[4].url, "https://s/2");
    assert_eq!(
        requests[6].body,
        Some(object(vec![("upload_id", text("UP"))]))
    );
}

#[test]
fn media_reader_failures_are_reported_as_media_errors() {
    let prepare = object(vec![("upload_id", text("UP")), ("block_size", JsonValue::Unsigned(4))]);
    let (mut service, _) = service(vec![token("TOKEN_A"), ok(prepare)], Vec::new());
    let mut payload = media(QqScene::Group);
    payload.resource_ref = Some("missing".into());
    assert_eq!(
        service.upload_media(payload, 1).unwrap_err(),
        QqOpenApiError::Media("media resource not found: missing".into())
    );
}

#[test]
fn recall_ack_and_share_link_requests() {
    let (mut service, requests) = service(
        vec![token("TOKEN_A"), ok(JsonValue::Null), ok(JsonValue::Null), ok(JsonValue::Null)],
        Vec::new(),
    );
    assert_eq!(
        service
            .recall_message(
                RecallMessagePayload {
                    scene: QqScene::Group,
                    target_openid: "".into(),
                    message_id: "M".into()
                },
                1
            )
            .unwrap_err(),
        QqOpenApiError::InvalidPayload("target_openid and message_id are required".into())
    );
    assert_eq!(
        service
            .ack_interaction(InteractionAckPayload { interaction_id: "I".into(), code: 6 }, 1)
            .unwrap_err(),
        QqOpenApiError::InvalidPayload("interaction_id and code 0..=5 are required".into())
    );
    service
        .recall_message(
            RecallMessagePayload {
                scene: QqScene::C2c,
                target_openid: "U".into(),
                message_id: "M".into(),
            },
            1,
        )
        .unwrap();
    service
        .ack_interaction(InteractionAckPayload { interaction_id: "I".into(), code: 5 }, 1)
        .unwrap();
    service
        .create_user_share_link(UserShareLinkPayload { callback_data: Some("cb".into()) }, 1)
        .unwrap();
    let requests = requests.borrow();
    assert_eq!(requests[1].method, HttpMethod::Delete);
    assert_eq!(requests[1].url, "https://api.sgroup.qq.com/v2/users/U/messages/M");
    assert_eq!(requests[2].url, "https://api.sgroup.qq.com/interactions/I");
    assert_eq!(
        requests[2].body,
        Some(object(vec![("code", JsonValue::Unsigned(5))]))
    );
    assert_eq!(requests[3].url, "https://api.sgroup.qq.com/v2/bot/share_url");
    assert_eq!(
        requests[3].body,
        Some(object(vec![("callbackData", text("cb"))]))
    );
}

#[test]
fn token_failures_are_reported_and_not_cached() {
    let (mut service, requests) = service(
        vec![
            status(403, text("denied")),
            ok(object(vec![("access_token", text("T"))])),
            token("TOKEN_A"),
            ok(JsonValue::Null),
        ],
        Vec::new(),
    );
    assert_eq!(
        service.send_message(c2c_message(), 1).unwrap_err(),
        QqOpenApiError::HttpStatus { status: 403, body: text("denied") }
    );
    assert_eq!(
        service.send_message(c2c_message(), 1).unwrap_err(),
        QqOpenApiError::InvalidResponse("expires_in".into())
    );
    service.send_message(c2c_message(), 1).unwrap();
    assert_eq!(requests.borrow().len(), 4);
}

#[test]
fn redaction_masks_secrets_and_open_ids_at_every_depth() {
    let body = object(vec![
        ("access_token", text("SECRET")),
        ("Client_Secret", text("S")),
        ("AUTHORIZATION", text("QQBot T")),
        ("target_openid", text("USER")),
        ("group_openid", JsonValue::Null),
        (
            "nested",
            JsonValue::Array(vec![object(vec![("user_openid", text("U")), ("message", text("hi"))])]),
        ),
        ("message", text("expired")),
    ]);
    assert_eq!(
        redact_json(&body),
        object(vec![
            ("access_token", text("<redacted>")),
            ("Client_Secret", text("<redacted>")),
            ("AUTHORIZATION", text("<redacted>")),
            ("target_openid", text("<openid:redacted>")),
            ("group_openid", JsonValue::Null),
            (
                "nested",
                JsonValue::Array(vec![object(vec![
                    ("user_openid", text("<openid:redacted>")),
                    ("message", text("hi"))
                ])]),
            ),
            ("message", text("expired")),
        ])
    );
    assert_eq!(redact_json(&JsonValue::Unsigned(5)), JsonValue::Unsigned(5));
}

#[test]
fn prepare_answers_need_an_upload_id_and_a_block_size() {
    let good = object(vec![("upload_id", text("UP")), ("block_size", JsonValue::Unsigned(4))]);
    assert_eq!(prepare_reply(&good), Ok(("UP".to_string(), 4)));
    let no_id = object(vec![("upload_id", text("")), ("block_size", JsonValue::Unsigned(4))]);
    assert_eq!(prepare_reply(&no_id), Err(QqOpenApiError::InvalidResponse("upload_id".into())));
    let no_size = object(vec![("upload_id", text("UP")), ("block_size", text("4"))]);
    assert_eq!(prepare_reply(&no_size), Err(QqOpenApiError::InvalidResponse("block_size".into())));
}

#[test]
fn chunk_plan_stops_at_the_first_part_without_an_address() {
    let prepare = object(vec![(
        "parts",
        JsonValue::Array(vec![
            object(vec![("index", JsonValue::Unsigned(2)), ("presigned_url", text("https://s/2"))]),
            object(vec![("index", JsonValue::Unsigned(1)), ("presigned_url", text("https://s/1"))]),
        ]),
    )]);
    let chunks = vec![
        MediaChunk { index: 1, bytes: vec![1, 2, 3], md5: "m1".into() },
        MediaChunk { index: 2, bytes: vec![4], md5: "m2".into() },
        MediaChunk { index: 3, bytes: vec![5], md5: "m3".into() },
        MediaChunk { index: 1, bytes: vec![6], md5: "m4".into() },
    ];
    let plan = chunk_plan(&prepare, "UP", 3, chunks);
    assert_eq!(plan.steps.len(), 2);
    assert_eq!(plan.steps[0].put.url, "https://s/1");
    assert_eq!(plan.steps[0].put.method, HttpMethod::Put);
    assert_eq!(header(&plan.steps[0].put, "Content-Length"), Some("3"));
    assert_eq!(plan.steps[0].put.binary_body, Some(vec![1, 2, 3]));
    assert_eq!(
        plan.steps[0].finish,
        object(vec![
            ("upload_id", text("UP")),
            ("part_index", JsonValue::Unsigned(1)),
            ("block_size", JsonValue::Unsigned(3)),
            ("md5", text("m1")),
        ])
    );
    assert_eq!(plan.steps[1].put.url, "https://s/2");
    assert_eq!(plan.missing, Some(QqOpenApiError::InvalidResponse("parts.presigned_url".into())));

    let whole = chunk_plan(&prepare, "UP", 3, vec![MediaChunk { index: 2, bytes: vec![9], md5: "m".into() }]);
    assert_eq!(whole.steps.len(), 1);
    assert_eq!(whole.missing, None);
}
