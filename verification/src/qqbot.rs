//! The QQBot adapter's configuration, OpenAPI paths and payload rules.
use vstd::prelude::*;
use vstd::string::*;

use crate::json::{json_get, json_u64, JsonValue};
use crate::text::{is_blank, is_blank_chars};

verus! {

pub const PLUGIN_ID: &'static str = "mutsuki.qqbot";

pub const PLUGIN_VERSION: &'static str = "0.1.0";

pub const PLUGIN_API_VERSION: &'static str = "mutsuki-plugin-v1";

pub const RAW_GATEWAY_TASK_KIND: &'static str = "raw.input.qqbot.gateway";

pub const GATEWAY_NORMALIZER_RUNNER_ID: &'static str = "mutsuki.qqbot.gateway.normalize";

pub const EFFECT_RUNNER_ID: &'static str = "effect.qqbot.openapi";

pub const EFFECT_MESSAGE_SEND: &'static str = "effect.qqbot.message.send";

pub const EFFECT_MEDIA_UPLOAD: &'static str = "effect.qqbot.media.upload";

pub const EFFECT_MESSAGE_RECALL: &'static str = "effect.qqbot.message.recall";

pub const EFFECT_INTERACTION_ACK: &'static str = "effect.qqbot.interaction.ack";

pub const EFFECT_USER_SHARE_LINK: &'static str = "effect.qqbot.user.share_link";

pub const STREAM_GATEWAY: &'static str = "qqbot.gateway";

pub const SUBSCRIPTION_GATEWAY: &'static str = "qqbot.gateway.events";

pub const TIMER_GATEWAY_HEARTBEAT: &'static str = "qqbot.gateway.heartbeat";

/// The effect task kinds of the OpenAPI runner, in manifest order.
pub open spec fn effect_kinds() -> Seq<Seq<char>> {
    seq![
        EFFECT_MESSAGE_SEND@,
        EFFECT_MEDIA_UPLOAD@,
        EFFECT_MESSAGE_RECALL@,
        EFFECT_INTERACTION_ACK@,
        EFFECT_USER_SHARE_LINK@,
    ]
}

pub fn effect_task_kinds() -> (r: Vec<String>)
    ensures
        crate::text::views(r@) == effect_kinds(),
{
    let r = vec![
        String::from_str(EFFECT_MESSAGE_SEND),
        String::from_str(EFFECT_MEDIA_UPLOAD),
        String::from_str(EFFECT_MESSAGE_RECALL),
        String::from_str(EFFECT_INTERACTION_ACK),
        String::from_str(EFFECT_USER_SHARE_LINK),
    ];
    assert(crate::text::views(r@) =~= effect_kinds());
    r
}

#[derive(Clone, Debug, PartialEq, Eq)]
pub struct QqBotConfig {
    pub app_id: String,
    pub client_secret: String,
    pub token_url: String,
    pub openapi_base_url: String,
    pub gateway_intents: u64,
    pub shard: [u64; 2],
    pub token_refresh_margin_secs: u64,
    pub max_retry_attempts: u8,
}

impl QqBotConfig {
    /// A configuration with the official endpoints, the default intents, a single
    /// shard, a 120 s token refresh margin and three retries.
    pub fn new(app_id: &str, client_secret: &str) -> (r: Self)
        ensures
            r.app_id@ == app_id@,
            r.client_secret@ == client_secret@,
            r.token_url@ == "https://bots.qq.com/app/getAppAccessToken"@,
            r.openapi_base_url@ == "https://api.sgroup.qq.com"@,
            r.gateway_intents == 1_325_405_185,
            r.shard@ == seq![0u64, 1u64],
            r.token_refresh_margin_secs == 120,
            r.max_retry_attempts == 3,
    {
        let shard: [u64; 2] = [0, 1];
        assert(shard@ =~= seq![0u64, 1u64]);
        QqBotConfig {
            app_id: String::from_str(app_id),
            client_secret: String::from_str(client_secret),
            token_url: String::from_str("https://bots.qq.com/app/getAppAccessToken"),
            openapi_base_url: String::from_str("https://api.sgroup.qq.com"),
            gateway_intents: 1_325_405_185,
            shard,
            token_refresh_margin_secs: 120,
            max_retry_attempts: 3,
        }
    }
}

#[derive(Clone, Copy, Debug, PartialEq, Eq, Structural)]
pub enum QqScene {
    Group,
    C2c,
}

impl QqScene {
    /// The path prefix of the scene's target: groups or users.
    pub open spec fn target_prefix(self) -> Seq<char> {
        match self {
            QqScene::Group => "/v2/groups/"@,
            QqScene::C2c => "/v2/users/"@,
        }
    }

    fn target_path(&self, target_openid: &str, suffix: &str) -> (r: String)
        ensures
            r@ == self.target_prefix() + target_openid@ + suffix@,
    {
        let mut path = match self {
            QqScene::Group => String::from_str("/v2/groups/"),
            QqScene::C2c => String::from_str("/v2/users/"),
        };
        path.append(target_openid);
        path.append(suffix);
        path
    }

    pub fn messages_path(&self, target_openid: &str) -> (r: String)
        ensures
            r@ == self.target_prefix() + target_openid@ + "/messages"@,
    {
        self.target_path(target_openid, "/messages")
    }

    pub fn files_path(&self, target_openid: &str) -> (r: String)
        ensures
            r@ == self.target_prefix() + target_openid@ + "/files"@,
    {
        self.target_path(target_openid, "/files")
    }

    pub fn upload_prepare_path(&self, target_openid: &str) -> (r: String)
        ensures
            r@ == self.target_prefix() + target_openid@ + "/upload_prepare"@,
    {
        self.target_path(target_openid, "/upload_prepare")
    }

    pub fn upload_part_finish_path(&self, target_openid: &str) -> (r: String)
        ensures
            r@ == self.target_prefix() + target_openid@ + "/upload_part_finish"@,
    {
        self.target_path(target_openid, "/upload_part_finish")
    }

    pub fn recall_path(&self, target_openid: &str, message_id: &str) -> (r: String)
        ensures
            r@ == self.target_prefix() + target_openid@ + "/messages/"@ + message_id@,
    {
        let mut path = self.target_path(target_openid, "/messages/");
        path.append(message_id);
        path
    }
}

#[derive(Clone, Debug, PartialEq, Eq)]
pub enum PayloadError {
    NotObject,
    MissingField(&'static str),
    InvalidField(&'static str),
    UnsupportedGroupField(&'static str),
    InvalidMediaSource,
    InvalidStreamIndex,
}

/// The error's message, as the adapter reports it.
pub open spec fn payload_error_text(e: PayloadError) -> Seq<char> {
    match e {
        PayloadError::NotObject => "payload must be a JSON object"@,
        PayloadError::MissingField(f) => "missing required field: "@ + f@,
        PayloadError::InvalidField(f) => "invalid field: "@ + f@,
        PayloadError::UnsupportedGroupField(f) => "group messages do not support field: "@ + f@,
        PayloadError::InvalidMediaSource => "exactly one media upload source is required"@,
        PayloadError::InvalidStreamIndex => "stream.index must be 0 for the first C2C stream fragment"@,
    }
}

impl PayloadError {
    pub fn message(&self) -> (r: String)
        ensures
            r@ == payload_error_text(*self),
    {
        match self {
            PayloadError::NotObject => String::from_str("payload must be a JSON object"),
            PayloadError::MissingField(f) => {
                let mut text = String::from_str("missing required field: ");
                text.append(f);
                text
            },
            PayloadError::InvalidField(f) => {
                let mut text = String::from_str("invalid field: ");
                text.append(f);
                text
            },
            PayloadError::UnsupportedGroupField(f) => {
                let mut text = String::from_str("group messages do not support field: ");
                text.append(f);
                text
            },
            PayloadError::InvalidMediaSource => String::from_str("exactly one media upload source is required"),
            PayloadError::InvalidStreamIndex => String::from_str(
                "stream.index must be 0 for the first C2C stream fragment",
            ),
        }
    }
}

#[derive(Clone, Debug, PartialEq, Eq)]
pub struct MediaUploadPayload {
    pub scene: QqScene,
    pub target_openid: String,
    pub file_type: u8,
    pub url: Option<String>,
    pub file_data: Option<String>,
    pub resource_ref: Option<String>,
    pub upload_id: Option<String>,
    pub srv_send_msg: Option<bool>,
    pub file_name: Option<String>,
    pub file_size: Option<u64>,
    pub md5: Option<String>,
    pub sha1: Option<String>,
    pub md5_10m: Option<String>,
}

/// How many of the four upload sources a payload names.
pub open spec fn source_count(p: MediaUploadPayload) -> int {
    (if p.url is Some {
        1int
    } else {
        0
    }) + (if p.file_data is Some {
        1int
    } else {
        0
    }) + (if p.resource_ref is Some {
        1int
    } else {
        0
    }) + (if p.upload_id is Some {
        1int
    } else {
        0
    })
}

/// What is wrong with an upload request, if anything, in the order it is checked.
pub open spec fn media_payload_error(p: MediaUploadPayload) -> Option<PayloadError> {
    if is_blank_chars(p.target_openid@) {
        Some(PayloadError::MissingField("target_openid"))
    } else if !(1 <= p.file_type <= 4) {
        Some(PayloadError::InvalidField("file_type"))
    } else if source_count(p) != 1 {
        Some(PayloadError::InvalidMediaSource)
    } else {
        None
    }
}

impl MediaUploadPayload {
    /// A target, a file type between 1 and 4, and exactly one upload source.
    pub fn validate(&self) -> (r: Result<(), PayloadError>)
        ensures
            match media_payload_error(*self) {
                Some(e) => r == Err::<(), PayloadError>(e),
                None => r is Ok,
            },
            is_blank_chars(self.target_openid@) ==> r == Err::<(), PayloadError>(
                PayloadError::MissingField("target_openid"),
            ),
            !is_blank_chars(self.target_openid@) && !(1 <= self.file_type <= 4) ==> r == Err::<
                (),
                PayloadError,
            >(PayloadError::InvalidField("file_type")),
            !is_blank_chars(self.target_openid@) && 1 <= self.file_type <= 4 && source_count(*self)
                != 1 ==> r == Err::<(), PayloadError>(PayloadError::InvalidMediaSource),
            r is Ok <==> !is_blank_chars(self.target_openid@) && 1 <= self.file_type <= 4
                && source_count(*self) == 1,
    {
        if is_blank(self.target_openid.as_str()) {
            return Err(PayloadError::MissingField("target_openid"));
        }
        if !(1 <= self.file_type && self.file_type <= 4) {
            return Err(PayloadError::InvalidField("file_type"));
        }
        let mut count: u8 = 0;
        if self.url.is_some() {
            count = count + 1;
        }
        if self.file_data.is_some() {
            count = count + 1;
        }
        if self.resource_ref.is_some() {
            count = count + 1;
        }
        if self.upload_id.is_some() {
            count = count + 1;
        }
        if count != 1 {
            return Err(PayloadError::InvalidMediaSource);
        }
        Ok(())
    }
}

#[derive(Clone, Debug, PartialEq, Eq)]
pub struct RecallMessagePayload {
    pub scene: QqScene,
    pub target_openid: String,
    pub message_id: String,
}

#[derive(Clone, Debug, PartialEq, Eq)]
pub struct InteractionAckPayload {
    pub interaction_id: String,
    pub code: u8,
}

#[derive(Clone, Debug, PartialEq, Eq)]
pub struct UserShareLinkPayload {
    pub callback_data: Option<String>,
}

/// A message to send: the scene, its target and the message body as JSON.
#[derive(Debug, PartialEq, Eq)]
pub struct SendMessagePayload {
    pub scene: QqScene,
    pub target_openid: String,
    pub body: JsonValue,
}

/// What is wrong with the `stream` member of a C2C message body, if anything: it must
/// be an object with an unsigned `index`, and without an `id` that index must be 0.
pub open spec fn c2c_stream_error(body: JsonValue) -> Option<PayloadError> {
    match json_get(body, "stream"@) {
        None => None,
        Some(stream) => if !(stream is Object) {
            Some(PayloadError::InvalidField("stream"))
        } else {
            match json_u64(json_get(stream, "index"@)) {
                None => Some(PayloadError::InvalidField("stream.index")),
                Some(index) => if json_get(stream, "id"@) is None && index != 0 {
                    Some(PayloadError::InvalidStreamIndex)
                } else {
                    None
                },
            }
        },
    }
}

/// What is wrong with a message to send, if anything, in the order it is checked.
pub open spec fn send_payload_error(p: SendMessagePayload) -> Option<PayloadError> {
    if !(p.body is Object) {
        Some(PayloadError::NotObject)
    } else if json_get(p.body, "msg_type"@) is None {
        Some(PayloadError::MissingField("msg_type"))
    } else if is_blank_chars(p.target_openid@) {
        Some(PayloadError::MissingField("target_openid"))
    } else if p.scene == QqScene::Group && json_get(p.body, "stream"@) is Some {
        Some(PayloadError::UnsupportedGroupField("stream"))
    } else if p.scene == QqScene::Group && json_get(p.body, "prompt_keyboard"@) is Some {
        Some(PayloadError::UnsupportedGroupField("prompt_keyboard"))
    } else if p.scene == QqScene::Group && json_get(p.body, "action_button"@) is Some {
        Some(PayloadError::UnsupportedGroupField("action_button"))
    } else if p.scene == QqScene::C2c {
        c2c_stream_error(p.body)
    } else {
        None
    }
}

fn validate_c2c_stream(body: &JsonValue) -> (r: Result<(), PayloadError>)
    ensures
        match c2c_stream_error(*body) {
            Some(e) => r == Err::<(), PayloadError>(e),
            None => r is Ok,
        },
{
    let stream = match body.get("stream") {
        None => {
            return Ok(());
        },
        Some(stream) => stream,
    };
    if !stream.is_object() {
        return Err(PayloadError::InvalidField("stream"));
    }
    let index = match stream.get("index") {
        Some(v) => match v.as_u64() {
            Some(n) => n,
            None => {
                return Err(PayloadError::InvalidField("stream.index"));
            },
        },
        None => {
            return Err(PayloadError::InvalidField("stream.index"));
        },
    };
    if !stream.contains_key("id") && index != 0 {
        return Err(PayloadError::InvalidStreamIndex);
    }
    Ok(())
}

impl SendMessagePayload {
    /// The body to send, once the message passes the scene's rules.
    pub fn validated_body(&self) -> (r: Result<JsonValue, PayloadError>)
        ensures
            match send_payload_error(*self) {
                Some(e) => r == Err::<JsonValue, PayloadError>(e),
                None => r matches Ok(b) && b@ == self.body@,
            },
            self.scene == QqScene::Group && (json_get(self.body, "stream"@) is Some || json_get(
                self.body,
                "prompt_keyboard"@,
            ) is Some || json_get(self.body, "action_button"@) is Some) ==> r is Err,
            self.scene == QqScene::Group && self.body is Object && json_get(self.body, "msg_type"@) is Some
                && !is_blank_chars(self.target_openid@) ==> {
                &&& json_get(self.body, "stream"@) is Some ==> r == Err::<JsonValue, PayloadError>(
                    PayloadError::UnsupportedGroupField("stream"),
                )
                &&& json_get(self.body, "stream"@) is None && json_get(self.body, "prompt_keyboard"@) is Some
                    ==> r == Err::<JsonValue, PayloadError>(PayloadError::UnsupportedGroupField("prompt_keyboard"))
                &&& json_get(self.body, "stream"@) is None && json_get(self.body, "prompt_keyboard"@) is None
                    && json_get(self.body, "action_button"@) is Some ==> r == Err::<JsonValue, PayloadError>(
                    PayloadError::UnsupportedGroupField("action_button"),
                )
            },
    {
        if !self.body.is_object() {
            return Err(PayloadError::NotObject);
        }
        if !self.body.contains_key("msg_type") {
            return Err(PayloadError::MissingField("msg_type"));
        }
        if is_blank(self.target_openid.as_str()) {
            return Err(PayloadError::MissingField("target_openid"));
        }
        if self.scene == QqScene::Group {
            if self.body.contains_key("stream") {
                return Err(PayloadError::UnsupportedGroupField("stream"));
            }
            if self.body.contains_key("prompt_keyboard") {
                return Err(PayloadError::UnsupportedGroupField("prompt_keyboard"));
            }
            if self.body.contains_key("action_button") {
                return Err(PayloadError::UnsupportedGroupField("action_button"));
            }
        }
        if self.scene == QqScene::C2c {
            validate_c2c_stream(&self.body)?;
        }
        Ok(self.body.copy())
    }
}

} // verus!
