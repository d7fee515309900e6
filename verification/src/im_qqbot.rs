//! The experimental IM QQBot adapter: access-token caching, request URLs and the
//! provider interfaces its runner is built on.
use vstd::prelude::*;
use vstd::string::*;

use crate::text::{has_prefix, starts_with, trim_end_chars, trim_end_matches_char, trim_start_chars, trim_start_matches_char};

verus! {

pub const PLUGIN_ID: &'static str = "mutsuki.experimental.im.qqbot";

pub const PLUGIN_VERSION: &'static str = "0.1.0";

pub const PLUGIN_API_VERSION: &'static str = "mutsuki-plugin-v1";

pub const RAW_GATEWAY_PROTOCOL_ID: &'static str = "mutsuki.im.qqbot.gateway.raw";

pub const GATEWAY_NORMALIZER_RUNNER_ID: &'static str = "mutsuki.im.qqbot.gateway.normalize";

pub const EFFECT_RUNNER_ID: &'static str = "mutsuki.im.qqbot.openapi";

pub const EFFECT_MESSAGE_SEND: &'static str = "mutsuki.im.qqbot.message.send";

pub const EFFECT_MEDIA_UPLOAD: &'static str = "mutsuki.im.qqbot.media.upload";

pub const EFFECT_MESSAGE_RECALL: &'static str = "mutsuki.im.qqbot.message.recall";

pub const EFFECT_INTERACTION_ACK: &'static str = "mutsuki.im.qqbot.interaction.ack";

pub const EFFECT_USER_SHARE_LINK: &'static str = "mutsuki.im.qqbot.user.share_link";

/// The effect protocols of the OpenAPI runner, in manifest order.
pub open spec fn effect_protocols() -> Seq<Seq<char>> {
    seq![
        EFFECT_MESSAGE_SEND@,
        EFFECT_MEDIA_UPLOAD@,
        EFFECT_MESSAGE_RECALL@,
        EFFECT_INTERACTION_ACK@,
        EFFECT_USER_SHARE_LINK@,
    ]
}

pub fn effect_protocol_ids() -> (r: Vec<String>)
    ensures
        crate::text::views(r@) == effect_protocols(),
{
    let r = vec![
        String::from_str(EFFECT_MESSAGE_SEND),
        String::from_str(EFFECT_MEDIA_UPLOAD),
        String::from_str(EFFECT_MESSAGE_RECALL),
        String::from_str(EFFECT_INTERACTION_ACK),
        String::from_str(EFFECT_USER_SHARE_LINK),
    ];
    assert(crate::text::views(r@) =~= effect_protocols());
    r
}

#[derive(Clone, Debug, PartialEq, Eq)]
pub struct AccessToken {
    pub token: String,
    pub expires_at_step: u64,
}

/// Caches the bot's access token and decides when it must be fetched again.
#[derive(Clone, Debug)]
pub struct QqAuthManager {
    token: Option<AccessToken>,
}

/// A cached token is used only while more than `margin` steps remain before it expires.
pub open spec fn token_fresh(token: AccessToken, margin: u64, current_step: u64) -> bool {
    token.expires_at_step > current_step + margin
}

impl Default for QqAuthManager {
    fn default() -> (r: Self)
        ensures
            r.cached() is None,
    {
        QqAuthManager::new()
    }
}

impl QqAuthManager {
    pub closed spec fn cached(&self) -> Option<AccessToken> {
        self.token
    }

    pub fn new() -> (r: Self)
        ensures
            r.cached() is None,
    {
        QqAuthManager { token: None }
    }

    /// Forgets the cached token, so that the next request fetches a new one.
    pub fn invalidate(&mut self)
        ensures
            final(self).cached() is None,
    {
        self.token = None;
    }

    /// The cached token, if it is still fresh at `current_step`.
    pub fn cached_token(&self, margin: u64, current_step: u64) -> (r: Option<String>)
        ensures
            match self.cached() {
                Some(t) => if token_fresh(t, margin, current_step) {
                    r == Some(t.token)
                } else {
                    r is None
                },
                None => r is None,
            },
    {
        match &self.token {
            Some(token) => {
                if token.expires_at_step > current_step && token.expires_at_step - current_step
                    > margin {
                    Some(token.token.clone())
                } else {
                    None
                }
            },
            None => None,
        }
    }

    /// Caches a token fetched at `current_step` that lives `expires_in` steps.
    pub fn store_token(&mut self, token: String, current_step: u64, expires_in: u64)
        requires
            current_step + expires_in <= u64::MAX,
        ensures
            final(self).cached() == Some(
                AccessToken { token, expires_at_step: (current_step + expires_in) as u64 },
            ),
    {
        self.token = Some(AccessToken { token, expires_at_step: current_step + expires_in });
    }
}

/// The value of the `Authorization` header for a bot token.
pub fn authorization_header(token: &str) -> (r: String)
    ensures
        r@ == "QQBot "@ + token@,
{
    let mut header = String::from_str("QQBot ");
    header.append(token);
    header
}

/// A path that already names a scheme is used as it is; any other path is joined to
/// the base with exactly one slash.
pub open spec fn absolute_url_chars(base: Seq<char>, path: Seq<char>) -> Seq<char> {
    if has_prefix(path, "http://"@) || has_prefix(path, "https://"@) {
        path
    } else {
        trim_end_chars(base, '/') + "/"@ + trim_start_chars(path, '/')
    }
}

pub fn absolute_url(base: &str, path: &str) -> (r: String)
    ensures
        r@ == absolute_url_chars(base@, path@),
{
    if starts_with(path, "http://") || starts_with(path, "https://") {
        return String::from_str(path);
    }
    let mut url = String::from_str(trim_end_matches_char(base, '/'));
    url.append("/");
    url.append(trim_start_matches_char(path, '/'));
    url
}

#[derive(Clone, Copy, Debug, PartialEq, Eq, Structural)]
pub enum HttpMethod {
    Post,
    Put,
    Delete,
}

/// Hands out message sequence numbers; supplied by the adapter's user.
pub trait QqIdSource {
    fn next_msg_seq(&mut self) -> u64;
}

#[derive(Clone, Debug, PartialEq, Eq)]
pub struct MediaChunk {
    pub index: u64,
    pub bytes: Vec<u8>,
    pub md5: String,
}

#[derive(Clone, Debug, PartialEq, Eq)]
pub enum QqMediaError {
    NotFound(String),
    NotReadable(String),
    Failed(String),
}

/// The error's message, as the adapter reports it.
pub open spec fn media_error_text(e: QqMediaError) -> Seq<char> {
    match e {
        QqMediaError::NotFound(r) => "media resource not found: "@ + r@,
        QqMediaError::NotReadable(r) => "media resource is not readable: "@ + r@,
        QqMediaError::Failed(r) => "media resource failed: "@ + r@,
    }
}

impl QqMediaError {
    pub fn message(&self) -> (r: String)
        ensures
            r@ == media_error_text(*self),
    {
        let (prefix, detail) = match self {
            QqMediaError::NotFound(d) => ("media resource not found: ", d),
            QqMediaError::NotReadable(d) => ("media resource is not readable: ", d),
            QqMediaError::Failed(d) => ("media resource failed: ", d),
        };
        let mut text = String::from_str(prefix);
        text.append(detail.as_str());
        text
    }
}

/// Reads a media resource in blocks; supplied by the adapter's user.
pub trait QqMediaProvider {
    fn read_chunks(&mut self, resource_ref: &str, block_size: u64) -> Result<
        Vec<MediaChunk>,
        QqMediaError,
    >;
}

} // verus!
