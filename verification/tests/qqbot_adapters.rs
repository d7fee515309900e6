use mutsuki_runtime::im_qqbot::{
    absolute_url, authorization_header, effect_protocol_ids, QqAuthManager,
};
use mutsuki_runtime::qqbot::{
    effect_task_kinds, MediaUploadPayload, PayloadError, QqBotConfig, QqScene,
    EFFECT_MESSAGE_SEND,
};

fn media(target: &str, file_type: u8) -> MediaUploadPayload {
    MediaUploadPayload {
        scene: QqScene::Group,
        target_openid: target.into(),
        file_type,
        url: Some("https://example.com/image.png".into()),
        file_data: None,
        resource_ref: None,
        upload_id: None,
        srv_send_msg: None,
        file_name: None,
        file_size: None,
        md5: None,
        sha1: None,
        md5_10m: None,
    }
}

#[test]
fn config_uses_the_official_endpoints() {
    let config = QqBotConfig::new("app", "secret");
    assert_eq!(config.app_id, "app");
    assert_eq!(config.client_secret, "secret");
    assert_eq!(config.token_url, "https://bots.qq.com/app/getAppAccessToken");
    assert_eq!(config.openapi_base_url, "https://api.sgroup.qq.com");
    assert_eq!(config.gateway_intents, 1_325_405_185);
    assert_eq!(config.shard, [0, 1]);
    assert_eq!(config.token_refresh_margin_secs, 120);
    assert_eq!(config.max_retry_attempts, 3);
}

#[test]
fn scene_paths_name_groups_and_users() {
    assert_eq!(QqScene::Group.messages_path("G"), "/v2/groups/G/messages");
    assert_eq!(QqScene::C2c.messages_path("U"), "/v2/users/U/messages");
    assert_eq!(QqScene::Group.files_path("G"), "/v2/groups/G/files");
    assert_eq!(QqScene::C2c.upload_prepare_path("U"), "/v2/users/U/upload_prepare");
    assert_eq!(QqScene::Group.upload_part_finish_path("G"), "/v2/groups/G/upload_part_finish");
    assert_eq!(QqScene::C2c.recall_path("U", "M1"), "/v2/users/U/messages/M1");
}

#[test]
fn media_upload_needs_target_type_and_exactly_one_source() {
    assert_eq!(media("GROUP_OPENID", 1).validate(), Ok(()));
    assert_eq!(media(" \t\u{3000}", 1).validate(), Err(PayloadError::MissingField("target_openid")));
    assert_eq!(media("G", 0).validate(), Err(PayloadError::InvalidField("file_type")));
    assert_eq!(media("G", 5).validate(), Err(PayloadError::InvalidField("file_type")));
    let mut two = media("G", 4);
    two.upload_id = Some("upload".into());
    assert_eq!(two.validate(), Err(PayloadError::InvalidMediaSource));
    let mut none = media("G", 2);
    none.url = None;
    assert_eq!(none.validate(), Err(PayloadError::InvalidMediaSource));
}

#[test]
fn effect_kinds_are_listed_in_manifest_order() {
    let kinds = effect_task_kinds();
    assert_eq!(kinds.len(), 5);
    assert_eq!(kinds[0], EFFECT_MESSAGE_SEND);
    assert_eq!(kinds[4], "effect.qqbot.user.share_link");
    let ids = effect_protocol_ids();
    assert_eq!(ids[0], "mutsuki.im.qqbot.message.send");
    assert_eq!(ids[2], "mutsuki.im.qqbot.message.recall");
}

#[test]
fn auth_manager_reuses_a_fresh_token_and_forgets_it_on_invalidate() {
    let mut auth = QqAuthManager::new();
    assert_eq!(auth.cached_token(120, 1), None);
    auth.store_token("TOKEN_A".into(), 1, 7200);
    assert_eq!(auth.cached_token(120, 1), Some("TOKEN_A".into()));
    assert_eq!(auth.cached_token(120, 7080), Some("TOKEN_A".into()));
    assert_eq!(auth.cached_token(120, 7081), None);
    auth.invalidate();
    assert_eq!(auth.cached_token(120, 1), None);
    assert_eq!(authorization_header("TOKEN_B"), "QQBot TOKEN_B");
}

#[test]
fn absolute_urls_join_with_one_slash() {
    assert_eq!(absolute_url("https://api.sgroup.qq.com/", "/v2/users/U/messages"), "https://api.sgroup.qq.com/v2/users/U/messages");
    assert_eq!(absolute_url("https://api", "v2/x"), "https://api/v2/x");
    assert_eq!(absolute_url("https://api//", "//v2"), "https://api/v2");
    assert_eq!(absolute_url("https://api", "https://other/path"), "https://other/path");
    assert_eq!(absolute_url("https://api", "http://other"), "http://other");
}
