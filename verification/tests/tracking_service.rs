use server_seeker::data_core::sql::analytics::Webhook;
use server_seeker::ids::Uuid;
use server_seeker::manager::player_tracking::tracking_service::{
    all_webhooks_result, track_info_of, track_lookup_result, webhook_found_result,
    webhook_info_of, webhook_insert_result, webhook_lookup_result, webhook_tracks_result, TrackRow,
};
use server_seeker::manager::player_tracking::PlayerTrackingServiceError;
use server_seeker::net::IpAddr;
use server_seeker::time::Timestamp;

const HOOK: &str = "https://discord.com/api/webhooks/1/abc";

fn hook_row(name: &str, url: &str) -> Webhook {
    Webhook { id: 1, name: name.to_string(), url: url.to_string() }
}

fn track(name: Option<&str>, uuid: Option<u128>, port: Option<i32>) -> TrackRow {
    TrackRow {
        name: name.map(|n| n.to_string()),
        uuid: uuid.map(Uuid),
        last_send: Some(Timestamp { secs: 1_700_000_000, nanos: 0 }),
        ip: port.map(|_| IpAddr::V4(0x01020304)),
        port,
    }
}

fn empty_row() -> TrackRow {
    TrackRow { name: None, uuid: None, last_send: None, ip: None, port: None }
}

#[test]
fn stored_webhooks_read_back() {
    let info = webhook_info_of(hook_row("alerts", HOOK)).unwrap();
    assert_eq!(info.webhook_name, "alerts");
    assert_eq!(info.url.as_str(), HOOK);
    assert_eq!(
        webhook_info_of(hook_row("broken", "not a url")).unwrap_err(),
        PlayerTrackingServiceError::SqlError
    );
}

#[test]
fn unknown_webhook_is_not_found() {
    assert_eq!(
        webhook_lookup_result(HOOK.to_string(), None).unwrap_err(),
        PlayerTrackingServiceError::WebhookNotFound(HOOK.to_string())
    );
    assert_eq!(
        webhook_lookup_result(HOOK.to_string(), Some(hook_row("a", HOOK))).unwrap().webhook_name,
        "a"
    );
}

#[test]
fn listing_webhooks_fails_on_a_broken_url() {
    let list = all_webhooks_result(vec![hook_row("a", HOOK), hook_row("b", "https://example.com/")]).unwrap();
    assert_eq!(list.len(), 2);
    assert_eq!(list[1].webhook_name, "b");
    assert_eq!(
        all_webhooks_result(vec![hook_row("a", HOOK), hook_row("b", "::")]).unwrap_err(),
        PlayerTrackingServiceError::SqlError
    );
    assert!(all_webhooks_result(vec![]).unwrap().is_empty());
}

#[test]
fn ports_keep_their_low_sixteen_bits() {
    let info = track_info_of(track(Some("Notch"), None, Some(25565)));
    assert_eq!(info.last_server_port, Some(25565));
    assert_eq!(info.last_server_ip, Some(IpAddr::V4(0x01020304)));
    let info = track_info_of(track(Some("Notch"), None, Some(70000)));
    assert_eq!(info.last_server_port, Some(4464));
}

#[test]
fn track_lookup_answers() {
    let name = Some("Notch".to_string());
    assert_eq!(
        track_lookup_result(HOOK.to_string(), name.clone(), None, None).unwrap_err(),
        PlayerTrackingServiceError::WebhookNotFound(HOOK.to_string())
    );
    assert_eq!(
        track_lookup_result(HOOK.to_string(), name.clone(), Some(Uuid(7)), Some(empty_row())).unwrap_err(),
        PlayerTrackingServiceError::PlayerRecordNotFound { name: name.clone(), uuid: Some(Uuid(7)) }
    );
    let found = track_lookup_result(HOOK.to_string(), name, None, Some(track(Some("Notch"), None, None))).unwrap();
    assert_eq!(found.name.as_deref(), Some("Notch"));
    assert_eq!(found.last_server_port, None);
}

#[test]
fn webhook_track_lists() {
    assert_eq!(
        webhook_tracks_result(HOOK.to_string(), vec![]).unwrap_err(),
        PlayerTrackingServiceError::WebhookNotFound(HOOK.to_string())
    );
    assert!(webhook_tracks_result(HOOK.to_string(), vec![empty_row()]).unwrap().is_empty());
    let list = webhook_tracks_result(
        HOOK.to_string(),
        vec![track(Some("a"), None, Some(1)), track(None, Some(9), None)],
    )
    .unwrap();
    assert_eq!(list.len(), 2);
    assert_eq!(list[0].name.as_deref(), Some("a"));
    assert_eq!(list[1].uuid, Some(Uuid(9)));
}

#[test]
fn inserts_and_removals() {
    assert_eq!(
        webhook_insert_result(HOOK.to_string(), 0).unwrap_err(),
        PlayerTrackingServiceError::WebhookDuplicateUrl(HOOK.to_string())
    );
    assert!(webhook_insert_result(HOOK.to_string(), 1).is_ok());
    assert_eq!(
        webhook_found_result(HOOK.to_string(), false).unwrap_err(),
        PlayerTrackingServiceError::WebhookNotFound(HOOK.to_string())
    );
    assert!(webhook_found_result(HOOK.to_string(), true).is_ok());
}

#[test]
fn stored_urls_read_back_in_normal_form() {
    let info = webhook_info_of(hook_row("a", "HTTPS://Example.COM")).unwrap();
    assert_eq!(info.url.as_str(), "https://example.com/");
    let list = all_webhooks_result(vec![hook_row("a", HOOK), hook_row("b", "https://example.org/x")]).unwrap();
    assert_eq!(list[0].url.as_str(), HOOK);
    assert_eq!(list[1].url.as_str(), "https://example.org/x");
}
