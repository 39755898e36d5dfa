use server_seeker::ids::Uuid;
use server_seeker::manager::player_tracking::{
    group_by_player, plan_message, FoundedPlayer, PlayerSightings, PlayerTrackingServiceError,
};
use server_seeker::net::IpAddr;
use server_seeker::time::Timestamp;

fn seen(uuid: u128, name: &str, ip: u32, secs: i64) -> FoundedPlayer {
    FoundedPlayer {
        uuid: Uuid(uuid),
        name: name.to_string(),
        ip: IpAddr::V4(ip),
        port: 25565,
        last_seen: Timestamp { secs, nanos: 0 },
    }
}

#[test]
fn sightings_are_grouped_by_player() {
    let records = vec![seen(1, "a", 10, 100), seen(2, "b", 20, 200), seen(1, "a", 30, 300)];
    let groups = group_by_player(&records);
    assert_eq!(groups.len(), 2);
    assert_eq!(groups[0].name, "a");
    assert_eq!(
        groups[0].servers.iter().map(|s| s.0).collect::<Vec<_>>(),
        vec![IpAddr::V4(10), IpAddr::V4(30)]
    );
    assert_eq!(groups[1].name, "b");
    assert_eq!(groups[1].servers.len(), 1);
    // the same id under another name is another player
    let groups = group_by_player(&vec![seen(1, "a", 10, 1), seen(1, "a2", 10, 2)]);
    assert_eq!(groups.len(), 2);
    assert!(group_by_player(&vec![]).is_empty());
}

#[test]
fn message_lists_ten_servers_and_counts_the_rest() {
    let servers: Vec<_> = (0..12)
        .map(|i| (IpAddr::V4(i), 25565, Timestamp { secs: i as i64, nanos: 0 }))
        .collect();
    let plan = plan_message(PlayerSightings { uuid: Uuid(5), name: "p".to_string(), servers });
    assert_eq!(plan.servers_count, 12);
    assert_eq!(plan.shown.len(), 10);
    assert_eq!(plan.shown[9].0, IpAddr::V4(9));
    assert_eq!(plan.more, Some(2));
    let few = vec![(IpAddr::V4(1), 1, Timestamp { secs: 0, nanos: 0 })];
    let plan = plan_message(PlayerSightings { uuid: Uuid(5), name: "p".to_string(), servers: few });
    assert_eq!(plan.shown.len(), 1);
    assert_eq!(plan.more, None);
    let ten: Vec<_> = (0..10).map(|i| (IpAddr::V4(i), 1, Timestamp { secs: 0, nanos: 0 })).collect();
    let plan = plan_message(PlayerSightings { uuid: Uuid(5), name: "p".to_string(), servers: ten });
    assert_eq!(plan.more, None);
}

#[test]
fn tracking_error_statuses() {
    assert_eq!(PlayerTrackingServiceError::Disabled.status_code(), 503);
    assert_eq!(PlayerTrackingServiceError::WebhookDuplicateUrl("u".to_string()).status_code(), 409);
    assert_eq!(PlayerTrackingServiceError::WebhookNotFound("u".to_string()).status_code(), 404);
    assert_eq!(
        PlayerTrackingServiceError::PlayerRecordNotFound { name: None, uuid: None }.status_code(),
        404
    );
    assert_eq!(PlayerTrackingServiceError::SqlError.status_code(), 500);
}
