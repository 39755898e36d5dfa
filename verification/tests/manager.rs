use server_seeker::data_core::manager_api::PlayerTrackIdent;
use server_seeker::data_core::manager_api::{
    JobExecutor, JobSchedule, ScheduleData, ScheduleJobData,
};
use server_seeker::data_core::proto::scanner::{self, ScanMethod};
use server_seeker::data_core::sql::data::{ConnectionResult, Difficulty, GameMode};
use server_seeker::manager::api::tracking::TrackIdentAndUrlQuery;
use server_seeker::manager::api::AuthSettings;
use server_seeker::manager::config::{
    default_player_track_interval, default_true, ApiSettings, General, PlayerTracking,
};
use server_seeker::manager::database::data_parsing::SqlParsePbDataError;
use server_seeker::manager::database::ParsedForSqlServerData;
use server_seeker::manager::scan_jobs::schedule::{ScheduleManagerError, ScheduleRegistry};
use server_seeker::manager::scan_jobs::worker_manager::{
    get_specified_workers, validate_executor, WorkerManagerError,
};
use server_seeker::data_core::manager_api::RescanJobProgress;
use server_seeker::manager::scan_jobs::worker::{DiscoverTracker, RescanTracker};
use server_seeker::net::IpAddr;
use server_seeker::time::Timestamp;

fn wire_server(ip: Option<scanner::IpAddr>) -> scanner::McServerData {
    scanner::McServerData {
        ip,
        port: 70000,
        domain: None,
        connection_result: 2,
        description: "motd".to_string(),
        protocol: 767,
        version_name: "1.21".to_string(),
        online_players: 1,
        max_players: 20,
        players: vec![scanner::PlayerRecord {
            name: "alice".to_string(),
            uuid: vec![0; 16],
            is_online: false,
            gamemode: Some(9),
            ping: None,
        }],
        enforces_secure_chat: false,
        no_chat_reports: true,
        mods: vec![
            scanner::McMod { mod_id: "a".to_string(), version: "1".to_string() },
            scanner::McMod { mod_id: "b".to_string(), version: "2".to_string() },
        ],
        channels: vec![],
        brand: None,
        links: vec!["https://x".to_string()],
        code_of_conduct: None,
        features: vec![],
        resource_pack: None,
        commands: vec![],
        hashed_seed: None,
        gamemode: Some(3),
        difficulty: Some(12),
        dimension: None,
        view_distance: Some(70000),
        simulation_distance: None,
        is_hardcore: None,
        reduced_debug_info: None,
        do_limited_crafting: None,
        is_flat: None,
        is_whitelist: None,
        is_online_mode: None,
        offline_auth: None,
        player_name: Some("nick".to_string()),
    }
}

fn v4(bytes: Vec<u8>) -> Option<scanner::IpAddr> {
    Some(scanner::IpAddr { ip_version: 0, address: bytes })
}

#[test]
fn parse_for_sql() {
    let t = Timestamp { secs: 1_700_000_000, nanos: 5 };
    let p = ParsedForSqlServerData::try_parse_at(wire_server(v4(vec![10, 0, 0, 1])), t).unwrap();
    assert_eq!(p.new_server.ip.ip(), IpAddr::V4(0x0a000001));
    assert_eq!(p.new_server.ip.prefix(), 32);
    assert_eq!(p.new_server.port, 70000);
    assert_eq!(p.new_server.last_connection_result, ConnectionResult::ConfigurationDisconnect);
    assert_eq!(p.new_server.last_used_nick.as_deref(), Some("nick"));
    assert_eq!(p.new_server.time, t);
    assert_eq!(p.new_players_batch.time, t);
    assert_eq!(p.new_players_batch.players[0].game_mode, None);
    assert_eq!(p.new_world_data.gamemode, Some(GameMode::Adventure));
    assert_eq!(p.new_world_data.difficulty, None);
    assert_eq!(p.new_world_data.view_distance, Some(4464));
    assert_eq!(p.new_server_mods.mods_names, vec!["a".to_string(), "b".to_string()]);
    assert_eq!(p.new_server_links.links, vec!["https://x".to_string()]);
    assert!(p.new_resource_pack.is_none());
    let _ = Difficulty::Peaceful;
}

#[test]
fn parse_for_sql_refusals() {
    let t = Timestamp { secs: 0, nanos: 0 };
    let mut w = wire_server(None);
    w.players[0].uuid = vec![1];
    assert_eq!(
        ParsedForSqlServerData::try_parse_at(w, t).unwrap_err(),
        SqlParsePbDataError::NoField("ip")
    );
    assert_eq!(
        ParsedForSqlServerData::try_parse_at(wire_server(v4(vec![1, 2])), t).unwrap_err(),
        SqlParsePbDataError::CantParse("ip")
    );
    let mut w = wire_server(v4(vec![1, 2, 3, 4]));
    w.connection_result = 7;
    assert_eq!(
        ParsedForSqlServerData::try_parse_at(w, t).unwrap_err(),
        SqlParsePbDataError::UnknownEnumVariant { enum_name: "connection_result", value: 7 }
    );
    let mut w = wire_server(v4(vec![1, 2, 3, 4]));
    w.connection_result = 0;
    assert_eq!(
        ParsedForSqlServerData::try_parse_at(w, t).unwrap_err(),
        SqlParsePbDataError::NoField("connection_result")
    );
    let mut w = wire_server(v4(vec![1, 2, 3, 4]));
    w.players[0].uuid = vec![1];
    assert_eq!(
        ParsedForSqlServerData::try_parse_at(w, t).unwrap_err(),
        SqlParsePbDataError::CantParse("uuid")
    );
}

#[test]
fn parse_for_sql_stamps_clock_time() {
    let p = ParsedForSqlServerData::try_parse(wire_server(v4(vec![1, 2, 3, 4]))).unwrap();
    assert!(p.new_server.time.secs > 1_600_000_000);
    assert_eq!(p.new_server.time, p.new_players_batch.time);
}

#[test]
fn config_defaults() {
    assert!(default_true());
    assert_eq!(default_player_track_interval(), 30);
    let t = PlayerTracking::default();
    assert!(!t.enabled);
    assert_eq!(t.interval_secs, 30);
    let g = General::default();
    assert!(g.database_url.is_none());
    assert!(!g.use_tls_for_workers);
    let a = ApiSettings::default();
    assert!(!a.enabled);
    assert!(a.api_token.is_none());
}

#[test]
fn auth_settings() {
    let open = AuthSettings::new(None);
    assert!(open.authorizes(None));
    assert!(open.authorizes(Some("anything")));
    let closed = AuthSettings::new(Some("abc".to_string()));
    assert!(closed.authorizes(Some("Bearer abc")));
    assert!(!closed.authorizes(Some("abc")));
    assert!(!closed.authorizes(Some("Bearer abcd")));
    assert!(!closed.authorizes(None));
}

#[test]
fn track_query_validation() {
    let url = url::Url::parse("https://discord.com/api/webhooks/1").unwrap();
    assert_eq!(
        TrackIdentAndUrlQuery::try_from(url.clone(), None, None).unwrap_err(),
        "At least one of 'name' or 'uuid' must be provided"
    );
    assert_eq!(
        TrackIdentAndUrlQuery::try_from(url.clone(), Some(String::new()), None).unwrap_err(),
        "'name' can't be empty"
    );
    let q = TrackIdentAndUrlQuery::try_from(url.clone(), Some("alice".to_string()), None).unwrap();
    assert_eq!(q.webhook_url, url);
    assert_eq!(q.name.as_deref(), Some("alice"));
}

fn names(v: &[&str]) -> Vec<String> {
    v.iter().map(|s| s.to_string()).collect()
}

#[test]
fn executor_validation() {
    let known = names(&["w1", "w2"]);
    assert_eq!(validate_executor(&known, &JobExecutor::Worker { name: "w2".to_string() }), Ok(()));
    assert_eq!(
        validate_executor(&known, &JobExecutor::Worker { name: "w3".to_string() }),
        Err(WorkerManagerError::WorkerNotFound("w3".to_string()))
    );
    assert_eq!(
        validate_executor(
            &known,
            &JobExecutor::BalanceSpecified { worker_names: names(&["w1", "w4", "w5"]) }
        ),
        Err(WorkerManagerError::WorkerNotFound("w4".to_string()))
    );
    assert_eq!(validate_executor(&known, &JobExecutor::LeastLoadedAll), Ok(()));
    assert_eq!(WorkerManagerError::WorkerNotFound("x".to_string()).status_code(), 404);
    assert_eq!(WorkerManagerError::DatabaseError.status_code(), 500);
}

#[test]
fn specified_workers() {
    let known = names(&["a", "b", "c"]);
    assert_eq!(get_specified_workers(&known, &names(&["c", "a"])), Ok(vec![0, 2]));
    assert_eq!(
        get_specified_workers(&known, &names(&["c", "z"])),
        Err(WorkerManagerError::WorkerNotFound("z".to_string()))
    );
}

#[test]
fn job_schedule_text() {
    assert!(matches!(JobSchedule::try_from("ALWAYS".to_string()), Ok(JobSchedule::Always)));
    match JobSchedule::try_from("0 30 10 * * *".to_string()) {
        Ok(s) => assert_eq!(s.into_string(), "0 30 10 * * *"),
        Err(e) => panic!("unexpected {:?}", e),
    }
    assert!(JobSchedule::try_from("not a schedule".to_string()).is_err());
    assert_eq!(JobSchedule::Always.into_string(), "always");
}

fn schedule(name: &str, executor: JobExecutor) -> ScheduleData {
    ScheduleData {
        name: name.to_string(),
        executor,
        schedule: JobSchedule::Always,
        wait_secs: 15,
        job_data: ScheduleJobData::RescanDb { method: ScanMethod::OnlyHandshake, rate: 10 },
    }
}

#[test]
fn schedule_registry() {
    let known = names(&["w1"]);
    let mut reg = ScheduleRegistry::new();
    assert_eq!(reg.add_schedule(schedule("s1", JobExecutor::BalanceAll), &known), Ok(()));
    assert_eq!(
        reg.add_schedule(schedule("s1", JobExecutor::BalanceAll), &known),
        Err(ScheduleManagerError::DuplicateScheduleName("s1".to_string()))
    );
    let e = reg
        .add_schedule(schedule("s2", JobExecutor::Worker { name: "nope".to_string() }), &known)
        .unwrap_err();
    assert_eq!(
        e,
        ScheduleManagerError::WorkerManagerError(WorkerManagerError::WorkerNotFound("nope".to_string()))
    );
    assert_eq!(e.status_code(), 404);
    assert_eq!(reg.get_schedule("s1").unwrap().wait_secs, 15);
    assert_eq!(reg.run_schedule("s1"), Ok(()));
    assert!(reg.get_all_schedules()[0].running);
    assert_eq!(reg.stop_schedule("s1"), Ok(()));
    assert!(!reg.get_all_schedules()[0].running);
    assert_eq!(
        reg.run_schedule("zz"),
        Err(ScheduleManagerError::ScheduleNameNotFound("zz".to_string()))
    );
    assert_eq!(reg.remove_schedule("s1").unwrap().info.name, "s1");
    let err = reg.get_schedule("s1").unwrap_err();
    assert_eq!(err, ScheduleManagerError::ScheduleNameNotFound("s1".to_string()));
    assert_eq!(err.status_code(), 404);
    assert_eq!(ScheduleManagerError::DuplicateScheduleName("x".to_string()).status_code(), 409);
}

#[test]
fn rescan_tracker_counts_answers() {
    let mut t = RescanTracker::new(3);
    let (stored, progress) = t.on_message(7, 1, None);
    assert!(stored.is_none());
    assert_eq!(progress, RescanJobProgress { all: 3, checked: 1, successful: 0 });
    let (stored, progress) = t.on_message(7, 2, Some(wire_server(v4(vec![1, 2, 3, 4]))));
    assert!(matches!(stored, Some(Ok(_))));
    assert_eq!(progress, RescanJobProgress { all: 3, checked: 2, successful: 1 });
    let (stored, progress) = t.on_message(7, 3, Some(wire_server(None)));
    assert_eq!(stored.unwrap().unwrap_err(), SqlParsePbDataError::NoField("ip"));
    assert_eq!(progress.successful, 2);
    assert_eq!(t.work_id, Some(7));
}

#[test]
fn discover_tracker_keeps_job_id_from_stats() {
    let mut t = DiscoverTracker::new();
    assert!(t.on_message(5, false, None).is_none());
    assert_eq!(t.work_id, None);
    assert!(t.on_message(6, true, None).is_none());
    assert_eq!(t.work_id, Some(6));
    assert!(matches!(t.on_message(9, false, Some(wire_server(v4(vec![1, 2, 3, 4])))), Some(Ok(_))));
    assert_eq!(t.work_id, Some(6));
}

#[test]
fn player_track_ident_needs_name_or_uuid() {
    assert_eq!(
        PlayerTrackIdent::try_from(None, None).unwrap_err(),
        "At least one of 'name' or 'uuid' must be provided"
    );
    let ident = PlayerTrackIdent::try_from(None, Some(server_seeker::ids::Uuid(3))).unwrap();
    assert_eq!(ident.uuid, Some(server_seeker::ids::Uuid(3)));
    assert!(ident.name.is_none());
}
