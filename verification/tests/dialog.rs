use server_seeker::ids::Uuid;
use server_seeker::mc_protocol::dialog::cookie_storage::{CookieStorage, CookieStorageError};
use server_seeker::mc_protocol::dialog::packets::{
    C2SConfigurationPacket, C2SLoginPacket, C2SPlayPacket, CustomPayloadData,
    CustomPayloadPacket, PlayLoginPacket, PlayerInfoEntry, ResourcePackIdent,
    ResourcePackPushPacket, ResourcePackStatus, S2CConfigurationPacket, S2CLoginPacket,
    S2CPlayPacket, StatusResponsePacket,
};
use server_seeker::mc_protocol::dialog::server_data::{ConnectionResult, ServerData};
use server_seeker::mc_protocol::dialog::server_dst::ServerDst;
use server_seeker::mc_protocol::dialog::{
    ConfigurationResult, ConnectionMethod, ConnectionSettings, DialogError, LoginResult,
    PlayResult, ServerDialog,
};
use server_seeker::mc_protocol::types::difficulty::Difficulty;
use server_seeker::mc_protocol::types::gamemode::GameMode;
use server_seeker::mc_protocol::types::player::Player;
use server_seeker::net::{IpAddr, SocketAddr};

fn dialog() -> ServerDialog {
    let dst = ServerDst {
        server_name: "mc.example.org".to_string(),
        socket_addr: SocketAddr { ip: IpAddr::V4(0x7f000001), port: 25565 },
    };
    let player = Player { name: "scanner".to_string(), uuid: Uuid(7) };
    ServerDialog::new(dst, player)
}

fn status_data() -> ServerData {
    ServerData::from_status(StatusResponsePacket {
        description: "A server".to_string(),
        version_name: "1.21".to_string(),
        protocol: 767,
        online_players: 2,
        max_players: 20,
        sample: Some(vec![
            Player { name: "alice".to_string(), uuid: Uuid(1) },
            Player { name: "bob".to_string(), uuid: Uuid(2) },
            Player { name: "alice".to_string(), uuid: Uuid(1) },
        ]),
        enforces_secure_chat: None,
        prevents_chat_reports: Some(true),
        forge_mods: None,
    })
}

#[test]
fn cookie_put_then_get() {
    let mut s = CookieStorage::new();
    assert!(s.get("a").is_none());
    assert_eq!(s.try_put("a".to_string(), bytes::Bytes::from(vec![1, 2, 3])), Ok(()));
    assert_eq!(s.get("a").unwrap().as_ref(), &[1, 2, 3]);
    assert_eq!(s.try_put("a".to_string(), bytes::Bytes::from(vec![9])), Ok(()));
    assert_eq!(s.get("a").unwrap().as_ref(), &[9]);
    let p = s.format_packet("a".to_string());
    assert_eq!(p.key, "a");
    assert_eq!(p.payload.unwrap().as_ref(), &[9]);
    let p = s.format_packet("missing".to_string());
    assert_eq!(p.key, "missing");
    assert!(p.payload.is_none());
}

#[test]
fn cookie_limit_counts_every_accepted_put() {
    let mut s = CookieStorage::new();
    assert_eq!(s.try_put("k".to_string(), bytes::Bytes::from(vec![0u8; 3000])), Ok(()));
    // replacing the cookie still counts the bytes already put
    assert_eq!(
        s.try_put("k".to_string(), bytes::Bytes::from(vec![0u8; 3000])),
        Err(CookieStorageError(6000))
    );
    assert_eq!(s.get("k").unwrap().len(), 3000);
    assert_eq!(s.try_put("j".to_string(), bytes::Bytes::from(vec![0u8; 2120])), Ok(()));
    assert_eq!(
        s.try_put("z".to_string(), bytes::Bytes::from(vec![0u8; 1])),
        Err(CookieStorageError(5121))
    );
}

#[test]
fn status_sample_becomes_a_set() {
    let d = status_data();
    assert_eq!(d.players.len(), 2);
    assert!(d.no_chat_reports);
    assert!(!d.enforces_secure_chat);
    assert_eq!(d.protocol, 767);
    assert!(d.brand.is_none());
}

#[test]
fn handshake_and_hello() {
    let d = dialog();
    let h = d.handshake_packet(767, 2);
    assert_eq!(h.server_field, "mc.example.org");
    assert_eq!(h.port_field, 25565);
    assert_eq!(h.next_state, 2);
    match d.hello_packet() {
        C2SLoginPacket::Hello(p) => assert_eq!(p.name, "scanner"),
        other => panic!("unexpected {:?}", other),
    }
}

#[test]
fn login_steps() {
    let mut d = dialog();
    let s = d.login_step(767, S2CLoginPacket::Compression { threshold: 256 });
    assert_eq!(s.compression, Some(256));
    assert!(s.result.is_none());
    let s = d.login_step(767, S2CLoginPacket::Compression { threshold: -1 });
    assert_eq!(s.compression, Some(usize::MAX));
    let s = d.login_step(767, S2CLoginPacket::EncryptionRequest { should_authenticate: None });
    assert_eq!(s.result, Some(LoginResult::OnlineMode { should_authenticate: true }));
    let s = d.login_step(767, S2CLoginPacket::LoginFinished);
    assert!(matches!(s.send, Some(C2SLoginPacket::LoginAcknowledged)));
    assert_eq!(s.result, Some(LoginResult::Successful));
    let s = d.login_step(340, S2CLoginPacket::LoginFinished);
    assert!(s.send.is_none());
    let s = d.login_step(767, S2CLoginPacket::CustomQuery { message_id: 9 });
    assert!(matches!(s.send, Some(C2SLoginPacket::CustomQueryAnswer { message_id: 9 })));
    let s = d.login_step(767, S2CLoginPacket::LoginDisconnect { reason: "bye".to_string() });
    assert_eq!(s.result, Some(LoginResult::DisconnectByServer { msg: "bye".to_string() }));
}

#[test]
fn configuration_steps() {
    let mut d = dialog();
    let mut data = status_data();
    let s = d
        .configuration_step(
            &mut data,
            false,
            S2CConfigurationPacket::CustomPayload(CustomPayloadPacket {
                channel: "minecraft:brand".to_string(),
                data: CustomPayloadData::MinecraftBrand("Paper".to_string()),
            }),
        )
        .unwrap();
    assert!(s.send.is_empty());
    assert_eq!(data.brand.as_deref(), Some("Paper"));
    for _ in 0..2 {
        d.configuration_step(
            &mut data,
            false,
            S2CConfigurationPacket::CustomPayload(CustomPayloadPacket {
                channel: "mod:chan".to_string(),
                data: CustomPayloadData::Unrecognized(bytes::Bytes::new()),
            }),
        )
        .unwrap();
    }
    assert_eq!(data.channels, vec!["mod:chan".to_string()]);
    let s = d
        .configuration_step(&mut data, false, S2CConfigurationPacket::KeepAlive { keep_alive_id: 42 })
        .unwrap();
    assert!(matches!(
        s.send.as_slice(),
        [C2SConfigurationPacket::KeepAliveResponse { keep_alive_id: 42 }]
    ));
    let s = d
        .configuration_step(
            &mut data,
            false,
            S2CConfigurationPacket::AddResourcePack(ResourcePackPushPacket {
                ident: ResourcePackIdent { uuid: Some(Uuid(5)) },
                url: "http://pack".to_string(),
                hash: None,
                forced: None,
            }),
        )
        .unwrap();
    assert_eq!(s.send.len(), 2);
    assert!(matches!(
        s.send[0],
        C2SConfigurationPacket::ResourcePackResponse { status: ResourcePackStatus::Accepted, .. }
    ));
    assert!(data.resource_pack.as_ref().unwrap().forced);
    let s = d
        .configuration_step(
            &mut data,
            false,
            S2CConfigurationPacket::StoreCookie {
                key: "c".to_string(),
                payload: bytes::Bytes::from(vec![1, 2]),
            },
        )
        .unwrap();
    assert!(s.send.is_empty());
    let s = d
        .configuration_step(&mut data, false, S2CConfigurationPacket::CookieRequest { key: "c".to_string() })
        .unwrap();
    match &s.send[0] {
        C2SConfigurationPacket::CookieResponse(c) => {
            assert_eq!(c.payload.as_ref().unwrap().as_ref(), &[1, 2])
        }
        other => panic!("unexpected {:?}", other),
    }
    let s = d
        .configuration_step(&mut data, false, S2CConfigurationPacket::FinishConfiguration)
        .unwrap();
    assert!(s.send.is_empty());
    assert_eq!(s.result, Some(ConfigurationResult::Successful));
    let s = d
        .configuration_step(&mut data, true, S2CConfigurationPacket::FinishConfiguration)
        .unwrap();
    assert!(matches!(s.send.as_slice(), [C2SConfigurationPacket::AckFinishConfiguration]));
    let s = d
        .configuration_step(
            &mut data,
            true,
            S2CConfigurationPacket::Transfer { host: "other".to_string(), port: 1 },
        )
        .unwrap();
    assert_eq!(
        s.result,
        Some(ConfigurationResult::Transfer { host: "other".to_string(), port: 1 })
    );
}

#[test]
fn configuration_cookie_over_limit_fails() {
    let mut d = dialog();
    let mut data = status_data();
    let r = d.configuration_step(
        &mut data,
        false,
        S2CConfigurationPacket::StoreCookie {
            key: "big".to_string(),
            payload: bytes::Bytes::from(vec![0u8; 6000]),
        },
    );
    match r {
        Err(DialogError::CookieStorageError(e)) => assert_eq!(e, CookieStorageError(6000)),
        other => panic!("unexpected {:?}", other),
    }
}

fn play_login(dimension_name: Option<&str>, dimension_i32: Option<i32>) -> PlayLoginPacket {
    PlayLoginPacket {
        max_players: 50,
        enforces_secure_chat: Some(true),
        hashed_seed: Some(-3),
        game_mode: GameMode::Creative,
        difficulty: Some(Difficulty::Hard),
        dimension_name: dimension_name.map(|s| s.to_string()),
        dimension_i32,
        view_distance: Some(10),
        simulation_distance: None,
        is_hardcore: Some(false),
        reduced_debug_info: None,
        do_limited_crafting: None,
        is_flat: None,
        level_type: Some("flat".to_string()),
    }
}

#[test]
fn play_login_fills_world_data() {
    let mut d = dialog();
    let mut data = status_data();
    d.play_step(&mut data, S2CPlayPacket::ChangeDifficulty { difficulty: Difficulty::Easy })
        .unwrap();
    d.play_step(&mut data, S2CPlayPacket::Login(play_login(None, Some(-1)))).unwrap();
    assert_eq!(data.max_players, 50);
    assert!(data.enforces_secure_chat);
    assert_eq!(data.gamemode, Some(GameMode::Creative));
    // a difficulty already known is kept
    assert_eq!(data.difficulty, Some(Difficulty::Easy));
    assert_eq!(data.dimension.as_deref(), Some("minecraft:the_nether"));
    assert_eq!(data.is_flat, Some(true));
    let mut data2 = status_data();
    d.play_step(&mut data2, S2CPlayPacket::Login(play_login(None, Some(7)))).unwrap();
    assert_eq!(data2.dimension, None);
    assert_eq!(data2.difficulty, Some(Difficulty::Hard));
    let mut data3 = status_data();
    d.play_step(&mut data3, S2CPlayPacket::Login(play_login(Some("custom:dim"), None))).unwrap();
    assert_eq!(data3.dimension.as_deref(), Some("custom:dim"));
}

#[test]
fn play_player_list_leaves_out_own_name() {
    let mut d = dialog();
    let mut data = status_data();
    let entries = vec![
        PlayerInfoEntry {
            player: Some(Player { name: "carol".to_string(), uuid: Uuid(3) }),
            game_mode: Some(GameMode::Survival),
            ping: Some(40),
        },
        PlayerInfoEntry {
            player: Some(Player { name: "scanner".to_string(), uuid: Uuid(7) }),
            game_mode: None,
            ping: None,
        },
        PlayerInfoEntry { player: None, game_mode: None, ping: None },
    ];
    d.play_step(&mut data, S2CPlayPacket::PlayerInfoUpdate { add_player: true, players_info: entries })
        .unwrap();
    assert_eq!(data.players.len(), 3);
    assert!(data.players.iter().any(|r| r.player.name == "carol" && r.ping == Some(40)));
    assert!(!data.players.iter().any(|r| r.player.name == "scanner"));
    let before = data.players.len();
    d.play_step(
        &mut data,
        S2CPlayPacket::PlayerInfoUpdate {
            add_player: false,
            players_info: vec![PlayerInfoEntry {
                player: Some(Player { name: "dave".to_string(), uuid: Uuid(4) }),
                game_mode: None,
                ping: None,
            }],
        },
    )
    .unwrap();
    assert_eq!(data.players.len(), before);
}

#[test]
fn play_answers_and_disconnect() {
    let mut d = dialog();
    let mut data = status_data();
    let s = d.play_step(&mut data, S2CPlayPacket::Ping { id: 3 }).unwrap();
    assert!(matches!(s.send.as_slice(), [C2SPlayPacket::Pong { id: 3 }]));
    let s = d
        .play_step(&mut data, S2CPlayPacket::Disconnect { reason: "kicked".to_string() })
        .unwrap();
    assert_eq!(s.result, Some(PlayResult { msg: "kicked".to_string() }));
}

#[test]
fn connection_result_data() {
    let r = ConnectionResult::Successful { data: status_data() };
    assert_eq!(r.get_data().unwrap().protocol, 767);
    let r = ConnectionResult::NoHandshake(DialogError::UnsupportedProtocolVersion(1));
    assert!(r.get_data().is_none());
}

#[test]
fn settings_default() {
    let s = ConnectionSettings::default();
    assert_eq!(s.default_protocol, 776);
    assert_eq!(s.conn_method, ConnectionMethod::OnlyHandshake);
    assert_eq!(s.read_packet_timeout, 3000);
    assert_eq!(s.max_login_time, 5000);
    assert_eq!(s.max_config_time, 5000);
    assert_eq!(s.at_play_time, 3000);
    assert_eq!(s.max_transfer_count, 5);
}

#[test]
fn status_request_sends_handshake_then_request() {
    let d = dialog();
    let mut conn = server_seeker::mc_protocol::connection::McConnection::new(767);
    d.queue_status_request(767, &mut conn);
    let mut expected = vec![21u8, 0x00, 0xff, 0x05, 14];
    expected.extend_from_slice(b"mc.example.org");
    expected.extend_from_slice(&[0x63, 0xdd, 0x01, 0x01, 0x00]);
    assert_eq!(conn.take_queued(), expected);
}

#[test]
fn handshake_encoding() {
    let h = dialog().handshake_packet(5, 2);
    let mut expected = vec![0x00, 0x05, 14];
    expected.extend_from_slice(b"mc.example.org");
    expected.extend_from_slice(&[0x63, 0xdd, 0x02]);
    assert_eq!(h.encode(), expected);
    assert_eq!(server_seeker::mc_protocol::dialog::packets::encode_status_request(), vec![0x00]);
}
