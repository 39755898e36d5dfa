use server_seeker::data_core::api::server_data::{McMod, ResourcePack};
use server_seeker::mc_protocol::dialog::server_data::{ForgeMod, ResourcePack as DialogPack};
use server_seeker::mc_protocol::types::difficulty::Difficulty as McDifficulty;
use server_seeker::mc_protocol::types::gamemode::GameMode as McGameMode;
use server_seeker::data_core::api::server_data::{
    parse_conn_result, parse_difficulty, parse_gamemode, ConnectionResult, Difficulty, GameMode,
    McServerData, ParseServerDataError,
};
use server_seeker::data_core::manager_api::{DiscoverRequest, PortRange};
use server_seeker::data_core::proto::scanner::{self, ScanMethod};
use server_seeker::data_core::proto::{
    discover_request_to_wire, ip_addr_from, ip_addr_try_from, ip_network_try_from, ip_prefix_from,
    port_range_from_wire, port_range_to_wire, InvalidArgument,
};
use server_seeker::mc_protocol::dialog::ConnectionMethod;
use server_seeker::net::{IpAddr, IpNetwork};

pub fn wire_server(ip: Option<scanner::IpAddr>) -> scanner::McServerData {
    scanner::McServerData {
        ip,
        port: 25565,
        domain: Some("mc.example.org".to_string()),
        connection_result: 4,
        description: "motd".to_string(),
        protocol: 767,
        version_name: "1.21".to_string(),
        online_players: 1,
        max_players: 20,
        players: vec![scanner::PlayerRecord {
            name: "alice".to_string(),
            uuid: (1u8..=16).collect(),
            is_online: true,
            gamemode: Some(1),
            ping: Some(30),
        }],
        enforces_secure_chat: true,
        no_chat_reports: false,
        mods: vec![scanner::McMod { mod_id: "jei".to_string(), version: "1.0".to_string() }],
        channels: vec!["c".to_string()],
        brand: Some("Paper".to_string()),
        links: vec![],
        code_of_conduct: None,
        features: vec!["minecraft:vanilla".to_string()],
        resource_pack: Some(scanner::ResourcePack {
            url: "http://pack".to_string(),
            hash: None,
            forced: true,
        }),
        commands: vec!["help".to_string()],
        hashed_seed: Some(9),
        gamemode: Some(2),
        difficulty: Some(3),
        dimension: Some("minecraft:overworld".to_string()),
        view_distance: Some(10),
        simulation_distance: Some(8),
        is_hardcore: Some(false),
        reduced_debug_info: None,
        do_limited_crafting: None,
        is_flat: None,
        is_whitelist: Some(false),
        is_online_mode: Some(true),
        offline_auth: None,
        player_name: Some("scanner".to_string()),
    }
}

fn v4_wire(bytes: Vec<u8>) -> scanner::IpAddr {
    scanner::IpAddr { ip_version: 0, address: bytes }
}

#[test]
fn ip_to_wire_and_back() {
    let w = ip_addr_from(IpAddr::V4(0x7f000001));
    assert_eq!(w.ip_version, 0);
    assert_eq!(w.address, vec![127, 0, 0, 1]);
    assert_eq!(ip_addr_try_from(w), Ok(IpAddr::V4(0x7f000001)));
    let v6 = 0x2001_0db8_0000_0000_0000_0000_0000_0001u128;
    let w = ip_addr_from(IpAddr::V6(v6));
    assert_eq!(w.ip_version, 1);
    assert_eq!(w.address.len(), 16);
    assert_eq!(w.address[0], 0x20);
    assert_eq!(w.address[15], 0x01);
    assert_eq!(ip_addr_try_from(w), Ok(IpAddr::V6(v6)));
}

#[test]
fn ip_from_wire_errors() {
    assert_eq!(
        ip_addr_try_from(scanner::IpAddr { ip_version: 2, address: vec![1, 2, 3, 4] }),
        Err(InvalidArgument::InvalidIpVersion(2))
    );
    assert_eq!(ip_addr_try_from(v4_wire(vec![1, 2, 3])), Err(InvalidArgument::InvalidIpBytes));
    assert_eq!(
        ip_addr_try_from(scanner::IpAddr { ip_version: 1, address: vec![0; 4] }),
        Err(InvalidArgument::InvalidIpBytes)
    );
}

#[test]
fn network_from_wire() {
    let ok = ip_network_try_from(scanner::IpPrefix {
        ip_addr: Some(v4_wire(vec![192, 168, 0, 0])),
        prefix_length: 16,
    })
    .unwrap();
    assert_eq!(ok.ip(), IpAddr::V4(0xc0a80000));
    assert_eq!(ok.prefix(), 16);
    assert_eq!(
        ip_network_try_from(scanner::IpPrefix { ip_addr: None, prefix_length: 300 }),
        Err(InvalidArgument::PrefixLengthTooLong)
    );
    assert_eq!(
        ip_network_try_from(scanner::IpPrefix { ip_addr: None, prefix_length: 8 }),
        Err(InvalidArgument::MissingIp)
    );
    assert_eq!(
        ip_network_try_from(scanner::IpPrefix {
            ip_addr: Some(v4_wire(vec![10, 0, 0, 0])),
            prefix_length: 33
        }),
        Err(InvalidArgument::InvalidPrefix)
    );
    let net = IpNetwork::new(IpAddr::V4(0x0a000000), 8).unwrap();
    let w = ip_prefix_from(net);
    assert_eq!(w.prefix_length, 8);
    assert_eq!(ip_network_try_from(w), Ok(net));
}

#[test]
fn ports_and_discover_request_to_wire() {
    let w = port_range_to_wire(PortRange { min: 25565, max: 25570 });
    assert_eq!((w.min, w.max), (25565, 25570));
    let back = port_range_from_wire(scanner::PortRange { min: 65536 + 7, max: 9 });
    assert_eq!(back, PortRange { min: 7, max: 9 });
    let req = DiscoverRequest {
        targets: vec![IpNetwork::new(IpAddr::V4(0x7f000001), 32).unwrap()],
        excludes: vec![],
        ports: vec![25565, 25566],
        port_ranges: vec![PortRange { min: 1, max: 2 }],
        rate: 1000,
        method: ScanMethod::JoinIfEmpty,
    };
    let w = discover_request_to_wire(req);
    assert_eq!(w.targets.len(), 1);
    assert_eq!(w.targets[0].prefix_length, 32);
    assert_eq!(w.ports, vec![25565, 25566]);
    assert_eq!(w.rate, 1000);
    assert_eq!(w.method, 2);
}

#[test]
fn scan_method_conversions() {
    assert_eq!(ConnectionMethod::from(ScanMethod::LoginIfNoMsg), ConnectionMethod::LoginIfNoMsg);
    assert_eq!(ScanMethod::from(ConnectionMethod::Join), ScanMethod::Join);
    assert_eq!(ScanMethod::try_from_i32(3), Some(ScanMethod::Join));
    assert_eq!(ScanMethod::try_from_i32(4), None);
}

#[test]
fn enum_parsing() {
    assert_eq!(parse_gamemode(None), Ok(None));
    assert_eq!(parse_gamemode(Some(0)), Ok(None));
    assert_eq!(parse_gamemode(Some(2)), Ok(Some(GameMode::Creative)));
    assert_eq!(
        parse_gamemode(Some(9)),
        Err(ParseServerDataError::UnknownEnumVariant { enum_name: "GameMode", value: 9 })
    );
    assert_eq!(parse_difficulty(Some(4)), Ok(Some(Difficulty::Hard)));
    assert_eq!(
        parse_difficulty(Some(-1)),
        Err(ParseServerDataError::UnknownEnumVariant { enum_name: "Difficulty", value: -1 })
    );
    assert_eq!(parse_conn_result(1), Ok(ConnectionResult::LoginDisconnect));
    assert_eq!(parse_conn_result(0), Err(ParseServerDataError::NoField("ConnectionResult")));
    assert_eq!(
        parse_conn_result(5),
        Err(ParseServerDataError::UnknownEnumVariant { enum_name: "ConnectionResult", value: 5 })
    );
}

#[test]
fn server_data_from_wire() {
    let d = McServerData::try_from(wire_server(Some(v4_wire(vec![1, 2, 3, 4])))).unwrap();
    assert_eq!(d.ip, IpAddr::V4(0x01020304));
    assert_eq!(d.port, 25565);
    assert_eq!(d.connection_result, ConnectionResult::Successful);
    assert_eq!(d.players.len(), 1);
    assert_eq!(d.players[0].uuid.0, 0x0102030405060708090a0b0c0d0e0f10);
    assert_eq!(d.players[0].gamemode, Some(GameMode::Survival));
    assert_eq!(d.mods[0].mod_id, "jei");
    assert_eq!(d.world_data.gamemode, Some(GameMode::Creative));
    assert_eq!(d.world_data.difficulty, Some(Difficulty::Normal));
    assert!(d.resource_pack.unwrap().forced);
}

#[test]
fn server_data_refusals_in_order() {
    let mut w = wire_server(None);
    w.players[0].uuid = vec![1, 2, 3];
    assert_eq!(McServerData::try_from(w), Err(ParseServerDataError::CantParse("uuid")));
    let mut w = wire_server(None);
    w.players[0].gamemode = Some(11);
    assert_eq!(
        McServerData::try_from(w),
        Err(ParseServerDataError::UnknownEnumVariant { enum_name: "GameMode", value: 11 })
    );
    assert_eq!(McServerData::try_from(wire_server(None)), Err(ParseServerDataError::NoField("ip")));
    assert_eq!(
        McServerData::try_from(wire_server(Some(v4_wire(vec![1])))),
        Err(ParseServerDataError::CantParse("ip"))
    );
    let mut w = wire_server(Some(v4_wire(vec![1, 2, 3, 4])));
    w.connection_result = 0;
    assert_eq!(McServerData::try_from(w), Err(ParseServerDataError::NoField("ConnectionResult")));
    let mut w = wire_server(Some(v4_wire(vec![1, 2, 3, 4])));
    w.port = 65536 + 80;
    assert_eq!(McServerData::try_from(w).unwrap().port, 80);
}

#[test]
fn enum_and_record_conversions() {
    assert_eq!(Option::<GameMode>::from(scanner::GameMode::UnknownGameMode), None);
    assert_eq!(Option::<GameMode>::from(scanner::GameMode::Adventure), Some(GameMode::Adventure));
    assert_eq!(Option::<Difficulty>::from(scanner::Difficulty::Easy), Some(Difficulty::Easy));
    assert_eq!(
        Option::<ConnectionResult>::from(scanner::ConnectionResult::PlayDisconnect),
        Some(ConnectionResult::PlayDisconnect)
    );
    assert_eq!(Option::<ConnectionResult>::from(scanner::ConnectionResult::UnknownConnectionResult), None);
    assert_eq!(scanner::GameMode::from(McGameMode::Spectator).to_i32(), 4);
    assert_eq!(scanner::Difficulty::from(McDifficulty::Peaceful).to_i32(), 1);
    let m = McMod::from(scanner::McMod { mod_id: "id".to_string(), version: "2".to_string() });
    assert_eq!(m, McMod { mod_id: "id".to_string(), version: "2".to_string() });
    let w = scanner::McMod::from(ForgeMod { mod_id: "f".to_string(), version: "3".to_string() });
    assert_eq!((w.mod_id.as_str(), w.version.as_str()), ("f", "3"));
    let p = scanner::ResourcePack::from(DialogPack { url: "u".to_string(), hash: None, forced: false });
    let back = ResourcePack::from(p);
    assert_eq!(back, ResourcePack { url: "u".to_string(), hash: None, forced: false });
}
