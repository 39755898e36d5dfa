use server_seeker::ids::Uuid;
use server_seeker::mc_protocol::connection::McConnectionError;
use server_seeker::mc_protocol::dialog::flow::{ConnectAction, ConnectEvent, ConnectFlow};
use server_seeker::mc_protocol::dialog::packets::StatusResponsePacket;
use server_seeker::mc_protocol::dialog::server_data::{
    ConnectionResult, DisconnectConfigurationReason, DisconnectLoginReason, DisconnectPlayReason,
    ServerData,
};
use server_seeker::mc_protocol::dialog::server_dst::{CantResolveHost, ServerDst};
use server_seeker::mc_protocol::dialog::{
    ConfigurationResult, ConnectionMethod, ConnectionSettings, DialogError, LoginResult,
    PlayResult,
};
use server_seeker::mc_protocol::types::player::Player;
use server_seeker::net::{IpAddr, SocketAddr};

fn settings(method: ConnectionMethod, max_transfer_count: u32) -> ConnectionSettings {
    let mut s = ConnectionSettings::default();
    s.conn_method = method;
    s.max_transfer_count = max_transfer_count;
    s
}

fn data(protocol: i32, online: i32) -> ServerData {
    ServerData::from_status(StatusResponsePacket {
        description: "motd".to_string(),
        version_name: "v".to_string(),
        protocol,
        online_players: online,
        max_players: 10,
        sample: Some(vec![Player { name: "p".to_string(), uuid: Uuid(1) }]),
        enforces_secure_chat: None,
        prevents_chat_reports: None,
        forge_mods: None,
    })
}

fn dst() -> ServerDst {
    ServerDst {
        server_name: "other.example".to_string(),
        socket_addr: SocketAddr { ip: IpAddr::V4(0x0a000001), port: 25566 },
    }
}

fn to_status(flow: &mut ConnectFlow, d: ServerData) -> Option<ConnectAction> {
    assert!(matches!(flow.step(ConnectEvent::Connected(Ok(()))), Some(ConnectAction::RequestStatus)));
    flow.step(ConnectEvent::Status(Ok(d)))
}

#[test]
fn only_handshake_ends_after_status() {
    let (mut flow, first) = ConnectFlow::new(settings(ConnectionMethod::OnlyHandshake, 5));
    assert!(matches!(first, ConnectAction::Connect { protocol: 776 }));
    match to_status(&mut flow, data(767, 0)) {
        Some(ConnectAction::Finish(ConnectionResult::Successful { data })) => {
            assert_eq!(data.protocol, 767)
        }
        other => panic!("unexpected {:?}", other),
    }
    assert!(flow.step(ConnectEvent::Connected(Ok(()))).is_none());
}

#[test]
fn failed_connection_gives_no_handshake() {
    let (mut flow, _) = ConnectFlow::new(settings(ConnectionMethod::Join, 5));
    match flow.step(ConnectEvent::Connected(Err(McConnectionError::UnexpectedEof))) {
        Some(ConnectAction::Finish(ConnectionResult::NoHandshake(DialogError::ConnectionError(
            McConnectionError::UnexpectedEof,
        )))) => {}
        other => panic!("unexpected {:?}", other),
    }
}

#[test]
fn unexpected_event_changes_nothing() {
    let (mut flow, _) = ConnectFlow::new(settings(ConnectionMethod::Join, 5));
    assert!(flow.step(ConnectEvent::Login(None)).is_none());
    assert!(matches!(flow.step(ConnectEvent::Connected(Ok(()))), Some(ConnectAction::RequestStatus)));
}

#[test]
fn unsupported_protocol_is_not_logged_in() {
    let (mut flow, _) = ConnectFlow::new(settings(ConnectionMethod::Join, 5));
    match to_status(&mut flow, data(800, 0)) {
        Some(ConnectAction::Finish(ConnectionResult::DisconnectAtLogin {
            reason: DisconnectLoginReason::DialogError(DialogError::UnsupportedProtocolVersion(800)),
            ..
        })) => {}
        other => panic!("unexpected {:?}", other),
    }
}

#[test]
fn login_if_no_msg_stops_on_old_protocols() {
    let (mut flow, _) = ConnectFlow::new(settings(ConnectionMethod::LoginIfNoMsg, 5));
    assert!(matches!(
        to_status(&mut flow, data(340, 0)),
        Some(ConnectAction::Finish(ConnectionResult::Successful { .. }))
    ));
}

#[test]
fn login_timeout_keeps_data() {
    let (mut flow, _) = ConnectFlow::new(settings(ConnectionMethod::Join, 5));
    assert!(matches!(to_status(&mut flow, data(767, 0)), Some(ConnectAction::Connect { protocol: 767 })));
    assert!(matches!(
        flow.step(ConnectEvent::Connected(Ok(()))),
        Some(ConnectAction::Login { next_state: 2 })
    ));
    match flow.step(ConnectEvent::Login(None)) {
        Some(ConnectAction::Finish(ConnectionResult::DisconnectAtLogin {
            data,
            reason: DisconnectLoginReason::Timeout,
        })) => assert_eq!(data.protocol, 767),
        other => panic!("unexpected {:?}", other),
    }
}

#[test]
fn online_mode_ends_at_login() {
    let (mut flow, _) = ConnectFlow::new(settings(ConnectionMethod::Join, 5));
    to_status(&mut flow, data(767, 0));
    flow.step(ConnectEvent::Connected(Ok(())));
    match flow.step(ConnectEvent::Login(Some(Ok(LoginResult::OnlineMode {
        should_authenticate: true,
    })))) {
        Some(ConnectAction::Finish(ConnectionResult::DisconnectAtLogin {
            reason: DisconnectLoginReason::OnlineMode { should_authenticate: true },
            ..
        })) => {}
        other => panic!("unexpected {:?}", other),
    }
}

fn login_ok(flow: &mut ConnectFlow, next_state: i32) -> (ServerData, bool) {
    match flow.step(ConnectEvent::Connected(Ok(()))) {
        Some(ConnectAction::Login { next_state: n }) => assert_eq!(n, next_state),
        other => panic!("unexpected {:?}", other),
    }
    match flow.step(ConnectEvent::Login(Some(Ok(LoginResult::Successful)))) {
        Some(ConnectAction::Configure { data, send_finish }) => (data, send_finish),
        other => panic!("unexpected {:?}", other),
    }
}

fn transfer(flow: &mut ConnectFlow, d: ServerData) -> Option<ConnectAction> {
    flow.step(ConnectEvent::Configured(
        d,
        Some(Ok(ConfigurationResult::Transfer { host: "other.example".to_string(), port: 25566 })),
    ))
}

#[test]
fn transfers_are_followed_up_to_one_more_than_the_limit() {
    let (mut flow, _) = ConnectFlow::new(settings(ConnectionMethod::Join, 1));
    to_status(&mut flow, data(767, 0));
    for round in 0..2 {
        let next_state = if round == 0 { 2 } else { 3 };
        let (d, send_finish) = login_ok(&mut flow, next_state);
        assert!(send_finish);
        match transfer(&mut flow, d) {
            Some(ConnectAction::Resolve { host, port }) => {
                assert_eq!(host, "other.example");
                assert_eq!(port, 25566);
            }
            other => panic!("unexpected {:?}", other),
        }
        match flow.step(ConnectEvent::Resolved(Ok(dst()))) {
            Some(ConnectAction::Reconnect { dst, protocol }) => {
                assert_eq!(dst.server_name, "other.example");
                assert_eq!(protocol, 767);
            }
            other => panic!("unexpected {:?}", other),
        }
    }
    let (d, _) = login_ok(&mut flow, 3);
    match transfer(&mut flow, d) {
        Some(ConnectAction::Finish(ConnectionResult::DisconnectAtConfiguration {
            reason: DisconnectConfigurationReason::TooMuchTransfers { count },
            ..
        })) => assert_eq!(count, 2),
        other => panic!("unexpected {:?}", other),
    }
}

#[test]
fn unresolved_transfer_ends_at_configuration() {
    let (mut flow, _) = ConnectFlow::new(settings(ConnectionMethod::Join, 5));
    to_status(&mut flow, data(767, 0));
    let (d, _) = login_ok(&mut flow, 2);
    transfer(&mut flow, d);
    match flow.step(ConnectEvent::Resolved(Err(CantResolveHost::new("other.example".to_string())))) {
        Some(ConnectAction::Finish(ConnectionResult::DisconnectAtConfiguration {
            reason: DisconnectConfigurationReason::CantResolveHost(e),
            ..
        })) => assert_eq!(e.host(), "other.example"),
        other => panic!("unexpected {:?}", other),
    }
}

#[test]
fn join_if_empty_with_players_stops_before_play() {
    let (mut flow, _) = ConnectFlow::new(settings(ConnectionMethod::JoinIfEmpty, 5));
    to_status(&mut flow, data(767, 0));
    let (d, send_finish) = login_ok(&mut flow, 2);
    assert!(send_finish);
    match flow.step(ConnectEvent::Configured(d, Some(Ok(ConfigurationResult::Successful)))) {
        Some(ConnectAction::Play { .. }) => {}
        other => panic!("unexpected {:?}", other),
    }
    let (mut flow, _) = ConnectFlow::new(settings(ConnectionMethod::JoinIfEmpty, 5));
    // on a protocol without the configuration state, players online stop it
    // after the status
    assert!(matches!(
        to_status(&mut flow, data(340, 3)),
        Some(ConnectAction::Finish(ConnectionResult::Successful { .. }))
    ));
}

#[test]
fn old_protocol_goes_from_login_to_play() {
    let (mut flow, _) = ConnectFlow::new(settings(ConnectionMethod::Join, 5));
    to_status(&mut flow, data(340, 0));
    flow.step(ConnectEvent::Connected(Ok(())));
    let d = match flow.step(ConnectEvent::Login(Some(Ok(LoginResult::Successful)))) {
        Some(ConnectAction::Play { data }) => data,
        other => panic!("unexpected {:?}", other),
    };
    match flow.step(ConnectEvent::Played(d, None)) {
        Some(ConnectAction::Finish(ConnectionResult::Successful { data })) => {
            assert_eq!(data.protocol, 340)
        }
        other => panic!("unexpected {:?}", other),
    }
}

#[test]
fn disconnect_in_play_is_reported() {
    let (mut flow, _) = ConnectFlow::new(settings(ConnectionMethod::Join, 5));
    to_status(&mut flow, data(767, 0));
    let (d, _) = login_ok(&mut flow, 2);
    let d = match flow.step(ConnectEvent::Configured(d, Some(Ok(ConfigurationResult::Successful)))) {
        Some(ConnectAction::Play { data }) => data,
        other => panic!("unexpected {:?}", other),
    };
    match flow.step(ConnectEvent::Played(d, Some(Ok(PlayResult { msg: "bye".to_string() })))) {
        Some(ConnectAction::Finish(ConnectionResult::DisconnectAtPlay {
            reason: DisconnectPlayReason::DisconnectByServer { msg },
            ..
        })) => assert_eq!(msg, "bye"),
        other => panic!("unexpected {:?}", other),
    }
}
