//! The dialog with a server: status, login, configuration and play.
//!
//! The dialog's decisions are made here on packets as values: each step
//! takes what the server sent and says what to answer and whether the state
//! is over. [`ConnectFlow`] decides which state comes next from how the last
//! one ended. Sockets, timers and packet encoding stay with the caller.

pub mod cookie_storage;
pub mod flow;
pub mod packets;
pub mod server_data;
pub mod server_dst;

use crate::mc_protocol::buffer::bytes_view;
use crate::mc_protocol::connection::{frame_bytes, McConnection, McConnectionError};
use crate::mc_protocol::types::player::Player;
use cookie_storage::{attempted_bytes, CookieStorage, CookieStorageError, MAX_COOKIE_BYTES};
use crate::mc_protocol::types::gamemode::GameMode;
use packets::{
    encode_status_request, handshake_bytes, status_request_bytes,
    C2SConfigurationPacket, C2SLoginPacket, C2SPlayPacket, CookieResponsePacket,
    CustomPayloadData, CustomPayloadPacket, HandshakePacket, PlayLoginPacket, PlayerInfoEntry,
    ResourcePackPushPacket, ResourcePackStatus, S2CConfigurationPacket, S2CLoginPacket,
    S2CPlayPacket, StatusResponsePacket,
};
use server_data::{
    ConnectionResult, DisconnectConfigurationReason, DisconnectLoginReason, DisconnectPlayReason,
    ResourcePack, ServerData, PlayerRecord, extend_names, insert_name, insert_record, name_set,
    record_set, record_key,
};
use server_dst::ServerDst;
use vstd::prelude::*;

verus! {

broadcast use vstd::string::to_string_from_display_ensures_for_str;

/// Why a dialog failed.
#[derive(Debug)]
pub enum DialogError {
    ConnectionError(McConnectionError),
    UnsupportedProtocolVersion(i32),
    CookieStorageError(CookieStorageError),
}

/// How far a dialog goes.
#[derive(Debug, Ord, PartialOrd, Eq, PartialEq, Copy, Clone, Structural)]
pub enum ConnectionMethod {
    /// Read the status only.
    OnlyHandshake,
    /// Also log in, on the protocols that have the configuration state.
    LoginIfNoMsg,
    /// Also join, when nobody is online.
    JoinIfEmpty,
    /// Join.
    Join,
}

/// The settings of a dialog.
#[derive(Debug, Ord, PartialOrd, Eq, PartialEq, Copy, Clone)]
pub struct ConnectionSettings {
    pub default_protocol: i32,
    pub conn_method: ConnectionMethod,
    /// How long to wait for a packet, in milliseconds.
    pub read_packet_timeout: u64,
    /// How long the configuration state may last, in milliseconds.
    pub max_config_time: u64,
    /// How long the login state may last, in milliseconds.
    pub max_login_time: u64,
    /// How long to stay in the play state, in milliseconds.
    pub at_play_time: u64,
    pub max_transfer_count: u32,
}

impl Default for ConnectionSettings {
    /// Protocol 776, status only, three seconds to read a packet, five for
    /// the login and for the configuration, three in play, five transfers.
    fn default() -> (r: ConnectionSettings)
        ensures
            r.default_protocol == 776,
            r.conn_method == ConnectionMethod::OnlyHandshake,
            r.max_transfer_count == 5,
            r.read_packet_timeout == 3000,
            r.max_login_time == 5000,
            r.max_config_time == 5000,
            r.at_play_time == 3000,
    {
        ConnectionSettings {
            default_protocol: 776,
            conn_method: ConnectionMethod::OnlyHandshake,
            read_packet_timeout: 3000,
            max_login_time: 5000,
            max_config_time: 5000,
            at_play_time: 3000,
            max_transfer_count: 5,
        }
    }
}

/// How the login state ended.
#[derive(Debug, PartialEq, Eq)]
pub enum LoginResult {
    DisconnectByServer { msg: String },
    OnlineMode { should_authenticate: bool },
    Successful,
}

/// How the configuration state ended.
#[derive(Debug, PartialEq, Eq)]
pub enum ConfigurationResult {
    DisconnectByServer { msg: String },
    Transfer { host: String, port: u16 },
    ShowDialog,
    Successful,
}

/// How the play state ended before its time was up.
#[derive(Debug, PartialEq, Eq)]
pub struct PlayResult {
    pub msg: String,
}

/// What the client does after a login packet: the packet to send, the
/// compression threshold to use from now on, and the end of the state.
#[derive(Debug)]
pub struct LoginStep {
    pub send: Option<C2SLoginPacket>,
    pub compression: Option<usize>,
    pub result: Option<LoginResult>,
}

/// What the client does after a configuration packet: the packets to send,
/// in order, and the end of the state.
#[derive(Debug)]
pub struct ConfigurationStep {
    pub send: Vec<C2SConfigurationPacket>,
    pub result: Option<ConfigurationResult>,
}

/// What the client does after a play packet: the packets to send, in
/// order, and the end of the state.
#[derive(Debug)]
pub struct PlayStep {
    pub send: Vec<C2SPlayPacket>,
    pub result: Option<PlayResult>,
}

/// The answer `c` to a request for the cookie under `key`.
pub open spec fn cookie_answer(c: CookieResponsePacket, key: String, cookies: Map<Seq<char>, Seq<u8>>) -> bool {
    &&& c.key == key
    &&& c.payload is Some <==> cookies.contains_key(key@)
    &&& c.payload matches Some(b) ==> bytes_view(b) == cookies[key@]
}

/// The resource pack that a push announces.
pub open spec fn pack_of(p: ResourcePackPushPacket) -> ResourcePack {
    ResourcePack { url: p.url, hash: p.hash, forced: p.forced.unwrap_or(true) }
}

/// What a plugin message does to the data: the brand is taken, registered
/// channels are added, and any other channel is noted.
pub open spec fn payload_effect(before: ServerData, after: ServerData, p: CustomPayloadPacket) -> bool {
    match p.data {
        CustomPayloadData::MinecraftBrand(b) => after == ServerData { brand: Some(b), ..before },
        CustomPayloadData::MinecraftRegister { channels } => {
            &&& after == ServerData { registered_channels: after.registered_channels, ..before }
            &&& name_set(after.registered_channels@) == name_set(before.registered_channels@).union(
                name_set(channels@),
            )
        },
        CustomPayloadData::Unrecognized(_) => {
            &&& after == ServerData { channels: after.channels, ..before }
            &&& name_set(after.channels@) == name_set(before.channels@).insert(p.channel@)
        },
    }
}

/// The dimension that the old protocols number: the three of the base game.
pub open spec fn numbered_dimension(n: i32) -> Option<Seq<char>> {
    if n == -1 {
        Some("minecraft:the_nether"@)
    } else if n == 0 {
        Some("minecraft:overworld"@)
    } else if n == 1 {
        Some("minecraft:the_end"@)
    } else {
        None
    }
}

/// What the play state's login packet does to the data.
pub open spec fn play_login_effect(before: ServerData, after: ServerData, p: PlayLoginPacket) -> bool {
    &&& after == ServerData {
        max_players: p.max_players,
        enforces_secure_chat: p.enforces_secure_chat.unwrap_or(false),
        hashed_seed: p.hashed_seed,
        gamemode: Some(p.game_mode),
        difficulty: if before.difficulty is None { p.difficulty } else { before.difficulty },
        dimension: after.dimension,
        view_distance: p.view_distance,
        simulation_distance: p.simulation_distance,
        is_hardcore: p.is_hardcore,
        reduced_debug_info: p.reduced_debug_info,
        do_limited_crafting: p.do_limited_crafting,
        is_flat: after.is_flat,
        ..before
    }
    &&& match p.dimension_name {
        Some(name) => after.dimension == Some(name),
        None => match numbered_dimension(p.dimension_i32->0) {
            Some(name) => after.dimension matches Some(d) && d@ == name,
            None => after.dimension is None,
        },
    }
    &&& match p.is_flat {
        Some(_) => after.is_flat == p.is_flat,
        None => match p.level_type {
            Some(t) => after.is_flat == Some(t@ == "flat"@),
            None => after.is_flat is None,
        },
    }
}

/// The records that a player list update adds: those of the entries that
/// name a valid player other than `own_name`.
pub open spec fn added_records(entries: Seq<PlayerInfoEntry>, own_name: Seq<char>) -> Set<
    (Seq<char>, u128, Option<GameMode>, Option<i32>),
> {
    Set::new(
        |k: (Seq<char>, u128, Option<GameMode>, Option<i32>)|
            exists|i: int|
                0 <= i < entries.len() && ((#[trigger] entries[i]).player matches Some(pl) && pl.name@ != own_name
                    && k == (pl.name@, pl.uuid.0, entries[i].game_mode, entries[i].ping)),
    )
}

/// What a login packet leads to: the disconnect message, the
/// authentication asked for, the acknowledgment of a finished login on the
/// protocols that have the configuration state, the new compression
/// threshold, an empty answer to a custom query, or the stored cookie.
pub open spec fn login_step_spec(
    cookies: Map<Seq<char>, Seq<u8>>,
    protocol: i32,
    packet: S2CLoginPacket,
    r: LoginStep,
) -> bool {
    match packet {
        S2CLoginPacket::LoginDisconnect { reason } => r.send is None && r.compression is None
            && r.result == Some(LoginResult::DisconnectByServer { msg: reason }),
        S2CLoginPacket::EncryptionRequest { should_authenticate } => r.send is None
            && r.compression is None && r.result == Some(
            LoginResult::OnlineMode { should_authenticate: should_authenticate.unwrap_or(true) },
        ),
        S2CLoginPacket::LoginFinished => r.compression is None && r.result == Some(
            LoginResult::Successful,
        ) && if protocol >= 764 {
            r.send == Some(C2SLoginPacket::LoginAcknowledged)
        } else {
            r.send is None
        },
        S2CLoginPacket::Compression { threshold } => r.send is None && r.compression == Some(
            threshold as usize,
        ) && r.result is None,
        S2CLoginPacket::CustomQuery { message_id } => r.send == Some(
            C2SLoginPacket::CustomQueryAnswer { message_id },
        ) && r.compression is None && r.result is None,
        S2CLoginPacket::CookieRequest { key } => (r.send matches Some(
            C2SLoginPacket::CookieResponse(c),
        ) && cookie_answer(c, key, cookies)) && r.compression is None && r.result is None,
    }
}

/// What a configuration packet leads to, for a packet that is not a cookie
/// to store: the data after it, and the step.
pub open spec fn configuration_step_spec(
    cookies: Map<Seq<char>, Seq<u8>>,
    before: ServerData,
    after: ServerData,
    send_finish: bool,
    packet: S2CConfigurationPacket,
    s: ConfigurationStep,
) -> bool {
    match packet {
        S2CConfigurationPacket::StoreCookie { .. } => after == before && s.send@.len() == 0
            && s.result is None,
        S2CConfigurationPacket::CookieRequest { key } => {
            &&& after == before
            &&& s.send@.len() == 1
            &&& s.send@[0] matches C2SConfigurationPacket::CookieResponse(c) && cookie_answer(
                c,
                key,
                cookies,
            )
            &&& s.result is None
        },
        S2CConfigurationPacket::CustomPayload(p) => payload_effect(before, after, p)
            && s.send@.len() == 0 && s.result is None,
        S2CConfigurationPacket::Disconnect { reason } => after == before && s.send@.len() == 0
            && s.result == Some(ConfigurationResult::DisconnectByServer { msg: reason }),
        S2CConfigurationPacket::KeepAlive { keep_alive_id } => after == before && s.send@ == seq![
            C2SConfigurationPacket::KeepAliveResponse { keep_alive_id },
        ] && s.result is None,
        S2CConfigurationPacket::Ping { id } => after == before && s.send@ == seq![
            C2SConfigurationPacket::Pong { id },
        ] && s.result is None,
        S2CConfigurationPacket::AddResourcePack(p) => after == ServerData {
            resource_pack: Some(pack_of(p)),
            ..before
        } && s.send@ == seq![
            C2SConfigurationPacket::ResourcePackResponse {
                ident: p.ident,
                status: ResourcePackStatus::Accepted,
            },
            C2SConfigurationPacket::ResourcePackResponse {
                ident: p.ident,
                status: ResourcePackStatus::SuccessfullyDownloaded,
            },
        ] && s.result is None,
        S2CConfigurationPacket::Transfer { host, port } => after == before && s.send@.len() == 0
            && s.result == Some(ConfigurationResult::Transfer { host, port }),
        S2CConfigurationPacket::FeatureFlags { features } => after == ServerData {
            features,
            ..before
        } && s.send@.len() == 0 && s.result is None,
        S2CConfigurationPacket::KnownPacks => after == before && s.send@ == seq![
            C2SConfigurationPacket::SelectKnownPacks,
        ] && s.result is None,
        S2CConfigurationPacket::ServerLinks { links } => after == ServerData {
            links: after.links,
            ..before
        } && after.links@ == before.links@ + links@ && s.send@.len() == 0 && s.result is None,
        S2CConfigurationPacket::ClearDialog => after == before && s.send@.len() == 0
            && s.result is None,
        S2CConfigurationPacket::ShowDialog => after == before && s.send@.len() == 0 && s.result
            == Some(ConfigurationResult::ShowDialog),
        S2CConfigurationPacket::CodeOfConduct { code_of_conduct } => after == ServerData {
            code_of_conduct: Some(code_of_conduct),
            ..before
        } && s.send@ == seq![C2SConfigurationPacket::AcceptCodeOfConduct] && s.result is None,
        S2CConfigurationPacket::FinishConfiguration => after == before && s.send@ == (
        if send_finish {
            seq![C2SConfigurationPacket::AckFinishConfiguration]
        } else {
            Seq::<C2SConfigurationPacket>::empty()
        }) && s.result == Some(ConfigurationResult::Successful),
    }
}

/// What a play packet leads to, for a packet that is not a cookie to store:
/// the data after it, and the step. `own_name` is the name the dialog plays
/// as, which the player list leaves out.
pub open spec fn play_step_spec(
    cookies: Map<Seq<char>, Seq<u8>>,
    own_name: Seq<char>,
    before: ServerData,
    after: ServerData,
    packet: S2CPlayPacket,
    s: PlayStep,
) -> bool {
    match packet {
        S2CPlayPacket::StoreCookie { .. } => after == before && s.send@.len() == 0
            && s.result is None,
        S2CPlayPacket::Disconnect { reason } => after == before && s.send@.len() == 0 && s.result
            == Some(PlayResult { msg: reason }),
        S2CPlayPacket::KeepAlive { keep_alive_id } => after == before && s.send@ == seq![
            C2SPlayPacket::KeepAliveResponse { keep_alive_id },
        ] && s.result is None,
        S2CPlayPacket::Ping { id } => after == before && s.send@ == seq![C2SPlayPacket::Pong { id }]
            && s.result is None,
        S2CPlayPacket::CustomPayload(p) => payload_effect(before, after, p) && s.send@.len() == 0
            && s.result is None,
        S2CPlayPacket::ChangeDifficulty { difficulty } => after == ServerData {
            difficulty: Some(difficulty),
            ..before
        } && s.send@.len() == 0 && s.result is None,
        S2CPlayPacket::Commands { command_names } => after == ServerData {
            commands: command_names,
            ..before
        } && s.send@.len() == 0 && s.result is None,
        S2CPlayPacket::CookieRequest { key } => {
            &&& after == before
            &&& s.send@.len() == 1
            &&& s.send@[0] matches C2SPlayPacket::CookieResponse(c) && cookie_answer(c, key, cookies)
            &&& s.result is None
        },
        S2CPlayPacket::Login(p) => play_login_effect(before, after, p) && s.send@.len() == 0
            && s.result is None,
        S2CPlayPacket::PlayerInfoUpdate { add_player, players_info } => {
            &&& s.send@.len() == 0
            &&& s.result is None
            &&& if add_player {
                &&& after == ServerData { players: after.players, ..before }
                &&& record_set(after.players@) == record_set(before.players@).union(
                    added_records(players_info@, own_name),
                )
            } else {
                after == before
            }
        },
        S2CPlayPacket::ResourcePackPush(p) => after == ServerData {
            resource_pack: Some(pack_of(p)),
            ..before
        } && s.send@ == seq![
            C2SPlayPacket::ResourcePackResponse {
                ident: p.ident,
                status: ResourcePackStatus::Accepted,
            },
            C2SPlayPacket::ResourcePackResponse {
                ident: p.ident,
                status: ResourcePackStatus::SuccessfullyDownloaded,
            },
        ] && s.result is None,
        S2CPlayPacket::ServerLinks { links } => after == ServerData {
            links: after.links,
            ..before
        } && after.links@ == before.links@ + links@ && s.send@.len() == 0 && s.result is None,
    }
}

/// A dialog with one server, as one player.
pub struct ServerDialog {
    pub dst: ServerDst,
    pub player: Player,
    pub cookie_storage: CookieStorage,
}

impl ServerDialog {
    /// The cookies the server has stored: key to payload.
    pub open spec fn cookies(&self) -> Map<Seq<char>, Seq<u8>> {
        self.cookie_storage.contents()
    }

    /// The cookie bytes counted against the limit.
    pub open spec fn cookie_bytes(&self) -> nat {
        self.cookie_storage.stored()
    }

    /// A dialog with `dst` as `player`, no cookie stored yet.
    pub fn new(dst: ServerDst, player: Player) -> (r: ServerDialog)
        ensures
            r.dst == dst,
            r.player == player,
            r.cookies() == Map::<Seq<char>, Seq<u8>>::empty(),
            r.cookie_bytes() == 0,
    {
        ServerDialog { dst, player, cookie_storage: CookieStorage::new() }
    }

    /// The handshake that opens a connection: the name and port dialed, the
    /// protocol, and the state asked for.
    pub fn handshake_packet(&self, protocol: i32, next_state: i32) -> (r: HandshakePacket)
        ensures
            r.server_field == self.dst.server_name,
            r.port_field == self.dst.socket_addr.port,
            r.protocol == protocol,
            r.next_state == next_state,
    {
        HandshakePacket {
            server_field: self.dst.server_name.clone(),
            port_field: self.dst.socket_addr.port,
            protocol,
            next_state,
        }
    }

    /// Queues what asks a server for its status: the handshake for the
    /// status (next state 1), then the status request.
    pub fn queue_status_request(&self, protocol: i32, conn: &mut McConnection)
        ensures
            final(conn).write_buffer() == old(conn).write_buffer() + frame_bytes(
                handshake_bytes(
                    HandshakePacket {
                        server_field: self.dst.server_name,
                        port_field: self.dst.socket_addr.port,
                        protocol,
                        next_state: 1,
                    },
                ),
                old(conn).threshold(),
            ) + frame_bytes(status_request_bytes(), old(conn).threshold()),
            final(conn).read_buffer() == old(conn).read_buffer(),
            final(conn).threshold() == old(conn).threshold(),
            final(conn).spec_protocol() == old(conn).spec_protocol(),
    {
        let handshake = self.handshake_packet(protocol, 1).encode();
        conn.queue_packet(handshake.as_slice());
        let request = encode_status_request();
        conn.queue_packet(request.as_slice());
    }

    /// The first packet of the login state: the player's name and id.
    pub fn hello_packet(&self) -> (r: C2SLoginPacket)
        ensures
            r == C2SLoginPacket::Hello(self.player),
    {
        C2SLoginPacket::Hello(self.player.clone())
    }

    /// The answer to a request for the cookie under `key`.
    fn cookie_response(&self, key: String) -> (r: CookieResponsePacket)
        ensures
            cookie_answer(r, key, self.cookies()),
    {
        self.cookie_storage.format_packet(key)
    }

    /// Stores a cookie, or fails when the limit would be passed.
    fn store_cookie(&mut self, key: String, payload: bytes::Bytes) -> (r: Result<(), DialogError>)
        ensures
            final(self).dst == old(self).dst,
            final(self).player == old(self).player,
            old(self).cookie_bytes() + bytes_view(payload).len() > MAX_COOKIE_BYTES ==> {
                &&& r matches Err(e) && e == DialogError::CookieStorageError(
                    CookieStorageError(
                            attempted_bytes(old(self).cookie_bytes(), bytes_view(payload).len()),
                        ),
                )
                &&& final(self).cookies() == old(self).cookies()
                &&& final(self).cookie_bytes() == old(self).cookie_bytes()
            },
            old(self).cookie_bytes() + bytes_view(payload).len() <= MAX_COOKIE_BYTES ==> {
                &&& r is Ok
                &&& final(self).cookies() == old(self).cookies().insert(key@, bytes_view(payload))
                &&& final(self).cookie_bytes() == old(self).cookie_bytes() + bytes_view(payload).len()
            },
    {
        match self.cookie_storage.try_put(key, payload) {
            Ok(()) => Ok(()),
            Err(e) => Err(DialogError::CookieStorageError(e)),
        }
    }
}

impl ServerDialog {
    /// Takes a packet of the login state: says what to send, whether to
    /// compress from now on, and how the state ended if it did.
    pub fn login_step(&mut self, protocol: i32, packet: S2CLoginPacket) -> (r: LoginStep)
        ensures
            final(self).dst == old(self).dst,
            final(self).player == old(self).player,
            final(self).cookies() == old(self).cookies(),
            final(self).cookie_bytes() == old(self).cookie_bytes(),
            login_step_spec(old(self).cookies(), protocol, packet, r),
    {
        match packet {
            S2CLoginPacket::LoginDisconnect { reason } => LoginStep {
                send: None,
                compression: None,
                result: Some(LoginResult::DisconnectByServer { msg: reason }),
            },
            S2CLoginPacket::EncryptionRequest { should_authenticate } => LoginStep {
                send: None,
                compression: None,
                result: Some(
                    LoginResult::OnlineMode {
                        should_authenticate: should_authenticate.unwrap_or(true),
                    },
                ),
            },
            S2CLoginPacket::LoginFinished => {
                let send = if protocol >= 764 {
                    Some(C2SLoginPacket::LoginAcknowledged)
                } else {
                    None
                };
                LoginStep { send, compression: None, result: Some(LoginResult::Successful) }
            },
            S2CLoginPacket::Compression { threshold } => LoginStep {
                send: None,
                compression: Some(threshold as usize),
                result: None,
            },
            S2CLoginPacket::CustomQuery { message_id } => LoginStep {
                send: Some(C2SLoginPacket::CustomQueryAnswer { message_id }),
                compression: None,
                result: None,
            },
            S2CLoginPacket::CookieRequest { key } => LoginStep {
                send: Some(C2SLoginPacket::CookieResponse(self.cookie_response(key))),
                compression: None,
                result: None,
            },
        }
    }

    /// Takes a packet of the configuration state into `data`: says what to
    /// send and how the state ended if it did. `send_finish` says whether
    /// the end of the configuration is acknowledged, which takes the client
    /// on to the play state. A cookie past the storage limit fails the
    /// dialog.
    pub fn configuration_step(
        &mut self,
        data: &mut ServerData,
        send_finish: bool,
        packet: S2CConfigurationPacket,
    ) -> (r: Result<ConfigurationStep, DialogError>)
        requires
            old(data).wf(),
        ensures
            final(data).wf(),
            final(self).dst == old(self).dst,
            final(self).player == old(self).player,
            match packet {
                S2CConfigurationPacket::StoreCookie { key, payload } => {
                    &&& *final(data) == *old(data)
                    &&& if old(self).cookie_bytes() + bytes_view(payload).len() > MAX_COOKIE_BYTES {
                        &&& r matches Err(e) && e == DialogError::CookieStorageError(
                            CookieStorageError(
                            attempted_bytes(old(self).cookie_bytes(), bytes_view(payload).len()),
                        ),
                        )
                        &&& final(self).cookies() == old(self).cookies()
                        &&& final(self).cookie_bytes() == old(self).cookie_bytes()
                    } else {
                        &&& r matches Ok(s) && s.send@.len() == 0 && s.result is None
                        &&& final(self).cookies() == old(self).cookies().insert(
                            key@,
                            bytes_view(payload),
                        )
                        &&& final(self).cookie_bytes() == old(self).cookie_bytes() + bytes_view(
                            payload,
                        ).len()
                    }
                },
                _ => {
                    &&& final(self).cookies() == old(self).cookies()
                    &&& final(self).cookie_bytes() == old(self).cookie_bytes()
                    &&& r matches Ok(s) && configuration_step_spec(
                        old(self).cookies(),
                        *old(data),
                        *final(data),
                        send_finish,
                        packet,
                        s,
                    )
                },
            },
    {
        let mut send: Vec<C2SConfigurationPacket> = Vec::new();
        let mut result: Option<ConfigurationResult> = None;
        match packet {
            S2CConfigurationPacket::StoreCookie { key, payload } => {
                if let Err(e) = self.store_cookie(key, payload) {
                    return Err(e);
                }
            },
            S2CConfigurationPacket::CookieRequest { key } => {
                send.push(C2SConfigurationPacket::CookieResponse(self.cookie_response(key)));
            },
            S2CConfigurationPacket::CustomPayload(p) => {
                apply_payload(data, p);
            },
            S2CConfigurationPacket::Disconnect { reason } => {
                result = Some(ConfigurationResult::DisconnectByServer { msg: reason });
            },
            S2CConfigurationPacket::KeepAlive { keep_alive_id } => {
                send.push(C2SConfigurationPacket::KeepAliveResponse { keep_alive_id });
            },
            S2CConfigurationPacket::Ping { id } => {
                send.push(C2SConfigurationPacket::Pong { id });
            },
            S2CConfigurationPacket::AddResourcePack(p) => {
                let ident = p.ident;
                data.resource_pack = Some(
                    ResourcePack { url: p.url, hash: p.hash, forced: p.forced.unwrap_or(true) },
                );
                send.push(
                    C2SConfigurationPacket::ResourcePackResponse {
                        ident,
                        status: ResourcePackStatus::Accepted,
                    },
                );
                send.push(
                    C2SConfigurationPacket::ResourcePackResponse {
                        ident,
                        status: ResourcePackStatus::SuccessfullyDownloaded,
                    },
                );
                assert(send@ =~= seq![
                    C2SConfigurationPacket::ResourcePackResponse {
                        ident,
                        status: ResourcePackStatus::Accepted,
                    },
                    C2SConfigurationPacket::ResourcePackResponse {
                        ident,
                        status: ResourcePackStatus::SuccessfullyDownloaded,
                    },
                ]);
            },
            S2CConfigurationPacket::Transfer { host, port } => {
                result = Some(ConfigurationResult::Transfer { host, port });
            },
            S2CConfigurationPacket::FeatureFlags { features } => {
                data.features = features;
            },
            S2CConfigurationPacket::KnownPacks => {
                send.push(C2SConfigurationPacket::SelectKnownPacks);
            },
            S2CConfigurationPacket::ServerLinks { links } => {
                append_all(&mut data.links, links);
            },
            S2CConfigurationPacket::ClearDialog => {},
            S2CConfigurationPacket::ShowDialog => {
                result = Some(ConfigurationResult::ShowDialog);
            },
            S2CConfigurationPacket::CodeOfConduct { code_of_conduct } => {
                data.code_of_conduct = Some(code_of_conduct);
                send.push(C2SConfigurationPacket::AcceptCodeOfConduct);
            },
            S2CConfigurationPacket::FinishConfiguration => {
                if send_finish {
                    send.push(C2SConfigurationPacket::AckFinishConfiguration);
                }
                result = Some(ConfigurationResult::Successful);
            },
        }
        Ok(ConfigurationStep { send, result })
    }

    /// Takes a packet of the play state into `data`: says what to send and
    /// whether the server ended the dialog. A cookie past the storage limit
    /// fails the dialog.
    pub fn play_step(&mut self, data: &mut ServerData, packet: S2CPlayPacket) -> (r: Result<
        PlayStep,
        DialogError,
    >)
        requires
            old(data).wf(),
            packet matches S2CPlayPacket::Login(p) ==> p.dimension_name is Some
                || p.dimension_i32 is Some,
        ensures
            final(data).wf(),
            final(self).dst == old(self).dst,
            final(self).player == old(self).player,
            match packet {
                S2CPlayPacket::StoreCookie { key, payload } => {
                    &&& *final(data) == *old(data)
                    &&& if old(self).cookie_bytes() + bytes_view(payload).len() > MAX_COOKIE_BYTES {
                        &&& r matches Err(e) && e == DialogError::CookieStorageError(
                            CookieStorageError(
                            attempted_bytes(old(self).cookie_bytes(), bytes_view(payload).len()),
                        ),
                        )
                        &&& final(self).cookies() == old(self).cookies()
                        &&& final(self).cookie_bytes() == old(self).cookie_bytes()
                    } else {
                        &&& r matches Ok(s) && s.send@.len() == 0 && s.result is None
                        &&& final(self).cookies() == old(self).cookies().insert(
                            key@,
                            bytes_view(payload),
                        )
                        &&& final(self).cookie_bytes() == old(self).cookie_bytes() + bytes_view(
                            payload,
                        ).len()
                    }
                },
                _ => {
                    &&& final(self).cookies() == old(self).cookies()
                    &&& final(self).cookie_bytes() == old(self).cookie_bytes()
                    &&& r matches Ok(s) && play_step_spec(
                        old(self).cookies(),
                        old(self).player.name@,
                        *old(data),
                        *final(data),
                        packet,
                        s,
                    )
                },
            },
    {
        let mut send: Vec<C2SPlayPacket> = Vec::new();
        let mut result: Option<PlayResult> = None;
        match packet {
            S2CPlayPacket::StoreCookie { key, payload } => {
                if let Err(e) = self.store_cookie(key, payload) {
                    return Err(e);
                }
            },
            S2CPlayPacket::Disconnect { reason } => {
                result = Some(PlayResult { msg: reason });
            },
            S2CPlayPacket::KeepAlive { keep_alive_id } => {
                send.push(C2SPlayPacket::KeepAliveResponse { keep_alive_id });
            },
            S2CPlayPacket::Ping { id } => {
                send.push(C2SPlayPacket::Pong { id });
            },
            S2CPlayPacket::CustomPayload(p) => {
                apply_payload(data, p);
            },
            S2CPlayPacket::ChangeDifficulty { difficulty } => {
                data.difficulty = Some(difficulty);
            },
            S2CPlayPacket::Commands { command_names } => {
                data.commands = command_names;
            },
            S2CPlayPacket::CookieRequest { key } => {
                send.push(C2SPlayPacket::CookieResponse(self.cookie_response(key)));
            },
            S2CPlayPacket::Login(p) => {
                apply_play_login(data, p);
            },
            S2CPlayPacket::PlayerInfoUpdate { add_player, players_info } => {
                if add_player {
                    add_players(data, &players_info, &self.player.name);
                }
            },
            S2CPlayPacket::ResourcePackPush(p) => {
                let ident = p.ident;
                data.resource_pack = Some(
                    ResourcePack { url: p.url, hash: p.hash, forced: p.forced.unwrap_or(true) },
                );
                send.push(
                    C2SPlayPacket::ResourcePackResponse { ident, status: ResourcePackStatus::Accepted },
                );
                send.push(
                    C2SPlayPacket::ResourcePackResponse {
                        ident,
                        status: ResourcePackStatus::SuccessfullyDownloaded,
                    },
                );
                assert(send@ =~= seq![
                    C2SPlayPacket::ResourcePackResponse {
                        ident,
                        status: ResourcePackStatus::Accepted,
                    },
                    C2SPlayPacket::ResourcePackResponse {
                        ident,
                        status: ResourcePackStatus::SuccessfullyDownloaded,
                    },
                ]);
            },
            S2CPlayPacket::ServerLinks { links } => {
                append_all(&mut data.links, links);
            },
        }
        Ok(PlayStep { send, result })
    }
}

/// The name of a dimension that the old protocols number.
fn numbered_dimension_name(n: i32) -> (r: Option<String>)
    ensures
        match numbered_dimension(n) {
            Some(name) => r matches Some(d) && d@ == name,
            None => r is None,
        },
{
    if n == -1 {
        Some("minecraft:the_nether".to_string())
    } else if n == 0 {
        Some("minecraft:overworld".to_string())
    } else if n == 1 {
        Some("minecraft:the_end".to_string())
    } else {
        None
    }
}

/// Applies the play state's login packet to the data.
fn apply_play_login(data: &mut ServerData, p: PlayLoginPacket)
    requires
        old(data).wf(),
        p.dimension_name is Some || p.dimension_i32 is Some,
    ensures
        final(data).wf(),
        play_login_effect(*old(data), *final(data), p),
{
    let ghost before = *data;
    let ghost pp = p;
    let PlayLoginPacket {
        max_players,
        enforces_secure_chat,
        hashed_seed,
        game_mode,
        difficulty,
        dimension_name,
        dimension_i32,
        view_distance,
        simulation_distance,
        is_hardcore,
        reduced_debug_info,
        do_limited_crafting,
        is_flat,
        level_type,
    } = p;
    data.max_players = max_players;
    data.enforces_secure_chat = enforces_secure_chat.unwrap_or(false);
    data.hashed_seed = hashed_seed;
    data.gamemode = Some(game_mode);
    if data.difficulty.is_none() {
        data.difficulty = difficulty;
    }
    data.dimension = match dimension_name {
        None => {
            let n = dimension_i32.unwrap();
            numbered_dimension_name(n)
        },
        Some(name) => Some(name),
    };
    data.view_distance = view_distance;
    data.simulation_distance = simulation_distance;
    data.is_hardcore = is_hardcore;
    data.reduced_debug_info = reduced_debug_info;
    data.do_limited_crafting = do_limited_crafting;
    data.is_flat = match is_flat {
        Some(_) => is_flat,
        None => match level_type {
            Some(t) => Some(t == "flat".to_string()),
            None => None,
        },
    };
}

/// Adds the players of a list update to the data's players, but for
/// entries that hold no valid player and for `own_name`.
fn add_players(data: &mut ServerData, entries: &Vec<PlayerInfoEntry>, own_name: &String)
    requires
        old(data).wf(),
    ensures
        final(data).wf(),
        *final(data) == (ServerData { players: final(data).players, ..*old(data) }),
        record_set(final(data).players@) == record_set(old(data).players@).union(
            added_records(entries@, own_name@),
        ),
{
    let ghost before = *data;
    let ghost all = entries@;
    let mut i: usize = 0;
    while i < entries.len()
        invariant
            i <= all.len(),
            entries@ == all,
            data.wf(),
            *data == (ServerData { players: data.players, ..before }),
            record_set(data.players@) == record_set(before.players@).union(
                added_records(all.take(i as int), own_name@),
            ),
        decreases all.len() - i,
    {
        let ghost t0 = all.take(i as int);
        let ghost t1 = all.take(i + 1);
        let entry = &entries[i];
        match &entry.player {
            Some(pl) => {
                if pl.name != *own_name {
                    let rec = PlayerRecord {
                        player: pl.clone(),
                        game_mode: entry.game_mode,
                        ping: entry.ping,
                    };
                    insert_record(&mut data.players, rec);
                    proof {
                        let key = (pl.name@, pl.uuid.0, entry.game_mode, entry.ping);
                        assert(added_records(t1, own_name@) =~= added_records(t0, own_name@).insert(
                            key,
                        )) by {
                            assert(t1[i as int] == all[i as int]);
                            assert forall|k| #[trigger] added_records(t1, own_name@).contains(k)
                                implies added_records(t0, own_name@).insert(key).contains(k) by {
                                let j = choose|j: int|
                                    0 <= j < t1.len() && ((#[trigger] t1[j]).player matches Some(q)
                                        && q.name@ != own_name@ && k == (
                                        q.name@,
                                        q.uuid.0,
                                        t1[j].game_mode,
                                        t1[j].ping,
                                    ));
                                if j < i {
                                    assert(t0[j] == t1[j]);
                                }
                            }
                            assert forall|k| #[trigger] added_records(t0, own_name@).contains(k)
                                implies added_records(t1, own_name@).contains(k) by {
                                let j = choose|j: int|
                                    0 <= j < t0.len() && ((#[trigger] t0[j]).player matches Some(q)
                                        && q.name@ != own_name@ && k == (
                                        q.name@,
                                        q.uuid.0,
                                        t0[j].game_mode,
                                        t0[j].ping,
                                    ));
                                assert(t1[j] == t0[j]);
                            }
                        }
                    }
                } else {
                    proof {
                        assert(added_records(t1, own_name@) =~= added_records(t0, own_name@)) by {
                            assert forall|k| #[trigger] added_records(t1, own_name@).contains(k)
                                implies added_records(t0, own_name@).contains(k) by {
                                let j = choose|j: int|
                                    0 <= j < t1.len() && ((#[trigger] t1[j]).player matches Some(q)
                                        && q.name@ != own_name@ && k == (
                                        q.name@,
                                        q.uuid.0,
                                        t1[j].game_mode,
                                        t1[j].ping,
                                    ));
                                if j < i {
                                    assert(t0[j] == t1[j]);
                                } else {
                                    assert(t1[j] == all[i as int]);
                                }
                            }
                            assert forall|k| #[trigger] added_records(t0, own_name@).contains(k)
                                implies added_records(t1, own_name@).contains(k) by {
                                let j = choose|j: int|
                                    0 <= j < t0.len() && ((#[trigger] t0[j]).player matches Some(q)
                                        && q.name@ != own_name@ && k == (
                                        q.name@,
                                        q.uuid.0,
                                        t0[j].game_mode,
                                        t0[j].ping,
                                    ));
                                assert(t1[j] == t0[j]);
                            }
                        }
                    }
                }
            },
            None => {
                proof {
                    assert(added_records(t1, own_name@) =~= added_records(t0, own_name@)) by {
                        assert forall|k| #[trigger] added_records(t1, own_name@).contains(k)
                            implies added_records(t0, own_name@).contains(k) by {
                            let j = choose|j: int|
                                0 <= j < t1.len() && ((#[trigger] t1[j]).player matches Some(q)
                                    && q.name@ != own_name@ && k == (
                                    q.name@,
                                    q.uuid.0,
                                    t1[j].game_mode,
                                    t1[j].ping,
                                ));
                            if j < i {
                                assert(t0[j] == t1[j]);
                            } else {
                                assert(t1[j] == all[i as int]);
                            }
                        }
                        assert forall|k| #[trigger] added_records(t0, own_name@).contains(k)
                            implies added_records(t1, own_name@).contains(k) by {
                            let j = choose|j: int|
                                0 <= j < t0.len() && ((#[trigger] t0[j]).player matches Some(q)
                                    && q.name@ != own_name@ && k == (
                                    q.name@,
                                    q.uuid.0,
                                    t0[j].game_mode,
                                    t0[j].ping,
                                ));
                            assert(t1[j] == t0[j]);
                        }
                    }
                }
            },
        }
        i = i + 1;
    }
    assert(all.take(all.len() as int) =~= all);
}

/// Applies a plugin message to the data.
fn apply_payload(data: &mut ServerData, p: CustomPayloadPacket)
    requires
        old(data).wf(),
    ensures
        final(data).wf(),
        payload_effect(*old(data), *final(data), p),
{
    let ghost before = *data;
    let CustomPayloadPacket { channel, data: payload } = p;
    match payload {
        CustomPayloadData::MinecraftBrand(brand) => {
            data.brand = Some(brand);
        },
        CustomPayloadData::MinecraftRegister { channels } => {
            extend_names(&mut data.registered_channels, channels);
        },
        CustomPayloadData::Unrecognized(_) => {
            insert_name(&mut data.channels, channel);
        },
    }
}

/// Appends `more` to `v`.
fn append_all(v: &mut Vec<String>, more: Vec<String>)
    ensures
        final(v)@ == old(v)@ + more@,
{
    let mut more = more;
    v.append(&mut more);
}

} // verus!
