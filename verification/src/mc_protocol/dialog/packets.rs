//! The packets of the dialog, as values: what the server sends in the login,
//! configuration and play states once decoded, and what the client answers
//! before it is encoded.

use crate::ids::Uuid;
use crate::mc_protocol::dialog::server_data::ForgeMod;
use crate::mc_protocol::types::difficulty::Difficulty;
use crate::mc_protocol::types::gamemode::GameMode;
use crate::mc_protocol::types::player::Player;
use crate::mc_protocol::types::{varint_bytes, McVarInt};
use vstd::prelude::*;
use vstd::utf8::encode_utf8;

verus! {

/// The first packet on a connection: the address the client dialed, the
/// protocol it speaks, and the state it asks for (1 status, 2 login, 3
/// login after a transfer).
#[derive(Debug)]
pub struct HandshakePacket {
    pub server_field: String,
    pub port_field: u16,
    pub protocol: i32,
    pub next_state: i32,
}

/// A string field: the length of its UTF-8 bytes as a VarInt, then the
/// bytes.
pub open spec fn string_field_bytes(s: Seq<char>) -> Seq<u8> {
    varint_bytes((encode_utf8(s).len() as i32) as u32) + encode_utf8(s)
}

/// The id and fields of a handshake as they go on the wire: id 0, the
/// protocol, the address, the port (high byte first) and the next state.
pub open spec fn handshake_bytes(h: HandshakePacket) -> Seq<u8> {
    varint_bytes(0) + varint_bytes(h.protocol as u32) + string_field_bytes(h.server_field@) + seq![
        (h.port_field / 256) as u8,
        (h.port_field % 256) as u8,
    ] + varint_bytes(h.next_state as u32)
}

/// The status request on the wire: its id 0 and no fields.
pub open spec fn status_request_bytes() -> Seq<u8> {
    varint_bytes(0)
}

impl HandshakePacket {
    /// The id and fields of the handshake, encoded (see [`handshake_bytes`]).
    pub fn encode(&self) -> (r: Vec<u8>)
        ensures
            r@ == handshake_bytes(*self),
    {
        let mut buf: Vec<u8> = Vec::new();
        McVarInt(0).write_to_buf(&mut buf);
        McVarInt(self.protocol).write_to_buf(&mut buf);
        let text = self.server_field.as_str().as_bytes();
        let len = text.len();
        McVarInt(#[verifier::truncate] (len as i32)).write_to_buf(&mut buf);
        let ghost before = buf@;
        let mut i: usize = 0;
        while i < len
            invariant
                i <= len,
                len == text@.len(),
                buf@ == before + text@.take(i as int),
            decreases len - i,
        {
            buf.push(text[i]);
            assert(text@.take(i + 1) =~= text@.take(i as int).push(text@[i as int]));
            i = i + 1;
        }
        assert(text@.take(len as int) =~= text@);
        buf.push((self.port_field / 256) as u8);
        buf.push((self.port_field % 256) as u8);
        McVarInt(self.next_state).write_to_buf(&mut buf);
        assert(buf@ =~= handshake_bytes(*self));
        buf
    }
}

/// Encodes the status request (see [`status_request_bytes`]).
pub fn encode_status_request() -> (r: Vec<u8>)
    ensures
        r@ == status_request_bytes(),
{
    let mut buf: Vec<u8> = Vec::new();
    McVarInt(0).write_to_buf(&mut buf);
    assert(buf@ =~= status_request_bytes());
    buf
}

/// The answer to a cookie request: the key, and the payload stored under it
/// if any.
#[derive(Debug)]
pub struct CookieResponsePacket {
    pub key: String,
    pub payload: Option<bytes::Bytes>,
}

/// The server's answer to a status request, with its description already
/// rendered as text.
#[derive(Debug)]
pub struct StatusResponsePacket {
    pub description: String,
    pub version_name: String,
    pub protocol: i32,
    pub online_players: i32,
    pub max_players: i32,
    /// Some of the players online, when the server shows them.
    pub sample: Option<Vec<Player>>,
    pub enforces_secure_chat: Option<bool>,
    pub prevents_chat_reports: Option<bool>,
    /// The mods of a modded server.
    pub forge_mods: Option<Vec<ForgeMod>>,
}

/// What identifies a resource pack in the client's answers.
#[derive(Clone, Copy, Debug, PartialEq, Eq, Structural)]
pub struct ResourcePackIdent {
    pub uuid: Option<Uuid>,
}

/// A resource pack that the server pushes.
#[derive(Debug)]
pub struct ResourcePackPushPacket {
    pub ident: ResourcePackIdent,
    pub url: String,
    pub hash: Option<String>,
    pub forced: Option<bool>,
}

/// What the client says of a pushed resource pack.
#[derive(Clone, Copy, Debug, PartialEq, Eq, Structural)]
pub enum ResourcePackStatus {
    Accepted,
    SuccessfullyDownloaded,
}

/// The data of a plugin message, by channel.
#[derive(Debug)]
pub enum CustomPayloadData {
    /// `minecraft:brand`: the server's brand.
    MinecraftBrand(String),
    /// `minecraft:register`: channels the server listens on.
    MinecraftRegister { channels: Vec<String> },
    /// Any other channel.
    Unrecognized(bytes::Bytes),
}

/// A plugin message.
#[derive(Debug)]
pub struct CustomPayloadPacket {
    pub channel: String,
    pub data: CustomPayloadData,
}

/// What the server sends in the login state.
#[derive(Debug)]
pub enum S2CLoginPacket {
    LoginDisconnect { reason: String },
    EncryptionRequest { should_authenticate: Option<bool> },
    LoginFinished,
    Compression { threshold: i32 },
    CustomQuery { message_id: i32 },
    CookieRequest { key: String },
}

/// What the client sends in the login state.
#[derive(Debug)]
pub enum C2SLoginPacket {
    Hello(Player),
    LoginAcknowledged,
    /// An answer with no data to a query the client does not understand.
    CustomQueryAnswer { message_id: i32 },
    CookieResponse(CookieResponsePacket),
}

/// What the server sends in the configuration state, once the packets the
/// dialog skips by their id are left out.
#[derive(Debug)]
pub enum S2CConfigurationPacket {
    StoreCookie { key: String, payload: bytes::Bytes },
    CookieRequest { key: String },
    CustomPayload(CustomPayloadPacket),
    Disconnect { reason: String },
    KeepAlive { keep_alive_id: i64 },
    Ping { id: i32 },
    AddResourcePack(ResourcePackPushPacket),
    Transfer { host: String, port: u16 },
    FeatureFlags { features: Vec<String> },
    KnownPacks,
    ServerLinks { links: Vec<String> },
    ClearDialog,
    ShowDialog,
    CodeOfConduct { code_of_conduct: String },
    FinishConfiguration,
}

/// What the client sends in the configuration state.
#[derive(Debug)]
pub enum C2SConfigurationPacket {
    CookieResponse(CookieResponsePacket),
    KeepAliveResponse { keep_alive_id: i64 },
    Pong { id: i32 },
    ResourcePackResponse { ident: ResourcePackIdent, status: ResourcePackStatus },
    /// The client knows none of the server's packs.
    SelectKnownPacks,
    AcceptCodeOfConduct,
    AckFinishConfiguration,
}

/// The play state's login packet: the world the player joins.
#[derive(Debug)]
pub struct PlayLoginPacket {
    pub max_players: i32,
    pub enforces_secure_chat: Option<bool>,
    pub hashed_seed: Option<i64>,
    pub game_mode: GameMode,
    pub difficulty: Option<Difficulty>,
    /// The dimension by name, in the protocols that name it.
    pub dimension_name: Option<String>,
    /// The dimension by number, in the protocols that number it.
    pub dimension_i32: Option<i32>,
    pub view_distance: Option<u16>,
    pub simulation_distance: Option<u16>,
    pub is_hardcore: Option<bool>,
    pub reduced_debug_info: Option<bool>,
    pub do_limited_crafting: Option<bool>,
    pub is_flat: Option<bool>,
    pub level_type: Option<String>,
}

/// One entry of a player list update: the player made of the entry's
/// profile (`None` where its name or id is not a valid player), with the
/// game mode and ping when the update carries them.
#[derive(Debug)]
pub struct PlayerInfoEntry {
    pub player: Option<Player>,
    pub game_mode: Option<GameMode>,
    pub ping: Option<i32>,
}

/// What the server sends in the play state, once the packets the dialog
/// skips by their id are left out.
#[derive(Debug)]
pub enum S2CPlayPacket {
    Disconnect { reason: String },
    KeepAlive { keep_alive_id: i64 },
    Ping { id: i32 },
    CustomPayload(CustomPayloadPacket),
    ChangeDifficulty { difficulty: Difficulty },
    Commands { command_names: Vec<String> },
    CookieRequest { key: String },
    Login(PlayLoginPacket),
    PlayerInfoUpdate { add_player: bool, players_info: Vec<PlayerInfoEntry> },
    ResourcePackPush(ResourcePackPushPacket),
    StoreCookie { key: String, payload: bytes::Bytes },
    ServerLinks { links: Vec<String> },
}

/// What the client sends in the play state.
#[derive(Debug)]
pub enum C2SPlayPacket {
    KeepAliveResponse { keep_alive_id: i64 },
    Pong { id: i32 },
    CookieResponse(CookieResponsePacket),
    ResourcePackResponse { ident: ResourcePackIdent, status: ResourcePackStatus },
}

} // verus!
