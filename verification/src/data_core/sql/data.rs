//! Rows of the scanned data, as read and as written.

use crate::ids::Uuid;
use crate::time::Timestamp;
use crate::net::IpNetwork;
use vstd::prelude::*;

verus! {

/// A difficulty, as the database names it.
#[derive(Clone, Copy, Debug, PartialEq, Eq, Structural)]
pub enum Difficulty {
    Peaceful,
    Easy,
    Normal,
    Hard,
}

/// A game mode, as the database names it.
#[derive(Clone, Copy, Debug, PartialEq, Eq, Structural)]
pub enum GameMode {
    Survival,
    Creative,
    Adventure,
    Spectator,
}

/// How the last scan of a server ended, as the database names it.
#[derive(Clone, Copy, Debug, PartialEq, Eq, Structural)]
pub enum ConnectionResult {
    LoginDisconnect,
    ConfigurationDisconnect,
    PlayDisconnect,
    Successful,
}

/// A known server.
#[derive(Debug)]
pub struct Server {
    pub id: i32,
    pub ip: IpNetwork,
    pub port: i32,
    pub domain: Option<String>,
    pub last_connection_result: ConnectionResult,
    pub last_used_nick: Option<String>,
    pub description: String,
    pub protocol: i32,
    pub version_name: String,
    pub brand: Option<String>,
    pub first_seen: Timestamp,
    pub last_seen: Timestamp,
    pub last_checked: Timestamp,
    pub online_players: i32,
    pub max_players: i32,
    pub enforces_secure_chat: bool,
    pub no_chat_reports: bool,
    pub is_whitelist: Option<bool>,
    pub is_online_mode: Option<bool>,
    pub offline_auth: Option<bool>,
    pub code_of_conduct: Option<String>,
}

/// A known player.
#[derive(Debug)]
pub struct Player {
    pub id: i32,
    pub uuid: Uuid,
    pub name: String,
    pub is_online_mode: bool,
    pub last_seen: Timestamp,
    pub first_seen: Timestamp,
}

/// A player seen on a server.
#[derive(Debug)]
pub struct PlayerRecord {
    pub server_id: i32,
    pub player_id: i32,
    pub first_seen: Timestamp,
    pub last_seen: Timestamp,
    pub last_gamemode: Option<GameMode>,
    pub last_ping: Option<i32>,
}

/// A known mod.
#[derive(Clone, Debug, PartialEq, Eq)]
pub struct Mod {
    pub id: i32,
    pub name: String,
}

/// A mod of a server.
#[derive(Clone, Copy, Debug, PartialEq, Eq, Structural)]
pub struct ServerMod {
    pub server_id: i32,
    pub mod_id: i32,
}

/// A server's resource pack.
#[derive(Clone, Debug, PartialEq, Eq)]
pub struct ResourcePack {
    pub server_id: i32,
    pub url: String,
    pub hash: Option<String>,
    pub forced: bool,
}

/// A link a server shows.
#[derive(Clone, Debug, PartialEq, Eq)]
pub struct Link {
    pub id: i32,
    pub server_id: i32,
    pub url: String,
}

/// What the play state told of a server's world.
#[derive(Clone, Debug, PartialEq, Eq)]
pub struct WorldData {
    pub server_id: i32,
    pub hashed_seed: Option<i64>,
    pub gamemode: Option<GameMode>,
    pub difficulty: Option<Difficulty>,
    pub dimension: Option<String>,
    pub view_distance: Option<i16>,
    pub simulation_distance: Option<i16>,
    pub is_hardcore: Option<bool>,
    pub reduced_debug_info: Option<bool>,
    pub do_limited_crafting: Option<bool>,
    pub is_flat: Option<bool>,
}

/// A known command.
#[derive(Clone, Debug, PartialEq, Eq)]
pub struct Command {
    pub id: i32,
    pub name: String,
}

/// A command of a server.
#[derive(Clone, Copy, Debug, PartialEq, Eq, Structural)]
pub struct ServerCommand {
    pub server_id: i32,
    pub command_id: i32,
}

/// A known feature flag.
#[derive(Clone, Debug, PartialEq, Eq)]
pub struct Feature {
    pub id: i32,
    pub identifier: String,
}

/// A feature flag of a server.
#[derive(Clone, Copy, Debug, PartialEq, Eq, Structural)]
pub struct ServerFeature {
    pub server_id: i32,
    pub feature_id: i32,
}

/// A known plugin channel.
#[derive(Clone, Debug, PartialEq, Eq)]
pub struct Channel {
    pub id: i32,
    pub identifier: String,
}

/// A plugin channel of a server.
#[derive(Clone, Copy, Debug, PartialEq, Eq, Structural)]
pub struct ServerChannel {
    pub server_id: i32,
    pub channel_id: i32,
}

/// A server to insert or update.
#[derive(Debug)]
pub struct NewServer {
    pub ip: IpNetwork,
    pub port: i32,
    pub domain: Option<String>,
    pub last_connection_result: ConnectionResult,
    pub last_used_nick: Option<String>,
    pub description: String,
    pub protocol: i32,
    pub version_name: String,
    pub brand: Option<String>,
    pub time: Timestamp,
    pub online_players: i32,
    pub max_players: i32,
    pub enforces_secure_chat: bool,
    pub no_chat_reports: bool,
    pub is_whitelist: Option<bool>,
    pub is_online_mode: Option<bool>,
    pub offline_auth: Option<bool>,
    pub code_of_conduct: Option<String>,
}

/// World data to insert or update.
#[derive(Debug, PartialEq, Eq)]
pub struct NewWorldData {
    pub hashed_seed: Option<i64>,
    pub gamemode: Option<GameMode>,
    pub difficulty: Option<Difficulty>,
    pub dimension: Option<String>,
    pub view_distance: Option<i16>,
    pub simulation_distance: Option<i16>,
    pub is_hardcore: Option<bool>,
    pub reduced_debug_info: Option<bool>,
    pub do_limited_crafting: Option<bool>,
    pub is_flat: Option<bool>,
}

/// A player seen in a scan.
#[derive(Debug, PartialEq, Eq)]
pub struct NewPlayerSession {
    pub uuid: Uuid,
    pub name: String,
    pub is_online_mode: bool,
    pub game_mode: Option<GameMode>,
    pub ping: Option<i32>,
}

/// The players seen in a scan, and when.
#[derive(Debug)]
pub struct NewPlayersBatch {
    pub time: Timestamp,
    pub players: Vec<NewPlayerSession>,
}

/// The columns a batch of players is written as: ids, names, online
/// modes, game modes and pings, each in the batch's order.
pub struct PlayerColumns {
    pub uuids: Vec<Uuid>,
    pub names: Vec<String>,
    pub is_online_modes: Vec<bool>,
    pub gamemodes: Vec<Option<GameMode>>,
    pub pings: Vec<Option<i32>>,
}

impl NewPlayersBatch {
    /// Splits the batch into its columns.
    pub fn columns(self) -> (r: PlayerColumns)
        ensures
            r.uuids@.len() == self.players@.len(),
            r.names@.len() == self.players@.len(),
            r.is_online_modes@.len() == self.players@.len(),
            r.gamemodes@.len() == self.players@.len(),
            r.pings@.len() == self.players@.len(),
            forall|i: int|
                0 <= i < self.players@.len() ==> {
                    &&& r.uuids@[i] == (#[trigger] self.players@[i]).uuid
                    &&& r.names@[i] == self.players@[i].name
                    &&& r.is_online_modes@[i] == self.players@[i].is_online_mode
                    &&& r.gamemodes@[i] == self.players@[i].game_mode
                    &&& r.pings@[i] == self.players@[i].ping
                },
    {
        let ghost ps = self.players@;
        let mut r = PlayerColumns {
            uuids: Vec::new(),
            names: Vec::new(),
            is_online_modes: Vec::new(),
            gamemodes: Vec::new(),
            pings: Vec::new(),
        };
        let mut i: usize = 0;
        while i < self.players.len()
            invariant
                i <= ps.len(),
                self.players@ == ps,
                r.uuids@.len() == i,
                r.names@.len() == i,
                r.is_online_modes@.len() == i,
                r.gamemodes@.len() == i,
                r.pings@.len() == i,
                forall|j: int|
                    0 <= j < i ==> {
                        &&& r.uuids@[j] == (#[trigger] ps[j]).uuid
                        &&& r.names@[j] == ps[j].name
                        &&& r.is_online_modes@[j] == ps[j].is_online_mode
                        &&& r.gamemodes@[j] == ps[j].game_mode
                        &&& r.pings@[j] == ps[j].ping
                    },
            decreases ps.len() - i,
        {
            let p = &self.players[i];
            r.uuids.push(p.uuid);
            r.names.push(p.name.clone());
            r.is_online_modes.push(p.is_online_mode);
            r.gamemodes.push(p.game_mode);
            r.pings.push(p.ping);
            i = i + 1;
        }
        r
    }
}

/// A server's commands, to replace those stored.
#[derive(Debug, PartialEq, Eq)]
pub struct NewServerCommands {
    pub commands: Vec<String>,
}

/// A server's feature flags, to replace those stored.
#[derive(Debug, PartialEq, Eq)]
pub struct NewServerFeatures {
    pub features: Vec<String>,
}

/// A server's plugin channels, to replace those stored.
#[derive(Debug, PartialEq, Eq)]
pub struct NewServerChannels {
    pub channels: Vec<String>,
}

/// A server's mods by name, to replace those stored.
#[derive(Debug, PartialEq, Eq)]
pub struct NewServerMods {
    pub mods_names: Vec<String>,
}

/// A server's links, to replace those stored.
#[derive(Debug, PartialEq, Eq)]
pub struct NewServerLinks {
    pub links: Vec<String>,
}

/// A server's resource pack, to insert or update.
#[derive(Debug, PartialEq, Eq)]
pub struct NewResourcePack {
    pub url: String,
    pub hash: Option<String>,
    pub forced: bool,
}

} // verus!
