//! Message types of the `scanner` protocol, as far as the library reads
//! them. Enumerations travel as `i32`; their zero is the unknown value.

use vstd::prelude::*;

verus! {

/// How far a worker goes when it connects to a server.
#[derive(Clone, Copy, Debug, PartialEq, Eq, Structural)]
pub enum ScanMethod {
    OnlyHandshake,
    LoginIfNoMsg,
    JoinIfEmpty,
    Join,
}

impl ScanMethod {
    /// The number that stands for the method on the wire.
    pub open spec fn spec_to_i32(self) -> i32 {
        match self {
            ScanMethod::OnlyHandshake => 0,
            ScanMethod::LoginIfNoMsg => 1,
            ScanMethod::JoinIfEmpty => 2,
            ScanMethod::Join => 3,
        }
    }

    pub fn to_i32(self) -> (r: i32)
        ensures
            r == self.spec_to_i32(),
    {
        match self {
            ScanMethod::OnlyHandshake => 0,
            ScanMethod::LoginIfNoMsg => 1,
            ScanMethod::JoinIfEmpty => 2,
            ScanMethod::Join => 3,
        }
    }

    /// The method a wire number stands for, if any.
    pub fn try_from_i32(v: i32) -> (r: Option<ScanMethod>)
        ensures
            (0 <= v <= 3) <==> r is Some,
            r matches Some(m) ==> m.spec_to_i32() == v,
    {
        if v == 0 {
            Some(ScanMethod::OnlyHandshake)
        } else if v == 1 {
            Some(ScanMethod::LoginIfNoMsg)
        } else if v == 2 {
            Some(ScanMethod::JoinIfEmpty)
        } else if v == 3 {
            Some(ScanMethod::Join)
        } else {
            None
        }
    }
}


/// A wire enumeration whose number names none of its values.
#[derive(Clone, Copy, Debug, PartialEq, Eq, Structural)]
pub struct UnknownEnumValue(pub i32);

/// The family of an address on the wire.
#[derive(Clone, Copy, Debug, PartialEq, Eq, Structural)]
pub enum IpVersion {
    V4,
    V6,
}

impl IpVersion {
    /// The number that stands for the family on the wire.
    pub open spec fn spec_to_i32(self) -> i32 {
        match self {
            IpVersion::V4 => 0,
            IpVersion::V6 => 1,
        }
    }

    pub fn to_i32(self) -> (r: i32)
        ensures
            r == self.spec_to_i32(),
    {
        match self {
            IpVersion::V4 => 0,
            IpVersion::V6 => 1,
        }
    }

    /// The family a wire number stands for.
    pub fn try_from_i32(v: i32) -> (r: Result<IpVersion, UnknownEnumValue>)
        ensures
            (0 <= v <= 1) <==> r is Ok,
            r matches Ok(m) ==> m.spec_to_i32() == v,
            r matches Err(e) ==> e.0 == v,
    {
        if v == 0 {
            Ok(IpVersion::V4)
        } else if v == 1 {
            Ok(IpVersion::V6)
        } else {
            Err(UnknownEnumValue(v))
        }
    }
}

/// A game mode on the wire.
#[derive(Clone, Copy, Debug, PartialEq, Eq, Structural)]
pub enum GameMode {
    UnknownGameMode,
    Survival,
    Creative,
    Adventure,
    Spectator,
}

impl GameMode {
    /// The number that stands for the game mode on the wire.
    pub open spec fn spec_to_i32(self) -> i32 {
        match self {
            GameMode::UnknownGameMode => 0,
            GameMode::Survival => 1,
            GameMode::Creative => 2,
            GameMode::Adventure => 3,
            GameMode::Spectator => 4,
        }
    }

    pub fn to_i32(self) -> (r: i32)
        ensures
            r == self.spec_to_i32(),
    {
        match self {
            GameMode::UnknownGameMode => 0,
            GameMode::Survival => 1,
            GameMode::Creative => 2,
            GameMode::Adventure => 3,
            GameMode::Spectator => 4,
        }
    }

    /// The game mode a wire number stands for.
    pub fn try_from_i32(v: i32) -> (r: Result<GameMode, UnknownEnumValue>)
        ensures
            (0 <= v <= 4) <==> r is Ok,
            r matches Ok(m) ==> m.spec_to_i32() == v,
            r matches Err(e) ==> e.0 == v,
    {
        if v == 0 {
            Ok(GameMode::UnknownGameMode)
        } else if v == 1 {
            Ok(GameMode::Survival)
        } else if v == 2 {
            Ok(GameMode::Creative)
        } else if v == 3 {
            Ok(GameMode::Adventure)
        } else if v == 4 {
            Ok(GameMode::Spectator)
        } else {
            Err(UnknownEnumValue(v))
        }
    }
}

/// A difficulty on the wire.
#[derive(Clone, Copy, Debug, PartialEq, Eq, Structural)]
pub enum Difficulty {
    UnknownDifficulty,
    Peaceful,
    Easy,
    Normal,
    Hard,
}

impl Difficulty {
    /// The number that stands for the difficulty on the wire.
    pub open spec fn spec_to_i32(self) -> i32 {
        match self {
            Difficulty::UnknownDifficulty => 0,
            Difficulty::Peaceful => 1,
            Difficulty::Easy => 2,
            Difficulty::Normal => 3,
            Difficulty::Hard => 4,
        }
    }

    pub fn to_i32(self) -> (r: i32)
        ensures
            r == self.spec_to_i32(),
    {
        match self {
            Difficulty::UnknownDifficulty => 0,
            Difficulty::Peaceful => 1,
            Difficulty::Easy => 2,
            Difficulty::Normal => 3,
            Difficulty::Hard => 4,
        }
    }

    /// The difficulty a wire number stands for.
    pub fn try_from_i32(v: i32) -> (r: Result<Difficulty, UnknownEnumValue>)
        ensures
            (0 <= v <= 4) <==> r is Ok,
            r matches Ok(m) ==> m.spec_to_i32() == v,
            r matches Err(e) ==> e.0 == v,
    {
        if v == 0 {
            Ok(Difficulty::UnknownDifficulty)
        } else if v == 1 {
            Ok(Difficulty::Peaceful)
        } else if v == 2 {
            Ok(Difficulty::Easy)
        } else if v == 3 {
            Ok(Difficulty::Normal)
        } else if v == 4 {
            Ok(Difficulty::Hard)
        } else {
            Err(UnknownEnumValue(v))
        }
    }
}

/// How a scan of a server ended, on the wire.
#[derive(Clone, Copy, Debug, PartialEq, Eq, Structural)]
pub enum ConnectionResult {
    UnknownConnectionResult,
    LoginDisconnect,
    ConfigurationDisconnect,
    PlayDisconnect,
    Successful,
}

impl ConnectionResult {
    /// The number that stands for the result on the wire.
    pub open spec fn spec_to_i32(self) -> i32 {
        match self {
            ConnectionResult::UnknownConnectionResult => 0,
            ConnectionResult::LoginDisconnect => 1,
            ConnectionResult::ConfigurationDisconnect => 2,
            ConnectionResult::PlayDisconnect => 3,
            ConnectionResult::Successful => 4,
        }
    }

    pub fn to_i32(self) -> (r: i32)
        ensures
            r == self.spec_to_i32(),
    {
        match self {
            ConnectionResult::UnknownConnectionResult => 0,
            ConnectionResult::LoginDisconnect => 1,
            ConnectionResult::ConfigurationDisconnect => 2,
            ConnectionResult::PlayDisconnect => 3,
            ConnectionResult::Successful => 4,
        }
    }

    /// The result a wire number stands for.
    pub fn try_from_i32(v: i32) -> (r: Result<ConnectionResult, UnknownEnumValue>)
        ensures
            (0 <= v <= 4) <==> r is Ok,
            r matches Ok(m) ==> m.spec_to_i32() == v,
            r matches Err(e) ==> e.0 == v,
    {
        if v == 0 {
            Ok(ConnectionResult::UnknownConnectionResult)
        } else if v == 1 {
            Ok(ConnectionResult::LoginDisconnect)
        } else if v == 2 {
            Ok(ConnectionResult::ConfigurationDisconnect)
        } else if v == 3 {
            Ok(ConnectionResult::PlayDisconnect)
        } else if v == 4 {
            Ok(ConnectionResult::Successful)
        } else {
            Err(UnknownEnumValue(v))
        }
    }
}

/// An address on the wire: its family and its bytes in network order.
#[derive(Clone, Debug, PartialEq)]
pub struct IpAddr {
    pub ip_version: i32,
    pub address: Vec<u8>,
}

/// A network on the wire.
#[derive(Clone, Debug, PartialEq)]
pub struct IpPrefix {
    pub ip_addr: Option<IpAddr>,
    pub prefix_length: u32,
}

/// A range of ports on the wire.
#[derive(Clone, Copy, Debug, PartialEq, Eq, Structural)]
pub struct PortRange {
    pub min: u32,
    pub max: u32,
}

/// A discovery job on the wire.
#[derive(Clone, Debug, PartialEq)]
pub struct DiscoverRequest {
    pub targets: Vec<IpPrefix>,
    pub excludes: Vec<IpPrefix>,
    pub ports: Vec<u32>,
    pub port_ranges: Vec<PortRange>,
    pub rate: u32,
    pub method: i32,
}

/// A player seen on a server, on the wire.
#[derive(Clone, Debug, PartialEq)]
pub struct PlayerRecord {
    pub name: String,
    pub uuid: Vec<u8>,
    pub is_online: bool,
    pub gamemode: Option<i32>,
    pub ping: Option<i32>,
}

/// A mod, on the wire.
#[derive(Clone, Debug, PartialEq)]
pub struct McMod {
    pub mod_id: String,
    pub version: String,
}

/// A resource pack, on the wire.
#[derive(Clone, Debug, PartialEq)]
pub struct ResourcePack {
    pub url: String,
    pub hash: Option<String>,
    pub forced: bool,
}

/// What a worker learnt of a server, on the wire.
#[derive(Clone, Debug, PartialEq)]
pub struct McServerData {
    pub ip: Option<IpAddr>,
    pub port: u32,
    /// The name the server was dialed by, when it was.
    pub domain: Option<String>,
    pub connection_result: i32,
    pub description: String,
    pub protocol: i32,
    pub version_name: String,
    pub online_players: i32,
    pub max_players: i32,
    pub players: Vec<PlayerRecord>,
    pub enforces_secure_chat: bool,
    pub no_chat_reports: bool,
    pub mods: Vec<McMod>,
    pub channels: Vec<String>,
    pub brand: Option<String>,
    pub links: Vec<String>,
    pub code_of_conduct: Option<String>,
    pub features: Vec<String>,
    pub resource_pack: Option<ResourcePack>,
    pub commands: Vec<String>,
    pub hashed_seed: Option<i64>,
    pub gamemode: Option<i32>,
    pub difficulty: Option<i32>,
    pub dimension: Option<String>,
    pub view_distance: Option<u32>,
    pub simulation_distance: Option<u32>,
    pub is_hardcore: Option<bool>,
    pub reduced_debug_info: Option<bool>,
    pub do_limited_crafting: Option<bool>,
    pub is_flat: Option<bool>,
    pub is_whitelist: Option<bool>,
    pub is_online_mode: Option<bool>,
    pub offline_auth: Option<bool>,
    /// The nick the worker joined with.
    pub player_name: Option<String>,
}

} // verus!
