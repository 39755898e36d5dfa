//! What the API tells of a scanned server, and how it is read from a
//! worker's message.

use crate::data_core::proto::scanner;
use crate::data_core::proto::{ip_addr_try_from, ip_from_wire};
use crate::ids::{uuid_from_bytes, Uuid};
use crate::net::{be_value, IpAddr};
use vstd::prelude::*;

verus! {

/// Why a worker's message about a server was refused.
#[derive(Clone, Copy, Debug, PartialEq, Eq)]
pub enum ParseServerDataError {
    /// A field that must be there is missing.
    NoField(&'static str),
    /// An enumeration holds a number it does not know.
    UnknownEnumVariant { enum_name: &'static str, value: i32 },
    /// A field does not hold a value of its type.
    CantParse(&'static str),
}

/// How far the scan of a server went.
#[derive(Clone, Copy, Debug, PartialEq, Eq, Structural)]
pub enum ConnectionResult {
    LoginDisconnect,
    ConfigurationDisconnect,
    PlayDisconnect,
    Successful,
}

/// A game mode.
#[derive(Clone, Copy, Debug, PartialEq, Eq, Structural)]
pub enum GameMode {
    Survival,
    Creative,
    Adventure,
    Spectator,
}

/// A difficulty.
#[derive(Clone, Copy, Debug, PartialEq, Eq, Structural)]
pub enum Difficulty {
    Peaceful,
    Easy,
    Normal,
    Hard,
}

/// A player seen on a server.
#[derive(Clone, Debug, PartialEq, Eq)]
pub struct PlayerRecord {
    pub name: String,
    pub uuid: Uuid,
    pub is_online: bool,
    pub gamemode: Option<GameMode>,
    pub ping: Option<i32>,
}

/// A mod of a server.
#[derive(Clone, Debug, PartialEq, Eq)]
pub struct McMod {
    pub mod_id: String,
    pub version: String,
}

/// A server's resource pack.
#[derive(Clone, Debug, PartialEq, Eq)]
pub struct ResourcePack {
    pub url: String,
    pub hash: Option<String>,
    pub forced: bool,
}

/// What the play state told of the world.
#[derive(Clone, Debug, PartialEq, Eq)]
pub struct WorldData {
    pub hashed_seed: Option<i64>,
    pub gamemode: Option<GameMode>,
    pub difficulty: Option<Difficulty>,
    pub dimension: Option<String>,
    pub view_distance: Option<u32>,
    pub simulation_distance: Option<u32>,
    pub is_hardcore: Option<bool>,
    pub reduced_debug_info: Option<bool>,
    pub do_limited_crafting: Option<bool>,
    pub is_flat: Option<bool>,
}

/// What a scan learnt of a server.
#[derive(Clone, Debug, PartialEq, Eq)]
pub struct McServerData {
    pub ip: IpAddr,
    pub port: u16,
    pub connection_result: ConnectionResult,
    pub description: String,
    pub protocol: i32,
    pub version_name: String,
    pub online_players: i32,
    pub max_players: i32,
    pub players: Vec<PlayerRecord>,
    pub enforces_secure_chat: bool,
    pub no_chat_reports: bool,
    pub mods: Vec<McMod>,
    pub channels: Vec<String>,
    pub brand: Option<String>,
    pub links: Vec<String>,
    pub code_of_conduct: Option<String>,
    pub features: Vec<String>,
    pub resource_pack: Option<ResourcePack>,
    pub commands: Vec<String>,
    pub world_data: WorldData,
    pub is_whitelist: Option<bool>,
    pub is_online_mode: Option<bool>,
    pub offline_auth: Option<bool>,
}

/// The game mode a wire number names: none for the unknown value.
pub open spec fn gamemode_num(v: i32) -> Option<GameMode> {
    if v == 1 {
        Some(GameMode::Survival)
    } else if v == 2 {
        Some(GameMode::Creative)
    } else if v == 3 {
        Some(GameMode::Adventure)
    } else if v == 4 {
        Some(GameMode::Spectator)
    } else {
        None
    }
}

/// The difficulty a wire number names: none for the unknown value.
pub open spec fn difficulty_num(v: i32) -> Option<Difficulty> {
    if v == 1 {
        Some(Difficulty::Peaceful)
    } else if v == 2 {
        Some(Difficulty::Easy)
    } else if v == 3 {
        Some(Difficulty::Normal)
    } else if v == 4 {
        Some(Difficulty::Hard)
    } else {
        None
    }
}

/// What an optional game mode on the wire reads as.
pub open spec fn gamemode_result(g: Option<i32>) -> Result<Option<GameMode>, ParseServerDataError> {
    match g {
        None => Ok(None),
        Some(v) => if 0 <= v <= 4 {
            Ok(gamemode_num(v))
        } else {
            Err(ParseServerDataError::UnknownEnumVariant { enum_name: "GameMode", value: v })
        },
    }
}

/// What an optional difficulty on the wire reads as.
pub open spec fn difficulty_result(d: Option<i32>) -> Result<Option<Difficulty>, ParseServerDataError> {
    match d {
        None => Ok(None),
        Some(v) => if 0 <= v <= 4 {
            Ok(difficulty_num(v))
        } else {
            Err(ParseServerDataError::UnknownEnumVariant { enum_name: "Difficulty", value: v })
        },
    }
}

/// What a scan result on the wire reads as: the unknown value counts as
/// missing.
pub open spec fn conn_result_result(c: i32) -> Result<ConnectionResult, ParseServerDataError> {
    if c == 1 {
        Ok(ConnectionResult::LoginDisconnect)
    } else if c == 2 {
        Ok(ConnectionResult::ConfigurationDisconnect)
    } else if c == 3 {
        Ok(ConnectionResult::PlayDisconnect)
    } else if c == 4 {
        Ok(ConnectionResult::Successful)
    } else if c == 0 {
        Err(ParseServerDataError::NoField("ConnectionResult"))
    } else {
        Err(ParseServerDataError::UnknownEnumVariant { enum_name: "ConnectionResult", value: c })
    }
}

/// The API difficulty named like a wire difficulty: none for the unknown
/// one.
pub open spec fn difficulty_named(x: scanner::Difficulty) -> Option<Difficulty> {
    match x {
        scanner::Difficulty::UnknownDifficulty => None,
        scanner::Difficulty::Peaceful => Some(Difficulty::Peaceful),
        scanner::Difficulty::Easy => Some(Difficulty::Easy),
        scanner::Difficulty::Normal => Some(Difficulty::Normal),
        scanner::Difficulty::Hard => Some(Difficulty::Hard),
    }
}

/// The API game mode named like a wire game mode: none for the unknown one.
pub open spec fn gamemode_named(x: scanner::GameMode) -> Option<GameMode> {
    match x {
        scanner::GameMode::UnknownGameMode => None,
        scanner::GameMode::Survival => Some(GameMode::Survival),
        scanner::GameMode::Creative => Some(GameMode::Creative),
        scanner::GameMode::Adventure => Some(GameMode::Adventure),
        scanner::GameMode::Spectator => Some(GameMode::Spectator),
    }
}

/// Each number the wire gives a difficulty reads as the API difficulty of
/// the same name (the unknown one as none); every other number is refused.
pub proof fn lemma_difficulty_read_by_name(x: scanner::Difficulty, v: i32)
    ensures
        difficulty_result(Some(x.spec_to_i32())) == Ok::<
            Option<Difficulty>,
            ParseServerDataError,
        >(difficulty_named(x)),
        difficulty_result(None) == Ok::<Option<Difficulty>, ParseServerDataError>(None),
        !(0 <= v <= 4) ==> difficulty_result(Some(v)) is Err,
{
}

/// Each number the wire gives a game mode reads as the API game mode of the
/// same name (the unknown one as none); every other number is refused.
pub proof fn lemma_gamemode_read_by_name(x: scanner::GameMode, v: i32)
    ensures
        gamemode_result(Some(x.spec_to_i32())) == Ok::<Option<GameMode>, ParseServerDataError>(
            gamemode_named(x),
        ),
        gamemode_result(None) == Ok::<Option<GameMode>, ParseServerDataError>(None),
        !(0 <= v <= 4) ==> gamemode_result(Some(v)) is Err,
{
}

/// Each way a scan ends on the wire reads as the API's of the same name;
/// the unknown one counts as missing.
pub proof fn lemma_conn_result_read_by_name(x: scanner::ConnectionResult)
    ensures
        conn_result_result(x.spec_to_i32()) == match x {
            scanner::ConnectionResult::UnknownConnectionResult => Err::<
                ConnectionResult,
                ParseServerDataError,
            >(ParseServerDataError::NoField("ConnectionResult")),
            scanner::ConnectionResult::LoginDisconnect => Ok(ConnectionResult::LoginDisconnect),
            scanner::ConnectionResult::ConfigurationDisconnect => Ok(
                ConnectionResult::ConfigurationDisconnect,
            ),
            scanner::ConnectionResult::PlayDisconnect => Ok(ConnectionResult::PlayDisconnect),
            scanner::ConnectionResult::Successful => Ok(ConnectionResult::Successful),
        },
{
}

/// A server's world, read off the wire, keeps the game mode and difficulty
/// the wire names, by name.
pub proof fn lemma_world_read_by_name(
    v: scanner::McServerData,
    d: McServerData,
    g: scanner::GameMode,
    x: scanner::Difficulty,
)
    requires
        server_data_read(v, d),
    ensures
        v.gamemode == Some(g.spec_to_i32()) ==> d.world_data.gamemode == gamemode_named(g),
        v.difficulty == Some(x.spec_to_i32()) ==> d.world_data.difficulty == difficulty_named(x),
{
}

/// Reads an optional game mode off the wire: none stays none, the unknown
/// value reads as none, and a number the wire does not know is refused.
pub fn parse_gamemode(gm: Option<i32>) -> (r: Result<Option<GameMode>, ParseServerDataError>)
    ensures
        r == gamemode_result(gm),
{
    match gm {
        None => Ok(None),
        Some(g) => match scanner::GameMode::try_from_i32(g) {
            Err(e) => Err(ParseServerDataError::UnknownEnumVariant { enum_name: "GameMode", value: e.0 }),
            Ok(v) => Ok(match v {
                scanner::GameMode::Survival => Some(GameMode::Survival),
                scanner::GameMode::Creative => Some(GameMode::Creative),
                scanner::GameMode::Adventure => Some(GameMode::Adventure),
                scanner::GameMode::Spectator => Some(GameMode::Spectator),
                scanner::GameMode::UnknownGameMode => None,
            }),
        },
    }
}

/// Reads an optional difficulty off the wire: none stays none, the unknown
/// value reads as none, and a number the wire does not know is refused.
pub fn parse_difficulty(dif: Option<i32>) -> (r: Result<Option<Difficulty>, ParseServerDataError>)
    ensures
        r == difficulty_result(dif),
{
    match dif {
        None => Ok(None),
        Some(d) => match scanner::Difficulty::try_from_i32(d) {
            Err(e) => Err(ParseServerDataError::UnknownEnumVariant { enum_name: "Difficulty", value: e.0 }),
            Ok(v) => Ok(match v {
                scanner::Difficulty::Peaceful => Some(Difficulty::Peaceful),
                scanner::Difficulty::Easy => Some(Difficulty::Easy),
                scanner::Difficulty::Normal => Some(Difficulty::Normal),
                scanner::Difficulty::Hard => Some(Difficulty::Hard),
                scanner::Difficulty::UnknownDifficulty => None,
            }),
        },
    }
}

/// Reads how a scan ended off the wire: the unknown value counts as a
/// missing field, and a number the wire does not know is refused.
pub fn parse_conn_result(conn_result: i32) -> (r: Result<ConnectionResult, ParseServerDataError>)
    ensures
        r == conn_result_result(conn_result),
{
    match scanner::ConnectionResult::try_from_i32(conn_result) {
        Err(e) => Err(
            ParseServerDataError::UnknownEnumVariant { enum_name: "ConnectionResult", value: e.0 },
        ),
        Ok(v) => match v {
            scanner::ConnectionResult::LoginDisconnect => Ok(ConnectionResult::LoginDisconnect),
            scanner::ConnectionResult::ConfigurationDisconnect => Ok(
                ConnectionResult::ConfigurationDisconnect,
            ),
            scanner::ConnectionResult::PlayDisconnect => Ok(ConnectionResult::PlayDisconnect),
            scanner::ConnectionResult::Successful => Ok(ConnectionResult::Successful),
            scanner::ConnectionResult::UnknownConnectionResult => Err(
                ParseServerDataError::NoField("ConnectionResult"),
            ),
        },
    }
}

/// Why a player on the wire is refused, if it is: its id is not sixteen
/// bytes, or its game mode is unknown.
pub open spec fn player_error(p: scanner::PlayerRecord) -> Option<ParseServerDataError> {
    if p.uuid@.len() != 16 {
        Some(ParseServerDataError::CantParse("uuid"))
    } else {
        match gamemode_result(p.gamemode) {
            Err(e) => Some(e),
            Ok(_) => None,
        }
    }
}

/// Why the first refused player of a list is refused, if one is.
pub open spec fn players_error(ps: Seq<scanner::PlayerRecord>) -> Option<ParseServerDataError>
    decreases ps.len(),
{
    if ps.len() == 0 {
        None
    } else if player_error(ps[0]) is Some {
        player_error(ps[0])
    } else {
        players_error(ps.drop_first())
    }
}

/// A player read off the wire.
pub open spec fn player_read(p: scanner::PlayerRecord, r: PlayerRecord) -> bool {
    &&& r.name == p.name
    &&& r.uuid.0 == be_value(p.uuid@)
    &&& r.is_online == p.is_online
    &&& r.gamemode == gamemode_result(p.gamemode)->Ok_0
    &&& r.ping == p.ping
}

/// Why a worker's message about a server is refused, if it is: the first
/// refused player, the world's game mode, its difficulty, the address
/// (missing, or not an address), then how the scan ended.
pub open spec fn server_data_error(v: scanner::McServerData) -> Option<ParseServerDataError> {
    if players_error(v.players@) is Some {
        players_error(v.players@)
    } else if gamemode_result(v.gamemode) is Err {
        Some(gamemode_result(v.gamemode)->Err_0)
    } else if difficulty_result(v.difficulty) is Err {
        Some(difficulty_result(v.difficulty)->Err_0)
    } else if v.ip is None {
        Some(ParseServerDataError::NoField("ip"))
    } else if ip_from_wire(v.ip->0) is Err {
        Some(ParseServerDataError::CantParse("ip"))
    } else if conn_result_result(v.connection_result) is Err {
        Some(conn_result_result(v.connection_result)->Err_0)
    } else {
        None
    }
}

/// A server's data read off the wire, when nothing in it is refused.
pub open spec fn server_data_read(v: scanner::McServerData, d: McServerData) -> bool {
    &&& d.ip == ip_from_wire(v.ip->0)->Ok_0
    &&& d.port == v.port as u16
    &&& d.connection_result == conn_result_result(v.connection_result)->Ok_0
    &&& d.description == v.description
    &&& d.protocol == v.protocol
    &&& d.version_name == v.version_name
    &&& d.online_players == v.online_players
    &&& d.max_players == v.max_players
    &&& d.players@.len() == v.players@.len()
    &&& forall|i: int| 0 <= i < v.players@.len() ==> player_read(v.players@[i], #[trigger] d.players@[i])
    &&& d.enforces_secure_chat == v.enforces_secure_chat
    &&& d.no_chat_reports == v.no_chat_reports
    &&& d.mods@.len() == v.mods@.len()
    &&& forall|i: int|
        0 <= i < v.mods@.len() ==> (#[trigger] d.mods@[i]).mod_id == v.mods@[i].mod_id
            && d.mods@[i].version == v.mods@[i].version
    &&& d.channels == v.channels
    &&& d.brand == v.brand
    &&& d.links == v.links
    &&& d.code_of_conduct == v.code_of_conduct
    &&& d.features == v.features
    &&& d.resource_pack == match v.resource_pack {
        None => None,
        Some(rp) => Some(ResourcePack { url: rp.url, hash: rp.hash, forced: rp.forced }),
    }
    &&& d.commands == v.commands
    &&& d.world_data == (WorldData {
        hashed_seed: v.hashed_seed,
        gamemode: gamemode_result(v.gamemode)->Ok_0,
        difficulty: difficulty_result(v.difficulty)->Ok_0,
        dimension: v.dimension,
        view_distance: v.view_distance,
        simulation_distance: v.simulation_distance,
        is_hardcore: v.is_hardcore,
        reduced_debug_info: v.reduced_debug_info,
        do_limited_crafting: v.do_limited_crafting,
        is_flat: v.is_flat,
    })
    &&& d.is_whitelist == v.is_whitelist
    &&& d.is_online_mode == v.is_online_mode
    &&& d.offline_auth == v.offline_auth
}

/// Reads the players of a message, or the first refusal.
fn read_players(ps: &Vec<scanner::PlayerRecord>) -> (r: Result<Vec<PlayerRecord>, ParseServerDataError>)
    ensures
        match players_error(ps@) {
            Some(e) => r == Err::<Vec<PlayerRecord>, ParseServerDataError>(e),
            None => r matches Ok(out) && out@.len() == ps@.len() && forall|i: int|
                0 <= i < ps@.len() ==> player_read(ps@[i], #[trigger] out@[i]),
        },
{
    let mut out: Vec<PlayerRecord> = Vec::new();
    let mut i: usize = 0;
    assert(ps@.skip(0) =~= ps@);
    while i < ps.len()
        invariant
            i <= ps@.len(),
            out@.len() == i,
            forall|j: int| 0 <= j < i ==> player_read(ps@[j], #[trigger] out@[j]),
            players_error(ps@) == players_error(ps@.skip(i as int)),
        decreases ps@.len() - i,
    {
        let p = &ps[i];
        proof {
            assert(ps@.skip(i as int)[0] == ps@[i as int]);
            assert(ps@.skip(i as int).drop_first() =~= ps@.skip(i + 1));
        }
        let uuid = match uuid_from_bytes(p.uuid.clone()) {
            Some(u) => u,
            None => {
                return Err(ParseServerDataError::CantParse("uuid"));
            },
        };
        let gamemode = match parse_gamemode(p.gamemode) {
            Ok(g) => g,
            Err(e) => {
                return Err(e);
            },
        };
        out.push(
            PlayerRecord {
                name: p.name.clone(),
                uuid,
                is_online: p.is_online,
                gamemode,
                ping: p.ping,
            },
        );
        i = i + 1;
    }
    proof {
        assert(ps@.skip(ps@.len() as int) =~= Seq::<scanner::PlayerRecord>::empty());
    }
    Ok(out)
}

/// Reads the mods of a message.
fn read_mods(ms: &Vec<scanner::McMod>) -> (r: Vec<McMod>)
    ensures
        r@.len() == ms@.len(),
        forall|i: int|
            0 <= i < ms@.len() ==> (#[trigger] r@[i]).mod_id == ms@[i].mod_id && r@[i].version
                == ms@[i].version,
{
    let mut out: Vec<McMod> = Vec::new();
    let mut i: usize = 0;
    while i < ms.len()
        invariant
            i <= ms@.len(),
            out@.len() == i,
            forall|j: int|
                0 <= j < i ==> (#[trigger] out@[j]).mod_id == ms@[j].mod_id && out@[j].version
                    == ms@[j].version,
        decreases ms@.len() - i,
    {
        out.push(McMod { mod_id: ms[i].mod_id.clone(), version: ms[i].version.clone() });
        i = i + 1;
    }
    out
}

impl McServerData {
    /// Reads what a worker learnt of a server. Refused, with the first
    /// reason in this order: a player whose id is not sixteen bytes or whose
    /// game mode is unknown, the world's game mode, its difficulty, a
    /// missing or invalid address, how the scan ended. The port keeps its
    /// low sixteen bits.
    pub fn try_from(value: scanner::McServerData) -> (r: Result<McServerData, ParseServerDataError>)
        ensures
            match server_data_error(value) {
                Some(e) => r == Err::<McServerData, ParseServerDataError>(e),
                None => r matches Ok(d) && server_data_read(value, d),
            },
    {
        let ghost v = value;
        let players = match read_players(&value.players) {
            Ok(p) => p,
            Err(e) => {
                return Err(e);
            },
        };
        let mods = read_mods(&value.mods);
        let scanner::McServerData {
            ip,
            port,
            domain: _,
            connection_result,
            description,
            protocol,
            version_name,
            online_players,
            max_players,
            players: _,
            enforces_secure_chat,
            no_chat_reports,
            mods: _,
            channels,
            brand,
            links,
            code_of_conduct,
            features,
            resource_pack,
            commands,
            hashed_seed,
            gamemode,
            difficulty,
            dimension,
            view_distance,
            simulation_distance,
            is_hardcore,
            reduced_debug_info,
            do_limited_crafting,
            is_flat,
            is_whitelist,
            is_online_mode,
            offline_auth,
            player_name: _,
        } = value;
        let resource_pack = match resource_pack {
            None => None,
            Some(rp) => Some(ResourcePack { url: rp.url, hash: rp.hash, forced: rp.forced }),
        };
        let world_gamemode = match parse_gamemode(gamemode) {
            Ok(g) => g,
            Err(e) => {
                return Err(e);
            },
        };
        let world_difficulty = match parse_difficulty(difficulty) {
            Ok(d) => d,
            Err(e) => {
                return Err(e);
            },
        };
        let world_data = WorldData {
            hashed_seed,
            gamemode: world_gamemode,
            difficulty: world_difficulty,
            dimension,
            view_distance,
            simulation_distance,
            is_hardcore,
            reduced_debug_info,
            do_limited_crafting,
            is_flat,
        };
        let ip = match ip {
            None => {
                return Err(ParseServerDataError::NoField("ip"));
            },
            Some(w) => match ip_addr_try_from(w) {
                Ok(a) => a,
                Err(_) => {
                    return Err(ParseServerDataError::CantParse("ip"));
                },
            },
        };
        let connection_result = match parse_conn_result(connection_result) {
            Ok(c) => c,
            Err(e) => {
                return Err(e);
            },
        };
        Ok(
            McServerData {
                ip,
                port: port as u16,
                connection_result,
                description,
                protocol,
                version_name,
                online_players,
                max_players,
                players,
                enforces_secure_chat,
                no_chat_reports,
                mods,
                channels,
                brand,
                links,
                code_of_conduct,
                features,
                resource_pack,
                commands,
                world_data,
                is_whitelist,
                is_online_mode,
                offline_auth,
            },
        )
    }
}

} // verus!
