//! A worker's result, made into the rows that store it.

use crate::data_core::proto::scanner as pb;
use crate::data_core::proto::{ip_addr_try_from, ip_from_wire};
use crate::data_core::sql::data::{
    ConnectionResult, Difficulty, GameMode, NewPlayerSession, NewPlayersBatch, NewResourcePack,
    NewServer, NewServerChannels, NewServerCommands, NewServerFeatures, NewServerLinks,
    NewServerMods, NewWorldData,
};
use crate::ids::uuid_from_bytes;
use crate::net::{be_value, IpNetwork};
use crate::time::{utc_now, Timestamp};
use vstd::prelude::*;

verus! {

/// Why a worker's result cannot be stored.
#[derive(Clone, Copy, Debug, PartialEq, Eq)]
pub enum SqlParsePbDataError {
    NoField(&'static str),
    UnknownEnumVariant { enum_name: &'static str, value: i32 },
    CantParse(&'static str),
}

/// The rows a worker's result is stored as.
#[derive(Debug)]
pub struct ParsedForSqlServerData {
    pub new_server: NewServer,
    pub new_world_data: NewWorldData,
    pub new_players_batch: NewPlayersBatch,
    pub new_server_mods: NewServerMods,
    pub new_server_channels: NewServerChannels,
    pub new_server_links: NewServerLinks,
    pub new_server_commands: NewServerCommands,
    pub new_server_features: NewServerFeatures,
    pub new_resource_pack: Option<NewResourcePack>,
}

/// A game mode on the wire, as stored: what the wire does not name is
/// stored as unknown.
pub open spec fn stored_gamemode(g: Option<i32>) -> Option<GameMode> {
    match g {
        Some(1) => Some(GameMode::Survival),
        Some(2) => Some(GameMode::Creative),
        Some(3) => Some(GameMode::Adventure),
        Some(4) => Some(GameMode::Spectator),
        _ => None,
    }
}

/// A difficulty on the wire, as stored: what the wire does not name is
/// stored as unknown.
pub open spec fn stored_difficulty(d: Option<i32>) -> Option<Difficulty> {
    match d {
        Some(1) => Some(Difficulty::Peaceful),
        Some(2) => Some(Difficulty::Easy),
        Some(3) => Some(Difficulty::Normal),
        Some(4) => Some(Difficulty::Hard),
        _ => None,
    }
}

/// The database difficulty named like a wire difficulty: none for the
/// unknown one.
pub open spec fn difficulty_named(x: pb::Difficulty) -> Option<Difficulty> {
    match x {
        pb::Difficulty::UnknownDifficulty => None,
        pb::Difficulty::Peaceful => Some(Difficulty::Peaceful),
        pb::Difficulty::Easy => Some(Difficulty::Easy),
        pb::Difficulty::Normal => Some(Difficulty::Normal),
        pb::Difficulty::Hard => Some(Difficulty::Hard),
    }
}

/// The database game mode named like a wire game mode: none for the
/// unknown one.
pub open spec fn gamemode_named(x: pb::GameMode) -> Option<GameMode> {
    match x {
        pb::GameMode::UnknownGameMode => None,
        pb::GameMode::Survival => Some(GameMode::Survival),
        pb::GameMode::Creative => Some(GameMode::Creative),
        pb::GameMode::Adventure => Some(GameMode::Adventure),
        pb::GameMode::Spectator => Some(GameMode::Spectator),
    }
}

/// The database's name for how a scan ended, named like the wire's.
pub open spec fn conn_result_named(x: pb::ConnectionResult) -> ConnectionResult {
    match x {
        pb::ConnectionResult::LoginDisconnect => ConnectionResult::LoginDisconnect,
        pb::ConnectionResult::ConfigurationDisconnect => ConnectionResult::ConfigurationDisconnect,
        pb::ConnectionResult::PlayDisconnect => ConnectionResult::PlayDisconnect,
        _ => ConnectionResult::Successful,
    }
}

/// A world's difficulty is stored under the name the wire gives it: each
/// wire difficulty as the database difficulty of the same name, the
/// unknown one and a missing one as none.
pub proof fn lemma_difficulty_stored_by_name(
    v: pb::McServerData,
    time: Timestamp,
    p: ParsedForSqlServerData,
    x: pb::Difficulty,
)
    requires
        sql_parsed(v, time, p),
    ensures
        v.difficulty == Some(x.spec_to_i32()) ==> p.new_world_data.difficulty == difficulty_named(x),
        v.difficulty is None ==> p.new_world_data.difficulty is None,
{
}

/// Game modes are stored under the names the wire gives them, the world's
/// and each player's: each wire game mode as the database game mode of the
/// same name, the unknown one and a missing one as none.
pub proof fn lemma_gamemode_stored_by_name(
    v: pb::McServerData,
    time: Timestamp,
    p: ParsedForSqlServerData,
    x: pb::GameMode,
)
    requires
        sql_parsed(v, time, p),
    ensures
        v.gamemode == Some(x.spec_to_i32()) ==> p.new_world_data.gamemode == gamemode_named(x),
        v.gamemode is None ==> p.new_world_data.gamemode is None,
        forall|i: int|
            0 <= i < v.players@.len() && (#[trigger] v.players@[i]).gamemode == Some(x.spec_to_i32())
                ==> p.new_players_batch.players@[i].game_mode == gamemode_named(x),
{
    assert forall|i: int|
        0 <= i < v.players@.len() && (#[trigger] v.players@[i]).gamemode == Some(x.spec_to_i32())
            implies p.new_players_batch.players@[i].game_mode == gamemode_named(x) by {
        let q = p.new_players_batch.players@[i];
    }
}

/// How a scan ended is stored under the name the wire gives it, for every
/// result the wire names (the unknown one is refused).
pub proof fn lemma_conn_result_stored_by_name(
    v: pb::McServerData,
    time: Timestamp,
    p: ParsedForSqlServerData,
    x: pb::ConnectionResult,
)
    requires
        sql_parsed(v, time, p),
        v.connection_result == x.spec_to_i32(),
        x != pb::ConnectionResult::UnknownConnectionResult,
    ensures
        p.new_server.last_connection_result == conn_result_named(x),
{
}

/// Why a worker's result is refused, if it is: a missing or invalid
/// address, an unknown or missing scan result, then a player whose id is
/// not sixteen bytes.
pub open spec fn sql_parse_error(v: pb::McServerData) -> Option<SqlParsePbDataError> {
    if v.ip is None {
        Some(SqlParsePbDataError::NoField("ip"))
    } else if ip_from_wire(v.ip->0) is Err {
        Some(SqlParsePbDataError::CantParse("ip"))
    } else if !(0 <= v.connection_result <= 4) {
        Some(
            SqlParsePbDataError::UnknownEnumVariant {
                enum_name: "connection_result",
                value: v.connection_result,
            },
        )
    } else if v.connection_result == 0 {
        Some(SqlParsePbDataError::NoField("connection_result"))
    } else if exists|i: int| 0 <= i < v.players@.len() && (#[trigger] v.players@[i]).uuid@.len() != 16 {
        Some(SqlParsePbDataError::CantParse("uuid"))
    } else {
        None
    }
}

/// How a scan ended, by its wire number, as stored.
pub open spec fn stored_conn_result(c: i32) -> ConnectionResult {
    if c == 1 {
        ConnectionResult::LoginDisconnect
    } else if c == 2 {
        ConnectionResult::ConfigurationDisconnect
    } else if c == 3 {
        ConnectionResult::PlayDisconnect
    } else {
        ConnectionResult::Successful
    }
}

/// The rows made of a worker's result at `time`, when it is not refused.
pub open spec fn sql_parsed(v: pb::McServerData, time: Timestamp, p: ParsedForSqlServerData) -> bool {
    let s = p.new_server;
    let w = p.new_world_data;
    &&& s.ip.spec_ip() == ip_from_wire(v.ip->0)->Ok_0
    &&& s.ip.spec_prefix() == s.ip.spec_ip().family_bits()
    &&& s.port == v.port as i32
    &&& s.domain == v.domain
    &&& s.last_connection_result == stored_conn_result(v.connection_result)
    &&& s.last_used_nick == v.player_name
    &&& s.description == v.description
    &&& s.protocol == v.protocol
    &&& s.version_name == v.version_name
    &&& s.brand == v.brand
    &&& s.time == time
    &&& s.online_players == v.online_players
    &&& s.max_players == v.max_players
    &&& s.enforces_secure_chat == v.enforces_secure_chat
    &&& s.no_chat_reports == v.no_chat_reports
    &&& s.is_whitelist == v.is_whitelist
    &&& s.is_online_mode == v.is_online_mode
    &&& s.offline_auth == v.offline_auth
    &&& s.code_of_conduct == v.code_of_conduct
    &&& w == (NewWorldData {
        hashed_seed: v.hashed_seed,
        gamemode: stored_gamemode(v.gamemode),
        difficulty: stored_difficulty(v.difficulty),
        dimension: v.dimension,
        view_distance: match v.view_distance {
            Some(d) => Some(d as i16),
            None => None,
        },
        simulation_distance: match v.simulation_distance {
            Some(d) => Some(d as i16),
            None => None,
        },
        is_hardcore: v.is_hardcore,
        reduced_debug_info: v.reduced_debug_info,
        do_limited_crafting: v.do_limited_crafting,
        is_flat: v.is_flat,
    })
    &&& p.new_players_batch.time == time
    &&& p.new_players_batch.players@.len() == v.players@.len()
    &&& forall|i: int|
        0 <= i < v.players@.len() ==> {
            let q = #[trigger] p.new_players_batch.players@[i];
            &&& q.uuid.0 == be_value(v.players@[i].uuid@)
            &&& q.name == v.players@[i].name
            &&& q.is_online_mode == v.players@[i].is_online
            &&& q.game_mode == stored_gamemode(v.players@[i].gamemode)
            &&& q.ping == v.players@[i].ping
        }
    &&& p.new_server_mods.mods_names@.len() == v.mods@.len()
    &&& forall|i: int|
        0 <= i < v.mods@.len() ==> #[trigger] p.new_server_mods.mods_names@[i]
            == v.mods@[i].mod_id
    &&& p.new_server_channels.channels == v.channels
    &&& p.new_server_links.links == v.links
    &&& p.new_server_commands.commands == v.commands
    &&& p.new_server_features.features == v.features
    &&& p.new_resource_pack == match v.resource_pack {
        None => None,
        Some(rp) => Some(NewResourcePack { url: rp.url, hash: rp.hash, forced: rp.forced }),
    }
}

/// A game mode on the wire, as stored.
fn parse_gamemode(gamemode: Option<i32>) -> (r: Option<GameMode>)
    ensures
        r == stored_gamemode(gamemode),
{
    match gamemode {
        None => None,
        Some(v) => match pb::GameMode::try_from_i32(v) {
            Err(_) => None,
            Ok(pb::GameMode::Survival) => Some(GameMode::Survival),
            Ok(pb::GameMode::Creative) => Some(GameMode::Creative),
            Ok(pb::GameMode::Adventure) => Some(GameMode::Adventure),
            Ok(pb::GameMode::Spectator) => Some(GameMode::Spectator),
            Ok(pb::GameMode::UnknownGameMode) => None,
        },
    }
}

/// A difficulty on the wire, as stored.
fn parse_difficulty(difficulty: Option<i32>) -> (r: Option<Difficulty>)
    ensures
        r == stored_difficulty(difficulty),
{
    match difficulty {
        None => None,
        Some(v) => match pb::Difficulty::try_from_i32(v) {
            Err(_) => None,
            Ok(pb::Difficulty::Peaceful) => Some(Difficulty::Peaceful),
            Ok(pb::Difficulty::Easy) => Some(Difficulty::Easy),
            Ok(pb::Difficulty::Normal) => Some(Difficulty::Normal),
            Ok(pb::Difficulty::Hard) => Some(Difficulty::Hard),
            Ok(pb::Difficulty::UnknownDifficulty) => None,
        },
    }
}

/// A distance on the wire, as stored: its low sixteen bits, signed.
fn stored_distance(d: Option<u32>) -> (r: Option<i16>)
    ensures
        r == match d {
            Some(x) => Some(x as i16),
            None => None,
        },
{
    match d {
        Some(x) => Some(x as i16),
        None => None,
    }
}

/// The players of a worker's result, as stored, or the refusal of an id.
fn parse_players(ps: &Vec<pb::PlayerRecord>) -> (r: Result<Vec<NewPlayerSession>, SqlParsePbDataError>)
    ensures
        (exists|i: int| 0 <= i < ps@.len() && (#[trigger] ps@[i]).uuid@.len() != 16) ==> r
            == Err::<Vec<NewPlayerSession>, SqlParsePbDataError>(
            SqlParsePbDataError::CantParse("uuid"),
        ),
        !(exists|i: int| 0 <= i < ps@.len() && (#[trigger] ps@[i]).uuid@.len() != 16) ==> (
        r matches Ok(out) && out@.len() == ps@.len() && forall|i: int|
            0 <= i < ps@.len() ==> {
                let q = #[trigger] out@[i];
                &&& q.uuid.0 == be_value(ps@[i].uuid@)
                &&& q.name == ps@[i].name
                &&& q.is_online_mode == ps@[i].is_online
                &&& q.game_mode == stored_gamemode(ps@[i].gamemode)
                &&& q.ping == ps@[i].ping
            }),
{
    let mut out: Vec<NewPlayerSession> = Vec::new();
    let mut i: usize = 0;
    while i < ps.len()
        invariant
            i <= ps@.len(),
            out@.len() == i,
            forall|j: int| 0 <= j < i ==> (#[trigger] ps@[j]).uuid@.len() == 16,
            forall|j: int|
                0 <= j < i ==> {
                    let q = #[trigger] out@[j];
                    &&& q.uuid.0 == be_value(ps@[j].uuid@)
                    &&& q.name == ps@[j].name
                    &&& q.is_online_mode == ps@[j].is_online
                    &&& q.game_mode == stored_gamemode(ps@[j].gamemode)
                    &&& q.ping == ps@[j].ping
                },
        decreases ps@.len() - i,
    {
        let p = &ps[i];
        let uuid = match uuid_from_bytes(p.uuid.clone()) {
            Some(u) => u,
            None => {
                return Err(SqlParsePbDataError::CantParse("uuid"));
            },
        };
        out.push(
            NewPlayerSession {
                uuid,
                name: p.name.clone(),
                is_online_mode: p.is_online,
                game_mode: parse_gamemode(p.gamemode),
                ping: p.ping,
            },
        );
        i = i + 1;
    }
    Ok(out)
}

impl ParsedForSqlServerData {
    /// Makes the rows of a worker's result, stamped with the clock's time.
    /// Refused as [`ParsedForSqlServerData::try_parse_at`] says.
    pub fn try_parse(pb_server_data: pb::McServerData) -> (r: Result<Self, SqlParsePbDataError>)
        ensures
            match sql_parse_error(pb_server_data) {
                Some(e) => r == Err::<Self, SqlParsePbDataError>(e),
                None => r matches Ok(p) && sql_parsed(pb_server_data, p.new_server.time, p),
            },
    {
        let time = utc_now();
        Self::try_parse_at(pb_server_data, time)
    }

    /// Makes the rows of a worker's result, stamped with `time`. Refused, in
    /// this order: a missing or invalid address, an unknown scan result or
    /// the unknown value, a player whose id is not sixteen bytes. Game modes
    /// and difficulties the wire does not name are stored as unknown; the
    /// port and distances keep their low bits.
    pub fn try_parse_at(pb_server_data: pb::McServerData, time: Timestamp) -> (r: Result<
        Self,
        SqlParsePbDataError,
    >)
        ensures
            match sql_parse_error(pb_server_data) {
                Some(e) => r == Err::<Self, SqlParsePbDataError>(e),
                None => r matches Ok(p) && sql_parsed(pb_server_data, time, p),
            },
    {
        let ghost v = pb_server_data;
        let pb::McServerData {
            ip,
            port,
            domain,
            connection_result,
            description,
            protocol,
            version_name,
            online_players,
            max_players,
            players,
            enforces_secure_chat,
            no_chat_reports,
            mods,
            channels,
            brand,
            links,
            code_of_conduct,
            features,
            resource_pack,
            commands,
            hashed_seed,
            gamemode,
            difficulty,
            dimension,
            view_distance,
            simulation_distance,
            is_hardcore,
            reduced_debug_info,
            do_limited_crafting,
            is_flat,
            is_whitelist,
            is_online_mode,
            offline_auth,
            player_name,
        } = pb_server_data;
        let ip = match ip {
            None => {
                return Err(SqlParsePbDataError::NoField("ip"));
            },
            Some(w) => match ip_addr_try_from(w) {
                Ok(a) => a,
                Err(_) => {
                    return Err(SqlParsePbDataError::CantParse("ip"));
                },
            },
        };
        let last_connection_result = match pb::ConnectionResult::try_from_i32(connection_result) {
            Err(e) => {
                return Err(
                    SqlParsePbDataError::UnknownEnumVariant {
                        enum_name: "connection_result",
                        value: e.0,
                    },
                );
            },
            Ok(pb::ConnectionResult::UnknownConnectionResult) => {
                return Err(SqlParsePbDataError::NoField("connection_result"));
            },
            Ok(pb::ConnectionResult::LoginDisconnect) => ConnectionResult::LoginDisconnect,
            Ok(pb::ConnectionResult::ConfigurationDisconnect) => ConnectionResult::ConfigurationDisconnect,
            Ok(pb::ConnectionResult::PlayDisconnect) => ConnectionResult::PlayDisconnect,
            Ok(pb::ConnectionResult::Successful) => ConnectionResult::Successful,
        };
        let difficulty = parse_difficulty(difficulty);
        let players = match parse_players(&players) {
            Ok(p) => p,
            Err(e) => {
                return Err(e);
            },
        };
        let mut mods_names: Vec<String> = Vec::new();
        let mut i: usize = 0;
        while i < mods.len()
            invariant
                i <= mods@.len(),
                mods_names@.len() == i,
                forall|j: int| 0 <= j < i ==> #[trigger] mods_names@[j] == mods@[j].mod_id,
            decreases mods@.len() - i,
        {
            mods_names.push(mods[i].mod_id.clone());
            i = i + 1;
        }
        let new_server = NewServer {
            ip: IpNetwork::from_ip(ip),
            port: port as i32,
            domain,
            last_connection_result,
            last_used_nick: player_name,
            description,
            protocol,
            version_name,
            brand,
            time,
            online_players,
            max_players,
            enforces_secure_chat,
            no_chat_reports,
            is_whitelist,
            is_online_mode,
            offline_auth,
            code_of_conduct,
        };
        let new_world_data = NewWorldData {
            hashed_seed,
            gamemode: parse_gamemode(gamemode),
            difficulty,
            dimension,
            view_distance: stored_distance(view_distance),
            simulation_distance: stored_distance(simulation_distance),
            is_hardcore,
            reduced_debug_info,
            do_limited_crafting,
            is_flat,
        };
        let new_resource_pack = match resource_pack {
            None => None,
            Some(rp) => Some(NewResourcePack { url: rp.url, hash: rp.hash, forced: rp.forced }),
        };
        Ok(
            ParsedForSqlServerData {
                new_server,
                new_world_data,
                new_players_batch: NewPlayersBatch { time, players },
                new_server_mods: NewServerMods { mods_names },
                new_server_channels: NewServerChannels { channels },
                new_server_links: NewServerLinks { links },
                new_server_commands: NewServerCommands { commands },
                new_server_features: NewServerFeatures { features },
                new_resource_pack,
            },
        )
    }
}

} // verus!
