//! What a dialog learns of a server, and how it ended.

use crate::mc_protocol::dialog::packets::StatusResponsePacket;
use crate::mc_protocol::dialog::server_dst::CantResolveHost;
use crate::mc_protocol::dialog::DialogError;
use crate::mc_protocol::types::difficulty::Difficulty;
use crate::mc_protocol::types::gamemode::GameMode;
use crate::mc_protocol::types::player::Player;
use vstd::prelude::*;

verus! {

/// A mod that a modded server lists in its status.
#[derive(Debug, PartialEq, Eq)]
pub struct ForgeMod {
    pub mod_id: String,
    pub version: String,
}

/// A player seen on a server, with the game mode and ping when known.
#[derive(Debug, PartialEq, Eq, Hash)]
pub struct PlayerRecord {
    pub player: Player,
    pub game_mode: Option<GameMode>,
    pub ping: Option<i32>,
}

/// A player record as plain values: what tells two records apart.
pub open spec fn record_key(r: PlayerRecord) -> (Seq<char>, u128, Option<GameMode>, Option<i32>) {
    (r.player.name@, r.player.uuid.0, r.game_mode, r.ping)
}

/// The records of a list, as a set of plain values.
pub open spec fn record_set(s: Seq<PlayerRecord>) -> Set<(Seq<char>, u128, Option<GameMode>, Option<i32>)> {
    Set::new(|k: (Seq<char>, u128, Option<GameMode>, Option<i32>)| exists|i: int| 0 <= i < s.len() && record_key(s[i]) == k)
}

/// No record occurs twice.
pub open spec fn distinct_records(s: Seq<PlayerRecord>) -> bool {
    forall|i: int, j: int|
        0 <= i < s.len() && 0 <= j < s.len() && i != j ==> record_key(#[trigger] s[i]) != record_key(
            #[trigger] s[j],
        )
}

/// The strings of a list, as a set of character sequences.
pub open spec fn name_set(s: Seq<String>) -> Set<Seq<char>> {
    Set::new(|k: Seq<char>| exists|i: int| 0 <= i < s.len() && s[i]@ == k)
}

/// No string occurs twice.
pub open spec fn distinct_names(s: Seq<String>) -> bool {
    forall|i: int, j: int|
        0 <= i < s.len() && 0 <= j < s.len() && i != j ==> (#[trigger] s[i])@ != (#[trigger] s[j])@
}

impl From<Player> for PlayerRecord {
    fn from(value: Player) -> (r: PlayerRecord)
        ensures
            r == (PlayerRecord { player: value, game_mode: None, ping: None }),
    {
        PlayerRecord { player: value, game_mode: None, ping: None }
    }
}

impl vstd::std_specs::convert::FromSpecImpl<Player> for PlayerRecord {
    open spec fn obeys_from_spec() -> bool {
        true
    }

    open spec fn from_spec(v: Player) -> PlayerRecord {
        PlayerRecord { player: v, game_mode: None, ping: None }
    }
}

/// The resource pack a server asks the client to load.
#[derive(Debug, PartialEq, Eq)]
pub struct ResourcePack {
    pub url: String,
    pub hash: Option<String>,
    pub forced: bool,
}

/// What a dialog learns of a server. Its sets (players and channels) are
/// lists in which nothing occurs twice.
#[derive(Debug, PartialEq, Eq)]
pub struct ServerData {
    pub description: String,
    pub protocol: i32,
    pub version_name: String,
    pub online_players: i32,
    pub max_players: i32,
    pub players: Vec<PlayerRecord>,
    pub enforces_secure_chat: bool,
    pub no_chat_reports: bool,
    pub mods: Vec<ForgeMod>,
    pub brand: Option<String>,
    pub links: Vec<String>,
    pub code_of_conduct: Option<String>,
    pub features: Vec<String>,
    pub resource_pack: Option<ResourcePack>,
    pub channels: Vec<String>,
    pub registered_channels: Vec<String>,
    pub commands: Vec<String>,
    pub hashed_seed: Option<i64>,
    pub gamemode: Option<GameMode>,
    pub difficulty: Option<Difficulty>,
    pub dimension: Option<String>,
    pub view_distance: Option<u16>,
    pub simulation_distance: Option<u16>,
    pub is_hardcore: Option<bool>,
    pub reduced_debug_info: Option<bool>,
    pub do_limited_crafting: Option<bool>,
    pub is_flat: Option<bool>,
}

impl ServerData {
    /// The sets hold nothing twice.
    pub open spec fn wf(&self) -> bool {
        &&& distinct_records(self.players@)
        &&& distinct_names(self.channels@)
        &&& distinct_names(self.registered_channels@)
    }
}

/// Why a dialog ended in the login state.
#[derive(Debug)]
pub enum DisconnectLoginReason {
    OnlineMode { should_authenticate: bool },
    DisconnectByServer { msg: String },
    DialogError(DialogError),
    Timeout,
}

/// Why a dialog ended in the configuration state.
#[derive(Debug)]
pub enum DisconnectConfigurationReason {
    DisconnectByServer { msg: String },
    ShowDialog,
    TooMuchTransfers { count: u32 },
    CantResolveHost(CantResolveHost),
    DialogError(DialogError),
    Timeout,
}

/// Why a dialog ended in the play state.
#[derive(Debug)]
pub enum DisconnectPlayReason {
    DisconnectByServer { msg: String },
    DialogError(DialogError),
}

/// How a dialog ended, with what it learnt of the server once the status
/// was read.
#[derive(Debug)]
pub enum ConnectionResult {
    NoHandshake(DialogError),
    DisconnectAtLogin { data: ServerData, reason: DisconnectLoginReason },
    DisconnectAtConfiguration { data: ServerData, reason: DisconnectConfigurationReason },
    DisconnectAtPlay { data: ServerData, reason: DisconnectPlayReason },
    Successful { data: ServerData },
}

impl ConnectionResult {
    /// What was learnt of the server: none when not even the status came.
    pub open spec fn data_of(self) -> Option<ServerData> {
        match self {
            ConnectionResult::NoHandshake(_) => None,
            ConnectionResult::DisconnectAtLogin { data, .. } => Some(data),
            ConnectionResult::DisconnectAtConfiguration { data, .. } => Some(data),
            ConnectionResult::DisconnectAtPlay { data, .. } => Some(data),
            ConnectionResult::Successful { data } => Some(data),
        }
    }

    /// What was learnt of the server: none when not even the status came.
    pub fn get_data(self) -> (r: Option<ServerData>)
        ensures
            r == self.data_of(),
    {
        match self {
            ConnectionResult::NoHandshake(_) => None,
            ConnectionResult::DisconnectAtLogin { data, .. } => Some(data),
            ConnectionResult::DisconnectAtConfiguration { data, .. } => Some(data),
            ConnectionResult::DisconnectAtPlay { data, .. } => Some(data),
            ConnectionResult::Successful { data } => Some(data),
        }
    }
}

/// The records of the players a status shows.
pub open spec fn sample_records(s: Seq<Player>) -> Set<(Seq<char>, u128, Option<GameMode>, Option<i32>)> {
    Set::new(
        |k: (Seq<char>, u128, Option<GameMode>, Option<i32>)|
            exists|i: int| 0 <= i < s.len() && k == (#[trigger] s[i].name@, s[i].uuid.0, None::<GameMode>, None::<i32>),
    )
}

impl ServerData {
    /// What the status response says of the server; what only the later
    /// states tell is not known yet.
    pub fn from_status(resp: StatusResponsePacket) -> (r: ServerData)
        ensures
            r.wf(),
            r.description == resp.description,
            r.protocol == resp.protocol,
            r.version_name == resp.version_name,
            r.online_players == resp.online_players,
            r.max_players == resp.max_players,
            record_set(r.players@) == match resp.sample {
                None => Set::empty(),
                Some(v) => sample_records(v@),
            },
            r.enforces_secure_chat == resp.enforces_secure_chat.unwrap_or(false),
            r.no_chat_reports == resp.prevents_chat_reports.unwrap_or(false),
            r.mods@ == match resp.forge_mods {
                None => Seq::empty(),
                Some(m) => m@,
            },
            r.brand is None,
            r.links@.len() == 0,
            r.code_of_conduct is None,
            r.features@.len() == 0,
            r.resource_pack is None,
            r.channels@.len() == 0,
            r.registered_channels@.len() == 0,
            r.commands@.len() == 0,
            r.hashed_seed is None,
            r.gamemode is None,
            r.difficulty is None,
            r.dimension is None,
            r.view_distance is None,
            r.simulation_distance is None,
            r.is_hardcore is None,
            r.reduced_debug_info is None,
            r.do_limited_crafting is None,
            r.is_flat is None,
    {
        let StatusResponsePacket {
            description,
            version_name,
            protocol,
            online_players,
            max_players,
            sample,
            enforces_secure_chat,
            prevents_chat_reports,
            forge_mods,
        } = resp;
        let mods = match forge_mods {
            None => Vec::new(),
            Some(m) => m,
        };
        let mut players: Vec<PlayerRecord> = Vec::new();
        match sample {
            None => {
                assert(record_set(players@) =~= Set::empty());
            },
            Some(v) => {
                let ghost all = v@;
                let mut i: usize = 0;
                assert(record_set(players@) =~= sample_records(all.take(0)));
                while i < v.len()
                    invariant
                        i <= all.len(),
                        v@ == all,
                        distinct_records(players@),
                        record_set(players@) == sample_records(all.take(i as int)),
                    decreases all.len() - i,
                {
                    let rec = PlayerRecord::from(v[i].clone());
                    insert_record(&mut players, rec);
                    proof {
                        let t0 = all.take(i as int);
                        let t1 = all.take(i + 1);
                        let key = (all[i as int].name@, all[i as int].uuid.0, None::<GameMode>, None::<i32>);
                        assert forall|k| #[trigger] sample_records(t1).contains(k)
                            == sample_records(t0).insert(key).contains(k) by {
                            if sample_records(t1).contains(k) {
                                let j = choose|j: int| 0 <= j < t1.len() && k == (#[trigger] t1[j].name@, t1[j].uuid.0, None::<GameMode>, None::<i32>);
                                if j < i {
                                    assert(t0[j] == t1[j]);
                                }
                            }
                            if sample_records(t0).contains(k) {
                                let j = choose|j: int| 0 <= j < t0.len() && k == (#[trigger] t0[j].name@, t0[j].uuid.0, None::<GameMode>, None::<i32>);
                                assert(t1[j] == t0[j]);
                            }
                            if k == key {
                                assert(t1[i as int] == all[i as int]);
                            }
                        }
                        assert(sample_records(t1) =~= sample_records(t0).insert(key));
                    }
                    i = i + 1;
                }
                assert(all.take(all.len() as int) =~= all);
            },
        }
        let r = ServerData {
            description,
            protocol,
            version_name,
            online_players,
            max_players,
            players,
            enforces_secure_chat: enforces_secure_chat.unwrap_or(false),
            no_chat_reports: prevents_chat_reports.unwrap_or(false),
            mods,
            brand: None,
            links: Vec::new(),
            code_of_conduct: None,
            features: Vec::new(),
            resource_pack: None,
            channels: Vec::new(),
            registered_channels: Vec::new(),
            commands: Vec::new(),
            hashed_seed: None,
            gamemode: None,
            difficulty: None,
            dimension: None,
            view_distance: None,
            simulation_distance: None,
            is_hardcore: None,
            reduced_debug_info: None,
            do_limited_crafting: None,
            is_flat: None,
        };
        r
    }
}

/// Adds `name` to a list that holds nothing twice, unless it is there.
pub fn insert_name(set: &mut Vec<String>, name: String)
    requires
        distinct_names(old(set)@),
    ensures
        distinct_names(final(set)@),
        name_set(final(set)@) == name_set(old(set)@).insert(name@),
{
    let ghost before = set@;
    let mut i: usize = 0;
    while i < set.len()
        invariant
            i <= set@.len(),
            set@ == before,
            forall|j: int| 0 <= j < i ==> set@[j]@ != name@,
        ensures
            i <= set@.len(),
            i < set@.len() ==> set@[i as int]@ == name@,
            forall|j: int| 0 <= j < i ==> set@[j]@ != name@,
        decreases set@.len() - i,
    {
        if set[i] == name {
            break;
        }
        i = i + 1;
    }
    if i == set.len() {
        set.push(name);
        proof {
            let after = set@;
            assert(after == before.push(after[before.len() as int]));
            assert forall|k: Seq<char>| #[trigger] name_set(after).contains(k) == name_set(
                before,
            ).insert(name@).contains(k) by {
                if name_set(before).contains(k) {
                    let j = choose|j: int| 0 <= j < before.len() && before[j]@ == k;
                    assert(after[j]@ == k);
                }
                if k == name@ {
                    assert(after[before.len() as int]@ == k);
                }
                if name_set(after).contains(k) && k != name@ {
                    let j = choose|j: int| 0 <= j < after.len() && after[j]@ == k;
                    assert(before[j]@ == k);
                }
            }
            assert(name_set(after) =~= name_set(before).insert(name@));
        }
    } else {
        proof {
            assert(name_set(before).contains(name@)) by {
                assert(before[i as int]@ == name@);
            }
            assert(name_set(before) =~= name_set(before).insert(name@));
        }
    }
}

/// Adds each of `names` to a list that holds nothing twice.
pub fn extend_names(set: &mut Vec<String>, names: Vec<String>)
    requires
        distinct_names(old(set)@),
    ensures
        distinct_names(final(set)@),
        name_set(final(set)@) == name_set(old(set)@).union(name_set(names@)),
{
    let ghost start = set@;
    let ghost all = names@;
    let mut i: usize = 0;
    while i < names.len()
        invariant
            i <= names@.len(),
            names@ == all,
            distinct_names(set@),
            name_set(set@) == name_set(start).union(name_set(all.take(i as int))),
        decreases names@.len() - i,
    {
        let name = names[i].clone();
        proof {
            let t0 = all.take(i as int);
            let t1 = all.take(i + 1);
            assert forall|k: Seq<char>| #[trigger] name_set(t1).contains(k) == name_set(t0).insert(
                all[i as int]@,
            ).contains(k) by {
                if name_set(t0).contains(k) {
                    let j = choose|j: int| 0 <= j < t0.len() && t0[j]@ == k;
                    assert(t1[j]@ == k);
                }
                if k == all[i as int]@ {
                    assert(t1[i as int]@ == k);
                }
                if name_set(t1).contains(k) && k != all[i as int]@ {
                    let j = choose|j: int| 0 <= j < t1.len() && t1[j]@ == k;
                    assert(j != i as int);
                    assert(t0[j]@ == k);
                }
            }
            assert(name_set(t1) =~= name_set(t0).insert(all[i as int]@));
        }
        insert_name(set, name);
        i = i + 1;
    }
    assert(all.take(all.len() as int) =~= all);
}

/// Adds `rec` to a list that holds nothing twice, unless it is there.
pub fn insert_record(set: &mut Vec<PlayerRecord>, rec: PlayerRecord)
    requires
        distinct_records(old(set)@),
    ensures
        distinct_records(final(set)@),
        record_set(final(set)@) == record_set(old(set)@).insert(record_key(rec)),
{
    let ghost before = set@;
    let mut i: usize = 0;
    while i < set.len()
        invariant
            i <= set@.len(),
            set@ == before,
            forall|j: int| 0 <= j < i ==> record_key(set@[j]) != record_key(rec),
        ensures
            i <= set@.len(),
            i < set@.len() ==> record_key(set@[i as int]) == record_key(rec),
            forall|j: int| 0 <= j < i ==> record_key(set@[j]) != record_key(rec),
        decreases set@.len() - i,
    {
        let same = set[i].player.name == rec.player.name && set[i].player.uuid.0 == rec.player.uuid.0
            && set[i].game_mode == rec.game_mode && set[i].ping == rec.ping;
        if same {
            break;
        }
        i = i + 1;
    }
    if i == set.len() {
        set.push(rec);
        proof {
            let after = set@;
            assert(after == before.push(after[before.len() as int]));
            let key = record_key(after[before.len() as int]);
            assert forall|k| #[trigger] record_set(after).contains(k) == record_set(before).insert(
                key,
            ).contains(k) by {
                if record_set(before).contains(k) {
                    let j = choose|j: int| 0 <= j < before.len() && record_key(before[j]) == k;
                    assert(record_key(after[j]) == k);
                }
                if k == key {
                    assert(record_key(after[before.len() as int]) == k);
                }
                if record_set(after).contains(k) && k != key {
                    let j = choose|j: int| 0 <= j < after.len() && record_key(after[j]) == k;
                    assert(record_key(before[j]) == k);
                }
            }
            assert(record_set(after) =~= record_set(before).insert(key));
        }
    } else {
        proof {
            assert(record_set(before).contains(record_key(rec))) by {
                assert(record_key(before[i as int]) == record_key(rec));
            }
            assert(record_set(before) =~= record_set(before).insert(record_key(rec)));
        }
    }
}

} // verus!
