//! Player tracking: who was seen where, grouped for the messages sent to a
//! webhook.

use crate::ids::Uuid;
use crate::net::IpAddr;
use crate::time::Timestamp;
use vstd::prelude::*;

pub mod tracking_service;

verus! {

/// A tracked player seen on a server.
#[derive(Clone, Debug, PartialEq, Eq)]
pub struct FoundedPlayer {
    pub uuid: Uuid,
    pub name: String,
    pub ip: IpAddr,
    pub port: i32,
    pub last_seen: Timestamp,
}

/// Where and when a player was seen.
pub type Sighting = (IpAddr, i32, Timestamp);

/// A player and the servers it was seen on, in the order they came.
#[derive(Debug)]
pub struct PlayerSightings {
    pub uuid: Uuid,
    pub name: String,
    pub servers: Vec<Sighting>,
}

/// What tells two players apart in a message.
pub open spec fn player_key(r: FoundedPlayer) -> (u128, Seq<char>) {
    (r.uuid.0, r.name@)
}

/// The sightings of the player `k` among `records`, in their order.
pub open spec fn sightings_of(records: Seq<FoundedPlayer>, k: (u128, Seq<char>)) -> Seq<Sighting>
    decreases records.len(),
{
    if records.len() == 0 {
        Seq::empty()
    } else {
        let last = records.last();
        let rest = sightings_of(records.drop_last(), k);
        if player_key(last) == k {
            rest.push((last.ip, last.port, last.last_seen))
        } else {
            rest
        }
    }
}

/// The groups of `groups` are those of `records`: one per player, each
/// with all its sightings in the order they came.
pub open spec fn grouped(records: Seq<FoundedPlayer>, groups: Seq<PlayerSightings>) -> bool {
    &&& forall|a: int, b: int|
        0 <= a < b < groups.len() ==> ((#[trigger] groups[a]).uuid.0, groups[a].name@) != (
            (#[trigger] groups[b]).uuid.0,
            groups[b].name@,
        )
    &&& forall|g: int|
        0 <= g < groups.len() ==> (#[trigger] groups[g]).servers@ == sightings_of(
            records,
            (groups[g].uuid.0, groups[g].name@),
        )
    &&& forall|i: int|
        0 <= i < records.len() ==> exists|g: int|
            0 <= g < groups.len() && ((#[trigger] groups[g]).uuid.0, groups[g].name@)
                == player_key(#[trigger] records[i])
}

proof fn lemma_sightings_push_other(records: Seq<FoundedPlayer>, x: FoundedPlayer, k: (u128, Seq<char>))
    requires
        player_key(x) != k,
    ensures
        sightings_of(records.push(x), k) == sightings_of(records, k),
{
    assert(records.push(x).drop_last() =~= records);
}

proof fn lemma_sightings_push_same(records: Seq<FoundedPlayer>, x: FoundedPlayer)
    ensures
        sightings_of(records.push(x), player_key(x)) == sightings_of(records, player_key(x)).push(
            (x.ip, x.port, x.last_seen),
        ),
{
    assert(records.push(x).drop_last() =~= records);
}

proof fn lemma_sightings_none(records: Seq<FoundedPlayer>, k: (u128, Seq<char>))
    requires
        forall|i: int| 0 <= i < records.len() ==> player_key(#[trigger] records[i]) != k,
    ensures
        sightings_of(records, k) == Seq::<Sighting>::empty(),
    decreases records.len(),
{
    if records.len() > 0 {
        let rest = records.drop_last();
        assert forall|i: int| 0 <= i < rest.len() implies player_key(#[trigger] rest[i]) != k by {
            assert(rest[i] == records[i]);
        }
        lemma_sightings_none(rest, k);
    }
}

/// Groups the sightings of the tracked players by player, as the messages
/// tell them: one group per player, with its sightings in order.
pub fn group_by_player(records: &Vec<FoundedPlayer>) -> (r: Vec<PlayerSightings>)
    ensures
        grouped(records@, r@),
{
    let mut groups: Vec<PlayerSightings> = Vec::new();
    let mut i: usize = 0;
    while i < records.len()
        invariant
            i <= records@.len(),
            grouped(records@.take(i as int), groups@),
        decreases records@.len() - i,
    {
        let ghost before = groups@;
        let ghost t0 = records@.take(i as int);
        let ghost t1 = records@.take(i + 1);
        let rec = &records[i];
        proof {
            assert(t1 =~= t0.push(records@[i as int]));
        }
        let mut g: usize = 0;
        while g < groups.len()
            invariant
                g <= groups@.len(),
                groups@ == before,
                i < records@.len(),
                *rec == records@[i as int],
                forall|h: int|
                    0 <= h < g ==> ((#[trigger] groups@[h]).uuid.0, groups@[h].name@) != player_key(
                        records@[i as int],
                    ),
            ensures
                g <= groups@.len(),
                g < groups@.len() ==> (groups@[g as int].uuid.0, groups@[g as int].name@)
                    == player_key(records@[i as int]),
                forall|h: int|
                    0 <= h < g ==> ((#[trigger] groups@[h]).uuid.0, groups@[h].name@) != player_key(
                        records@[i as int],
                    ),
            decreases groups@.len() - g,
        {
            if groups[g].uuid.0 == rec.uuid.0 && groups[g].name == rec.name {
                break;
            }
            g = g + 1;
        }
        let seen: Sighting = (rec.ip, rec.port, rec.last_seen);
        if g < groups.len() {
            let mut taken: Vec<PlayerSightings> = Vec::new();
            std::mem::swap(&mut taken, &mut groups);
            let mut group = taken.remove(g);
            group.servers.push(seen);
            taken.insert(g, group);
            groups = taken;
            proof {
                let after = groups@;
                assert forall|h: int| 0 <= h < after.len() && h != g implies after[h] == before[h] by {
                    assert(before.remove(g as int).insert(g as int, after[g as int])[h] == before[h]);
                }
                assert forall|h: int|
                    0 <= h < after.len() implies (#[trigger] after[h]).servers@ == sightings_of(
                        t1,
                        (after[h].uuid.0, after[h].name@),
                    ) by {
                    if h == g {
                        lemma_sightings_push_same(t0, records@[i as int]);
                    } else {
                        lemma_sightings_push_other(t0, records@[i as int], (after[h].uuid.0, after[h].name@));
                    }
                }
                assert forall|a: int, b: int| 0 <= a < b < after.len() implies ((
                #[trigger] after[a]).uuid.0, after[a].name@) != ((#[trigger] after[b]).uuid.0, after[b].name@) by {
                    assert(after[a].uuid == before[a].uuid && after[a].name == before[a].name);
                    assert(after[b].uuid == before[b].uuid && after[b].name == before[b].name);
                }
                assert forall|j: int| 0 <= j < t1.len() implies exists|h: int|
                    0 <= h < after.len() && ((#[trigger] after[h]).uuid.0, after[h].name@)
                        == player_key(#[trigger] t1[j]) by {
                    if j < i {
                        assert(t1[j] == t0[j]);
                        let h = choose|h: int|
                            0 <= h < before.len() && ((#[trigger] before[h]).uuid.0, before[h].name@)
                                == player_key(t0[j]);
                        assert(after[h].uuid == before[h].uuid && after[h].name == before[h].name);
                    } else {
                        assert(after[g as int].uuid == before[g as int].uuid);
                    }
                }
            }
        } else {
            let mut servers: Vec<Sighting> = Vec::new();
            servers.push(seen);
            groups.push(PlayerSightings { uuid: rec.uuid, name: rec.name.clone(), servers });
            proof {
                let after = groups@;
                let x = records@[i as int];
                assert forall|j: int| 0 <= j < t0.len() implies player_key(#[trigger] t0[j]) != player_key(x) by {
                    let h = choose|h: int|
                        0 <= h < before.len() && ((#[trigger] before[h]).uuid.0, before[h].name@)
                            == player_key(t0[j]);
                }
                lemma_sightings_none(t0, player_key(x));
                lemma_sightings_push_same(t0, x);
                assert(sightings_of(t1, player_key(x)) =~= seq![(x.ip, x.port, x.last_seen)]);
                assert forall|h: int|
                    0 <= h < after.len() implies (#[trigger] after[h]).servers@ == sightings_of(
                        t1,
                        (after[h].uuid.0, after[h].name@),
                    ) by {
                    if h < before.len() {
                        assert(after[h] == before[h]);
                        lemma_sightings_push_other(t0, x, (after[h].uuid.0, after[h].name@));
                    }
                }
                assert forall|j: int| 0 <= j < t1.len() implies exists|h: int|
                    0 <= h < after.len() && ((#[trigger] after[h]).uuid.0, after[h].name@)
                        == player_key(#[trigger] t1[j]) by {
                    if j < i {
                        assert(t1[j] == t0[j]);
                        let h = choose|h: int|
                            0 <= h < before.len() && ((#[trigger] before[h]).uuid.0, before[h].name@)
                                == player_key(t0[j]);
                        assert(after[h] == before[h]);
                    } else {
                        assert(after[before.len() as int].uuid == x.uuid);
                    }
                }
            }
        }
        i = i + 1;
    }
    assert(records@.take(records@.len() as int) =~= records@);
    groups
}

/// How many servers a message lists; the rest are only counted.
pub const SHOWN_SERVERS: usize = 10;

/// The contents of the message about one player: its name and id, how many
/// servers it was seen on, the first of them, and how many more there are
/// when not all are listed.
#[derive(Debug)]
pub struct MessagePlan {
    pub name: String,
    pub uuid: Uuid,
    pub servers_count: usize,
    pub shown: Vec<Sighting>,
    pub more: Option<usize>,
}

/// Plans the message about a player: the first ten servers are listed, and
/// beyond ten the number of the others is given.
pub fn plan_message(player: PlayerSightings) -> (r: MessagePlan)
    ensures
        r.name == player.name,
        r.uuid == player.uuid,
        r.servers_count == player.servers@.len(),
        r.shown@ == player.servers@.take(
            if player.servers@.len() < SHOWN_SERVERS { player.servers@.len() as int } else { SHOWN_SERVERS as int },
        ),
        r.more == if player.servers@.len() > SHOWN_SERVERS {
            Some((player.servers@.len() - SHOWN_SERVERS) as usize)
        } else {
            None::<usize>
        },
{
    let PlayerSightings { uuid, name, servers } = player;
    let count = servers.len();
    let mut shown: Vec<Sighting> = Vec::new();
    let mut i: usize = 0;
    while i < count && i < SHOWN_SERVERS
        invariant
            count == servers@.len(),
            i <= count,
            i <= SHOWN_SERVERS,
            shown@ == servers@.take(i as int),
        decreases count - i,
    {
        shown.push(servers[i]);
        assert(servers@.take(i + 1) =~= servers@.take(i as int).push(servers@[i as int]));
        i = i + 1;
    }
    let more = if count > SHOWN_SERVERS {
        Some(count - SHOWN_SERVERS)
    } else {
        None
    };
    MessagePlan { name, uuid, servers_count: count, shown, more }
}

/// Why a tracking request was refused.
#[derive(Debug, PartialEq, Eq)]
pub enum PlayerTrackingServiceError {
    Disabled,
    WebhookDuplicateUrl(String),
    WebhookNotFound(String),
    PlayerRecordNotFound { name: Option<String>, uuid: Option<Uuid> },
    SqlError,
}

impl PlayerTrackingServiceError {
    /// The HTTP status the API answers the error with.
    pub fn status_code(&self) -> (r: u16)
        ensures
            self is Disabled ==> r == 503,
            self is WebhookDuplicateUrl ==> r == 409,
            self is SqlError ==> r == 500,
            self is PlayerRecordNotFound ==> r == 404,
            self is WebhookNotFound ==> r == 404,
    {
        match self {
            PlayerTrackingServiceError::Disabled => 503,
            PlayerTrackingServiceError::WebhookDuplicateUrl(_) => 409,
            PlayerTrackingServiceError::SqlError => 500,
            PlayerTrackingServiceError::PlayerRecordNotFound { .. } => 404,
            PlayerTrackingServiceError::WebhookNotFound(_) => 404,
        }
    }
}

} // verus!
