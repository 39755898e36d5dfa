//! What the tracking service answers, from what the database gave back.

use crate::data_core::manager_api::{PlayerTrackInfo, WebhookInfo};
use crate::data_core::sql::analytics::Webhook;
use crate::ids::Uuid;
use crate::manager::player_tracking::PlayerTrackingServiceError;
use crate::net::IpAddr;
use crate::time::Timestamp;
use vstd::prelude::*;

verus! {

/// Whether `url` parses `text` as a URL.
pub uninterp spec fn url_accepts(text: Seq<char>) -> bool;

/// The text of a URL, as `url::Url::as_str` gives it.
pub uninterp spec fn url_text(u: url::Url) -> Seq<char>;

/// The text that `url` makes of `text` when it parses it: the URL written
/// out in its normal form.
pub uninterp spec fn url_serialized(text: Seq<char>) -> Seq<char>;

/// Calls `url::Url::parse`: `None` exactly when the text is not a URL; the
/// URL that comes back reads as the text in its normal form.
#[verifier::external_body]
fn parse_url(text: &str) -> (r: Option<url::Url>)
    ensures
        r is Some <==> url_accepts(text@),
        r matches Some(u) ==> url_text(u) == url_serialized(text@),
{
    url::Url::parse(text).ok()
}

/// `r` is what a stored webhook row reads back as: its name and its URL,
/// parsed from the stored text, or a database fault when the stored URL
/// does not parse.
pub open spec fn webhook_read(row: Webhook, r: Result<WebhookInfo, PlayerTrackingServiceError>) -> bool {
    if url_accepts(row.url@) {
        r matches Ok(info) && info.webhook_name == row.name && url_text(info.url)
            == url_serialized(row.url@)
    } else {
        r matches Err(e) && e is SqlError
    }
}

/// Reads a stored webhook row back (see [`webhook_read`]).
pub fn webhook_info_of(row: Webhook) -> (r: Result<WebhookInfo, PlayerTrackingServiceError>)
    ensures
        webhook_read(row, r),
{
    match parse_url(row.url.as_str()) {
        Some(url) => Ok(WebhookInfo { url, webhook_name: row.name }),
        None => Err(PlayerTrackingServiceError::SqlError),
    }
}

/// The answer to a lookup of the webhook `url`: not found when no row came
/// back, else the row read back.
pub fn webhook_lookup_result(url: String, row: Option<Webhook>) -> (r: Result<
    WebhookInfo,
    PlayerTrackingServiceError,
>)
    ensures
        row is None ==> (r matches Err(e) && e == PlayerTrackingServiceError::WebhookNotFound(url)),
        row matches Some(w) ==> webhook_read(w, r),
{
    match row {
        None => Err(PlayerTrackingServiceError::WebhookNotFound(url)),
        Some(w) => webhook_info_of(w),
    }
}

/// The answer to listing all webhooks: every row read back, in order; a
/// database fault when a stored URL does not parse.
pub fn all_webhooks_result(rows: Vec<Webhook>) -> (r: Result<
    Vec<WebhookInfo>,
    PlayerTrackingServiceError,
>)
    ensures
        r is Ok <==> forall|k: int| 0 <= k < rows.len() ==> url_accepts(#[trigger] rows@[k].url@),
        r matches Ok(infos) ==> infos.len() == rows.len() && forall|k: int|
            0 <= k < rows.len() ==> (#[trigger] infos@[k]).webhook_name == rows@[k].name
                && url_text(infos@[k].url) == url_serialized(rows@[k].url@),
        r matches Err(e) ==> e is SqlError,
{
    let ghost all = rows@;
    let total = rows.len();
    let mut rest = rows;
    let mut infos: Vec<WebhookInfo> = Vec::new();
    let mut i: usize = 0;
    while rest.len() > 0
        invariant
            i + rest.len() == all.len(),
            all.len() == total,
            all == rows@,
            rest@ == all.skip(i as int),
            infos.len() == i,
            forall|k: int| 0 <= k < i ==> url_accepts(#[trigger] all[k].url@),
            forall|k: int|
                0 <= k < i ==> (#[trigger] infos@[k]).webhook_name == all[k].name && url_text(
                    infos@[k].url,
                ) == url_serialized(all[k].url@),
        decreases rest.len(),
    {
        let row = rest.remove(0);
        assert(row == all[i as int]);
        match webhook_info_of(row) {
            Ok(info) => {
                infos.push(info);
            },
            Err(e) => {
                assert(!url_accepts(all[i as int].url@));
                return Err(e);
            },
        }
        assert(rest@ =~= all.skip(i + 1));
        i = i + 1;
    }
    Ok(infos)
}

/// A row of the track lookups: a track's name and UUID, when it was last
/// sent, and the server it was last seen on. A webhook without such a
/// track gives a row where all of them are absent.
#[derive(Clone, Debug)]
pub struct TrackRow {
    pub name: Option<String>,
    pub uuid: Option<Uuid>,
    pub last_send: Option<Timestamp>,
    pub ip: Option<IpAddr>,
    pub port: Option<i32>,
}

/// The row holds no track: neither a name nor a UUID.
pub open spec fn no_track(row: TrackRow) -> bool {
    row.name is None && row.uuid is None
}

/// The track a row tells of; the port keeps its low 16 bits.
pub open spec fn track_of(row: TrackRow) -> PlayerTrackInfo {
    PlayerTrackInfo {
        name: row.name,
        uuid: row.uuid,
        last_send: row.last_send,
        last_server_ip: row.ip,
        last_server_port: match row.port {
            Some(p) => Some(p as u16),
            None => None,
        },
    }
}

/// The track a row tells of (see [`track_of`]).
pub fn track_info_of(row: TrackRow) -> (r: PlayerTrackInfo)
    ensures
        r == track_of(row),
{
    let port = match row.port {
        Some(p) => Some(#[verifier::truncate] (p as u16)),
        None => None,
    };
    PlayerTrackInfo {
        name: row.name,
        uuid: row.uuid,
        last_send: row.last_send,
        last_server_ip: row.ip,
        last_server_port: port,
    }
}

/// The answer to a lookup of one track: no row means the webhook is
/// unknown, a row without a track that the webhook has no such track.
pub open spec fn track_lookup(
    url: String,
    name: Option<String>,
    uuid: Option<Uuid>,
    row: Option<TrackRow>,
) -> Result<PlayerTrackInfo, PlayerTrackingServiceError> {
    match row {
        None => Err(PlayerTrackingServiceError::WebhookNotFound(url)),
        Some(t) => if no_track(t) {
            Err(PlayerTrackingServiceError::PlayerRecordNotFound { name, uuid })
        } else {
            Ok(track_of(t))
        },
    }
}

/// The answer to a lookup of the track of `name` and `uuid` in the webhook
/// `url` (see [`track_lookup`]).
pub fn track_lookup_result(
    url: String,
    name: Option<String>,
    uuid: Option<Uuid>,
    row: Option<TrackRow>,
) -> (r: Result<PlayerTrackInfo, PlayerTrackingServiceError>)
    ensures
        r == track_lookup(url, name, uuid, row),
{
    match row {
        None => Err(PlayerTrackingServiceError::WebhookNotFound(url)),
        Some(t) => {
            if t.name.is_none() && t.uuid.is_none() {
                Err(PlayerTrackingServiceError::PlayerRecordNotFound { name, uuid })
            } else {
                Ok(track_info_of(t))
            }
        },
    }
}

/// A lookup that finds a track answers with it: a row with a name or a
/// UUID is that track, port cut to 16 bits; the player is not found only
/// when the row has neither; no row means the webhook is unknown.
pub proof fn lemma_track_lookup_answers(
    url: String,
    name: Option<String>,
    uuid: Option<Uuid>,
    row: Option<TrackRow>,
)
    ensures
        row is Some && (row->0.name is Some || row->0.uuid is Some) ==> track_lookup(
            url,
            name,
            uuid,
            row,
        ) == Ok::<PlayerTrackInfo, PlayerTrackingServiceError>(
            PlayerTrackInfo {
                name: row->0.name,
                uuid: row->0.uuid,
                last_send: row->0.last_send,
                last_server_ip: row->0.ip,
                last_server_port: match row->0.port {
                    Some(p) => Some(p as u16),
                    None => None,
                },
            },
        ),
        row is Some && row->0.name is None && row->0.uuid is None ==> track_lookup(
            url,
            name,
            uuid,
            row,
        ) == Err::<PlayerTrackInfo, PlayerTrackingServiceError>(
            PlayerTrackingServiceError::PlayerRecordNotFound { name, uuid },
        ),
        row is None ==> track_lookup(url, name, uuid, row) == Err::<
            PlayerTrackInfo,
            PlayerTrackingServiceError,
        >(PlayerTrackingServiceError::WebhookNotFound(url)),
{
}

/// A row holds a track exactly when it has a name or a UUID: listing the
/// tracks of a webhook leaves out a single row only when it has neither.
pub proof fn lemma_row_holds_track(t: TrackRow)
    ensures
        !no_track(t) <==> (t.name is Some || t.uuid is Some),
{
}

/// The answer to listing the tracks of the webhook `url`: no rows mean the
/// webhook is unknown, a single row without a track that it has none;
/// otherwise every row's track, in order.
pub fn webhook_tracks_result(url: String, rows: Vec<TrackRow>) -> (r: Result<
    Vec<PlayerTrackInfo>,
    PlayerTrackingServiceError,
>)
    ensures
        rows.len() == 0 ==> (r matches Err(e) && e
            == PlayerTrackingServiceError::WebhookNotFound(url)),
        rows.len() == 1 && no_track(rows[0]) ==> (r matches Ok(v) && v.len() == 0),
        rows.len() > 0 && !(rows.len() == 1 && no_track(rows[0])) ==> (r matches Ok(v) && v@
            == rows@.map_values(|t: TrackRow| track_of(t))),
{
    if rows.len() == 0 {
        return Err(PlayerTrackingServiceError::WebhookNotFound(url));
    }
    if rows.len() == 1 && rows[0].name.is_none() && rows[0].uuid.is_none() {
        return Ok(Vec::new());
    }
    let ghost all = rows@;
    let mut rest = rows;
    let mut tracks: Vec<PlayerTrackInfo> = Vec::new();
    let mut i: usize = 0;
    while rest.len() > 0
        invariant
            i + rest.len() == all.len(),
            all.len() <= usize::MAX,
            rest@ == all.skip(i as int),
            tracks@ == all.take(i as int).map_values(|t: TrackRow| track_of(t)),
        decreases rest.len(),
    {
        let row = rest.remove(0);
        assert(row == all[i as int]);
        let info = track_info_of(row);
        tracks.push(info);
        assert(rest@ =~= all.skip(i + 1));
        assert(all.take(i + 1) =~= all.take(i as int).push(row));
        assert(tracks@ =~= all.take(i + 1).map_values(|t: TrackRow| track_of(t)));
        i = i + 1;
    }
    assert(all.take(i as int) =~= all);
    Ok(tracks)
}

/// The answer to adding the webhook `url`: when no row was added, the URL
/// was there already.
pub fn webhook_insert_result(url: String, rows_affected: u64) -> (r: Result<
    (),
    PlayerTrackingServiceError,
>)
    ensures
        rows_affected == 0 ==> (r matches Err(e) && e
            == PlayerTrackingServiceError::WebhookDuplicateUrl(url)),
        rows_affected != 0 ==> r is Ok,
{
    if rows_affected == 0 {
        Err(PlayerTrackingServiceError::WebhookDuplicateUrl(url))
    } else {
        Ok(())
    }
}

/// The answer to adding or removing a track of the webhook `url`: an error
/// when the webhook is unknown.
pub fn webhook_found_result(url: String, found: bool) -> (r: Result<
    (),
    PlayerTrackingServiceError,
>)
    ensures
        !found ==> (r matches Err(e) && e == PlayerTrackingServiceError::WebhookNotFound(url)),
        found ==> r is Ok,
{
    if found {
        Ok(())
    } else {
        Err(PlayerTrackingServiceError::WebhookNotFound(url))
    }
}

} // verus!
