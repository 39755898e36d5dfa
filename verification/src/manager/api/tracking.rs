//! The queries of the player tracking endpoints.

use crate::ids::Uuid;
use vstd::prelude::*;

verus! {

/// A webhook and a player named by nick, by UUID, or by both.
#[derive(Debug)]
pub struct TrackIdentAndUrlQuery {
    pub webhook_url: url::Url,
    pub name: Option<String>,
    pub uuid: Option<Uuid>,
}

impl TrackIdentAndUrlQuery {
    /// Accepts a query that names the player by a nick or a UUID, and whose
    /// nick, if given, is not empty.
    pub fn try_from(webhook_url: url::Url, name: Option<String>, uuid: Option<Uuid>) -> (r: Result<
        TrackIdentAndUrlQuery,
        &'static str,
    >)
        ensures
            name is None && uuid is None ==> r == Err::<TrackIdentAndUrlQuery, &'static str>(
                "At least one of 'name' or 'uuid' must be provided",
            ),
            !(name is None && uuid is None) && (name matches Some(n) && n@.len() == 0) ==> r == Err::<
                TrackIdentAndUrlQuery,
                &'static str,
            >("'name' can't be empty"),
            !(name is None && uuid is None) && !(name matches Some(n) && n@.len() == 0) ==> (
            r matches Ok(q) && q.webhook_url == webhook_url && q.name == name && q.uuid == uuid),
    {
        if name.is_none() && uuid.is_none() {
            return Err("At least one of 'name' or 'uuid' must be provided");
        }
        if let Some(n) = &name {
            if n.as_str().is_empty() {
                return Err("'name' can't be empty");
            }
        }
        Ok(TrackIdentAndUrlQuery { webhook_url, name, uuid })
    }
}

} // verus!
