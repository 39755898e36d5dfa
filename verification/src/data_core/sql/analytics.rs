//! Rows of the player tracking.

use crate::ids::Uuid;
use crate::time::Timestamp;
use vstd::prelude::*;

verus! {

/// A player followed for a webhook.
#[derive(Debug)]
pub struct PlayerTrack {
    pub id: i32,
    pub name: Option<String>,
    pub uuid: Option<Uuid>,
    pub webhook_id: i32,
    pub last_send: Option<Timestamp>,
    pub last_server_id: Option<i32>,
}

/// A webhook that sightings are sent to.
#[derive(Clone, Debug, PartialEq, Eq)]
pub struct Webhook {
    pub id: i32,
    pub name: String,
    pub url: String,
}

} // verus!
