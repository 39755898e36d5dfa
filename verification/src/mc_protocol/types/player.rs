//! A player, as a name and an id.

use crate::ids::Uuid;
use vstd::prelude::*;

verus! {

/// A player: the name shown in game and the account's id.
#[derive(Debug, PartialEq, Eq, Hash)]
pub struct Player {
    pub name: String,
    pub uuid: Uuid,
}

impl Player {
    /// The player as plain values: the name's characters and the id.
    pub open spec fn key(&self) -> (Seq<char>, u128) {
        (self.name@, self.uuid.0)
    }
}

impl Clone for Player {
    fn clone(&self) -> (r: Player)
        ensures
            r == *self,
    {
        Player { name: self.name.clone(), uuid: self.uuid }
    }
}

} // verus!
