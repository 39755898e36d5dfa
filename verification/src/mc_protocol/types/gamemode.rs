//! The game mode of a player or of a world.

use vstd::prelude::*;

verus! {

/// A game mode.
#[derive(Clone, Copy, Debug, PartialEq, Eq, Hash, Structural)]
pub enum GameMode {
    Survival,
    Creative,
    Adventure,
    Spectator,
}

} // verus!
