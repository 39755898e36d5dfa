//! The difficulty of a world.

use vstd::prelude::*;

verus! {

/// A difficulty level.
#[derive(Clone, Copy, Debug, PartialEq, Eq, Hash, Structural)]
pub enum Difficulty {
    Peaceful,
    Easy,
    Normal,
    Hard,
}

} // verus!
