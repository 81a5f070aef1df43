//! The events that a tick hands to whoever presents the game.

use vstd::prelude::*;
use crate::grid::Position;

verus! {

/// What happened during a tick, in the order in which it happened.
#[derive(Clone, Copy, Debug, PartialEq, Eq, Structural)]
pub enum Event {
    /// A box was pushed onto the spot at `position`.
    BoxEnteredSpot { position: Position },
    /// A box was pushed off the spot at `position`.
    BoxLeftSpot { position: Position },
    /// Every spot is covered by a box and every box stands on a spot.
    PuzzleSolved,
}

} // verus!
