//! The game itself: cards, the shared state, and the driver that steps it.

use vstd::prelude::*;

pub mod card;
pub mod game;
pub mod info;
pub mod rules;
pub mod setup;

verus! {

/// The amount of a bid, and the face value of a card.
pub type BidValue = i8;

} // verus!
