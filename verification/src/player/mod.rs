//! What sits at the table: a player's cards and a player's decisions.

pub mod behavior;
pub mod inventory;
