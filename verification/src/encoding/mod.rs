//! Ways to write a game's state down.

pub mod notation;
