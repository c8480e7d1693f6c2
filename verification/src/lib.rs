//! An auction-and-investment card game for two to four players: the packed
//! card model, the fixed-capacity card collections, and the turn engine.

pub mod encoding;
pub mod errors;
pub mod game;
pub mod player;
pub mod random;

pub use crate::encoding::notation::GemNotation;
pub use crate::errors::GemError;
pub use crate::game::card::archtypes::{GemArchtype, GemType};
pub use crate::game::card::card::Card;
pub use crate::game::card::choice::CardChoice;
pub use crate::game::card::collection::CardCollection;
pub use crate::game::card::iterator::CardIterator;
pub use crate::game::game::Game;
pub use crate::game::info::{GameInfo, GameScores};
pub use crate::game::setup::GameSetup;
pub use crate::game::BidValue;
pub use crate::player::behavior::PlayerBehavior;
pub use crate::player::inventory::PlayerInventory;
