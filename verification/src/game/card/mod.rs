//! Cards, the sixteen gem archetypes, selections of cards and collections of them.

pub mod archtypes;
pub mod card;
pub mod choice;
pub mod collection;
pub mod iterator;
