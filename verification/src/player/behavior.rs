//! What a player decides.

use crate::game::card::choice::CardChoice;
use crate::game::info::GameInfo;
use crate::game::BidValue;
use vstd::prelude::*;

verus! {

/// The three decisions that a game asks of a player. Each is handed the
/// whole state to look at, and none can change it: what a player decides
/// takes effect only once the game has checked it.
pub trait PlayerBehavior {
    /// The bid of the player whose turn it is, asked once in each cycle of
    /// bids. Any value may come back: a negative one counts as 0, and one
    /// that the player cannot afford fails the step.
    fn bid(&mut self, info: &GameInfo) -> BidValue
        requires
            info.wf(),
            !info@.game_over(),
            info@.is_auction_phase(),
            !info@.round_over,
    ;

    /// The card that the highest bidder takes, as a position in the stack,
    /// and the cards that pay for it, as positions in the bidder's inventory.
    fn pick_card(&mut self, info: &GameInfo) -> (usize, CardChoice)
        requires
            info.wf(),
            !info@.game_over(),
            info@.is_auction_phase(),
            info@.round_over,
    ;

    /// The cards that the player whose turn it is flips, as positions in
    /// the player's inventory, asked once in each reinvestment phase.
    fn reinvest(&mut self, info: &GameInfo) -> CardChoice
        requires
            info.wf(),
            !info@.game_over(),
            info@.is_reinvestment_phase(),
    ;
}

/// A boxed player of any kind decides what the player in the box decides,
/// so that players of different kinds can sit at one table.
impl PlayerBehavior for Box<dyn PlayerBehavior> {
    fn bid(&mut self, info: &GameInfo) -> BidValue {
        (**self).bid(info)
    }

    fn pick_card(&mut self, info: &GameInfo) -> (usize, CardChoice) {
        (**self).pick_card(info)
    }

    fn reinvest(&mut self, info: &GameInfo) -> CardChoice {
        (**self).reinvest(info)
    }
}

} // verus!
