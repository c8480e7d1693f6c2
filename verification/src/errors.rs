//! Failures that setting up or stepping a game can report.

use vstd::prelude::*;

verus! {

/// Every way in which a setup call or a game step can fail.
#[derive(Clone, Copy, PartialEq, Eq, Structural, Debug)]
pub enum GemError {
    /// A fifth player was added to a setup that already seats four.
    ReachedPlayerLimit,
    /// The setup was finished with fewer than two players.
    TooFewPlayers,
    /// Reserved for drivers that want to reject steps after the last round.
    GameAlreadyOver,
    /// A player bid more than the total value of their non-leveraged cards.
    CannotAffordBid,
    /// The cards offered as payment are worth less than the winning bid.
    TooFewGemCards,
    /// A card offered as payment is already leveraged.
    TriedToUseLeveragedCard,
    /// Reserved for stricter flipping rules.
    TriedToFlipNonLeveragedCard,
    /// Reserved for stricter flipping rules.
    TriedToFlipCoinCard,
    /// The cards a player wants to restore cost more than the cards they pledge.
    CannotAffortToFlip,
}

impl GemError {
    /// The variant's name, as it is shown to users.
    pub fn name(&self) -> (r: &'static str)
        ensures
            r@ == self.spec_name()@,
    {
        match self {
            GemError::ReachedPlayerLimit => "ReachedPlayerLimit",
            GemError::TooFewPlayers => "TooFewPlayers",
            GemError::GameAlreadyOver => "GameAlreadyOver",
            GemError::CannotAffordBid => "CannotAffordBid",
            GemError::TooFewGemCards => "TooFewGemCards",
            GemError::TriedToUseLeveragedCard => "TriedToUseLeveragedCard",
            GemError::TriedToFlipNonLeveragedCard => "TriedToFlipNonLeveragedCard",
            GemError::TriedToFlipCoinCard => "TriedToFlipCoinCard",
            GemError::CannotAffortToFlip => "CannotAffortToFlip",
        }
    }

    /// The name of each variant.
    pub open spec fn spec_name(&self) -> &'static str {
        match self {
            GemError::ReachedPlayerLimit => "ReachedPlayerLimit",
            GemError::TooFewPlayers => "TooFewPlayers",
            GemError::GameAlreadyOver => "GameAlreadyOver",
            GemError::CannotAffordBid => "CannotAffordBid",
            GemError::TooFewGemCards => "TooFewGemCards",
            GemError::TriedToUseLeveragedCard => "TriedToUseLeveragedCard",
            GemError::TriedToFlipNonLeveragedCard => "TriedToFlipNonLeveragedCard",
            GemError::TriedToFlipCoinCard => "TriedToFlipCoinCard",
            GemError::CannotAffortToFlip => "CannotAffortToFlip",
        }
    }
}

} // verus!
