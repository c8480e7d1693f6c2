//! A game in progress: the state together with the players who decide.

use crate::errors::GemError;
use crate::game::card::card::{is_gem_deck, Card};
use crate::game::card::collection::CardCollection;
use crate::game::info::{lemma_dealt_before, GameInfo, GameInfoView, GameScores};
use crate::player::behavior::PlayerBehavior;
use vstd::prelude::*;

verus! {

/// How a step that asked a player ended: the decision was accepted and led
/// to `next`, or it was refused with an error and changed nothing.
pub open spec fn step_took(
    outcome: Result<GameInfoView, GemError>,
    before: GameInfoView,
    after: GameInfoView,
    result: Result<Option<GameScores>, GemError>,
) -> bool {
    match outcome {
        Ok(next) => after == next && result == Ok::<Option<GameScores>, GemError>(None),
        Err(e) => after == before && result == Err::<Option<GameScores>, GemError>(e),
    }
}

/// Whether one step can lead from `before`, where the game is not over, to
/// `after` with `result`: in the auction phase some bid of the player whose
/// turn it is, or, once all have bid, some pick of the highest bidder; in
/// the reinvestment phase some selection of the player whose turn it is.
pub open spec fn is_step(
    before: GameInfoView,
    after: GameInfoView,
    result: Result<Option<GameScores>, GemError>,
) -> bool {
    if before.is_auction_phase() && !before.round_over {
        exists|bid: int|
            -128 <= bid <= 127 && step_took(
                #[trigger] before.bid_outcome(bid),
                before,
                after,
                result,
            )
    } else if before.is_auction_phase() {
        exists|card_idx: int, payment: Set<int>|
            0 <= card_idx && step_took(
                #[trigger] before.purchase_outcome(card_idx, payment),
                before,
                after,
                result,
            )
    } else {
        exists|choices: Set<int>|
            step_took(#[trigger] before.reinvestment_outcome(choices), before, after, result)
    }
}

/// Whether `steps` accepted decisions, one after the other, each taken
/// while the game is not over, can lead from `before` to `after`.
pub open spec fn plays_to(before: GameInfoView, after: GameInfoView, steps: nat) -> bool
    decreases steps,
{
    if steps == 0 {
        after == before
    } else {
        exists|last: GameInfoView|
            plays_to(before, last, (steps - 1) as nat) && !last.game_over() && #[trigger] is_step(
                last,
                after,
                Ok(None),
            )
    }
}

/// One more accepted decision lengthens a run of decisions by one.
proof fn lemma_plays_on(before: GameInfoView, last: GameInfoView, after: GameInfoView, steps: nat)
    requires
        plays_to(before, last, steps),
        !last.game_over(),
        is_step(last, after, Ok(None)),
    ensures
        plays_to(before, after, steps + 1),
{
    assert((steps + 1 - 1) as nat == steps);
}

/// A game in progress. It owns the state and the players, asks the player
/// whose turn it is, and changes the state only by what the rules accept.
/// The players are of one kind `B`; where nothing else is said they are
/// boxed, and then of any kinds.
pub struct Game<B: PlayerBehavior = Box<dyn PlayerBehavior>> {
    info: GameInfo,
    behaviors: Vec<B>,
}

impl<B: PlayerBehavior> View for Game<B> {
    type V = GameInfoView;

    /// The state of the game.
    closed spec fn view(&self) -> GameInfoView {
        self.info@
    }
}

impl<B: PlayerBehavior> Game<B> {
    /// The players at the table, by seat.
    pub closed spec fn seats(&self) -> Seq<B> {
        self.behaviors@
    }

    /// The number of players at the table.
    pub open spec fn players(&self) -> nat {
        self.seats().len()
    }

    /// The invariant of a game: a state that keeps its own invariant, with
    /// room for the cards still to be bought, and one player for each seat
    /// that takes part.
    pub closed spec fn wf(&self) -> bool {
        &&& self.info.wf()
        &&& self.info@.cards_fit()
        &&& self.behaviors@.len() == self.info@.num_players
    }

    /// Whether `state` is how a game of `num_players` begins: the first
    /// cards are dealt from `deck` and the first player is to bid.
    pub open spec fn is_start(state: GameInfoView, num_players: int, deck: Seq<Card>) -> bool {
        exists|initial: GameInfoView| #[trigger]
            GameInfo::is_initial(initial, num_players) && initial.wf() && initial.deck == deck
                && state == initial.prepare_auction()
    }

    /// A game for the given players, two to four of them, with the gem
    /// cards in a random order. The first cards are dealt.
    pub fn new(behaviors: Vec<B>) -> (r: Self)
        requires
            2 <= behaviors@.len() <= 4,
        ensures
            r.wf(),
            r.seats() == behaviors@,
            Self::is_start(r@, behaviors@.len() as int, r@.deck),
            exists|cards: Seq<Card>|
                is_gem_deck(cards) && #[trigger] cards.to_multiset() == r@.deck.to_multiset(),
    {
        let info = GameInfo::new(behaviors.len());
        Self::start(info, behaviors)
    }

    /// A game for the given players, two to four of them, that deals the
    /// eighteen cards of `deck` in the order they have. The first cards are
    /// dealt.
    pub fn with_deck(behaviors: Vec<B>, deck: CardCollection<18>) -> (r: Self)
        requires
            2 <= behaviors@.len() <= 4,
            deck.wf(),
            deck@.len() == 18,
        ensures
            r.wf(),
            r.seats() == behaviors@,
            Self::is_start(r@, behaviors@.len() as int, deck@),
    {
        let info = GameInfo::with_deck(behaviors.len(), deck);
        Self::start(info, behaviors)
    }

    /// Deals the first cards of a game that is about to begin.
    fn start(info: GameInfo, behaviors: Vec<B>) -> (r: Self)
        requires
            info.wf(),
            GameInfo::is_initial(info@, behaviors@.len() as int),
        ensures
            r.wf(),
            r.seats() == behaviors@,
            r@ == info@.prepare_auction(),
            Self::is_start(r@, behaviors@.len() as int, info@.deck),
    {
        let mut info = info;
        let ghost initial = info@;
        info.prepare_auction();
        proof {
            lemma_dealt_before(initial.num_players, 1);
            lemma_dealt_before(initial.num_players, 0);
            assert(GameInfo::is_initial(initial, behaviors@.len() as int) && initial.wf()
                && initial.deck == initial.deck && info@ == initial.prepare_auction());
        }
        Game { info, behaviors }
    }

    /// Steps through the game until it is over, and gives the final scores;
    /// or stops at the first decision that is refused, with its error.
    pub fn run(&mut self) -> (r: Result<GameScores, GemError>)
        requires
            old(self).wf(),
        ensures
            final(self).wf(),
            final(self).players() == old(self).players(),
            exists|steps: nat|
                steps <= old(self)@.remaining_steps() && #[trigger] plays_to(
                    old(self)@,
                    final(self)@,
                    steps,
                ),
            r matches Ok(scores) ==> final(self)@.game_over() && scores@ == final(self)@.scores(),
            r matches Err(e) ==> !final(self)@.game_over() && is_step(
                final(self)@,
                final(self)@,
                Err(e),
            ),
            final(self)@.num_players == old(self)@.num_players,
            final(self)@.deck == old(self)@.deck,
    {
        let ghost mut steps: nat = 0;
        loop
            invariant
                self.wf(),
                self.players() == old(self).players(),
                self@.num_players == old(self)@.num_players,
                self@.deck == old(self)@.deck,
                plays_to(old(self)@, self@, steps),
                steps + self@.remaining_steps() <= old(self)@.remaining_steps(),
            decreases self@.remaining_steps(),
        {
            let ghost before = self@;
            match self.step() {
                Ok(Some(scores)) => {
                    return Ok(scores);
                },
                Ok(None) => {
                    proof {
                        lemma_plays_on(old(self)@, before, self@, steps);
                        steps = steps + 1;
                    }
                },
                Err(e) => {
                    return Err(e);
                },
            }
        }
    }

    /// Takes one step: one decision of one player. While the game runs, the
    /// player whose turn it is decides, and the result is `None` if the
    /// rules accept the decision, else the error, with the state unchanged.
    /// Once the game is over, every step gives the final scores and changes
    /// nothing.
    pub fn step(&mut self) -> (r: Result<Option<GameScores>, GemError>)
        requires
            old(self).wf(),
        ensures
            final(self).wf(),
            final(self).players() == old(self).players(),
            old(self)@.game_over() ==> final(self)@ == old(self)@ && (r matches Ok(Some(scores))
                && scores@ == old(self)@.scores()),
            !old(self)@.game_over() ==> is_step(old(self)@, final(self)@, r),
            r matches Ok(None) ==> final(self)@.remaining_steps() < old(self)@.remaining_steps(),
            r is Err ==> final(self)@ == old(self)@,
            final(self)@.num_players == old(self)@.num_players,
            final(self)@.deck == old(self)@.deck,
    {
        if self.info.game_over() {
            return Ok(Some(self.info.scores()));
        }
        let taken = if self.info.is_auction_phase() {
            self.step_auction()
        } else {
            self.step_reinvestment()
        };
        match taken {
            Ok(()) => Ok(None),
            Err(e) => Err(e),
        }
    }

    /// One step of the auction phase: the bid of the player whose turn it
    /// is, or, once all have bid, the purchase of the highest bidder.
    fn step_auction(&mut self) -> (r: Result<(), GemError>)
        requires
            old(self).wf(),
            !old(self)@.game_over(),
            old(self)@.is_auction_phase(),
        ensures
            final(self).wf(),
            final(self).players() == old(self).players(),
            is_step(
                old(self)@,
                final(self)@,
                match r {
                    Ok(_) => Ok(None),
                    Err(e) => Err(e),
                },
            ),
            r is Ok ==> final(self)@.remaining_steps() < old(self)@.remaining_steps(),
            r is Err ==> final(self)@ == old(self)@,
    {
        if !self.info.round_over() {
            let idx = self.info.current_player();
            let bid = self.behaviors[idx].bid(&self.info);
            let r = self.info.apply_bid(bid);
            proof {
                let result: Result<Option<GameScores>, GemError> = match r {
                    Ok(_) => Ok(None),
                    Err(e) => Err(e),
                };
                assert(step_took(old(self)@.bid_outcome(bid as int), old(self)@, self@, result));
            }
            r
        } else {
            let idx = self.info.highest_bidder();
            let (card_idx, payment_choice) = self.behaviors[idx].pick_card(&self.info);
            let r = self.info.apply_purchase(card_idx, payment_choice);
            proof {
                let result: Result<Option<GameScores>, GemError> = match r {
                    Ok(_) => Ok(None),
                    Err(e) => Err(e),
                };
                assert(step_took(
                    old(self)@.purchase_outcome(card_idx as int, payment_choice@),
                    old(self)@,
                    self@,
                    result,
                ));
            }
            r
        }
    }

    /// One step of the reinvestment phase: the flips of the player whose
    /// turn it is.
    fn step_reinvestment(&mut self) -> (r: Result<(), GemError>)
        requires
            old(self).wf(),
            !old(self)@.game_over(),
            old(self)@.is_reinvestment_phase(),
        ensures
            final(self).wf(),
            final(self).players() == old(self).players(),
            is_step(
                old(self)@,
                final(self)@,
                match r {
                    Ok(_) => Ok(None),
                    Err(e) => Err(e),
                },
            ),
            r is Ok ==> final(self)@.remaining_steps() < old(self)@.remaining_steps(),
            r is Err ==> final(self)@ == old(self)@,
    {
        let idx = self.info.current_player();
        let choices = self.behaviors[idx].reinvest(&self.info);
        let r = self.info.apply_reinvestment(choices);
        proof {
            let result: Result<Option<GameScores>, GemError> = match r {
                Ok(_) => Ok(None),
                Err(e) => Err(e),
            };
            assert(step_took(old(self)@.reinvestment_outcome(choices@), old(self)@, self@, result));
        }
        r
    }

    /// The state of the game, to look at.
    pub fn info_ref(&self) -> (r: &GameInfo)
        requires
            self.wf(),
        ensures
            r.wf(),
            r@ == self@,
            r@.cards_fit(),
    {
        &self.info
    }
}

} // verus!
