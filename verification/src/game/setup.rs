//! Seating the players before a game begins.

use crate::errors::GemError;
use crate::game::card::card::{is_gem_deck, Card};
use crate::game::game::Game;
use crate::player::behavior::PlayerBehavior;
use crate::random::shuffle_items;
use vstd::prelude::*;

verus! {

/// The table before the game: the players that have sat down so far, in
/// the order in which they will move. The players are of one kind `B`;
/// where nothing else is said they are boxed, and then of any kinds.
pub struct GameSetup<B: PlayerBehavior = Box<dyn PlayerBehavior>> {
    behaviors: Vec<B>,
}

impl<B: PlayerBehavior> GameSetup<B> {
    /// The players that have sat down, in the order in which they will move.
    pub closed spec fn seats(&self) -> Seq<B> {
        self.behaviors@
    }

    /// The number of players that have sat down.
    pub open spec fn count(&self) -> nat {
        self.seats().len()
    }

    /// The invariant of a setup: no more than four players sit.
    pub open spec fn wf(&self) -> bool {
        self.count() <= 4
    }

    /// An empty table.
    pub fn new() -> (r: Self)
        ensures
            r.wf(),
            r.seats() == Seq::<B>::empty(),
    {
        GameSetup { behaviors: Vec::new() }
    }

    /// Seats a player that is made by `B::default()`. A fifth player is
    /// turned away.
    pub fn add_player(&mut self) -> (r: Result<(), GemError>) where B: Default
        requires
            old(self).wf(),
        ensures
            final(self).wf(),
            old(self).count() < 4 ==> r is Ok && final(self).count() == old(self).count() + 1
                && final(self).seats().drop_last() == old(self).seats(),
            old(self).count() >= 4 ==> r == Err::<(), GemError>(GemError::ReachedPlayerLimit)
                && final(self).seats() == old(self).seats(),
    {
        let player = B::default();
        let r = self.insert_player(player);
        proof {
            if r is Ok {
                assert(old(self).seats().push(player).drop_last() =~= old(self).seats());
            }
        }
        r
    }

    /// Seats `player` behind the players that sit already. A fifth player
    /// is turned away.
    pub fn insert_player(&mut self, player: B) -> (r: Result<(), GemError>)
        requires
            old(self).wf(),
        ensures
            final(self).wf(),
            old(self).count() < 4 ==> r is Ok && final(self).seats() == old(self).seats().push(
                player,
            ),
            old(self).count() >= 4 ==> r == Err::<(), GemError>(GemError::ReachedPlayerLimit)
                && final(self).seats() == old(self).seats(),
    {
        if self.behaviors.len() >= 4 {
            return Err(GemError::ReachedPlayerLimit);
        }
        self.behaviors.push(player);
        Ok(())
    }

    /// Brings the players into a random order, so that each of them may be
    /// the one to start.
    pub fn shuffle_players(&mut self)
        requires
            old(self).wf(),
        ensures
            final(self).wf(),
            final(self).seats().to_multiset() == old(self).seats().to_multiset(),
            final(self).count() == old(self).count(),
    {
        let mut rng = rand::thread_rng();
        let ghost before = self.behaviors@;
        shuffle_items(&mut self.behaviors, &mut rng);
        proof {
            vstd::seq_lib::to_multiset_len(before);
            vstd::seq_lib::to_multiset_len(self.behaviors@);
        }
    }

    /// Ends the setup and begins the game, with the gem cards in a random
    /// order and the first cards dealt. With fewer than two players there
    /// is no game.
    pub fn finish(self) -> (r: Result<Game<B>, GemError>)
        requires
            self.wf(),
        ensures
            self.count() < 2 ==> (r matches Err(e) && e == GemError::TooFewPlayers),
            self.count() >= 2 ==> (r matches Ok(game) && game.wf() && game.seats()
                == self.seats() && Game::<B>::is_start(game@, self.count() as int, game@.deck)
                && exists|cards: Seq<Card>|
                is_gem_deck(cards) && #[trigger] cards.to_multiset() == game@.deck.to_multiset()),
    {
        if self.behaviors.len() < 2 {
            return Err(GemError::TooFewPlayers);
        }
        Ok(Game::new(self.behaviors))
    }
}

impl<B: PlayerBehavior> Default for GameSetup<B> {
    /// An empty table.
    fn default() -> (r: Self)
        ensures
            r.wf(),
            r.seats() == Seq::<B>::empty(),
    {
        Self::new()
    }
}

} // verus!
