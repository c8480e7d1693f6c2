//! The rules of a turn: what a bid, a purchase and a reinvestment do to the
//! state, and when they are refused.

use crate::errors::GemError;
use crate::game::card::choice::CardChoice;
use crate::game::card::iterator::{
    capital_of, chosen_cards, lemma_chosen_cards, leveraged_cards, scalar_value_of, CardIterator,
};
use crate::game::info::{lemma_dealt_before, GameInfo, GameInfoView};
use crate::game::BidValue;
use vstd::prelude::*;

verus! {

impl GameInfoView {
    /// What a bid of `bid` by the player whose turn it is leads to. A
    /// negative bid counts as 0. A bid above the player's capital is
    /// refused. A bid takes the lead only if it is higher than the highest
    /// bid so far; either way the turn passes on.
    pub open spec fn bid_outcome(self, bid: int) -> Result<GameInfoView, GemError> {
        let bid = if bid < 0 {
            0
        } else {
            bid
        };
        if capital_of(self.inventories[self.current_player]) < bid {
            Err(GemError::CannotAffordBid)
        } else if bid > self.highest_bid {
            Ok(self.set_highest_bid(bid, self.current_player).increment_player())
        } else {
            Ok(self.increment_player())
        }
    }

    /// What it leads to that the highest bidder picks the card at
    /// `card_idx`, or the last card where the stack is shorter, and pays
    /// with the cards at the positions in `payment`. A payment that holds a
    /// leveraged card is refused, and so is one that is worth less than the
    /// highest bid. Else the card changes hands, the payment is leveraged,
    /// and the next bidding begins with the player after the buyer; or, if
    /// that was the last card, the reinvestment begins with the buyer.
    pub open spec fn purchase_outcome(self, card_idx: int, payment: Set<int>) -> Result<
        GameInfoView,
        GemError,
    > {
        let buyer = self.highest_bidder;
        let paid = chosen_cards(self.inventories[buyer], payment);
        let card_idx = if card_idx < self.stack.len() {
            card_idx
        } else {
            self.stack.len() - 1
        };
        if paid.filter(leveraged_cards()).len() != 0 {
            Err(GemError::TriedToUseLeveragedCard)
        } else if scalar_value_of(paid) < self.highest_bid {
            Err(GemError::TooFewGemCards)
        } else {
            let bought = self.buy_card(card_idx, buyer, payment).start_step_cycle(
                self.next_clockwise_player(buyer),
            );
            if bought.is_reinvestment_phase() {
                Ok(bought.start_step_cycle(buyer))
            } else {
                Ok(bought)
            }
        }
    }

    /// What it leads to that the player whose turn it is flips the cards at
    /// the positions in `choices`. Flipping is refused where the cards that
    /// the player pledges are worth less than the cards that the player
    /// restores. Else the cards are flipped and the turn passes on; and once
    /// every player had a turn, all coins become available again, the next
    /// round begins, and, unless that ends the game, its cards are dealt.
    pub open spec fn reinvestment_outcome(self, choices: Set<int>) -> Result<
        GameInfoView,
        GemError,
    > {
        let flipped = chosen_cards(self.inventories[self.current_player], choices);
        if scalar_value_of(flipped) < 0 {
            Err(GemError::CannotAffortToFlip)
        } else {
            let passed = self.flip_cards(self.current_player, choices).increment_player();
            if passed.round_over {
                let next_round = passed.reset_coin_cards().increment_round_index().start_step_cycle(
                    passed.next_clockwise_player(passed.highest_bidder),
                );
                if next_round.game_over() {
                    Ok(next_round)
                } else {
                    Ok(next_round.prepare_auction())
                }
            } else {
                Ok(passed)
            }
        }
    }

    /// The number of players that had their turn in the running cycle.
    pub open spec fn turns_taken(self) -> int {
        if self.round_over {
            self.num_players
        } else {
            (self.current_player - self.starting_player) % self.num_players
        }
    }

    /// A bound on the number of decisions that are still to be taken before
    /// the game is over. Every decision that is accepted lowers it.
    pub open spec fn remaining_steps(self) -> int {
        if self.game_over() {
            0
        } else if self.is_auction_phase() {
            (5 - self.round_index) * 30 + self.stack.len() * (self.num_players + 1)
                + self.num_players + 1 - self.turns_taken()
        } else {
            (5 - self.round_index) * 30 + self.num_players + 1 - self.turns_taken()
        }
    }

    /// The bound is 0 exactly when the game is over, and never above 175:
    /// a game ends after at most that many accepted decisions.
    pub proof fn lemma_remaining_steps(self)
        requires
            self.wf(),
        ensures
            0 <= self.remaining_steps() <= 175,
            self.remaining_steps() == 0 <==> self.game_over(),
    {
        self.lemma_turns_taken_range();
        let s = self.stack.len() as int;
        let n = self.num_players;
        assert(0 <= s * (n + 1) <= 20) by (nonlinear_arith)
            requires
                0 <= s <= 4,
                2 <= n <= 4,
        ;
    }

    /// Once somebody has bid, a bid that does not exceed the highest bid
    /// leaves the lead where it is: a tie goes to the player who bid first.
    pub proof fn lemma_tie_keeps_leader(self, bid: int)
        requires
            self.wf(),
            0 <= self.highest_bid,
            bid <= self.highest_bid,
        ensures
            self.bid_outcome(bid) matches Ok(next) ==> next.highest_bidder == self.highest_bidder
                && next.highest_bid == self.highest_bid,
    {
    }

    /// Passing the turn on raises the number of turns taken by one, unless
    /// the cycle was over already.
    proof fn lemma_increment_player(self)
        requires
            self.wf(),
            !self.round_over,
        ensures
            self.increment_player().turns_taken() == self.turns_taken() + 1,
            0 <= self.turns_taken() < self.num_players,
    {
        let n = self.num_players;
        let c = self.current_player;
        let s = self.starting_player;
        if n == 2 {
            assert(0 <= (c - s) % 2 < 2 && 0 <= (c + 1) % 2 < 2 && 0 <= ((c + 1) % 2 - s) % 2 < 2);
        } else if n == 3 {
            assert(0 <= (c - s) % 3 < 3 && 0 <= (c + 1) % 3 < 3 && 0 <= ((c + 1) % 3 - s) % 3 < 3);
        } else {
            assert(0 <= (c - s) % 4 < 4 && 0 <= (c + 1) % 4 < 4 && 0 <= ((c + 1) % 4 - s) % 4 < 4);
        }
    }

    /// A cycle of turns that was just opened has seen no turn yet.
    proof fn lemma_fresh_cycle(self, player: int)
        requires
            self.wf(),
        ensures
            self.start_step_cycle(player).turns_taken() == 0,
    {
        let n = self.num_players;
        assert(n == 2 || n == 3 || n == 4);
        assert(0int % n == 0);
    }
}

impl GameInfo {
    /// Takes the bid of the player whose turn it is, as `bid_outcome` says:
    /// either the bid is refused and nothing changes, or the turn passes on,
    /// with the lead taken if the bid is higher than the highest so far.
    pub fn apply_bid(&mut self, bid: BidValue) -> (r: Result<(), GemError>)
        requires
            old(self).wf(),
        ensures
            final(self).wf(),
            match old(self)@.bid_outcome(bid as int) {
                Ok(next) => r is Ok && final(self)@ == next,
                Err(e) => r == Err::<(), GemError>(e) && final(self)@ == old(self)@,
            },
            0 <= old(self)@.highest_bid && bid <= old(self)@.highest_bid && r is Ok ==> {
                &&& final(self)@.highest_bidder == old(self)@.highest_bidder
                &&& final(self)@.highest_bid == old(self)@.highest_bid
            },
            old(self)@.cards_fit() ==> final(self)@.cards_fit(),
            r is Ok && !old(self)@.game_over() && !old(self)@.round_over ==> {
                final(self)@.remaining_steps() < old(self)@.remaining_steps()
            },
    {
        let idx = self.current_player();
        let bid: BidValue = if bid < 0 {
            0
        } else {
            bid
        };
        if self.inventory_at(idx).iter().capital() < bid {
            return Err(GemError::CannotAffordBid);
        }
        if bid > self.highest_bid() {
            self.set_highest_bid(bid, idx);
        }
        proof {
            self@.lemma_increment_player_or_over();
        }
        self.increment_player();
        Ok(())
    }

    /// Settles an auction, as `purchase_outcome` says: the highest bidder
    /// takes the card at `card_idx`, or the last card where the stack is
    /// shorter, and pays with the cards at the positions in
    /// `payment_choice`; or the payment is refused and nothing changes.
    pub fn apply_purchase(&mut self, card_idx: usize, payment_choice: CardChoice) -> (r: Result<
        (),
        GemError,
    >)
        requires
            old(self).wf(),
            old(self)@.is_auction_phase(),
            old(self)@.cards_fit(),
        ensures
            final(self).wf(),
            final(self)@.cards_fit(),
            match old(self)@.purchase_outcome(card_idx as int, payment_choice@) {
                Ok(next) => r is Ok && final(self)@ == next,
                Err(e) => r == Err::<(), GemError>(e) && final(self)@ == old(self)@,
            },
            r is Ok && !old(self)@.game_over() ==> {
                final(self)@.remaining_steps() < old(self)@.remaining_steps()
            },
    {
        let idx = self.highest_bidder();
        let stack_size = self.stack_size();
        let card_idx = if card_idx < stack_size {
            card_idx
        } else {
            stack_size - 1
        };
        proof {
            lemma_chosen_cards(self@.inventories[idx as int], payment_choice@);
            chosen_cards(self@.inventories[idx as int], payment_choice@).lemma_filter_len(
                leveraged_cards(),
            );
            lemma_dealt_before(self@.num_players, self@.dealt_round());
        }
        if self.inventory_at(idx).choose_cards(payment_choice).leveraged().len() != 0 {
            return Err(GemError::TriedToUseLeveragedCard);
        }
        if self.inventory_at(idx).choose_cards(payment_choice).scalar_value() < self.highest_bid() {
            return Err(GemError::TooFewGemCards);
        }
        proof {
            self@.lemma_turns_taken_range();
        }
        self.buy_card(card_idx, idx, payment_choice);
        let next = self.next_clockwise_player(idx);
        self.start_step_cycle(next);
        if self.is_reinvestment_phase() {
            self.start_step_cycle(idx);
        }
        proof {
            let s = old(self)@.stack.len() as int;
            let n = self@.num_players;
            assert((s - 1) * (n + 1) == s * (n + 1) - (n + 1)) by (nonlinear_arith);
            old(self)@.lemma_fresh_cycle(idx as int);
            old(self)@.lemma_fresh_cycle(next as int);
            assert(self@.turns_taken() == 0);
        }
        Ok(())
    }

    /// Takes the reinvestment of the player whose turn it is, as
    /// `reinvestment_outcome` says: the cards at the positions in `choices`
    /// are flipped and the turn passes on, into the next round once every
    /// player had a turn; or the flips are refused and nothing changes.
    pub fn apply_reinvestment(&mut self, choices: CardChoice) -> (r: Result<(), GemError>)
        requires
            old(self).wf(),
            !old(self)@.game_over(),
            old(self)@.cards_fit(),
        ensures
            final(self).wf(),
            final(self)@.cards_fit(),
            match old(self)@.reinvestment_outcome(choices@) {
                Ok(next) => r is Ok && final(self)@ == next,
                Err(e) => r == Err::<(), GemError>(e) && final(self)@ == old(self)@,
            },
            r is Ok && old(self)@.is_reinvestment_phase() ==> {
                final(self)@.remaining_steps() < old(self)@.remaining_steps()
            },
    {
        let idx = self.current_player();
        proof {
            lemma_chosen_cards(self@.inventories[idx as int], choices@);
            lemma_dealt_before(self@.num_players, self@.dealt_round());
            self@.lemma_turns_taken_range();
        }
        if self.my_inventory().choose_cards(choices).scalar_value() < 0 {
            return Err(GemError::CannotAffortToFlip);
        }
        self.flip_cards(idx, choices);
        proof {
            self@.lemma_increment_player_or_over();
        }
        self.increment_player();

        // the reinvestment phase has a single cycle of turns
        if self.round_over() {
            self.reset_coin_cards();
            self.increment_round_index();
            let next = self.next_clockwise_player(self.highest_bidder());
            self.start_step_cycle(next);
            proof {
                lemma_dealt_before(self@.num_players, self@.dealt_round());
                lemma_dealt_before(self@.num_players, self@.round_index);
            }
            if !self.game_over() {
                self.prepare_auction();
                proof {
                    let s = self@.stack.len() as int;
                    let n = self@.num_players;
                    assert(s * (n + 1) <= 20) by (nonlinear_arith)
                        requires
                            0 <= s <= 4,
                            2 <= n <= 4,
                    ;
                }
            }
        }
        Ok(())
    }
}

impl GameInfoView {
    /// Between none and all of the players had their turn.
    proof fn lemma_turns_taken_range(self)
        requires
            self.wf(),
        ensures
            0 <= self.turns_taken() <= self.num_players,
    {
        let n = self.num_players;
        assert(n == 2 || n == 3 || n == 4);
        assert(0 <= (self.current_player - self.starting_player) % n < n);
    }

    /// Passing the turn on never lowers the number of turns taken, and
    /// raises it while the cycle is not over.
    proof fn lemma_increment_player_or_over(self)
        requires
            self.wf(),
        ensures
            0 <= self.turns_taken() <= self.num_players,
            self.increment_player().turns_taken() <= self.num_players,
            !self.round_over ==> self.increment_player().turns_taken() == self.turns_taken() + 1,
            self.round_over ==> self.increment_player().turns_taken() == self.turns_taken(),
    {
        self.lemma_turns_taken_range();
        if !self.round_over {
            self.lemma_increment_player();
        }
    }
}

} // verus!
