//! The state of a game, with the single transitions that change it.

use crate::game::card::card::{is_gem_deck, Card};
use crate::game::card::choice::CardChoice;
use crate::game::card::collection::CardCollection;
use crate::game::card::iterator::{flip_chosen, gem_points, leverage_chosen, release_coins};
use crate::game::BidValue;
use crate::player::inventory::{is_starting_hand, PlayerInventory};
use vstd::prelude::*;

verus! {

/// The number of cards that are put up for auction in a round: three in
/// every round of a game of three; in any other game four in the first
/// round, two in the last and three in between.
pub open spec fn stack_size(num_players: int, round: int) -> int {
    if num_players == 3 {
        3
    } else if round == 0 {
        4
    } else if round == 5 {
        2
    } else {
        3
    }
}

/// The number of cards that were put up for auction in the rounds before `round`.
pub open spec fn dealt_before(num_players: int, round: int) -> int
    decreases round,
{
    if round <= 0 {
        0
    } else {
        dealt_before(num_players, round - 1) + stack_size(num_players, round - 1)
    }
}

/// The deck is dealt out over the six rounds: at most eighteen cards are
/// ever dealt, and each round adds its own to those before it.
pub proof fn lemma_dealt_before(num_players: int, round: int)
    requires
        2 <= num_players <= 4,
        0 <= round <= 6,
    ensures
        0 <= dealt_before(num_players, round) <= 18,
        dealt_before(num_players, 6) == 18,
        round < 6 ==> dealt_before(num_players, round + 1) == dealt_before(num_players, round)
            + stack_size(num_players, round),
        num_players == 3 ==> dealt_before(num_players, round) == 3 * round,
        num_players != 3 && 0 < round < 6 ==> dealt_before(num_players, round) == 3 * round + 1,
{
    reveal_with_fuel(dealt_before, 8);
}

/// The state of a game as plain values.
pub struct GameInfoView {
    /// The number of players, from 2 to 4.
    pub num_players: int,
    /// The round: 0 to 5 while the game runs, 6 when it is over.
    pub round_index: int,
    /// The player whose turn it is.
    pub current_player: int,
    /// The player with whom the running cycle of turns began.
    pub starting_player: int,
    /// The player who made the highest bid.
    pub highest_bidder: int,
    /// Whether every player had a turn in the running cycle.
    pub round_over: bool,
    /// The highest bid of the running auction, or -1 where nobody bid.
    pub highest_bid: int,
    /// The cards of each of the four seats. Only the seats of the players
    /// that take part ever get cards beyond the three coins.
    pub inventories: Seq<Seq<Card>>,
    /// The deck, in the order in which it is dealt.
    pub deck: Seq<Card>,
    /// The cards that are up for auction.
    pub stack: Seq<Card>,
}

impl GameInfoView {
    /// The ranges that the parts of a state keep to.
    pub open spec fn wf(self) -> bool {
        &&& 2 <= self.num_players <= 4
        &&& 0 <= self.round_index <= 6
        &&& 0 <= self.current_player < self.num_players
        &&& 0 <= self.starting_player < self.num_players
        &&& 0 <= self.highest_bidder < self.num_players
        &&& -128 <= self.highest_bid <= 127
        &&& self.inventories.len() == 4
        &&& forall|p: int| 0 <= p < 4 ==> (#[trigger] self.inventories[p]).len() <= 21
        &&& self.deck.len() == 18
        &&& self.stack.len() <= 4
    }

    /// The game is in the auction phase while cards are up for auction.
    pub open spec fn is_auction_phase(self) -> bool {
        self.stack.len() > 0
    }

    /// The game is in the reinvestment phase while no card is up for auction.
    pub open spec fn is_reinvestment_phase(self) -> bool {
        !self.is_auction_phase()
    }

    /// The game is over after the sixth round.
    pub open spec fn game_over(self) -> bool {
        self.round_index > 5
    }

    /// The number of rounds whose cards were dealt, the running one included.
    pub open spec fn dealt_round(self) -> int {
        if self.round_index < 6 {
            self.round_index + 1
        } else {
            6
        }
    }

    /// The number of cards that were dealt up to and including the running round.
    pub open spec fn dealt_through(self) -> int {
        dealt_before(self.num_players, self.dealt_round())
    }

    /// Whether no seat holds more than its three coins and the cards that
    /// left the stack so far. A game that starts with the three coins and
    /// moves cards by purchase only keeps to this, and then no inventory
    /// overflows.
    pub open spec fn cards_fit(self) -> bool {
        forall|p: int|
            0 <= p < 4 ==> (#[trigger] self.inventories[p]).len() + self.stack.len() <= 3
                + self.dealt_through()
    }

    /// The player who sits after `idx`, clockwise.
    pub open spec fn next_clockwise_player(self, idx: int) -> int {
        (idx + 1) % self.num_players
    }

    /// The state after a new cycle of turns was opened with `player`.
    pub open spec fn start_step_cycle(self, player: int) -> GameInfoView {
        GameInfoView {
            round_over: false,
            starting_player: player,
            current_player: player,
            highest_bid: -1,
            ..self
        }
    }

    /// The state after the turn passed to the next player. The cycle is over
    /// once the turn is back with the player who began it.
    pub open spec fn increment_player(self) -> GameInfoView {
        let next = self.next_clockwise_player(self.current_player);
        GameInfoView {
            current_player: next,
            round_over: self.round_over || next == self.starting_player,
            ..self
        }
    }

    /// The state after `idx` took the lead with `bid`.
    pub open spec fn set_highest_bid(self, bid: int, idx: int) -> GameInfoView {
        GameInfoView { highest_bidder: idx, highest_bid: bid, ..self }
    }

    /// The state in the next round.
    pub open spec fn increment_round_index(self) -> GameInfoView {
        GameInfoView { round_index: self.round_index + 1, ..self }
    }

    /// The stack after the cards of the running round were dealt onto it:
    /// the next cards of the deck, and behind them what the stack held
    /// beyond their number.
    pub open spec fn dealt_stack(self) -> Seq<Card> {
        let first = dealt_before(self.num_players, self.round_index);
        let size = stack_size(self.num_players, self.round_index);
        self.deck.subrange(first, first + size) + (if size < self.stack.len() {
            self.stack.skip(size)
        } else {
            Seq::empty()
        })
    }

    /// The state after the cards of the running round were dealt and the
    /// bidding was opened with the player after the last highest bidder.
    pub open spec fn prepare_auction(self) -> GameInfoView {
        GameInfoView { stack: self.dealt_stack(), ..self }.start_step_cycle(
            self.next_clockwise_player(self.highest_bidder),
        )
    }

    /// The state after `player_idx` took the card at `card_idx` from the
    /// stack and leveraged the cards at the positions in `payment`. The
    /// positions are those of the inventory with the new card in it.
    pub open spec fn buy_card(self, card_idx: int, player_idx: int, payment: Set<int>)
        -> GameInfoView {
        let bought = self.inventories[player_idx].push(self.stack[card_idx]);
        GameInfoView {
            stack: self.stack.remove(card_idx),
            inventories: self.inventories.update(player_idx, leverage_chosen(bought, payment)),
            ..self
        }
    }

    /// The state after `player` flipped the cards at the positions in `choices`.
    pub open spec fn flip_cards(self, player: int, choices: Set<int>) -> GameInfoView {
        GameInfoView {
            inventories: self.inventories.update(
                player,
                flip_chosen(self.inventories[player], choices),
            ),
            ..self
        }
    }

    /// The state after every coin of every seat became available again.
    pub open spec fn reset_coin_cards(self) -> GameInfoView {
        GameInfoView {
            inventories: Seq::new(4, |p: int| release_coins(self.inventories[p])),
            ..self
        }
    }

    /// The points of each seat: one for each gem on a gem card that is not leveraged.
    pub open spec fn scores(self) -> Seq<int> {
        Seq::new(4, |p: int| gem_points(self.inventories[p]))
    }
}

/// The points of each of the four seats.
#[derive(Clone, Copy, Debug, PartialEq, Eq)]
pub struct GameScores([i32; 4]);

impl View for GameScores {
    type V = Seq<int>;

    /// The points, by seat.
    closed spec fn view(&self) -> Seq<int> {
        Seq::new(4, |p: int| self.0@[p] as int)
    }
}

impl GameScores {
    /// The points of the seat `player`.
    pub fn score(&self, player: usize) -> (r: i32)
        requires
            player < 4,
        ensures
            r == self@[player as int],
    {
        self.0[player]
    }
}

impl Default for GameScores {
    /// No points for anybody.
    fn default() -> (r: Self)
        ensures
            r@ == Seq::new(4, |p: int| 0int),
    {
        let r = GameScores([0, 0, 0, 0]);
        assert(r@ =~= Seq::new(4, |p: int| 0int));
        r
    }
}

/// Everything that makes up the state of a game. It changes through its own
/// methods only, one transition at a time, and never asks a player anything.
#[derive(Clone, Copy, Debug, PartialEq, Eq)]
pub struct GameInfo {
    /// The number of players, from 2 to 4.
    num_players: usize,
    /// The round: 0 to 5 while the game runs, 6 when it is over.
    round_index: usize,
    /// The player whose turn it is.
    current_player: usize,
    /// The player with whom the running cycle of turns began.
    starting_player: usize,
    /// The player who made the highest bid.
    highest_bidder: usize,
    /// Whether every player had a turn in the running cycle.
    round_over: bool,
    /// The highest bid of the running auction, or -1 where nobody bid.
    highest_bid: BidValue,
    /// The cards of each seat.
    inventories: [PlayerInventory; 4],
    /// The deck, in the order in which it is dealt.
    deck: CardCollection<18>,
    /// The cards that are up for auction. The game is in the auction phase
    /// while there are any, else in the reinvestment phase.
    stack: CardCollection<4>,
}

impl View for GameInfo {
    type V = GameInfoView;

    closed spec fn view(&self) -> GameInfoView {
        GameInfoView {
            num_players: self.num_players as int,
            round_index: self.round_index as int,
            current_player: self.current_player as int,
            starting_player: self.starting_player as int,
            highest_bidder: self.highest_bidder as int,
            round_over: self.round_over,
            highest_bid: self.highest_bid as int,
            inventories: Seq::new(4, |p: int| self.inventories@[p]@),
            deck: self.deck@,
            stack: self.stack@,
        }
    }
}

//
// Constructors
//
impl GameInfo {
    /// Whether each collection of cards keeps its own invariant.
    pub closed spec fn collections_wf(&self) -> bool {
        &&& forall|p: int| 0 <= p < 4 ==> (#[trigger] self.inventories@[p]).wf()
        &&& self.deck.wf()
        &&& self.stack.wf()
    }

    /// The invariant of the state.
    pub open spec fn wf(&self) -> bool {
        &&& self.collections_wf()
        &&& self@.wf()
    }

    /// Whether `state` is how a game of `num_players` begins, before any
    /// card is dealt: round 0, the first player to move, the last player as
    /// the highest bidder so far, no bid, and the three coins at every seat.
    pub open spec fn is_initial(state: GameInfoView, num_players: int) -> bool {
        &&& state.num_players == num_players
        &&& state.round_index == 0
        &&& state.current_player == 0
        &&& state.starting_player == 0
        &&& state.highest_bidder == num_players - 1
        &&& !state.round_over
        &&& state.highest_bid == -1
        &&& state.inventories.len() == 4
        &&& forall|p: int| 0 <= p < 4 ==> is_starting_hand(#[trigger] state.inventories[p])
        &&& state.stack.len() == 0
    }

    /// The state at the start of a game of `num_players`, with the gem
    /// cards shuffled into a random order.
    pub fn new(num_players: usize) -> (r: Self)
        requires
            2 <= num_players <= 4,
        ensures
            r.wf(),
            r@.cards_fit(),
            Self::is_initial(r@, num_players as int),
            exists|cards: Seq<Card>|
                is_gem_deck(cards) && #[trigger] cards.to_multiset() == r@.deck.to_multiset(),
    {
        let mut deck = Card::gem_deck();
        let ghost first = deck@;
        let mut rng = rand::thread_rng();
        deck.shuffle(&mut rng);
        proof {
            vstd::seq_lib::to_multiset_len(first);
            vstd::seq_lib::to_multiset_len(deck@);
        }
        let r = Self::with_deck(num_players, deck);
        proof {
            assert(is_gem_deck(first) && first.to_multiset() == r@.deck.to_multiset());
        }
        r
    }

    /// The state at the start of a game of `num_players` that deals the
    /// eighteen cards of `deck` in the order they have.
    pub fn with_deck(num_players: usize, deck: CardCollection<18>) -> (r: Self)
        requires
            2 <= num_players <= 4,
            deck.wf(),
            deck@.len() == 18,
        ensures
            r.wf(),
            r@.cards_fit(),
            Self::is_initial(r@, num_players as int),
            r@.deck == deck@,
    {
        let hand = PlayerInventory::with_coins();
        proof {
            lemma_dealt_before(num_players as int, 1);
        }
        GameInfo {
            num_players,
            round_index: 0,
            current_player: 0,
            starting_player: 0,
            highest_bidder: num_players - 1,
            round_over: false,
            highest_bid: -1,
            inventories: [hand, hand, hand, hand],
            deck,
            stack: CardCollection::empty(),
        }
    }
}

//
// Basic getters/setters
//
impl GameInfo {
    /// The number of players, from 2 to 4.
    #[inline]
    pub fn num_players(&self) -> (r: usize)
        ensures
            r == self@.num_players,
    {
        self.num_players
    }

    /// The round: 0 to 5 while the game runs, 6 when it is over.
    #[inline]
    pub fn round_index(&self) -> (r: usize)
        ensures
            r == self@.round_index,
    {
        self.round_index
    }

    /// Moves on to the next round.
    #[inline]
    pub fn increment_round_index(&mut self)
        requires
            old(self).wf(),
            !old(self)@.game_over(),
        ensures
            final(self).wf(),
            final(self)@ == old(self)@.increment_round_index(),
    {
        self.round_index += 1;
    }

    /// The player whose turn it is.
    #[inline]
    pub fn current_player(&self) -> (r: usize)
        ensures
            r == self@.current_player,
    {
        self.current_player
    }

    /// Hands the turn to the player `idx`.
    #[inline]
    pub fn set_current_player(&mut self, idx: usize)
        requires
            old(self).wf(),
            idx < old(self)@.num_players,
        ensures
            final(self).wf(),
            final(self)@ == (GameInfoView { current_player: idx as int, ..old(self)@ }),
    {
        self.current_player = idx;
    }

    /// The player with whom the running cycle of turns began.
    #[inline]
    pub fn starting_player(&self) -> (r: usize)
        ensures
            r == self@.starting_player,
    {
        self.starting_player
    }

    /// The player who made the highest bid.
    #[inline]
    pub fn highest_bidder(&self) -> (r: usize)
        ensures
            r == self@.highest_bidder,
    {
        self.highest_bidder
    }

    /// Whether every player had a turn in the running cycle.
    #[inline]
    pub fn round_over(&self) -> (r: bool)
        ensures
            r == self@.round_over,
    {
        self.round_over
    }

    /// The highest bid of the running auction, or -1 where nobody bid.
    #[inline]
    pub fn highest_bid(&self) -> (r: BidValue)
        ensures
            r == self@.highest_bid,
    {
        self.highest_bid
    }

    /// Records that the player `idx` took the lead with `bid`.
    #[inline]
    pub fn set_highest_bid(&mut self, bid: BidValue, idx: usize)
        requires
            old(self).wf(),
            idx < old(self)@.num_players,
        ensures
            final(self).wf(),
            final(self)@ == old(self)@.set_highest_bid(bid as int, idx as int),
    {
        self.highest_bidder = idx;
        self.highest_bid = bid;
    }

    /// The inventories of the players that take part, by seat.
    #[inline]
    pub fn inventories(&self) -> (r: &[PlayerInventory])
        requires
            self.wf(),
        ensures
            r@.len() == self@.num_players,
            forall|p: int|
                0 <= p < r@.len() ==> (#[trigger] r@[p]).wf() && r@[p]@ == self@.inventories[p],
    {
        vstd::slice::slice_subrange(self.inventories.as_slice(), 0, self.num_players)
    }

    /// The inventory of the seat `idx`.
    #[inline]
    pub fn inventory_at(&self, idx: usize) -> (r: &PlayerInventory)
        requires
            self.wf(),
            idx < 4,
        ensures
            r.wf(),
            r@ == self@.inventories[idx as int],
    {
        &self.inventories[idx]
    }

    /// The cards that are up for auction.
    #[inline]
    pub fn stack(&self) -> (r: &CardCollection<4>)
        requires
            self.wf(),
        ensures
            r.wf(),
            r@ == self@.stack,
    {
        &self.stack
    }

    /// The number of cards that are up for auction.
    #[inline]
    pub fn stack_size(&self) -> (r: usize)
        requires
            self.wf(),
        ensures
            r == self@.stack.len(),
    {
        self.stack.len()
    }
}

//
// Round/phase managing
//
impl GameInfo {
    /// Opens a new cycle of turns, of bids or of reinvestments, with the
    /// player `player_idx`, and forgets the highest bid.
    pub fn start_step_cycle(&mut self, player_idx: usize)
        requires
            old(self).wf(),
            player_idx < old(self)@.num_players,
        ensures
            final(self).wf(),
            final(self)@ == old(self)@.start_step_cycle(player_idx as int),
    {
        self.round_over = false;
        self.starting_player = player_idx;
        self.current_player = player_idx;
        self.highest_bid = -1;
    }

    /// Passes the turn to the next player, clockwise. Once it is back with
    /// the player who began the cycle, the cycle is over.
    pub fn increment_player(&mut self)
        requires
            old(self).wf(),
        ensures
            final(self).wf(),
            final(self)@ == old(self)@.increment_player(),
    {
        self.current_player = self.next_clockwise_player(self.current_player);
        if self.current_player == self.starting_player {
            self.round_over = true;
        }
    }

    /// The number of cards that are auctioned in the round `round`.
    fn stack_size_of(&self, round: usize) -> (r: usize)
        ensures
            r == stack_size(self@.num_players, round as int),
            2 <= r <= 4,
    {
        if self.num_players == 3 {
            3
        } else if round == 0 {
            4
        } else if round == 5 {
            2
        } else {
            3
        }
    }

    /// Deals the cards of the running round from the deck onto the stack
    /// and opens the bidding with the player after the last highest bidder.
    pub fn prepare_auction(&mut self)
        requires
            old(self).wf(),
            !old(self)@.game_over(),
        ensures
            final(self).wf(),
            final(self)@ == old(self)@.prepare_auction(),
    {
        let round_index = self.round_index;
        let mut idx: usize = 0;
        let mut round: usize = 0;
        while round < round_index
            invariant
                round <= round_index <= 5,
                idx == dealt_before(self@.num_players, round as int),
                self@.num_players != 3 && round > 0 ==> idx == 3 * round + 1,
                self@.num_players == 3 ==> idx == 3 * round,
            decreases round_index - round,
        {
            idx = idx + self.stack_size_of(round);
            round += 1;
        }
        let size = self.stack_size_of(round_index);
        self.stack.copy_from(&self.deck, idx..idx + size, 0..size);
        let next = self.next_clockwise_player(self.highest_bidder);
        self.start_step_cycle(next);
    }

    /// The player who sits after `idx`, clockwise.
    #[inline]
    pub fn next_clockwise_player(&self, idx: usize) -> (r: usize)
        requires
            self.wf(),
            idx < usize::MAX,
        ensures
            r == self@.next_clockwise_player(idx as int),
            r < self@.num_players,
    {
        (idx + 1) % self.num_players
    }

    /// Whether cards are up for auction.
    #[inline]
    pub fn is_auction_phase(&self) -> (r: bool)
        requires
            self.wf(),
        ensures
            r == self@.is_auction_phase(),
    {
        !self.stack.is_empty()
    }

    /// Whether no card is up for auction, so that the players reinvest.
    #[inline]
    pub fn is_reinvestment_phase(&self) -> (r: bool)
        requires
            self.wf(),
        ensures
            r == self@.is_reinvestment_phase(),
    {
        !self.is_auction_phase()
    }

    /// Whether the game is over.
    #[inline]
    pub fn game_over(&self) -> (r: bool)
        ensures
            r == self@.game_over(),
    {
        self.round_index > 5
    }
}

//
// Moving and flipping cards
//
impl GameInfo {
    /// Moves the card at `card_idx` from the stack to the end of the
    /// inventory of `player_idx`, and leverages the cards of that inventory
    /// at the positions in `payment_choice`. Whether the payment covers the
    /// bid is for the caller to check beforehand.
    pub fn buy_card(&mut self, card_idx: usize, player_idx: usize, payment_choice: CardChoice)
        requires
            old(self).wf(),
            card_idx < old(self)@.stack.len(),
            player_idx < 4,
            old(self)@.inventories[player_idx as int].len() < 21,
        ensures
            final(self).wf(),
            final(self)@ == old(self)@.buy_card(
                card_idx as int,
                player_idx as int,
                payment_choice@,
            ),
    {
        let card = self.stack.pop(card_idx);
        self.inventories[player_idx].add(card);
        let ghost bought = self.inventories@[player_idx as int]@;
        self.inventories[player_idx].choose_mut(
            payment_choice,
            |c: Card| -> (r: Card)
                ensures
                    r@.is_null() == c@.is_null(),
                    r == c.spec_with_leverage(true)
                { c.with_leverage(true) },
        );
        proof {
            assert(self.inventories@[player_idx as int]@ =~= leverage_chosen(
                bought,
                payment_choice@,
            ));
            assert(self@.inventories =~= old(self)@.inventories.update(
                player_idx as int,
                leverage_chosen(bought, payment_choice@),
            ));
        }
    }

    /// Flips the cards of `player` at the positions in `choices`: a
    /// leveraged card becomes available, an available one leveraged.
    pub fn flip_cards(&mut self, player: usize, choices: CardChoice)
        requires
            old(self).wf(),
            player < 4,
        ensures
            final(self).wf(),
            final(self)@ == old(self)@.flip_cards(player as int, choices@),
    {
        let ghost held = self.inventories@[player as int]@;
        self.inventories[player].choose_mut(
            choices,
            |c: Card| -> (r: Card)
                ensures
                    r@.is_null() == c@.is_null(),
                    r == c.spec_with_leverage(!c@.is_leveraged)
                { c.with_leverage(!c.is_leveraged()) },
        );
        proof {
            assert(self.inventories@[player as int]@ =~= flip_chosen(held, choices@));
            assert(self@.inventories =~= old(self)@.inventories.update(
                player as int,
                flip_chosen(held, choices@),
            ));
        }
    }

    /// Makes every coin of every seat available again.
    pub fn reset_coin_cards(&mut self)
        requires
            old(self).wf(),
        ensures
            final(self).wf(),
            final(self)@ == old(self)@.reset_coin_cards(),
    {
        let mut p: usize = 0;
        while p < 4
            invariant
                p <= 4,
                self.wf(),
                forall|q: int|
                    0 <= q < p ==> self@.inventories[q] == release_coins(
                        #[trigger] old(self)@.inventories[q],
                    ),
                forall|q: int|
                    p <= q < 4 ==> self@.inventories[q] == #[trigger] old(self)@.inventories[q],
                self@ == (GameInfoView { inventories: self@.inventories, ..old(self)@ }),
            decreases 4 - p,
        {
            let ghost held = self.inventories@[p as int]@;
            self.inventories[p].iter_mut(
                |c: Card| -> (r: Card)
                    ensures
                        r@.is_null() == c@.is_null(),
                        r == (if c@.is_coin {
                            c.spec_with_leverage(false)
                        } else {
                            c
                        })
                    {
                        if c.is_coin() {
                            c.with_leverage(false)
                        } else {
                            c
                        }
                    },
            );
            proof {
                assert(self.inventories@[p as int]@ =~= release_coins(held));
            }
            p += 1;
        }
        proof {
            assert(self@.inventories =~= old(self)@.reset_coin_cards().inventories);
        }
    }
}

//
// Scoring
//
impl GameInfo {
    /// The points of one inventory.
    fn points_of(inventory: &PlayerInventory) -> (r: i32)
        requires
            inventory.wf(),
        ensures
            r == gem_points(inventory@),
            0 <= r <= 42,
    {
        let cards = inventory.iter();
        let mut points: i32 = 0;
        let mut i: usize = 0;
        while i < cards.len()
            invariant
                i <= cards@.len() <= 21,
                points == gem_points(cards@.take(i as int)),
                0 <= points <= 2 * i,
            decreases cards@.len() - i,
        {
            let card = cards[i];
            proof {
                assert(cards@.take(i + 1).drop_last() == cards@.take(i as int));
            }
            if !card.is_leveraged() && !card.is_coin() {
                points = points + card.archtype().num_gems() as i32;
            }
            i += 1;
        }
        proof {
            assert(cards@.take(cards@.len() as int) == cards@);
        }
        points
    }

    /// The points of each seat as the cards lie now: one point for each
    /// gem on a gem card that is not leveraged.
    pub fn scores(&self) -> (r: GameScores)
        requires
            self.wf(),
        ensures
            r@ == self@.scores(),
            forall|p: int| 0 <= p < 4 ==> 0 <= #[trigger] r@[p] <= 42,
    {
        let scores = [
            Self::points_of(&self.inventories[0]),
            Self::points_of(&self.inventories[1]),
            Self::points_of(&self.inventories[2]),
            Self::points_of(&self.inventories[3]),
        ];
        let r = GameScores(scores);
        proof {
            assert(r@ =~= self@.scores());
        }
        r
    }
}

//
// What a player sees
//
impl GameInfo {
    /// The inventory of the player whose turn it is.
    #[inline]
    pub fn my_inventory(&self) -> (r: &PlayerInventory)
        requires
            self.wf(),
        ensures
            r.wf(),
            r@ == self@.inventories[self@.current_player],
    {
        &self.inventories[self.current_player]
    }
}

} // verus!
