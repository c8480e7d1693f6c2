use gemstone::{
    BidValue, Card, CardChoice, CardIterator, Game, GameInfo, GemArchtype, GemError,
    PlayerBehavior,
};
use std::collections::VecDeque;

fn gem(idx: u8) -> Card {
    Card::gem(GemArchtype::from_index(idx))
}

/// A player who decides what the script says, and then passes for good.
#[derive(Default)]
struct Script {
    bids: VecDeque<BidValue>,
    picks: VecDeque<(usize, Vec<usize>)>,
    flips: VecDeque<Vec<usize>>,
}

impl Script {
    fn bids(bids: &[BidValue]) -> Script {
        Script { bids: bids.iter().copied().collect(), ..Script::default() }
    }

    fn picking(mut self, card: usize, payment: &[usize]) -> Script {
        self.picks.push_back((card, payment.to_vec()));
        self
    }

    fn flipping(mut self, flips: &[usize]) -> Script {
        self.flips.push_back(flips.to_vec());
        self
    }
}

impl PlayerBehavior for Script {
    fn bid(&mut self, _info: &GameInfo) -> BidValue {
        self.bids.pop_front().unwrap_or(0)
    }

    fn pick_card(&mut self, _info: &GameInfo) -> (usize, CardChoice) {
        match self.picks.pop_front() {
            Some((card, payment)) => (card, CardChoice::new(&payment)),
            None => (0, CardChoice::none()),
        }
    }

    fn reinvest(&mut self, _info: &GameInfo) -> CardChoice {
        match self.flips.pop_front() {
            Some(flips) => CardChoice::new(&flips),
            None => CardChoice::none(),
        }
    }
}

/// A player who bids 1 while a free card can pay it, and who restores the
/// newest leveraged gem card whenever the free coins can pay for it.
struct Collector;

impl PlayerBehavior for Collector {
    fn bid(&mut self, info: &GameInfo) -> BidValue {
        if info.my_inventory().iter().capital() >= 1 {
            1
        } else {
            0
        }
    }

    fn pick_card(&mut self, info: &GameInfo) -> (usize, CardChoice) {
        let held = info.inventory_at(info.highest_bidder()).iter();
        let payment: Vec<usize> = if info.highest_bid() > 0 {
            held.iter().position(|card| !card.is_leveraged()).into_iter().collect()
        } else {
            Vec::new()
        };
        (info.stack_size(), CardChoice::new(&payment))
    }

    fn reinvest(&mut self, info: &GameInfo) -> CardChoice {
        let held = info.my_inventory().iter();
        let newest = held.iter().rposition(|card| !card.is_coin() && card.is_leveraged());
        let mut flips: Vec<usize> = Vec::new();
        if let Some(gem) = newest {
            let mut pledged = 0;
            for (i, card) in held.iter().enumerate() {
                if card.is_coin() && !card.is_leveraged() && pledged < held[gem].value() {
                    pledged += card.value();
                    flips.push(i);
                }
            }
            if pledged >= held[gem].value() {
                flips.push(gem);
            } else {
                flips.clear();
            }
        }
        CardChoice::new(&flips)
    }
}

fn two_players(first: Script, second: Script) -> Game<Script> {
    Game::with_deck(vec![first, second], Card::gem_deck())
}

fn auction_state() -> GameInfo {
    let mut info = GameInfo::with_deck(2, Card::gem_deck());
    info.prepare_auction();
    info
}

fn reinvestment_state() -> GameInfo {
    let mut info = auction_state();
    for _ in 0..4 {
        assert_eq!(info.apply_bid(0), Ok(()));
        assert_eq!(info.apply_bid(0), Ok(()));
        assert_eq!(info.apply_purchase(0, CardChoice::none()), Ok(()));
    }
    assert!(info.is_reinvestment_phase());
    info
}

#[test]
fn the_first_cards_are_dealt_at_the_start() {
    let game = two_players(Script::default(), Script::default());
    let info = game.info_ref();
    assert_eq!(info.num_players(), 2);
    assert_eq!(info.round_index(), 0);
    assert!(info.is_auction_phase());
    assert_eq!(info.stack().iter(), vec![gem(0), gem(0), gem(0), gem(1)]);
    assert_eq!(info.current_player(), 0);
    assert_eq!(info.starting_player(), 0);
    assert_eq!(info.highest_bid(), -1);
    assert_eq!(*info, auction_state());
}

#[test]
fn a_random_game_starts_with_four_cards_for_two() {
    let game = Game::new(vec![Script::default(), Script::default()]);
    assert_eq!(game.info_ref().stack_size(), 4);
    assert_eq!(game.info_ref().current_player(), 0);
    let game = Game::new(vec![Script::default(), Script::default(), Script::default()]);
    assert_eq!(game.info_ref().stack_size(), 3);
    assert_eq!(game.info_ref().num_players(), 3);
}

#[test]
fn higher_bid_takes_the_lead_and_buys() {
    // A bids 2, B bids 3: B leads and pays exactly 3 for the first card
    let a = Script::bids(&[2]);
    let b = Script::bids(&[3]).picking(0, &[0, 1]);
    let mut game = two_players(a, b);

    assert_eq!(game.step(), Ok(None));
    assert_eq!(game.info_ref().highest_bidder(), 0);
    assert_eq!(game.info_ref().highest_bid(), 2);
    assert_eq!(game.info_ref().current_player(), 1);
    assert!(!game.info_ref().round_over());

    assert_eq!(game.step(), Ok(None));
    assert_eq!(game.info_ref().highest_bidder(), 1);
    assert_eq!(game.info_ref().highest_bid(), 3);
    assert!(game.info_ref().round_over());

    assert_eq!(game.step(), Ok(None));
    let info = game.info_ref();
    assert_eq!(info.stack().iter(), vec![gem(0), gem(0), gem(1)]);
    assert_eq!(
        info.inventory_at(1).iter(),
        vec![
            Card::coin(1).with_leverage(true),
            Card::coin(2).with_leverage(true),
            Card::coin(3),
            gem(0)
        ]
    );
    assert_eq!(info.inventory_at(0).iter(), vec![Card::coin(1), Card::coin(2), Card::coin(3)]);
    // the next bidding starts with the player after B
    assert_eq!(info.starting_player(), 0);
    assert_eq!(info.current_player(), 0);
    assert_eq!(info.highest_bid(), -1);
    assert_eq!(info.highest_bidder(), 1);
    assert!(!info.round_over());
    assert!(info.is_auction_phase());
}

#[test]
fn equal_bid_leaves_the_lead_with_the_first_bidder() {
    let mut info = auction_state();
    assert_eq!(info.apply_bid(2), Ok(()));
    assert_eq!(info.highest_bidder(), 0);
    assert_eq!(info.apply_bid(2), Ok(()));
    assert_eq!(info.highest_bidder(), 0);
    assert_eq!(info.highest_bid(), 2);
    assert!(info.round_over());
}

#[test]
fn lower_bid_leaves_the_lead() {
    let mut info = auction_state();
    assert_eq!(info.apply_bid(3), Ok(()));
    assert_eq!(info.apply_bid(1), Ok(()));
    assert_eq!(info.highest_bidder(), 0);
    assert_eq!(info.highest_bid(), 3);
}

#[test]
fn negative_bid_counts_as_zero() {
    let mut info = auction_state();
    assert_eq!(info.apply_bid(-5), Ok(()));
    assert_eq!(info.highest_bid(), 0);
    assert_eq!(info.highest_bidder(), 0);
    assert_eq!(info.apply_bid(-1), Ok(()));
    assert_eq!(info.highest_bid(), 0);
    assert_eq!(info.highest_bidder(), 0);
}

#[test]
fn bid_of_the_whole_capital_is_accepted() {
    let mut info = auction_state();
    assert_eq!(info.apply_bid(6), Ok(()));
    assert_eq!(info.highest_bid(), 6);
}

#[test]
fn bid_above_the_capital_is_refused() {
    let mut info = auction_state();
    let before = info;
    assert_eq!(info.apply_bid(7), Err(GemError::CannotAffordBid));
    assert_eq!(info, before);

    let mut game = two_players(Script::bids(&[7]), Script::default());
    assert_eq!(game.step(), Err(GemError::CannotAffordBid));
    assert_eq!(*game.info_ref(), before);
}

#[test]
fn leveraged_capital_cannot_be_bid() {
    let mut info = auction_state();
    assert_eq!(info.apply_bid(3), Ok(()));
    assert_eq!(info.apply_bid(0), Ok(()));
    assert_eq!(info.apply_purchase(0, CardChoice::new(&[2])), Ok(()));
    // the next bidding starts with player 1; player 0 has 1 + 2 left
    assert_eq!(info.current_player(), 1);
    assert_eq!(info.apply_bid(0), Ok(()));
    let before = info;
    assert_eq!(info.apply_bid(4), Err(GemError::CannotAffordBid));
    assert_eq!(info, before);
    assert_eq!(info.apply_bid(3), Ok(()));
    assert_eq!(info.highest_bidder(), 0);
}

#[test]
fn payment_with_a_leveraged_card_is_refused() {
    let a = Script::bids(&[0, 0]);
    let b = Script::bids(&[3, 1]).picking(0, &[2]).picking(0, &[2]);
    let mut game = two_players(a, b);
    for _ in 0..5 {
        assert_eq!(game.step(), Ok(None));
    }
    // B paid the first card with the coin 3 and offers it once more
    let before = *game.info_ref();
    assert!(before.round_over());
    assert_eq!(before.highest_bidder(), 1);
    assert_eq!(game.step(), Err(GemError::TriedToUseLeveragedCard));
    assert_eq!(*game.info_ref(), before);
}

#[test]
fn payment_below_the_bid_is_refused() {
    let mut info = auction_state();
    assert_eq!(info.apply_bid(0), Ok(()));
    assert_eq!(info.apply_bid(3), Ok(()));
    let before = info;
    assert_eq!(info.apply_purchase(0, CardChoice::new(&[0, 1, 5])), Ok(()));
    let mut info = before;
    assert_eq!(info.apply_purchase(0, CardChoice::new(&[1])), Err(GemError::TooFewGemCards));
    assert_eq!(info, before);
    assert_eq!(info.apply_purchase(0, CardChoice::none()), Err(GemError::TooFewGemCards));
    assert_eq!(info, before);

    let a = Script::default();
    let b = Script::bids(&[3]).picking(0, &[0]);
    let mut game = two_players(a, b);
    assert_eq!(game.step(), Ok(None));
    assert_eq!(game.step(), Ok(None));
    assert_eq!(game.step(), Err(GemError::TooFewGemCards));
    assert_eq!(*game.info_ref(), before);
}

#[test]
fn pick_past_the_stack_takes_the_last_card() {
    let mut info = auction_state();
    assert_eq!(info.apply_bid(0), Ok(()));
    assert_eq!(info.apply_bid(0), Ok(()));
    assert_eq!(info.apply_purchase(9, CardChoice::none()), Ok(()));
    assert_eq!(info.stack().iter(), vec![gem(0), gem(0), gem(0)]);
    assert_eq!(info.inventory_at(0).iter()[3], gem(1));
}

#[test]
fn nobody_bidding_gives_the_card_to_the_first_bidder() {
    let mut info = auction_state();
    assert_eq!(info.apply_bid(0), Ok(()));
    assert_eq!(info.apply_bid(0), Ok(()));
    assert_eq!(info.highest_bidder(), 0);
    assert_eq!(info.highest_bid(), 0);
    assert_eq!(info.apply_purchase(0, CardChoice::none()), Ok(()));
    assert_eq!(info.inventory_at(0).len(), 4);
    assert_eq!(info.starting_player(), 1);
}

#[test]
fn last_card_opens_the_reinvestment_with_the_buyer() {
    let mut info = auction_state();
    for _ in 0..3 {
        assert_eq!(info.apply_bid(0), Ok(()));
        assert_eq!(info.apply_bid(0), Ok(()));
        assert_eq!(info.apply_purchase(0, CardChoice::none()), Ok(()));
    }
    // player 0 led the third cycle with the first bid of 0, so the fourth
    // begins with player 1
    assert_eq!(info.starting_player(), 1);
    assert_eq!(info.apply_bid(1), Ok(()));
    assert_eq!(info.apply_bid(2), Ok(()));
    assert_eq!(info.apply_purchase(0, CardChoice::new(&[1])), Ok(()));
    assert!(info.is_reinvestment_phase());
    assert_eq!(info.highest_bidder(), 0);
    assert_eq!(info.starting_player(), 0);
    assert_eq!(info.current_player(), 0);
    assert_eq!(info.highest_bid(), -1);
    assert!(!info.round_over());
    assert_eq!(info.round_index(), 0);
}

#[test]
fn flips_that_cost_more_than_they_bring_are_refused() {
    let mut info = reinvestment_state();
    let player = info.current_player();
    let held = info.my_inventory().iter();
    assert!(held.len() > 3);
    assert!(held[3].is_leveraged());
    let before = info;
    // restoring the diamond alone costs 2 and brings nothing
    assert_eq!(info.apply_reinvestment(CardChoice::new(&[3])), Err(GemError::CannotAffortToFlip));
    assert_eq!(info, before);
    assert_eq!(info.inventory_at(player).iter(), held);
    // the coin 1 does not pay for it either
    let short = CardChoice::new(&[0, 3]);
    assert_eq!(info.apply_reinvestment(short), Err(GemError::CannotAffortToFlip));
    assert_eq!(info, before);
}

#[test]
fn flips_that_pay_for_themselves_are_made() {
    let mut info = reinvestment_state();
    let player = info.current_player();
    assert_eq!(info.my_inventory().choose_cards(CardChoice::new(&[1, 3])).scalar_value(), 0);
    assert_eq!(info.apply_reinvestment(CardChoice::new(&[1, 3])), Ok(()));
    let held = info.inventory_at(player).iter();
    assert_eq!(held[0], Card::coin(1));
    assert_eq!(held[1], Card::coin(2).with_leverage(true));
    assert_eq!(held[2], Card::coin(3));
    assert_eq!(held[3], gem(0).with_leverage(false));
    assert_eq!(info.current_player(), 1 - player);
    assert!(!info.round_over());
    assert_eq!(info.round_index(), 0);
}

#[test]
fn reinvestment_round_closes_into_the_next_auction() {
    let mut info = reinvestment_state();
    let leader = info.highest_bidder();
    assert_eq!(info.apply_reinvestment(CardChoice::new(&[1, 3])), Ok(()));
    assert_eq!(info.apply_reinvestment(CardChoice::none()), Ok(()));
    assert_eq!(info.round_index(), 1);
    assert!(info.is_auction_phase());
    assert_eq!(info.stack().iter(), vec![gem(2), gem(3), gem(4)]);
    assert_eq!(info.starting_player(), 1 - leader);
    assert_eq!(info.current_player(), 1 - leader);
    assert_eq!(info.highest_bid(), -1);
    assert!(!info.round_over());
    // the pledged coin is free again, the restored gem card stays open
    for seat in 0..2 {
        assert_eq!(info.inventory_at(seat).iter().coin_cards().capital(), 6);
    }
    assert_eq!(info.scores().score(leader), 1);
    assert_eq!(info.scores().score(1 - leader), 0);
}

#[test]
fn two_player_game_ends_after_sixty_six_steps() {
    let mut game = two_players(Script::default(), Script::default());
    let mut steps = 0;
    loop {
        match game.step() {
            Ok(None) => steps += 1,
            Ok(Some(_)) => break,
            Err(e) => panic!("step failed with {:?}", e),
        }
        assert!(steps <= 66);
    }
    // eighteen cards, each with two bids and a purchase, and six rounds of
    // two reinvestments
    assert_eq!(steps, 66);
    assert!(game.info_ref().game_over());
    assert!(game.info_ref().round_index() > 5);
    assert_eq!(game.info_ref().round_index(), 6);
    assert!(game.info_ref().is_reinvestment_phase());
    let held: usize = (0..2).map(|seat| game.info_ref().inventory_at(seat).len()).sum();
    assert_eq!(held, 6 + 18);
}

#[test]
fn steps_after_the_end_give_the_same_scores() {
    let mut game = Game::with_deck(vec![Collector, Collector], Card::gem_deck());
    let mut steps = 0;
    let scores = loop {
        match game.step() {
            Ok(None) => steps += 1,
            Ok(Some(scores)) => break scores,
            Err(e) => panic!("step failed with {:?}", e),
        }
        assert!(steps <= 66);
    };
    let end = *game.info_ref();
    for _ in 0..3 {
        assert_eq!(game.step(), Ok(Some(scores)));
        assert_eq!(*game.info_ref(), end);
    }
    for seat in 0..4 {
        assert!(scores.score(seat) >= 0);
    }
    assert_eq!(scores, end.scores());
    assert!(scores.score(0) + scores.score(1) > 0);
    assert_eq!(scores.score(2), 0);
    assert_eq!(scores.score(3), 0);
}

#[test]
fn run_plays_to_the_end() {
    let mut game = Game::with_deck(vec![Collector, Collector, Collector], Card::gem_deck());
    let scores = game.run().unwrap();
    assert!(game.info_ref().game_over());
    assert_eq!(scores, game.info_ref().scores());
    assert_eq!(game.run(), Ok(scores));
}

#[test]
fn run_stops_at_the_first_refusal() {
    let a = Script::bids(&[1, 9]).picking(0, &[0]);
    let b = Script::default();
    let mut game = two_players(a, b);
    assert_eq!(game.run(), Err(GemError::CannotAffordBid));
    assert!(!game.info_ref().game_over());
    assert_eq!(game.info_ref().stack_size(), 3);
    assert_eq!(game.info_ref().round_index(), 0);
}

#[test]
fn boxed_players_of_different_kinds_share_a_table() {
    let players: Vec<Box<dyn PlayerBehavior>> =
        vec![Box::new(Collector), Box::new(Script::default()), Box::new(Collector)];
    let mut game = Game::with_deck(players, Card::gem_deck());
    let scores = game.run().unwrap();
    assert!(game.info_ref().game_over());
    assert_eq!(scores.score(1), 0);
    assert_eq!(scores.score(3), 0);
}
