use gemstone::{Card, CardChoice, GameInfo, GemArchtype, GemNotation};

fn dealt(num_players: usize) -> GameInfo {
    let mut info = GameInfo::with_deck(num_players, Card::gem_deck());
    info.prepare_auction();
    info
}

fn text(info: &GameInfo) -> String {
    GemNotation::from_info(info).inner()
}

#[test]
fn notation_of_a_fresh_game() {
    assert_eq!(text(&GameInfo::with_deck(2, Card::gem_deck())), "-//123;123");
    assert_eq!(text(&dealt(2)), "-/!DDDAA/123;123");
    assert_eq!(text(&dealt(3)), "-/!DDD/123;123;123");
    assert_eq!(text(&dealt(4)), "-/!DDDAA/123;123;123;123");
}

#[test]
fn notation_shows_the_highest_bid() {
    let mut info = dealt(2);
    assert_eq!(info.apply_bid(3), Ok(()));
    assert_eq!(text(&info), "3/!DDDAA/123;123");
    info.set_highest_bid(0, 1);
    assert_eq!(text(&info), "0/!DDDAA/123;123");
    info.set_highest_bid(45, 1);
    assert_eq!(text(&info), "45/!DDDAA/123;123");
    info.set_highest_bid(100, 1);
    assert_eq!(text(&info), "100/!DDDAA/123;123");
    info.set_highest_bid(127, 1);
    assert_eq!(text(&info), "127/!DDDAA/123;123");
    info.set_highest_bid(-128, 1);
    assert_eq!(text(&info), "-/!DDDAA/123;123");
}

#[test]
fn notation_puts_leveraged_cards_behind_the_mark() {
    let mut info = dealt(2);
    assert_eq!(info.apply_bid(3), Ok(()));
    assert_eq!(info.apply_bid(0), Ok(()));
    assert_eq!(info.apply_purchase(3, CardChoice::new(&[2])), Ok(()));
    assert_eq!(text(&info), "-/!DDD/12!3AA;123");
    info.flip_cards(0, CardChoice::new(&[1, 3]));
    assert_eq!(text(&info), "-/!DDD/1AA!23;123");
    info.flip_cards(1, CardChoice::all());
    assert_eq!(text(&info), "-/!DDD/1AA!23;!123");
}

#[test]
fn notation_of_an_open_stack_card() {
    let mut deck_cards = Card::gem_deck().iter();
    deck_cards[1] = deck_cards[1].with_leverage(false);
    deck_cards[3] = Card::gem(GemArchtype::from_index(14)).with_leverage(false);
    let mut cards = [Card::null(); 18];
    cards.copy_from_slice(&deck_cards);
    let mut info = GameInfo::with_deck(2, gemstone::CardCollection::new(cards));
    info.prepare_auction();
    assert_eq!(text(&info), "-/DTS!DD/123;123");
}

#[test]
fn notation_of_single_cards() {
    assert_eq!(GemNotation::format_card(Card::coin(1)), "1");
    assert_eq!(GemNotation::format_card(Card::coin(3).with_leverage(true)), "3");
    let codes = [
        "D", "AA", "AE", "AS", "EE", "ER", "ET", "RA", "RR", "RT", "SE", "SR", "SS", "TA", "TS",
        "TT",
    ];
    for idx in 0..16u8 {
        let card = Card::gem(GemArchtype::from_index(idx));
        assert_eq!(GemNotation::format_card(card), codes[idx as usize]);
    }
}

#[test]
fn notation_compares_by_text() {
    let info = dealt(2);
    assert_eq!(GemNotation::from_info(&info), GemNotation::from_info(&info.clone()));
    assert_ne!(GemNotation::from_info(&info), GemNotation::from_info(&dealt(3)));
}
