use gemstone::{Card, CardChoice, CardCollection, CardIterator, GemArchtype};

#[test]
fn none_selects_nothing() {
    let choice = CardChoice::none();
    for idx in 0..32 {
        assert!(!choice.check(idx));
    }
}

#[test]
fn all_selects_everything() {
    let choice = CardChoice::all();
    for idx in 0..32 {
        assert!(choice.check(idx));
    }
}

#[test]
fn new_selects_the_given_positions() {
    let choice = CardChoice::new(&[0, 2, 31]);
    for idx in 0..32 {
        assert_eq!(choice.check(idx), idx == 0 || idx == 2 || idx == 31);
    }
}

#[test]
fn new_ignores_order_and_repeats() {
    assert_eq!(CardChoice::new(&[3, 1, 3, 1]), CardChoice::new(&[1, 3]));
    assert_eq!(CardChoice::new(&[]), CardChoice::none());
}

#[test]
fn choose_cards_keeps_the_order() {
    let cards = vec![Card::coin(1), Card::coin(2), Card::coin(3)];
    let chosen = cards.choose_cards(CardChoice::new(&[2, 0]));
    assert_eq!(chosen, vec![Card::coin(1), Card::coin(3)]);
}

#[test]
fn choose_cards_skips_positions_past_the_end() {
    let cards = vec![Card::coin(1), Card::coin(2)];
    assert_eq!(cards.clone().choose_cards(CardChoice::all()), cards);
    assert_eq!(cards.choose_cards(CardChoice::new(&[5, 9])), Vec::<Card>::new());
}

#[test]
fn filters_keep_what_they_name() {
    let gem = Card::gem(GemArchtype::from_index(2));
    let cards = vec![Card::coin(1), gem, Card::coin(2).with_leverage(true), Card::null()];
    assert_eq!(
        cards.clone().leveraged(),
        vec![gem, Card::coin(2).with_leverage(true), Card::null()]
    );
    assert_eq!(cards.clone().non_leveraged(), vec![Card::coin(1)]);
    assert_eq!(
        cards.clone().coin_cards(),
        vec![Card::coin(1), Card::coin(2).with_leverage(true), Card::null()]
    );
    assert_eq!(cards.clone().gem_cards(), vec![gem]);
    assert_eq!(
        cards.non_null(),
        vec![Card::coin(1), gem, Card::coin(2).with_leverage(true)]
    );
}

#[test]
fn capital_never_counts_leveraged_cards() {
    let gem = Card::gem(GemArchtype::from_index(1));
    let cards = vec![Card::coin(1), Card::coin(2).with_leverage(true), Card::coin(3), gem];
    assert_eq!(cards.clone().capital(), 4);
    assert_eq!(cards.clone().leveraged().capital(), 0);
    assert_eq!(cards.clone().non_leveraged().capital(), 4);
    assert_eq!(cards.choose_cards(CardChoice::new(&[1, 2, 3])).capital(), 3);
}

#[test]
fn capital_of_nothing_is_zero() {
    assert_eq!(Vec::<Card>::new().capital(), 0);
    assert_eq!(Vec::<Card>::new().scalar_value(), 0);
}

#[test]
fn scalar_value_sets_pledged_against_restored() {
    let gem = Card::gem(GemArchtype::from_index(1));
    let cards = vec![Card::coin(1), Card::coin(3), gem];
    assert_eq!(cards.clone().scalar_value(), 0);
    assert_eq!(cards.clone().choose_cards(CardChoice::new(&[0, 2])).scalar_value(), -3);
    assert_eq!(cards.choose_cards(CardChoice::new(&[0, 1])).scalar_value(), 4);
}

#[test]
fn collection_choose_cards_matches_the_iterator() {
    let mut cards: CardCollection<4> = CardCollection::empty();
    cards.push_back(Card::coin(1));
    cards.push_back(Card::coin(2));
    cards.push_back(Card::coin(3));
    assert_eq!(
        cards.choose_cards(CardChoice::new(&[1, 2, 3])),
        vec![Card::coin(2), Card::coin(3)]
    );
}
