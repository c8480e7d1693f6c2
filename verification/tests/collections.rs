use gemstone::{Card, CardChoice, CardCollection, GemArchtype};

fn gem(idx: u8) -> Card {
    Card::gem(GemArchtype::from_index(idx))
}

fn sorted_bytes(cards: &[Card]) -> Vec<(u8, i8, bool, bool)> {
    let mut keys: Vec<(u8, i8, bool, bool)> = cards
        .iter()
        .map(|c| (c.archtype().index(), c.value(), c.is_coin(), c.is_leveraged()))
        .collect();
    keys.sort();
    keys
}

#[test]
fn empty_collection_has_no_cards() {
    let cards: CardCollection<4> = CardCollection::empty();
    assert_eq!(cards.len(), 0);
    assert!(cards.is_empty());
    assert_eq!(cards.iter(), Vec::<Card>::new());
    let other: CardCollection<4> = CardCollection::default();
    assert_eq!(cards, other);
}

#[test]
fn push_back_appends() {
    let mut cards: CardCollection<4> = CardCollection::empty();
    cards.push_back(Card::coin(1));
    cards.push_back(Card::coin(2));
    assert_eq!(cards.len(), 2);
    assert!(!cards.is_empty());
    assert_eq!(cards.iter(), vec![Card::coin(1), Card::coin(2)]);
    assert_eq!(cards.as_slice(), &[Card::coin(1), Card::coin(2)]);
    assert_eq!(cards.get(1), Card::coin(2));
}

#[test]
fn push_inserts_and_shifts_the_tail() {
    let mut cards: CardCollection<5> = CardCollection::empty();
    cards.push_back(Card::coin(1));
    cards.push_back(Card::coin(3));
    cards.push(Card::coin(2), 1);
    assert_eq!(cards.iter(), vec![Card::coin(1), Card::coin(2), Card::coin(3)]);
    cards.push(gem(4), 0);
    assert_eq!(cards.iter(), vec![gem(4), Card::coin(1), Card::coin(2), Card::coin(3)]);
    cards.push(gem(5), 4);
    assert_eq!(
        cards.iter(),
        vec![gem(4), Card::coin(1), Card::coin(2), Card::coin(3), gem(5)]
    );
    assert_eq!(cards.len(), 5);
}

#[test]
fn pop_removes_and_closes_the_gap() {
    let mut cards: CardCollection<4> = CardCollection::empty();
    cards.push_back(Card::coin(1));
    cards.push_back(Card::coin(2));
    cards.push_back(Card::coin(3));
    assert_eq!(cards.pop(1), Card::coin(2));
    assert_eq!(cards.iter(), vec![Card::coin(1), Card::coin(3)]);
    assert_eq!(cards.pop(1), Card::coin(3));
    assert_eq!(cards.pop(0), Card::coin(1));
    assert!(cards.is_empty());
    let fresh: CardCollection<4> = CardCollection::empty();
    assert_eq!(cards, fresh);
}

#[test]
fn pop_from_a_full_collection() {
    let mut cards: CardCollection<3> =
        CardCollection::new([Card::coin(1), Card::coin(2), Card::coin(3)]);
    assert_eq!(cards.pop(2), Card::coin(3));
    assert_eq!(cards.pop(0), Card::coin(1));
    assert_eq!(cards.iter(), vec![Card::coin(2)]);
}

#[test]
fn pop_undoes_push_at_every_position() {
    let mut cards: CardCollection<5> = CardCollection::empty();
    cards.push_back(Card::coin(1));
    cards.push_back(gem(7));
    cards.push_back(Card::coin(3));
    let before = cards;
    for idx in 0..=3 {
        cards.push(gem(11), idx);
        assert_eq!(cards.len(), 4);
        assert_eq!(cards.pop(idx), gem(11));
        assert_eq!(cards, before);
    }
}

#[test]
fn live_cards_stay_in_a_gapless_prefix() {
    let mut cards: CardCollection<6> = CardCollection::empty();
    cards.push_back(Card::coin(1));
    cards.push(gem(3), 0);
    cards.push(gem(4), 1);
    cards.pop(0);
    cards.push_back(Card::coin(2));
    cards.pop(1);
    cards.push(gem(9), 2);
    let live = cards.iter();
    assert_eq!(live.len(), cards.len());
    assert_eq!(live, vec![gem(4), Card::coin(2), gem(9)]);
    for card in live {
        assert!(!card.is_null());
    }
    // the same cards in fresh slots make the same collection: nothing is
    // left behind the last card
    let rebuilt: CardCollection<6> = CardCollection::new([
        gem(4),
        Card::coin(2),
        gem(9),
        Card::null(),
        Card::null(),
        Card::null(),
    ]);
    assert_eq!(cards, rebuilt);
}

#[test]
fn new_moves_the_null_cards_behind() {
    let cards: CardCollection<5> = CardCollection::new([
        Card::null(),
        Card::coin(1),
        Card::null(),
        gem(2),
        Card::coin(3),
    ]);
    assert_eq!(cards.len(), 3);
    assert_eq!(cards.iter(), vec![Card::coin(1), gem(2), Card::coin(3)]);
}

#[test]
fn new_of_only_null_cards_is_empty() {
    let cards: CardCollection<3> = CardCollection::new([Card::null(); 3]);
    assert!(cards.is_empty());
    let none: CardCollection<0> = CardCollection::new([]);
    assert!(none.is_empty());
}

#[test]
fn new_of_only_live_cards_is_full() {
    let cards: CardCollection<2> = CardCollection::new([Card::coin(2), Card::coin(1)]);
    assert_eq!(cards.iter(), vec![Card::coin(2), Card::coin(1)]);
}

#[test]
fn copy_from_deals_a_slice() {
    let deck = Card::gem_deck();
    let mut stack: CardCollection<4> = CardCollection::empty();
    stack.copy_from(&deck, 4..7, 0..3);
    assert_eq!(stack.iter(), vec![gem(2), gem(3), gem(4)]);
    stack.copy_from(&deck, 16..18, 0..2);
    assert_eq!(stack.iter(), vec![gem(14), gem(15), gem(4)]);
    stack.copy_from(&deck, 0..2, 2..4);
    assert_eq!(stack.iter(), vec![gem(14), gem(15), gem(0), gem(0)]);
    stack.copy_from(&deck, 5..5, 1..1);
    assert_eq!(stack.len(), 4);
}

#[test]
fn choose_mut_changes_the_chosen_cards_only() {
    let mut cards: CardCollection<4> = CardCollection::empty();
    cards.push_back(Card::coin(1));
    cards.push_back(Card::coin(2));
    cards.push_back(Card::coin(3));
    cards.choose_mut(CardChoice::new(&[0, 2, 3]), |card| card.with_leverage(true));
    assert_eq!(
        cards.iter(),
        vec![
            Card::coin(1).with_leverage(true),
            Card::coin(2),
            Card::coin(3).with_leverage(true)
        ]
    );
    assert_eq!(cards.len(), 3);
}

#[test]
fn iter_mut_changes_every_card() {
    let mut cards: CardCollection<4> = CardCollection::empty();
    cards.push_back(Card::coin(1));
    cards.push_back(gem(6));
    cards.iter_mut(|card| card.with_leverage(!card.is_leveraged()));
    assert_eq!(
        cards.iter(),
        vec![Card::coin(1).with_leverage(true), gem(6).with_leverage(false)]
    );
}

#[test]
fn replace_cards_takes_the_given_order() {
    let mut cards: CardCollection<5> = CardCollection::empty();
    cards.push_back(Card::coin(1));
    cards.push_back(gem(7));
    cards.push_back(Card::coin(3));
    cards.replace_cards(&vec![Card::coin(3), Card::coin(1), gem(7)]);
    assert_eq!(cards.iter(), vec![Card::coin(3), Card::coin(1), gem(7)]);
    assert_eq!(cards.len(), 3);
    cards.replace_cards(&vec![gem(2), gem(2), Card::coin(2)]);
    assert_eq!(cards.iter(), vec![gem(2), gem(2), Card::coin(2)]);
    cards.push_back(Card::coin(1));
    assert_eq!(cards.iter(), vec![gem(2), gem(2), Card::coin(2), Card::coin(1)]);
}

#[test]
fn replace_cards_of_an_empty_collection() {
    let mut cards: CardCollection<3> = CardCollection::empty();
    cards.replace_cards(&Vec::new());
    assert!(cards.is_empty());
    let fresh: CardCollection<3> = CardCollection::empty();
    assert_eq!(cards, fresh);
}

#[test]
fn shuffle_keeps_the_cards() {
    let mut deck = Card::gem_deck();
    let before = deck.iter();
    deck.shuffle(&mut rand::thread_rng());
    let after = deck.iter();
    assert_eq!(deck.len(), 18);
    assert_eq!(sorted_bytes(&before), sorted_bytes(&after));
}

#[test]
fn shuffle_changes_the_order() {
    let before = Card::gem_deck();
    let mut changed = false;
    for _ in 0..8 {
        let mut deck = before;
        deck.shuffle(&mut rand::thread_rng());
        if deck != before {
            changed = true;
        }
    }
    assert!(changed);
}

#[test]
fn shuffle_of_few_cards_keeps_the_empty_slots() {
    let mut cards: CardCollection<6> = CardCollection::empty();
    cards.push_back(Card::coin(1));
    cards.push_back(Card::coin(2));
    cards.shuffle(&mut rand::thread_rng());
    assert_eq!(cards.len(), 2);
    let live = cards.iter();
    let kept = vec![Card::coin(1), Card::coin(2)];
    let swapped = vec![Card::coin(2), Card::coin(1)];
    assert!(live == kept || live == swapped);
}
