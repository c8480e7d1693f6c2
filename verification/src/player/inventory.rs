//! The cards that a player holds.

use crate::game::card::card::{Card, CardView};
use crate::game::card::choice::CardChoice;
use crate::game::card::collection::{keeps_present, CardCollection};
use crate::game::card::iterator::chosen_cards;
use vstd::prelude::*;

verus! {

/// Whether `cards` is the hand that every player starts with: the three
/// available coins of face value 1, 2 and 3, in that order.
pub open spec fn is_starting_hand(cards: Seq<Card>) -> bool {
    &&& cards.len() == 3
    &&& cards[0]@ == CardView::coin(1)
    &&& cards[1]@ == CardView::coin(2)
    &&& cards[2]@ == CardView::coin(3)
}

/// The cards of one player: up to 21 of them, in the order in which the
/// player got them.
#[derive(Clone, Copy, Debug, PartialEq, Eq)]
pub struct PlayerInventory {
    cards: CardCollection<21>,
}

impl View for PlayerInventory {
    type V = Seq<Card>;

    /// The cards, in order.
    open spec fn view(&self) -> Seq<Card> {
        self.collection()@
    }
}

impl PlayerInventory {
    /// The collection that holds the cards.
    pub closed spec fn collection(&self) -> CardCollection<21> {
        self.cards
    }

    /// The invariant of the collection that holds the cards.
    pub open spec fn wf(&self) -> bool {
        self.collection().wf()
    }

    /// The hand that every player starts with: the coins 1, 2 and 3.
    pub fn with_coins() -> (r: Self)
        ensures
            r.wf(),
            is_starting_hand(r@),
    {
        let mut cards: CardCollection<21> = CardCollection::empty();
        cards.push_back(Card::coin(1));
        cards.push_back(Card::coin(2));
        cards.push_back(Card::coin(3));
        PlayerInventory { cards }
    }

    /// The number of cards.
    pub fn len(&self) -> (r: usize)
        requires
            self.wf(),
        ensures
            r == self@.len(),
            r <= 21,
    {
        self.cards.len()
    }

    /// The cards, in order, as a slice.
    pub fn as_slice(&self) -> (r: &[Card])
        requires
            self.wf(),
        ensures
            r@ == self@,
    {
        self.cards.as_slice()
    }

    /// Puts `card` behind the last card.
    pub fn add(&mut self, card: Card)
        requires
            old(self).wf(),
            old(self)@.len() < 21,
            !card@.is_null(),
        ensures
            final(self).wf(),
            final(self)@ == old(self)@.push(card),
    {
        self.cards.push_back(card);
    }

    /// The cards, in order.
    pub fn iter(&self) -> (r: Vec<Card>)
        requires
            self.wf(),
        ensures
            r@ == self@,
    {
        self.cards.iter()
    }

    /// Replaces every card by what `f` makes of it. `f` must keep a card present.
    pub fn iter_mut<F: Fn(Card) -> Card>(&mut self, f: F)
        requires
            old(self).wf(),
            forall|i: int|
                0 <= i < old(self)@.len() ==> call_requires(f, (#[trigger] old(self)@[i],)),
            keeps_present(f),
        ensures
            final(self).wf(),
            final(self)@.len() == old(self)@.len(),
            forall|i: int|
                0 <= i < old(self)@.len() ==> call_ensures(
                    f,
                    (old(self)@[i],),
                    #[trigger] final(self)@[i],
                ),
    {
        assert(self@ == self.cards@);
        self.cards.iter_mut(f);
    }

    /// The cards at the positions that `choice` holds, in order.
    pub fn choose_cards(&self, choice: CardChoice) -> (r: Vec<Card>)
        requires
            self.wf(),
        ensures
            r@ == chosen_cards(self@, choice@),
    {
        self.cards.choose_cards(choice)
    }

    /// Replaces every card at a position that `choice` holds by what `f`
    /// makes of it. `f` must keep a card present.
    pub fn choose_mut<F: Fn(Card) -> Card>(&mut self, choice: CardChoice, f: F)
        requires
            old(self).wf(),
            forall|i: int|
                0 <= i < old(self)@.len() && choice@.contains(i) ==> call_requires(
                    f,
                    (#[trigger] old(self)@[i],),
                ),
            keeps_present(f),
        ensures
            final(self).wf(),
            final(self)@.len() == old(self)@.len(),
            forall|i: int|
                0 <= i < old(self)@.len() ==> (if choice@.contains(i) {
                    call_ensures(f, (old(self)@[i],), #[trigger] final(self)@[i])
                } else {
                    final(self)@[i] == old(self)@[i]
                }),
    {
        assert(self@ == self.cards@);
        self.cards.choose_mut(choice, f);
    }
}

impl Default for PlayerInventory {
    /// The hand that every player starts with: the coins 1, 2 and 3.
    fn default() -> (r: Self)
        ensures
            r.wf(),
            is_starting_hand(r@),
    {
        Self::with_coins()
    }
}

} // verus!
