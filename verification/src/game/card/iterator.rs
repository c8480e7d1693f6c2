//! Selecting, filtering and summing sequences of cards.

use crate::game::card::archtypes::{archtype_gems, gem_count};
use crate::game::card::card::Card;
use crate::game::card::choice::CardChoice;
use crate::game::BidValue;
use vstd::prelude::*;

verus! {

/// The cards of `cards` at the positions that `choice` holds, in their order.
pub open spec fn chosen_cards(cards: Seq<Card>, choice: Set<int>) -> Seq<Card>
    decreases cards.len(),
{
    if cards.len() == 0 {
        Seq::empty()
    } else if choice.contains(cards.len() - 1) {
        chosen_cards(cards.drop_last(), choice).push(cards.last())
    } else {
        chosen_cards(cards.drop_last(), choice)
    }
}

/// The capital in `cards`: the face values of those that are not leveraged, summed.
pub open spec fn capital_of(cards: Seq<Card>) -> int
    decreases cards.len(),
{
    if cards.len() == 0 {
        0
    } else {
        capital_of(cards.drop_last()) + match cards.last()@.get_value() {
            Some(v) => v,
            None => 0,
        }
    }
}

/// The face values of `cards`, summed, leveraged or not.
pub open spec fn face_value_of(cards: Seq<Card>) -> int
    decreases cards.len(),
{
    if cards.len() == 0 {
        0
    } else {
        face_value_of(cards.drop_last()) + cards.last()@.value
    }
}

/// What flipping all of `cards` is worth: the face values of the available
/// ones minus the face values of the leveraged ones.
pub open spec fn scalar_value_of(cards: Seq<Card>) -> int
    decreases cards.len(),
{
    if cards.len() == 0 {
        0
    } else {
        scalar_value_of(cards.drop_last()) + cards.last()@.scalar_value()
    }
}

/// `cards` with every card at a position that `choice` holds leveraged.
pub open spec fn leverage_chosen(cards: Seq<Card>, choice: Set<int>) -> Seq<Card> {
    Seq::new(
        cards.len(),
        |i: int|
            if choice.contains(i) {
                cards[i].spec_with_leverage(true)
            } else {
                cards[i]
            },
    )
}

/// `cards` with every card at a position that `choice` holds flipped: a
/// leveraged one becomes available, an available one leveraged.
pub open spec fn flip_chosen(cards: Seq<Card>, choice: Set<int>) -> Seq<Card> {
    Seq::new(
        cards.len(),
        |i: int|
            if choice.contains(i) {
                cards[i].spec_with_leverage(!cards[i]@.is_leveraged)
            } else {
                cards[i]
            },
    )
}

/// `cards` with every coin available again; the gem cards stay as they are.
pub open spec fn release_coins(cards: Seq<Card>) -> Seq<Card> {
    Seq::new(
        cards.len(),
        |i: int|
            if cards[i]@.is_coin {
                cards[i].spec_with_leverage(false)
            } else {
                cards[i]
            },
    )
}

/// The points in `cards`: one for each gem on a gem card that is not leveraged.
pub open spec fn gem_points(cards: Seq<Card>) -> int
    decreases cards.len(),
{
    if cards.len() == 0 {
        0
    } else {
        gem_points(cards.drop_last()) + card_points(cards.last())
    }
}

/// The points of one card: the number of its gems if it is a gem card that
/// is not leveraged, else none.
pub open spec fn card_points(card: Card) -> int {
    if !card@.is_leveraged && !card@.is_coin {
        gem_count(archtype_gems(card@.archtype))
    } else {
        0
    }
}

/// The cards that are leveraged.
pub open spec fn leveraged_cards() -> spec_fn(Card) -> bool {
    |c: Card| c@.is_leveraged
}

/// The cards that are not leveraged.
pub open spec fn non_leveraged_cards() -> spec_fn(Card) -> bool {
    |c: Card| !c@.is_leveraged
}

/// The coins.
pub open spec fn coin_cards() -> spec_fn(Card) -> bool {
    |c: Card| c@.is_coin
}

/// The gem cards.
pub open spec fn gem_cards() -> spec_fn(Card) -> bool {
    |c: Card| !c@.is_coin
}

/// The cards that are present.
pub open spec fn non_null_cards() -> spec_fn(Card) -> bool {
    |c: Card| !c@.is_null()
}

/// The filters that a sequence of cards offers.
#[derive(Clone, Copy)]
enum Keep {
    Leveraged,
    NonLeveraged,
    Coins,
    Gems,
    NonNull,
}

impl Keep {
    /// The cards that the filter lets through.
    spec fn cards(self) -> spec_fn(Card) -> bool {
        match self {
            Keep::Leveraged => leveraged_cards(),
            Keep::NonLeveraged => non_leveraged_cards(),
            Keep::Coins => coin_cards(),
            Keep::Gems => gem_cards(),
            Keep::NonNull => non_null_cards(),
        }
    }

    /// Whether the filter lets `card` through.
    fn keeps(self, card: Card) -> (r: bool)
        ensures
            r == (self.cards())(card),
    {
        match self {
            Keep::Leveraged => card.is_leveraged(),
            Keep::NonLeveraged => !card.is_leveraged(),
            Keep::Coins => card.is_coin(),
            Keep::Gems => !card.is_coin(),
            Keep::NonNull => !card.is_null(),
        }
    }
}

/// The cards of `cards` that `keep` lets through, in their order.
fn filter_cards(cards: &Vec<Card>, keep: Keep) -> (r: Vec<Card>)
    ensures
        r@ == cards@.filter(keep.cards()),
{
    let mut out: Vec<Card> = Vec::new();
    let mut i: usize = 0;
    proof {
        reveal(Seq::filter);
    }
    while i < cards.len()
        invariant
            i <= cards@.len(),
            out@ == cards@.take(i as int).filter(keep.cards()),
        decreases cards@.len() - i,
    {
        let card = cards[i];
        proof {
            assert(cards@.take(i + 1) == cards@.take(i as int).push(card));
            cards@.take(i as int).lemma_filter_push(card, keep.cards());
        }
        if keep.keeps(card) {
            out.push(card);
        }
        i += 1;
    }
    proof {
        assert(cards@.take(cards@.len() as int) == cards@);
    }
    out
}

/// A finite run of cards that can be narrowed down and summed up. Each step
/// keeps the order of the cards it lets through.
pub trait CardIterator: Sized {
    /// The cards of the run, in order.
    spec fn cards(&self) -> Seq<Card>;

    /// The cards at the positions that `choice` holds.
    fn choose_cards(self, choice: CardChoice) -> (r: Self)
        ensures
            r.cards() == chosen_cards(self.cards(), choice@),
    ;

    /// The leveraged cards.
    fn leveraged(self) -> (r: Self)
        ensures
            r.cards() == self.cards().filter(leveraged_cards()),
    ;

    /// The cards that are not leveraged.
    fn non_leveraged(self) -> (r: Self)
        ensures
            r.cards() == self.cards().filter(non_leveraged_cards()),
    ;

    /// The coins.
    fn coin_cards(self) -> (r: Self)
        ensures
            r.cards() == self.cards().filter(coin_cards()),
    ;

    /// The gem cards.
    fn gem_cards(self) -> (r: Self)
        ensures
            r.cards() == self.cards().filter(gem_cards()),
    ;

    /// The cards that are present.
    fn non_null(self) -> (r: Self)
        ensures
            r.cards() == self.cards().filter(non_null_cards()),
    ;

    /// The capital in the run: the face values of the cards that are not
    /// leveraged, summed. With more than 31 cards the sum may not fit.
    fn capital(self) -> (r: BidValue)
        requires
            self.cards().len() <= 31,
        ensures
            r == capital_of(self.cards()),
    ;

    /// What flipping every card of the run is worth: the face values of the
    /// available cards minus those of the leveraged ones. With more than 31
    /// cards the sum may not fit.
    fn scalar_value(self) -> (r: BidValue)
        requires
            self.cards().len() <= 31,
        ensures
            r == scalar_value_of(self.cards()),
    ;
}

impl CardIterator for Vec<Card> {
    open spec fn cards(&self) -> Seq<Card> {
        self@
    }

    fn choose_cards(self, choice: CardChoice) -> (r: Self) {
        let mut out: Vec<Card> = Vec::new();
        let mut i: usize = 0;
        while i < self.len()
            invariant
                i <= self@.len(),
                out@ == chosen_cards(self@.take(i as int), choice@),
            decreases self@.len() - i,
        {
            let card = self[i];
            proof {
                assert(self@.take(i + 1).drop_last() == self@.take(i as int));
                if i >= 32 {
                    if choice@.contains(i as int) {
                        choice.lemma_in_range(i as int);
                    }
                }
            }
            if i < 32 && choice.check(i) {
                out.push(card);
            }
            i += 1;
        }
        proof {
            assert(self@.take(self@.len() as int) == self@);
        }
        out
    }

    fn leveraged(self) -> (r: Self) {
        filter_cards(&self, Keep::Leveraged)
    }

    fn non_leveraged(self) -> (r: Self) {
        filter_cards(&self, Keep::NonLeveraged)
    }

    fn coin_cards(self) -> (r: Self) {
        filter_cards(&self, Keep::Coins)
    }

    fn gem_cards(self) -> (r: Self) {
        filter_cards(&self, Keep::Gems)
    }

    fn non_null(self) -> (r: Self) {
        filter_cards(&self, Keep::NonNull)
    }

    fn capital(self) -> (r: BidValue) {
        let mut sum: i8 = 0;
        let mut i: usize = 0;
        while i < self.len()
            invariant
                i <= self@.len(),
                self@.len() <= 31,
                sum == capital_of(self@.take(i as int)),
                0 <= sum <= 4 * i,
            decreases self@.len() - i,
        {
            proof {
                assert(self@.take(i + 1).drop_last() == self@.take(i as int));
            }
            match self[i].get_value() {
                Some(v) => {
                    sum = sum + v;
                },
                None => {},
            }
            i += 1;
        }
        proof {
            assert(self@.take(self@.len() as int) == self@);
        }
        sum
    }

    fn scalar_value(self) -> (r: BidValue) {
        let mut sum: i8 = 0;
        let mut i: usize = 0;
        while i < self.len()
            invariant
                i <= self@.len(),
                self@.len() <= 31,
                sum == scalar_value_of(self@.take(i as int)),
                -4 * i <= sum <= 4 * i,
            decreases self@.len() - i,
        {
            proof {
                assert(self@.take(i + 1).drop_last() == self@.take(i as int));
            }
            sum = sum + self[i].scalar_value();
            i += 1;
        }
        proof {
            assert(self@.take(self@.len() as int) == self@);
        }
        sum
    }
}

/// A selection is no longer than what it selects from, and holds only cards of it.
pub proof fn lemma_chosen_cards(cards: Seq<Card>, choice: Set<int>)
    ensures
        chosen_cards(cards, choice).len() <= cards.len(),
        forall|k: int|
            0 <= k < chosen_cards(cards, choice).len() ==> cards.contains(
                #[trigger] chosen_cards(cards, choice)[k],
            ),
    decreases cards.len(),
{
    if cards.len() > 0 {
        let rest = cards.drop_last();
        lemma_chosen_cards(rest, choice);
        let sel = chosen_cards(cards, choice);
        assert forall|k: int| 0 <= k < sel.len() implies cards.contains(#[trigger] sel[k]) by {
            if k < chosen_cards(rest, choice).len() {
                let c = chosen_cards(rest, choice)[k];
                assert(rest.contains(c));
                let j = choose|j: int| 0 <= j < rest.len() && rest[j] == c;
                assert(cards[j] == c);
            } else {
                assert(sel[k] == cards[cards.len() - 1]);
            }
        }
    }
}

/// The capital of a selection counts no leveraged card: it is the summed face
/// value of the selected cards that are not leveraged, and the leveraged ones
/// among them carry no capital at all.
pub proof fn lemma_capital_skips_leveraged(cards: Seq<Card>, choice: Set<int>)
    ensures
        capital_of(chosen_cards(cards, choice)) == face_value_of(
            chosen_cards(cards, choice).filter(non_leveraged_cards()),
        ),
        capital_of(chosen_cards(cards, choice).filter(leveraged_cards())) == 0,
{
    lemma_capital_of_filters(chosen_cards(cards, choice));
}

/// The capital of any sequence is the summed face value of its cards that are
/// not leveraged; its leveraged cards carry none.
proof fn lemma_capital_of_filters(cards: Seq<Card>)
    ensures
        capital_of(cards) == face_value_of(cards.filter(non_leveraged_cards())),
        capital_of(cards.filter(leveraged_cards())) == 0,
    decreases cards.len(),
{
    reveal(Seq::filter);
    if cards.len() > 0 {
        let rest = cards.drop_last();
        let last = cards.last();
        lemma_capital_of_filters(rest);
        assert(cards == rest.push(last));
        rest.lemma_filter_push(last, non_leveraged_cards());
        rest.lemma_filter_push(last, leveraged_cards());
        if last@.is_leveraged {
            let kept = rest.filter(leveraged_cards()).push(last);
            assert(kept.drop_last() == rest.filter(leveraged_cards()));
        } else {
            let kept = rest.filter(non_leveraged_cards()).push(last);
            assert(kept.drop_last() == rest.filter(non_leveraged_cards()));
        }
    }
}

} // verus!
