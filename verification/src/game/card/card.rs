//! A card, packed into one byte.

use crate::game::card::archtypes::{archtype_gems, gem_value, GemArchtype};
use crate::game::card::collection::CardCollection;
use crate::game::BidValue;
use vstd::prelude::*;

verus! {

/// What a card says: the mathematical reading of its byte.
pub struct CardView {
    /// The face value, from 1 to 4.
    pub value: int,
    /// Whether the card is a coin rather than a gem card.
    pub is_coin: bool,
    /// Whether the card has been leveraged.
    pub is_leveraged: bool,
    /// The index of the gem archetype, from 0 to 15; it means something only
    /// for a gem card.
    pub archtype: int,
}

impl CardView {
    /// The reserved pattern that stands for "no card": a coin of face value 4.
    pub open spec fn is_null(self) -> bool {
        self.is_coin && self.value == 4
    }

    /// What the card can pay: nothing while it is leveraged, else its face value.
    pub open spec fn get_value(self) -> Option<int> {
        if self.is_leveraged {
            None
        } else {
            Some(self.value)
        }
    }

    /// What flipping the card is worth to its owner: pledging an available
    /// card brings its face value in, restoring a leveraged card costs it.
    pub open spec fn scalar_value(self) -> int {
        if self.is_leveraged {
            -self.value
        } else {
            self.value
        }
    }

    /// The same card with another leverage state.
    pub open spec fn with_leverage(self, leverage: bool) -> CardView {
        CardView { is_leveraged: leverage, ..self }
    }

    /// The same card with another face value.
    pub open spec fn with_value(self, value: int) -> CardView {
        CardView { value, ..self }
    }

    /// The same card turned into a gem card of the archetype at `Some` index,
    /// or into a coin for `None`.
    pub open spec fn with_type(self, archtype: Option<int>) -> CardView {
        match archtype {
            Some(idx) => CardView { is_coin: false, archtype: idx, ..self },
            None => CardView { is_coin: true, archtype: 0, ..self },
        }
    }

    /// The absent card.
    pub open spec fn null() -> CardView {
        CardView { value: 4, is_coin: true, is_leveraged: true, archtype: 0 }
    }

    /// An available coin of the given face value.
    pub open spec fn coin(value: int) -> CardView {
        CardView { value, is_coin: true, is_leveraged: false, archtype: 0 }
    }

    /// The gem card of the archetype at `idx`, as it lies in the deck:
    /// leveraged, and worth what its gems are worth.
    pub open spec fn gem(idx: int) -> CardView {
        CardView {
            value: gem_value(archtype_gems(idx)),
            is_coin: false,
            is_leveraged: true,
            archtype: idx,
        }
    }
}

/// Whether `cards` is the deck in its first order: the diamond three times,
/// then each of the other fifteen archetypes once, by index.
pub open spec fn is_gem_deck(cards: Seq<Card>) -> bool {
    &&& cards.len() == 18
    &&& forall|i: int|
        0 <= i < 18 ==> (#[trigger] cards[i])@ == CardView::gem(
            if i < 2 {
                0
            } else {
                i - 2
            },
        )
}

/// A card in a single byte `VVCLAAAA`: `VV` is the face value minus one, `C`
/// is set for a coin, `L` is set while the card is leveraged, and `AAAA` is
/// the index of the gem archetype of a gem card.
#[derive(Clone, Copy, PartialEq, Eq, Structural, Debug)]
pub struct Card(u8);

impl View for Card {
    type V = CardView;

    closed spec fn view(&self) -> CardView {
        CardView {
            value: self.0 as int / 64 + 1,
            is_coin: (self.0 as int / 32) % 2 == 1,
            is_leveraged: (self.0 as int / 16) % 2 == 1,
            archtype: self.0 as int % 16,
        }
    }
}

impl Card {
    /// The absent card. Empty slots of a collection hold it.
    pub fn null() -> (r: Card)
        ensures
            r@ == CardView::null(),
            r@.is_null(),
    {
        Card(0xf0)
    }

    /// The face value, whether or not the card is leveraged.
    #[inline]
    pub fn value(self) -> (r: BidValue)
        ensures
            r == self@.value,
            1 <= r <= 4,
    {
        let b = self.0;
        assert(b >> 6 == b / 64 && b >> 6 < 4) by (bit_vector);
        (self.0 >> 6) as i8 + 1
    }

    /// What the card can pay: `None` while it is leveraged, else its face value.
    pub fn get_value(self) -> (r: Option<BidValue>)
        ensures
            r is Some <==> self@.get_value() is Some,
            r is Some ==> r->0 == self@.get_value()->0,
            r is Some ==> 1 <= r->0 <= 4,
    {
        if self.is_leveraged() {
            None
        } else {
            Some(self.value())
        }
    }

    /// What flipping the card is worth to its owner: its face value if it is
    /// available, minus its face value if it is leveraged.
    pub fn scalar_value(self) -> (r: BidValue)
        ensures
            r == self@.scalar_value(),
            -4 <= r <= 4,
    {
        if self.is_leveraged() {
            -self.value()
        } else {
            self.value()
        }
    }

    /// The same card with the face value `value`.
    pub fn with_value(self, value: BidValue) -> (r: Card)
        requires
            1 <= value <= 4,
        ensures
            r@ == self@.with_value(value as int),
    {
        let b = self.0;
        let v: u8 = (value - 1) as u8;
        assert(v < 4 ==> {
            let x = (b & 0x3f) | (v << 6);
            &&& x / 64 == v
            &&& (x / 32) % 2 == (b / 32) % 2
            &&& (x / 16) % 2 == (b / 16) % 2
            &&& x % 16 == b % 16
        }) by (bit_vector);
        Card((self.0 & 0x3f) | (v << 6))
    }

    /// Whether the card is leveraged.
    #[inline]
    pub fn is_leveraged(self) -> (r: bool)
        ensures
            r == self@.is_leveraged,
    {
        let b = self.0;
        assert((b & 0x10 != 0) <==> (b / 16) % 2 == 1) by (bit_vector);
        self.0 & 0x10 != 0
    }

    /// The card that differs from this one in its leverage state only.
    pub closed spec fn spec_with_leverage(self, leverage: bool) -> Card {
        if leverage {
            Card((self.0 & 0xef) | 0x10)
        } else {
            Card(self.0 & 0xef)
        }
    }

    /// The card that `spec_with_leverage` names says what this card says,
    /// but for the leverage state. It is absent exactly if this one is.
    pub proof fn lemma_spec_with_leverage(self, leverage: bool)
        ensures
            self.spec_with_leverage(leverage)@ == self@.with_leverage(leverage),
            self.spec_with_leverage(leverage)@.is_null() == self@.is_null(),
            self@.is_leveraged == leverage ==> self.spec_with_leverage(leverage) == self,
    {
        let b = self.0;
        assert({
            let x = (b & 0xef) | 0x10;
            let y = b & 0xef;
            &&& x / 64 == b / 64
            &&& (x / 32) % 2 == (b / 32) % 2
            &&& (x / 16) % 2 == 1
            &&& x % 16 == b % 16
            &&& y / 64 == b / 64
            &&& (y / 32) % 2 == (b / 32) % 2
            &&& (y / 16) % 2 == 0
            &&& y % 16 == b % 16
        }) by (bit_vector);
        if self@.is_leveraged == leverage {
            self.spec_with_leverage(leverage).lemma_view_injective(self);
        }
    }

    /// The same card, leveraged or not as `leverage` says.
    pub fn with_leverage(self, leverage: bool) -> (r: Card)
        ensures
            r == self.spec_with_leverage(leverage),
            r@ == self@.with_leverage(leverage),
            r@.is_null() == self@.is_null(),
    {
        proof {
            self.lemma_spec_with_leverage(leverage);
        }
        if leverage {
            Card((self.0 & 0xef) | 0x10)
        } else {
            Card(self.0 & 0xef)
        }
    }

    /// Whether the card is a coin.
    #[inline]
    pub fn is_coin(self) -> (r: bool)
        ensures
            r == self@.is_coin,
    {
        let b = self.0;
        assert((b & 0x20 != 0) <==> (b / 32) % 2 == 1) by (bit_vector);
        self.0 & 0x20 != 0
    }

    /// The gem archetype of the card. It means something only for a gem card.
    #[inline]
    pub fn archtype(self) -> (r: GemArchtype)
        ensures
            r == GemArchtype::spec_from_index(self@.archtype),
            r.wf(),
            r.spec_index() == self@.archtype,
            r@ == archtype_gems(self@.archtype),
    {
        let b = self.0;
        assert(b & 0x0f == b % 16) by (bit_vector);
        GemArchtype::from_index(self.0 & 0x0f)
    }

    /// The same card as a gem card of the given archetype, or as a coin for `None`.
    pub fn with_type(self, card_type: Option<GemArchtype>) -> (r: Card)
        requires
            card_type is Some ==> card_type->0.wf(),
        ensures
            r@ == self@.with_type(
                match card_type {
                    Some(a) => Some(a.spec_index()),
                    None => None,
                },
            ),
    {
        let b = self.0;
        match card_type {
            Some(archtype) => {
                let a = archtype.index();
                assert(a < 16 ==> {
                    let x = (b & 0xd0) | a;
                    &&& x / 64 == b / 64
                    &&& (x / 32) % 2 == 0
                    &&& (x / 16) % 2 == (b / 16) % 2
                    &&& x % 16 == a
                }) by (bit_vector);
                Card((self.0 & 0xd0) | a)
            },
            None => {
                assert({
                    let x = (b & 0xf0) | 0x20;
                    &&& x / 64 == b / 64
                    &&& (x / 32) % 2 == 1
                    &&& (x / 16) % 2 == (b / 16) % 2
                    &&& x % 16 == 0
                }) by (bit_vector);
                Card((self.0 & 0xf0) | 0x20)
            },
        }
    }

    /// Whether this is the absent card.
    #[inline]
    pub fn is_null(self) -> (r: bool)
        ensures
            r == self@.is_null(),
    {
        let b = self.0;
        assert((b & 0xe0 == 0xe0) <==> ((b / 32) % 2 == 1 && b / 64 == 3)) by (bit_vector);
        self.0 & 0xe0 == 0xe0
    }

    /// A card with the given face value and leverage state: a gem card of the
    /// archetype in `Some`, or a coin for `None`.
    pub fn new(value: BidValue, is_leveraged: bool, archtype: Option<GemArchtype>) -> (r: Card)
        requires
            1 <= value <= 4,
            archtype is Some ==> archtype->0.wf(),
        ensures
            r@ == (CardView {
                value: value as int,
                is_coin: archtype is None,
                is_leveraged,
                archtype: match archtype {
                    Some(a) => a.spec_index(),
                    None => 0,
                },
            }),
    {
        Card::null().with_value(value).with_leverage(is_leveraged).with_type(archtype)
    }

    /// The available coin of face value `value`, for `value` from 1 to 4.
    pub closed spec fn spec_coin(value: int) -> Card {
        Card(((value - 1) * 64 + 32) as u8)
    }

    /// An available coin with the given face value.
    pub fn coin(value: BidValue) -> (r: Card)
        requires
            1 <= value <= 4,
        ensures
            r == Self::spec_coin(value as int),
            r@ == CardView::coin(value as int),
    {
        let r = Card::null().with_value(value).with_leverage(false);
        proof {
            r.lemma_view_injective(Self::spec_coin(value as int));
        }
        r
    }

    /// The gem card of an archetype as it lies in the deck: leveraged, and
    /// with the archetype's auction value as its face value.
    pub fn gem(archtype: GemArchtype) -> (r: Card)
        requires
            archtype.wf(),
        ensures
            r@ == CardView::gem(archtype.spec_index()),
            !r@.is_null(),
    {
        proof {
            archtype.lemma_wf();
        }
        Card::null().with_type(Some(archtype)).with_value(archtype.value())
    }

    /// The eighteen gem cards in their first order: the diamond three times,
    /// then each of the other fifteen archetypes once, by index.
    pub fn gem_deck() -> (r: CardCollection<18>)
        ensures
            r.wf(),
            is_gem_deck(r@),
    {
        let mut deck: CardCollection<18> = CardCollection::empty();
        let mut i: u8 = 0;
        while i < 18
            invariant
                i <= 18,
                deck.wf(),
                deck@.len() == i,
                forall|k: int|
                    0 <= k < i ==> (#[trigger] deck@[k])@ == CardView::gem(
                        if k < 2 {
                            0
                        } else {
                            k - 2
                        },
                    ),
            decreases 18 - i,
        {
            let idx: u8 = if i < 2 {
                0
            } else {
                i - 2
            };
            let card = Card::gem(GemArchtype::from_index(idx));
            deck.push_back(card);
            i += 1;
        }
        deck
    }

    /// Two cards that say the same are the same card.
    pub proof fn lemma_view_injective(self, other: Card)
        requires
            self@ == other@,
        ensures
            self == other,
    {
        let a = self.0;
        let b = other.0;
        assert(a / 64 == b / 64 && (a / 32) % 2 == (b / 32) % 2 && (a / 16) % 2 == (b / 16) % 2 && a
            % 16 == b % 16 ==> a == b) by (bit_vector);
    }

    /// A coin of face value `value` can pay exactly `value`; once it is
    /// leveraged it can pay nothing, and its face value is still `value`.
    pub proof fn lemma_coin_value(value: int)
        requires
            1 <= value <= 4,
        ensures
            Self::spec_coin(value)@ == CardView::coin(value),
            Self::spec_coin(value)@.get_value() == Some(value),
            Self::spec_coin(value).spec_with_leverage(true)@.get_value() is None,
            Self::spec_coin(value).spec_with_leverage(true)@.value == value,
    {
        Self::spec_coin(value).lemma_spec_with_leverage(true);
    }
}

impl Default for Card {
    /// The absent card.
    fn default() -> (r: Card)
        ensures
            r@ == CardView::null(),
    {
        Card::null()
    }
}

} // verus!
