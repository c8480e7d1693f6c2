//! A fixed-capacity, ordered collection of cards.

use crate::game::card::card::Card;
use crate::game::card::choice::CardChoice;
use crate::game::card::iterator::{chosen_cards, non_null_cards, CardIterator};
use crate::random::shuffle_items;
use core::ops::Range;
use rand::rngs::ThreadRng;
use vstd::prelude::*;

verus! {

/// Whether `cards` holds present cards in its first `count` places and the
/// absent card in all the others.
pub open spec fn nulls_trail(cards: Seq<Card>, count: int) -> bool {
    &&& 0 <= count <= cards.len()
    &&& forall|i: int| 0 <= i < cards.len() ==> ((#[trigger] cards[i])@.is_null() <==> i >= count)
}

/// Whether `f` makes a present card of every present card.
pub open spec fn keeps_present<F: Fn(Card) -> Card>(f: F) -> bool {
    forall|c: Card, r: Card| #[trigger] call_ensures(f, (c,), r) && !c@.is_null() ==> !r@.is_null()
}

/// Taking out the card that was just put in at the same position gives
/// the sequence back as it was, and gives that card.
pub proof fn lemma_pop_undoes_push(cards: Seq<Card>, card: Card, idx: int)
    requires
        0 <= idx <= cards.len(),
    ensures
        cards.insert(idx, card).remove(idx) == cards,
        cards.insert(idx, card)[idx] == card,
{
    assert(cards.insert(idx, card).remove(idx) =~= cards);
}

/// Up to `N` cards in a fixed order. The cards fill the first slots without
/// a gap; every slot behind them holds the absent card.
#[derive(Clone, Copy, Debug, PartialEq, Eq)]
pub struct CardCollection<const N: usize> {
    cards: [Card; N],
    len: usize,
}

impl<const N: usize> View for CardCollection<N> {
    type V = Seq<Card>;

    /// The cards of the collection, in order.
    open spec fn view(&self) -> Seq<Card> {
        Seq::new(self.spec_len() as nat, |i: int| self.slot(i))
    }
}

impl<const N: usize> CardCollection<N> {
    /// What the slot at position `i` holds, for `i` in `[0, N)`.
    pub closed spec fn slot(&self, i: int) -> Card {
        self.cards@[i]
    }

    /// The number of cards.
    pub closed spec fn spec_len(&self) -> usize {
        self.len
    }

    /// The invariant of every collection: the first `len` slots hold cards,
    /// all slots from `len` on hold the absent card.
    pub open spec fn wf(&self) -> bool {
        &&& self.spec_len() <= N
        &&& forall|i: int|
            0 <= i < N ==> ((#[trigger] self.slot(i))@.is_null() <==> i >= self.spec_len())
    }

    /// The collection without cards.
    pub fn empty() -> (r: Self)
        ensures
            r.wf(),
            r@ == Seq::<Card>::empty(),
    {
        let r = CardCollection { cards: [Card::null(); N], len: 0 };
        assert(r@ =~= Seq::<Card>::empty());
        r
    }

    /// The collection of the cards in `cards` that are present, in their
    /// order: the absent ones move behind them.
    pub fn new(cards: [Card; N]) -> (r: Self)
        ensures
            r.wf(),
            r@ == cards@.filter(non_null_cards()),
    {
        let mut sorted: [Card; N] = [Card::null(); N];
        let mut count: usize = 0;
        let mut i: usize = 0;
        proof {
            reveal(Seq::filter);
            assert(sorted@.take(0) =~= cards@.take(0).filter(non_null_cards()));
        }
        while i < N
            invariant
                count <= i <= N,
                sorted@.take(count as int) == cards@.take(i as int).filter(non_null_cards()),
                forall|k: int| 0 <= k < count ==> !(#[trigger] sorted@[k])@.is_null(),
                forall|k: int| count <= k < N ==> (#[trigger] sorted@[k])@.is_null(),
            decreases N - i,
        {
            let card = cards[i];
            proof {
                assert(cards@.take(i + 1) == cards@.take(i as int).push(card));
                cards@.take(i as int).lemma_filter_push(card, non_null_cards());
            }
            if !card.is_null() {
                let ghost before = sorted@;
                sorted[count] = card;
                proof {
                    assert(sorted@.take(count + 1) =~= before.take(count as int).push(card));
                }
                count += 1;
            }
            i += 1;
        }
        proof {
            assert(cards@.take(N as int) == cards@);
            assert(nulls_trail(sorted@, count as int));
        }
        let len = Self::find_last(&sorted);
        proof {
            if len < count {
                assert(sorted@[len as int]@.is_null());
            }
            if count < len {
                assert(sorted@[count as int]@.is_null());
            }
        }
        let r = CardCollection { cards: sorted, len };
        proof {
            assert(r@ =~= sorted@.take(count as int));
        }
        r
    }

    /// The number of cards.
    #[inline]
    #[verifier::when_used_as_spec(spec_len)]
    pub fn len(&self) -> (r: usize)
        ensures
            r == self.spec_len(),
            r == self@.len(),
    {
        self.len
    }

    /// The number of cards at the front of `cards`, where all the absent
    /// cards of `cards` trail the present ones: found by bisection.
    fn find_last(cards: &[Card]) -> (r: usize)
        requires
            exists|count: int| nulls_trail(cards@, count),
        ensures
            nulls_trail(cards@, r as int),
    {
        let ghost count = choose|count: int| nulls_trail(cards@, count);
        let mut start: usize = 0;
        let mut end: usize = cards.len();
        while start < end
            invariant
                nulls_trail(cards@, count),
                start <= count <= end <= cards@.len(),
            decreases end - start,
        {
            let width: usize = end - start;
            assert(width > 0 ==> width >> 1 < width) by (bit_vector);
            let mid = start + (width >> 1);
            if cards[mid].is_null() {
                if mid == 0 || !cards[mid - 1].is_null() {
                    return mid;
                }
                end = mid;
            } else {
                start = mid + 1;
            }
        }
        start
    }

    /// Puts `card` at position `idx` and moves the cards from there on one
    /// place back.
    pub fn push(&mut self, card: Card, idx: usize)
        requires
            old(self).wf(),
            old(self)@.len() < N,
            idx <= old(self)@.len(),
            !card@.is_null(),
        ensures
            final(self).wf(),
            final(self)@ == old(self)@.insert(idx as int, card),
    {
        let ghost before = self.cards@;
        let mut j: usize = self.len;
        while j > idx
            invariant
                idx <= j <= self.len < N,
                self.len == old(self).len,
                before == old(self).cards@,
                forall|k: int| 0 <= k <= j ==> self.cards@[k] == before[k],
                forall|k: int| j < k <= self.len ==> self.cards@[k] == before[k - 1],
                forall|k: int| self.len < k < N ==> self.cards@[k] == before[k],
            decreases j,
        {
            self.cards[j] = self.cards[j - 1];
            j -= 1;
        }
        self.cards[idx] = card;
        self.len += 1;
        proof {
            assert forall|i: int| 0 <= i < N implies ((#[trigger] self.slot(i))@.is_null() <==> i
                >= self.spec_len()) by {
                if i > old(self).len {
                    assert(old(self).slot(i) == before[i]);
                } else if i > idx {
                    assert(old(self).slot(i - 1) == before[i - 1]);
                } else if i < idx {
                    assert(old(self).slot(i) == before[i]);
                }
            }
            assert(self@ =~= old(self)@.insert(idx as int, card));
        }
    }

    /// Puts `card` behind the last card.
    pub fn push_back(&mut self, card: Card)
        requires
            old(self).wf(),
            old(self)@.len() < N,
            !card@.is_null(),
        ensures
            final(self).wf(),
            final(self)@ == old(self)@.push(card),
    {
        self.cards[self.len] = card;
        self.len += 1;
        proof {
            assert(self.cards@ == old(self).cards@.update(old(self).len as int, card));
            assert forall|i: int| 0 <= i < N implies ((#[trigger] self.slot(i))@.is_null() <==> i
                >= self.spec_len()) by {
                if i != old(self).len {
                    assert(old(self).slot(i) == self.slot(i));
                }
            }
            assert(self@ =~= old(self)@.push(card));
        }
    }

    /// Takes the card at position `idx` out and moves the cards behind it one
    /// place forward.
    pub fn pop(&mut self, idx: usize) -> (card: Card)
        requires
            old(self).wf(),
            idx < old(self)@.len(),
        ensures
            final(self).wf(),
            card == old(self)@[idx as int],
            final(self)@ == old(self)@.remove(idx as int),
    {
        let ghost before = self.cards@;
        let card = self.cards[idx];
        let mut j: usize = idx;
        while j + 1 < self.len
            invariant
                idx <= j < self.len <= N,
                self.len == old(self).len,
                before == old(self).cards@,
                forall|k: int| 0 <= k < idx ==> self.cards@[k] == before[k],
                forall|k: int| idx <= k < j ==> self.cards@[k] == before[k + 1],
                forall|k: int| j <= k < N ==> self.cards@[k] == before[k],
            decreases self.len - j,
        {
            self.cards[j] = self.cards[j + 1];
            j += 1;
        }
        self.cards[j] = Card::null();
        self.len -= 1;
        proof {
            assert forall|i: int| 0 <= i < N implies ((#[trigger] self.slot(i))@.is_null() <==> i
                >= self.spec_len()) by {
                if i < idx {
                    assert(old(self).slot(i) == before[i]);
                } else if i < self.len {
                    assert(old(self).slot(i + 1) == before[i + 1]);
                } else if i > self.len {
                    assert(old(self).slot(i) == before[i]);
                }
            }
            assert(self@ =~= old(self)@.remove(idx as int));
        }
        card
    }

    /// Copies the cards of `src` at the positions `src_range` over the
    /// positions `dest_range` of this collection, which may reach past its
    /// last card and then lengthen it. The two ranges are equally long; the
    /// copied cards lie within `src`, and the target starts at or before the
    /// end of this collection, so that no gap opens.
    pub fn copy_from<const M: usize>(
        &mut self,
        src: &CardCollection<M>,
        src_range: Range<usize>,
        dest_range: Range<usize>,
    )
        requires
            old(self).wf(),
            src.wf(),
            src_range.start <= src_range.end <= src@.len(),
            dest_range.start <= dest_range.end <= N,
            dest_range.start <= old(self)@.len(),
            src_range.end - src_range.start == dest_range.end - dest_range.start,
        ensures
            final(self).wf(),
            final(self)@ == old(self)@.take(dest_range.start as int) + src@.subrange(
                src_range.start as int,
                src_range.end as int,
            ) + (if dest_range.end < old(self)@.len() {
                old(self)@.skip(dest_range.end as int)
            } else {
                Seq::empty()
            }),
    {
        let ghost before = self.cards@;
        let count: usize = dest_range.end - dest_range.start;
        let mut k: usize = 0;
        while k < count
            invariant
                k <= count,
                count == dest_range.end - dest_range.start,
                count == src_range.end - src_range.start,
                src_range.end <= src.len() <= M,
                dest_range.end <= N,
                src.wf(),
                self.len == old(self).len,
                before == old(self).cards@,
                forall|i: int|
                    dest_range.start <= i < dest_range.start + k ==> self.cards@[i] == src.slot(
                        src_range.start + i - dest_range.start,
                    ),
                forall|i: int|
                    0 <= i < N && !(dest_range.start <= i < dest_range.start + k)
                        ==> self.cards@[i] == before[i],
            decreases count - k,
        {
            self.cards[dest_range.start + k] = src.cards[src_range.start + k];
            k += 1;
        }
        if self.len < dest_range.end {
            self.len = dest_range.end;
        }
        proof {
            assert forall|i: int| 0 <= i < N implies ((#[trigger] self.slot(i))@.is_null() <==> i
                >= self.spec_len()) by {
                if dest_range.start <= i < dest_range.end {
                    let s = src_range.start + i - dest_range.start;
                    assert(!src.slot(s)@.is_null());
                } else {
                    assert(old(self).slot(i) == before[i]);
                }
            }
            let tail = if dest_range.end < old(self).len() {
                old(self)@.skip(dest_range.end as int)
            } else {
                Seq::empty()
            };
            assert(self@ =~= old(self)@.take(dest_range.start as int) + src@.subrange(
                src_range.start as int,
                src_range.end as int,
            ) + tail);
        }
    }

    /// The cards, in order, as a slice.
    pub fn as_slice(&self) -> (r: &[Card])
        requires
            self.wf(),
        ensures
            r@ == self@,
    {
        let r = vstd::slice::slice_subrange(self.cards.as_slice(), 0, self.len);
        proof {
            assert(r@ =~= self@);
        }
        r
    }

    /// The card at position `idx`.
    pub fn get(&self, idx: usize) -> (r: Card)
        requires
            self.wf(),
            idx < self@.len(),
        ensures
            r == self@[idx as int],
    {
        self.cards[idx]
    }

    /// The cards, in order.
    pub fn iter(&self) -> (r: Vec<Card>)
        requires
            self.wf(),
        ensures
            r@ == self@,
    {
        let mut out: Vec<Card> = Vec::new();
        let mut i: usize = 0;
        while i < self.len
            invariant
                i <= self.len <= N,
                out@.len() == i,
                forall|k: int| 0 <= k < i ==> out@[k] == self.slot(k),
            decreases N - i,
        {
            out.push(self.cards[i]);
            i += 1;
        }
        proof {
            assert(out@ =~= self@);
        }
        out
    }

    /// The cards at the positions that `choice` holds, in order.
    pub fn choose_cards(&self, choice: CardChoice) -> (r: Vec<Card>)
        requires
            self.wf(),
        ensures
            r@ == chosen_cards(self@, choice@),
    {
        self.iter().choose_cards(choice)
    }

    /// Replaces every card by what `f` makes of it. `f` must keep a card present.
    pub fn iter_mut<F: Fn(Card) -> Card>(&mut self, f: F)
        requires
            old(self).wf(),
            forall|i: int|
                0 <= i < old(self)@.len() ==> call_requires(f, (#[trigger] old(self)@[i],)),
            keeps_present(f),
        ensures
            final(self).wf(),
            final(self)@.len() == old(self)@.len(),
            forall|i: int|
                0 <= i < old(self)@.len() ==> call_ensures(
                    f,
                    (old(self)@[i],),
                    #[trigger] final(self)@[i],
                ),
    {
        let mut i: usize = 0;
        while i < self.len
            invariant
                i <= self.len <= N,
                self.len == old(self).len,
                old(self).wf(),
                forall|k: int|
                    0 <= k < old(self)@.len() ==> call_requires(f, (#[trigger] old(self)@[k],)),
                keeps_present(f),
                forall|k: int|
                    0 <= k < i ==> call_ensures(
                        f,
                        (old(self).slot(k),),
                        #[trigger] self.cards@[k],
                    ),
                forall|k: int| i <= k < N ==> self.cards@[k] == old(self).slot(k),
                forall|k: int| 0 <= k < i ==> !self.cards@[k]@.is_null(),
            decreases self.len - i,
        {
            assert(old(self)@[i as int] == old(self).slot(i as int));
            let card = f(self.cards[i]);
            self.cards[i] = card;
            i += 1;
        }
        proof {
            assert forall|k: int| 0 <= k < N implies ((#[trigger] self.slot(k))@.is_null() <==> k
                >= self.spec_len()) by {
                if k >= self.len {
                    assert(self.cards@[k] == old(self).slot(k));
                }
            }
        }
    }

    /// Replaces every card at a position that `choice` holds by what `f`
    /// makes of it. `f` must keep a card present.
    pub fn choose_mut<F: Fn(Card) -> Card>(&mut self, choice: CardChoice, f: F)
        requires
            old(self).wf(),
            forall|i: int|
                0 <= i < old(self)@.len() && choice@.contains(i) ==> call_requires(
                    f,
                    (#[trigger] old(self)@[i],),
                ),
            keeps_present(f),
        ensures
            final(self).wf(),
            final(self)@.len() == old(self)@.len(),
            forall|i: int|
                0 <= i < old(self)@.len() ==> (if choice@.contains(i) {
                    call_ensures(f, (old(self)@[i],), #[trigger] final(self)@[i])
                } else {
                    final(self)@[i] == old(self)@[i]
                }),
    {
        let mut i: usize = 0;
        while i < self.len
            invariant
                i <= self.len <= N,
                self.len == old(self).len,
                old(self).wf(),
                forall|k: int|
                    0 <= k < old(self)@.len() && choice@.contains(k) ==> call_requires(
                        f,
                        (#[trigger] old(self)@[k],),
                    ),
                keeps_present(f),
                forall|k: int|
                    0 <= k < i ==> (if choice@.contains(k) {
                        call_ensures(f, (old(self).slot(k),), #[trigger] self.cards@[k])
                    } else {
                        self.cards@[k] == old(self).slot(k)
                    }),
                forall|k: int| i <= k < N ==> self.cards@[k] == old(self).slot(k),
                forall|k: int| 0 <= k < i ==> !self.cards@[k]@.is_null(),
            decreases self.len - i,
        {
            assert(old(self)@[i as int] == old(self).slot(i as int));
            proof {
                if i >= 32 && choice@.contains(i as int) {
                    choice.lemma_in_range(i as int);
                }
            }
            if i < 32 && choice.check(i) {
                assert(old(self)@[i as int] == old(self).slot(i as int));
                let card = f(self.cards[i]);
                self.cards[i] = card;
            }
            i += 1;
        }
        proof {
            assert forall|k: int| 0 <= k < N implies ((#[trigger] self.slot(k))@.is_null() <==> k
                >= self.spec_len()) by {
                if k >= self.len {
                    assert(self.cards@[k] == old(self).slot(k));
                }
            }
        }
    }

    /// Puts the cards of `cards` in place of the cards held, position by
    /// position. There are as many of them as cards are held, and all of
    /// them are present.
    pub fn replace_cards(&mut self, cards: &Vec<Card>)
        requires
            old(self).wf(),
            cards@.len() == old(self)@.len(),
            forall|i: int| 0 <= i < cards@.len() ==> !(#[trigger] cards@[i])@.is_null(),
        ensures
            final(self).wf(),
            final(self)@ == cards@,
    {
        let mut i: usize = 0;
        while i < self.len
            invariant
                i <= self.len <= N,
                self.len == old(self).len,
                cards@.len() == self.len,
                old(self).wf(),
                forall|k: int| 0 <= k < i ==> self.cards@[k] == cards@[k],
                forall|k: int| i <= k < N ==> self.cards@[k] == old(self).cards@[k],
            decreases self.len - i,
        {
            self.cards[i] = cards[i];
            i += 1;
        }
        proof {
            assert(self@ =~= cards@);
            assert forall|k: int| 0 <= k < N implies ((#[trigger] self.slot(k))@.is_null() <==> k
                >= self.spec_len()) by {
                if k < self.len {
                    assert(self.slot(k) == cards@[k]);
                } else {
                    assert(old(self).slot(k) == self.slot(k));
                }
            }
        }
    }

    /// Brings the cards into a random order.
    pub fn shuffle(&mut self, rng: &mut ThreadRng)
        requires
            old(self).wf(),
        ensures
            final(self).wf(),
            final(self)@.to_multiset() == old(self)@.to_multiset(),
    {
        let mut cards = self.iter();
        shuffle_items(&mut cards, rng);
        proof {
            vstd::seq_lib::to_multiset_len(cards@);
            vstd::seq_lib::to_multiset_len(old(self)@);
            assert forall|i: int| 0 <= i < cards@.len() implies !(#[trigger] cards@[i])@.is_null(
            ) by {
                let c = cards@[i];
                assert(cards@.contains(c));
                vstd::seq_lib::to_multiset_contains(cards@, c);
                vstd::seq_lib::to_multiset_contains(old(self)@, c);
                let j = choose|j: int| 0 <= j < old(self)@.len() && old(self)@[j] == c;
                assert(old(self).slot(j) == c);
            }
        }
        self.replace_cards(&cards);
    }

    /// Whether the collection holds no card.
    #[inline]
    pub fn is_empty(&self) -> (r: bool)
        ensures
            r == (self@.len() == 0),
    {
        self.len == 0
    }
}

impl<const N: usize> Default for CardCollection<N> {
    /// The collection without cards.
    fn default() -> (r: Self)
        ensures
            r.wf(),
            r@ == Seq::<Card>::empty(),
    {
        Self::empty()
    }
}

} // verus!
