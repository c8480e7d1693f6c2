//! A selection of positions in a sequence of cards.

use vstd::prelude::*;

verus! {

/// Whether bit `i` of `mask` is set. No position outside `[0, 32)` is.
pub open spec fn mask_selects(mask: u32, i: int) -> bool {
    0 <= i < 32 && (mask >> (i as u32)) & 1 == 1
}

/// A choice of cards, as a bit mask over the positions `[0, 32)` of some
/// sequence of cards. It names positions, not cards: it means something only
/// for the sequence it is applied to, in the order that sequence has then.
#[derive(Clone, Copy, Debug, PartialEq, Eq)]
pub struct CardChoice(u32);

impl View for CardChoice {
    type V = Set<int>;

    /// The set of the selected positions.
    closed spec fn view(&self) -> Set<int> {
        Set::new(|i: int| mask_selects(self.0, i))
    }
}

impl CardChoice {
    /// The choice that selects nothing.
    pub fn none() -> (r: CardChoice)
        ensures
            r@ == Set::<int>::empty(),
    {
        let r = CardChoice(0);
        proof {
            assert forall|i: int| !r@.contains(i) by {
                if 0 <= i < 32 {
                    let j = i as u32;
                    assert(j < 32 ==> (0u32 >> j) & 1 == 0) by (bit_vector);
                }
            }
            assert(r@ =~= Set::<int>::empty());
        }
        r
    }

    /// The choice that selects every position.
    pub fn all() -> (r: CardChoice)
        ensures
            r@ == Set::new(|i: int| 0 <= i < 32),
    {
        let r = CardChoice(u32::MAX);
        proof {
            assert forall|i: int| r@.contains(i) <==> 0 <= i < 32 by {
                if 0 <= i < 32 {
                    let j = i as u32;
                    assert(j < 32 ==> (0xffff_ffffu32 >> j) & 1 == 1) by (bit_vector);
                }
            }
            assert(r@ =~= Set::new(|i: int| 0 <= i < 32));
        }
        r
    }

    /// The choice that selects exactly the given positions.
    pub fn new(indices: &[usize]) -> (r: CardChoice)
        requires
            forall|k: int| 0 <= k < indices@.len() ==> indices@[k] < 32,
        ensures
            forall|i: int|
                r@.contains(i) <==> exists|k: int| 0 <= k < indices@.len() && indices@[k] == i,
    {
        let mut x: u32 = 0;
        let mut n: usize = 0;
        proof {
            assert forall|i: int| !mask_selects(x, i) by {
                if 0 <= i < 32 {
                    let j = i as u32;
                    assert(j < 32 ==> (0u32 >> j) & 1 == 0) by (bit_vector);
                }
            }
        }
        while n < indices.len()
            invariant
                n <= indices@.len(),
                forall|k: int| 0 <= k < indices@.len() ==> indices@[k] < 32,
                forall|i: int|
                    mask_selects(x, i) <==> exists|k: int| 0 <= k < n && indices@[k] == i,
            decreases indices@.len() - n,
        {
            let idx = indices[n];
            let shift: u32 = idx as u32;
            let ghost before = x;
            x = x | (1u32 << shift);
            proof {
                assert forall|i: int|
                    mask_selects(x, i) <==> exists|k: int| 0 <= k < n + 1 && indices@[k] == i by {
                    if 0 <= i < 32 {
                        let j = i as u32;
                        assert(shift < 32 && j < 32 ==> {
                            let raised = before | (1u32 << shift);
                            ((raised >> j) & 1 == 1) <==> (j == shift || (before >> j) & 1 == 1)
                        }) by (bit_vector);
                        if mask_selects(x, i) {
                            if j == shift {
                                assert(indices@[n as int] == i);
                            } else {
                                assert(mask_selects(before, i));
                                let k = choose|k: int| 0 <= k < n && indices@[k] == i;
                                assert(0 <= k < n + 1 && indices@[k] == i);
                            }
                        }
                        if exists|k: int| 0 <= k < n + 1 && indices@[k] == i {
                            let k = choose|k: int| 0 <= k < n + 1 && indices@[k] == i;
                            if k < n {
                                assert(mask_selects(before, i));
                            }
                        }
                    } else {
                        if exists|k: int| 0 <= k < n + 1 && indices@[k] == i {
                            let k = choose|k: int| 0 <= k < n + 1 && indices@[k] == i;
                            assert(indices@[k] < 32);
                        }
                    }
                }
            }
            n += 1;
        }
        CardChoice(x)
    }

    /// Whether the position `idx` is part of this choice.
    pub fn check(&self, idx: usize) -> (r: bool)
        requires
            idx < 32,
        ensures
            r == self@.contains(idx as int),
    {
        let mask = self.0;
        let shift: u32 = idx as u32;
        assert(shift < 32 ==> ((mask & (1u32 << shift) != 0) <==> (mask >> shift) & 1 == 1))
            by (bit_vector);
        self.0 & (1u32 << shift) != 0
    }

    /// A choice selects positions of `[0, 32)` only.
    pub proof fn lemma_in_range(self, i: int)
        requires
            self@.contains(i),
        ensures
            0 <= i < 32,
    {
    }
}

} // verus!
