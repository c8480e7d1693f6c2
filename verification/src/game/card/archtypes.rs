//! The six gems and the sixteen fixed combinations of them that a gem card shows.

use crate::game::BidValue;
use vstd::prelude::*;

verus! {

/// One of the six gems.
#[derive(Clone, Copy, PartialEq, Eq, Structural, Debug)]
pub enum GemType {
    Amethyst,
    Diamond,
    Emerald,
    Ruby,
    Sapphire,
    Topaz,
}

impl GemType {
    /// The number that stands for a gem in a packed archetype.
    pub open spec fn spec_index(self) -> int {
        match self {
            GemType::Amethyst => 0,
            GemType::Diamond => 1,
            GemType::Emerald => 2,
            GemType::Ruby => 3,
            GemType::Sapphire => 4,
            GemType::Topaz => 5,
        }
    }

    /// The gem that a number in `[0, 6)` stands for.
    pub open spec fn spec_from_index(idx: int) -> GemType {
        if idx == 0 {
            GemType::Amethyst
        } else if idx == 1 {
            GemType::Diamond
        } else if idx == 2 {
            GemType::Emerald
        } else if idx == 3 {
            GemType::Ruby
        } else if idx == 4 {
            GemType::Sapphire
        } else {
            GemType::Topaz
        }
    }

    /// The gem with the given number.
    pub fn from_index(idx: u8) -> (r: Self)
        requires
            idx < 6,
        ensures
            r == Self::spec_from_index(idx as int),
            r.spec_index() == idx,
    {
        match idx {
            0 => GemType::Amethyst,
            1 => GemType::Diamond,
            2 => GemType::Emerald,
            3 => GemType::Ruby,
            4 => GemType::Sapphire,
            _ => GemType::Topaz,
        }
    }

    /// The number of this gem.
    pub fn index(self) -> (r: u8)
        ensures
            r == self.spec_index(),
            r < 6,
    {
        match self {
            GemType::Amethyst => 0,
            GemType::Diamond => 1,
            GemType::Emerald => 2,
            GemType::Ruby => 3,
            GemType::Sapphire => 4,
            GemType::Topaz => 5,
        }
    }

    /// All six gems, in the order of their numbers.
    pub fn iter() -> (r: Vec<GemType>)
        ensures
            r@.len() == 6,
            forall|i: int| 0 <= i < 6 ==> r@[i] == Self::spec_from_index(i),
    {
        let mut gems: Vec<GemType> = Vec::new();
        let mut i: u8 = 0;
        while i < 6
            invariant
                i <= 6,
                gems@.len() == i,
                forall|k: int| 0 <= k < i ==> gems@[k] == Self::spec_from_index(k),
            decreases 6 - i,
        {
            gems.push(Self::from_index(i));
            i += 1;
        }
        gems
    }
}

/// The two gems of each of the sixteen archetypes, by the archetype's index.
/// The diamond archetype shows one gem and lists it twice.
pub open spec fn archtype_gems(idx: int) -> (GemType, GemType) {
    if idx == 0 {
        (GemType::Diamond, GemType::Diamond)
    } else if idx == 1 {
        (GemType::Amethyst, GemType::Amethyst)
    } else if idx == 2 {
        (GemType::Amethyst, GemType::Emerald)
    } else if idx == 3 {
        (GemType::Amethyst, GemType::Sapphire)
    } else if idx == 4 {
        (GemType::Emerald, GemType::Emerald)
    } else if idx == 5 {
        (GemType::Emerald, GemType::Ruby)
    } else if idx == 6 {
        (GemType::Emerald, GemType::Topaz)
    } else if idx == 7 {
        (GemType::Ruby, GemType::Amethyst)
    } else if idx == 8 {
        (GemType::Ruby, GemType::Ruby)
    } else if idx == 9 {
        (GemType::Ruby, GemType::Topaz)
    } else if idx == 10 {
        (GemType::Sapphire, GemType::Emerald)
    } else if idx == 11 {
        (GemType::Sapphire, GemType::Ruby)
    } else if idx == 12 {
        (GemType::Sapphire, GemType::Sapphire)
    } else if idx == 13 {
        (GemType::Topaz, GemType::Amethyst)
    } else if idx == 14 {
        (GemType::Topaz, GemType::Sapphire)
    } else {
        (GemType::Topaz, GemType::Topaz)
    }
}

/// The number of gems that a card with the given pair shows.
pub open spec fn gem_count(gems: (GemType, GemType)) -> int {
    if gems.1 == GemType::Diamond {
        1
    } else {
        2
    }
}

/// What a card with the given pair is worth in an auction: 2 for the diamond,
/// 3 for two different gems, 4 for two of a kind.
pub open spec fn gem_value(gems: (GemType, GemType)) -> int {
    if gems.0 == GemType::Diamond {
        2
    } else if gems.0 != gems.1 {
        3
    } else {
        4
    }
}

/// One of the sixteen archetypes, packed into a byte: the first gem's number
/// in the high half, the second gem's number in the low half.
#[derive(Clone, Copy, PartialEq, Eq, Structural, Debug)]
pub struct GemArchtype(u8);

impl View for GemArchtype {
    type V = (GemType, GemType);

    /// The two gems of the archetype.
    closed spec fn view(&self) -> (GemType, GemType) {
        (GemType::spec_from_index(self.0 as int / 16), GemType::spec_from_index(self.0 as int % 16))
    }
}

impl GemArchtype {
    /// The byte that packs a pair of gems.
    spec fn pack(gems: (GemType, GemType)) -> int {
        gems.0.spec_index() * 16 + gems.1.spec_index()
    }

    /// A value is well formed when it is one of the sixteen archetypes.
    pub closed spec fn wf(self) -> bool {
        exists|i: int| 0 <= i < 16 && self.0 == Self::pack(#[trigger] archtype_gems(i))
    }

    /// The position of this archetype among the sixteen.
    pub closed spec fn spec_index(self) -> int {
        choose|i: int| 0 <= i < 16 && self.0 == Self::pack(#[trigger] archtype_gems(i))
    }

    /// The archetype at a position in `[0, 16)`.
    pub closed spec fn spec_from_index(idx: int) -> GemArchtype {
        GemArchtype(Self::pack(archtype_gems(idx)) as u8)
    }

    /// The byte of the archetype at a position.
    fn code(idx: u8) -> (r: u8)
        requires
            idx < 16,
        ensures
            r == Self::pack(archtype_gems(idx as int)),
    {
        match idx {
            0 => 0x11,
            1 => 0x00,
            2 => 0x02,
            3 => 0x04,
            4 => 0x22,
            5 => 0x23,
            6 => 0x25,
            7 => 0x30,
            8 => 0x33,
            9 => 0x35,
            10 => 0x42,
            11 => 0x43,
            12 => 0x44,
            13 => 0x50,
            14 => 0x54,
            _ => 0x55,
        }
    }

    /// The archetype at the given position.
    pub fn from_index(idx: u8) -> (r: Self)
        requires
            idx < 16,
        ensures
            r == Self::spec_from_index(idx as int),
            r.wf(),
            r.spec_index() == idx,
            r@ == archtype_gems(idx as int),
    {
        let r = GemArchtype(Self::code(idx));
        proof {
            Self::lemma_index_round_trip(idx as int);
        }
        r
    }

    /// The position of this archetype, in `[0, 16)`.
    pub fn index(self) -> (r: u8)
        requires
            self.wf(),
        ensures
            r == self.spec_index(),
            r < 16,
            archtype_gems(r as int) == self@,
            Self::spec_from_index(r as int) == self,
    {
        proof {
            self.lemma_wf();
            self.lemma_wf_code();
        }
        let mut i: u8 = 0;
        while i < 15
            invariant
                i <= 15,
                self.wf(),
                i <= self.spec_index() < 16,
                self.0 == Self::pack(archtype_gems(self.spec_index())),
            decreases 15 - i,
        {
            if Self::code(i) == self.0 {
                proof {
                    Self::lemma_index_round_trip(i as int);
                }
                return i;
            }
            i += 1;
        }
        proof {
            Self::lemma_index_round_trip(i as int);
        }
        i
    }

    /// The number of gems on a card of this archetype: 1 for the diamond, else 2.
    pub fn num_gems(self) -> (r: u8)
        requires
            self.wf(),
        ensures
            r == gem_count(self@),
    {
        proof {
            self.lemma_wf();
            self.lemma_wf_code();
            let b = self.0;
            assert(b & 0x0f == b % 16) by (bit_vector);
        }
        if self.0 & 0x0f != 1 {
            2
        } else {
            1
        }
    }

    /// The two gems of this archetype. The diamond archetype lists its one
    /// gem twice.
    pub fn get_gems(self) -> (r: (GemType, GemType))
        requires
            self.wf(),
        ensures
            r == self@,
    {
        proof {
            self.lemma_wf();
            self.lemma_wf_code();
            let b = self.0;
            assert(b & 0x0f == b % 16 && b >> 4 == b / 16) by (bit_vector);
        }
        (GemType::from_index(self.0 >> 4), GemType::from_index(self.0 & 0x0f))
    }

    /// What a card of this archetype is worth in an auction.
    pub fn value(self) -> (r: BidValue)
        requires
            self.wf(),
        ensures
            r == gem_value(self@),
            2 <= r <= 4,
    {
        let (g1, g2) = self.get_gems();
        if g1 == GemType::Diamond {
            2
        } else if g1 != g2 {
            3
        } else {
            4
        }
    }

    /// A well-formed archetype packs the pair at its own position.
    pub proof fn lemma_wf(self)
        requires
            self.wf(),
        ensures
            0 <= self.spec_index() < 16,
            self@ == archtype_gems(self.spec_index()),
            self == Self::spec_from_index(self.spec_index()),
    {
        self.lemma_wf_code();
    }

    /// A well-formed archetype holds the byte at its own position.
    proof fn lemma_wf_code(self)
        requires
            self.wf(),
        ensures
            0 <= self.spec_index() < 16,
            self.0 == Self::pack(archtype_gems(self.spec_index())),
    {
    }

    /// Every position in `[0, 16)` names a well-formed archetype that reports
    /// that same position: `from_index` and `index` are inverse to each other.
    pub proof fn lemma_index_round_trip(idx: int)
        requires
            0 <= idx < 16,
        ensures
            Self::spec_from_index(idx).wf(),
            Self::spec_from_index(idx).spec_index() == idx,
            Self::spec_from_index(idx)@ == archtype_gems(idx),
    {
        let a = Self::spec_from_index(idx);
        assert(a.0 == Self::pack(archtype_gems(idx)));
        Self::lemma_codes_differ();
    }

    /// No two positions share a byte.
    proof fn lemma_codes_differ()
        ensures
            forall|i: int, j: int|
                0 <= i < 16 && 0 <= j < 16 && Self::pack(#[trigger] archtype_gems(i)) == Self::pack(
                    #[trigger] archtype_gems(j),
                ) ==> i == j,
    {
        assert forall|i: int, j: int|
            0 <= i < 16 && 0 <= j < 16 && Self::pack(#[trigger] archtype_gems(i)) == Self::pack(
                #[trigger] archtype_gems(j),
            ) implies i == j by {
            Self::lemma_code_values(i);
            Self::lemma_code_values(j);
        }
    }

    /// The byte at each position, written out.
    proof fn lemma_code_values(i: int)
        requires
            0 <= i < 16,
        ensures
            Self::pack(archtype_gems(i)) == (if i == 0 {
                0x11int
            } else if i == 1 {
                0x00
            } else if i == 2 {
                0x02
            } else if i == 3 {
                0x04
            } else if i == 4 {
                0x22
            } else if i == 5 {
                0x23
            } else if i == 6 {
                0x25
            } else if i == 7 {
                0x30
            } else if i == 8 {
                0x33
            } else if i == 9 {
                0x35
            } else if i == 10 {
                0x42
            } else if i == 11 {
                0x43
            } else if i == 12 {
                0x44
            } else if i == 13 {
                0x50
            } else if i == 14 {
                0x54
            } else {
                0x55
            }),
    {
    }
}

} // verus!
