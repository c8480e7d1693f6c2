//! A compact text form of a game's state, for a person to read: the highest
//! bid, the stack and the inventories, as in `3/!DDAA/12!3D;123`.

use crate::game::card::archtypes::{archtype_gems, GemType};
use crate::game::card::card::Card;
use crate::game::card::iterator::{leveraged_cards, non_leveraged_cards, CardIterator};
use crate::game::info::{GameInfo, GameInfoView};
use crate::player::inventory::PlayerInventory;
use vstd::prelude::*;

verus! {

/// The character of a decimal digit.
pub open spec fn digit_char(digit: int) -> char {
    if digit == 0 {
        '0'
    } else if digit == 1 {
        '1'
    } else if digit == 2 {
        '2'
    } else if digit == 3 {
        '3'
    } else if digit == 4 {
        '4'
    } else if digit == 5 {
        '5'
    } else if digit == 6 {
        '6'
    } else if digit == 7 {
        '7'
    } else if digit == 8 {
        '8'
    } else {
        '9'
    }
}

/// A natural number in decimal digits, without leading zeros.
pub open spec fn decimal(n: nat) -> Seq<char>
    decreases n,
{
    if n < 10 {
        seq![digit_char(n as int)]
    } else {
        decimal(n / 10).push(digit_char((n % 10) as int))
    }
}

/// The letter of a gem.
pub open spec fn gem_letter(gem: GemType) -> char {
    match gem {
        GemType::Amethyst => 'A',
        GemType::Diamond => 'D',
        GemType::Emerald => 'E',
        GemType::Ruby => 'R',
        GemType::Sapphire => 'S',
        GemType::Topaz => 'T',
    }
}

/// A bid: `-` where nobody has bid, else the amount in decimal digits.
pub open spec fn bid_notation(bid: int) -> Seq<char> {
    if bid < 0 {
        seq!['-']
    } else {
        decimal(bid as nat)
    }
}

/// A card: a coin by the digit of its face value, a gem card by the letters
/// of its gems, one letter for the diamond.
pub open spec fn card_notation(card: Card) -> Seq<char> {
    if card@.is_coin {
        seq![digit_char(card@.value)]
    } else {
        let gems = archtype_gems(card@.archtype);
        if gems.1 == GemType::Diamond {
            seq![gem_letter(gems.0)]
        } else {
            seq![gem_letter(gems.0), gem_letter(gems.1)]
        }
    }
}

/// Cards one after the other, in their order.
pub open spec fn cards_in_a_row(cards: Seq<Card>) -> Seq<char>
    decreases cards.len(),
{
    if cards.len() == 0 {
        Seq::empty()
    } else {
        cards_in_a_row(cards.drop_last()) + card_notation(cards.last())
    }
}

/// A collection of cards: the available cards first and, if there are
/// leveraged ones, a `!` and the leveraged cards behind them.
pub open spec fn cards_notation(cards: Seq<Card>) -> Seq<char> {
    let available = cards_in_a_row(cards.filter(non_leveraged_cards()));
    if cards.filter(leveraged_cards()).len() == 0 {
        available
    } else {
        available + seq!['!'] + cards_in_a_row(cards.filter(leveraged_cards()))
    }
}

/// Inventories, by seat, with a `;` between one and the next.
pub open spec fn inventories_notation(inventories: Seq<Seq<Card>>) -> Seq<char>
    decreases inventories.len(),
{
    if inventories.len() == 0 {
        Seq::empty()
    } else if inventories.len() == 1 {
        cards_notation(inventories[0])
    } else {
        inventories_notation(inventories.drop_last()) + seq![';'] + cards_notation(
            inventories.last(),
        )
    }
}

/// A state: the highest bid, the stack, and the inventories of the players
/// that take part, with a `/` between the three.
pub open spec fn state_notation(state: GameInfoView) -> Seq<char> {
    bid_notation(state.highest_bid) + seq!['/'] + cards_notation(state.stack) + seq!['/']
        + inventories_notation(state.inventories.take(state.num_players))
}

/// `<String as FromIterator<char>>::from_iter`, which std documents to
/// build the string of the characters that the iterator yields, in their
/// order.
#[verifier::external_body]
fn string_of(chars: Vec<char>) -> (r: String)
    ensures
        r@ == chars@,
{
    String::from_iter(chars)
}

/// The text form of a game's state.
#[derive(Debug, PartialEq, Eq)]
pub struct GemNotation(String);

impl View for GemNotation {
    type V = Seq<char>;

    /// The characters of the text.
    closed spec fn view(&self) -> Seq<char> {
        self.0@
    }
}

impl GemNotation {
    /// The text form of the state `info`.
    pub fn from_info(info: &GameInfo) -> (r: Self)
        requires
            info.wf(),
        ensures
            r@ == state_notation(info@),
    {
        GemNotation(string_of(Self::format(info)))
    }

    /// The text.
    pub fn inner(self) -> (r: String)
        ensures
            r@ == self@,
    {
        self.0
    }

    /// The text of one card.
    pub fn format_card(card: Card) -> (r: String)
        ensures
            r@ == card_notation(card),
    {
        string_of(Self::card_chars(card))
    }

    /// The characters of a state.
    fn format(info: &GameInfo) -> (r: Vec<char>)
        requires
            info.wf(),
        ensures
            r@ == state_notation(info@),
    {
        let mut out = Self::format_highest_bid(info.highest_bid());
        out.push('/');
        let mut stack = Self::format_cards(info.stack().as_slice());
        out.append(&mut stack);
        out.push('/');
        let inventories = info.inventories();
        proof {
            let seats = inventories@.map_values(|held: PlayerInventory| held@);
            assert(seats =~= info@.inventories.take(info@.num_players));
        }
        let mut seats = Self::format_inventories(inventories);
        out.append(&mut seats);
        out
    }

    /// The character of a decimal digit.
    fn digit(digit: u8) -> (r: char)
        requires
            digit < 10,
        ensures
            r == digit_char(digit as int),
    {
        match digit {
            0 => '0',
            1 => '1',
            2 => '2',
            3 => '3',
            4 => '4',
            5 => '5',
            6 => '6',
            7 => '7',
            8 => '8',
            _ => '9',
        }
    }

    /// The letter of a gem.
    fn letter(gem: GemType) -> (r: char)
        ensures
            r == gem_letter(gem),
    {
        match gem {
            GemType::Amethyst => 'A',
            GemType::Diamond => 'D',
            GemType::Emerald => 'E',
            GemType::Ruby => 'R',
            GemType::Sapphire => 'S',
            GemType::Topaz => 'T',
        }
    }

    /// The characters of a bid.
    fn format_highest_bid(bid: i8) -> (r: Vec<char>)
        ensures
            r@ == bid_notation(bid as int),
    {
        let mut out: Vec<char> = Vec::new();
        if bid < 0 {
            out.push('-');
            assert(out@ =~= seq!['-']);
        } else {
            let n: u8 = bid as u8;
            proof {
                reveal_with_fuel(decimal, 3);
            }
            if n >= 100 {
                out.push(Self::digit(n / 100));
            }
            if n >= 10 {
                out.push(Self::digit((n / 10) % 10));
            }
            out.push(Self::digit(n % 10));
            assert(out@ =~= decimal(n as nat));
        }
        out
    }

    /// The characters of the inventories, by seat.
    fn format_inventories(inventories: &[PlayerInventory]) -> (r: Vec<char>)
        requires
            forall|p: int| 0 <= p < inventories@.len() ==> (#[trigger] inventories@[p]).wf(),
        ensures
            r@ == inventories_notation(inventories@.map_values(|held: PlayerInventory| held@)),
    {
        let ghost seats = inventories@.map_values(|held: PlayerInventory| held@);
        let mut out: Vec<char> = Vec::new();
        let mut p: usize = 0;
        while p < inventories.len()
            invariant
                p <= inventories@.len(),
                seats == inventories@.map_values(|held: PlayerInventory| held@),
                forall|q: int| 0 <= q < inventories@.len() ==> (#[trigger] inventories@[q]).wf(),
                out@ == inventories_notation(seats.take(p as int)),
            decreases inventories@.len() - p,
        {
            proof {
                assert(seats.take(p + 1).drop_last() =~= seats.take(p as int));
                assert(seats.take(p + 1).last() == inventories@[p as int]@);
            }
            if p > 0 {
                out.push(';');
            }
            let mut held = Self::format_cards(inventories[p].as_slice());
            out.append(&mut held);
            p += 1;
        }
        proof {
            assert(seats.take(seats.len() as int) =~= seats);
        }
        out
    }

    /// The characters of cards one after the other.
    fn row_chars(cards: &Vec<Card>) -> (r: Vec<char>)
        ensures
            r@ == cards_in_a_row(cards@),
    {
        let mut out: Vec<char> = Vec::new();
        let mut i: usize = 0;
        while i < cards.len()
            invariant
                i <= cards@.len(),
                out@ == cards_in_a_row(cards@.take(i as int)),
            decreases cards@.len() - i,
        {
            proof {
                assert(cards@.take(i + 1).drop_last() =~= cards@.take(i as int));
            }
            let mut card = Self::card_chars(cards[i]);
            out.append(&mut card);
            i += 1;
        }
        proof {
            assert(cards@.take(cards@.len() as int) =~= cards@);
        }
        out
    }

    /// The characters of a collection of cards.
    fn format_cards(cards: &[Card]) -> (r: Vec<char>)
        ensures
            r@ == cards_notation(cards@),
    {
        let pledged = vstd::slice::slice_to_vec(cards).leveraged();
        let mut out = Self::row_chars(&vstd::slice::slice_to_vec(cards).non_leveraged());
        if pledged.len() != 0 {
            out.push('!');
            let mut rest = Self::row_chars(&pledged);
            out.append(&mut rest);
        }
        out
    }

    /// The characters of one card.
    fn card_chars(card: Card) -> (r: Vec<char>)
        ensures
            r@ == card_notation(card),
    {
        let mut out: Vec<char> = Vec::new();
        if card.is_coin() {
            out.push(Self::digit(card.value() as u8));
            assert(out@ =~= card_notation(card));
        } else {
            let (first, second) = card.archtype().get_gems();
            out.push(Self::letter(first));
            if second != GemType::Diamond {
                out.push(Self::letter(second));
            }
            assert(out@ =~= card_notation(card));
        }
        out
    }
}

} // verus!
