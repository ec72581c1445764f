//! The deck: fifty-two cards in a fixed order, shuffled and then drawn from
//! the top one by one.

use crate::card::{lemma_card_by_view, Card, CardView, Suit, ACE, KING};
use rand::seq::SliceRandom;
use vstd::prelude::*;

verus! {

/// How many cards a full deck holds.
pub const DECK_SIZE: usize = 52;

/// How many cards each suit has.
pub const SUIT_SIZE: usize = 13;

/// The suit of the `n`-th run of thirteen cards in a new deck.
pub open spec fn suit_at(n: int) -> Suit {
    if n == 0 {
        Suit::Hearts
    } else if n == 1 {
        Suit::Diamonds
    } else if n == 2 {
        Suit::Clubs
    } else {
        Suit::Spades
    }
}

/// The card at position `i` of a new deck: the suits follow one another, and
/// within a suit the ranks rise from the ace to the king.
pub open spec fn standard_card(i: int) -> CardView {
    CardView { rank: i % (SUIT_SIZE as int) + 1, suit: suit_at(i / (SUIT_SIZE as int)) }
}

/// Whether `cards` is a full deck in the order in which `Deck::new` lays it
/// out.
pub open spec fn is_standard(cards: Seq<Card>) -> bool {
    &&& cards.len() == DECK_SIZE
    &&& forall|i: int| 0 <= i < cards.len() ==> (#[trigger] cards[i])@ == standard_card(i)
}

/// A pile of cards. Its view is the pile from the bottom up: the last card is
/// the one on top, which is drawn next.
pub struct Deck {
    cards: Vec<Card>,
}

impl View for Deck {
    type V = Seq<Card>;

    closed spec fn view(&self) -> Seq<Card> {
        self.cards@
    }
}

/// Reorders the cards at random with `rand`'s `SliceRandom::shuffle`, fed by
/// `rand::thread_rng`. The shuffle only swaps elements of the slice, so the
/// claim is that the cards afterwards are the cards before, each as often as
/// before; nothing is claimed of their order.
#[verifier::external_body]
fn shuffle_cards(cards: &mut Vec<Card>)
    ensures
        final(cards)@.to_multiset() == old(cards)@.to_multiset(),
{
    cards.shuffle(&mut rand::thread_rng());
}

impl Deck {
    /// A full deck in its fixed order: hearts, diamonds, clubs, spades, each
    /// from the ace up to the king.
    pub fn new() -> (deck: Deck)
        ensures
            is_standard(deck@),
    {
        let suits = [Suit::Hearts, Suit::Diamonds, Suit::Clubs, Suit::Spades];
        let mut cards: Vec<Card> = Vec::new();
        let mut n: usize = 0;
        while n < 4
            invariant
                n <= 4,
                suits@ == seq![Suit::Hearts, Suit::Diamonds, Suit::Clubs, Suit::Spades],
                cards.len() == n * SUIT_SIZE,
                forall|i: int| 0 <= i < cards.len() ==> (#[trigger] cards[i])@ == standard_card(i),
            decreases 4 - n,
        {
            let suit = suits[n];
            let mut value: u8 = ACE;
            while value <= KING
                invariant
                    n < 4,
                    ACE <= value <= KING + 1,
                    suit == suit_at(n as int),
                    cards.len() == n * SUIT_SIZE + (value - 1),
                    forall|i: int|
                        0 <= i < cards.len() ==> (#[trigger] cards[i])@ == standard_card(i),
                decreases KING + 1 - value,
            {
                cards.push(Card::new(value, suit).unwrap());
                value = value + 1;
            }
            n = n + 1;
        }
        Deck { cards }
    }

    /// A pile that holds the given cards, the last of them on top.
    pub fn from_cards(cards: Vec<Card>) -> (deck: Deck)
        ensures
            deck@ == cards@,
    {
        Deck { cards }
    }

    /// Puts the cards in a random order. No card is lost and none is added.
    pub fn shuffle(&mut self)
        ensures
            final(self)@.to_multiset() == old(self)@.to_multiset(),
            final(self)@.len() == old(self)@.len(),
    {
        proof {
            self.cards@.to_multiset_ensures();
        }
        shuffle_cards(&mut self.cards);
        proof {
            self.cards@.to_multiset_ensures();
        }
    }

    /// Takes the top card off the pile; `None` once the pile is empty.
    pub fn draw(&mut self) -> (card: Option<Card>)
        ensures
            old(self)@.len() == 0 ==> card is None && final(self)@ == old(self)@,
            old(self)@.len() > 0 ==> card == Some(old(self)@.last())
                && final(self)@ == old(self)@.drop_last(),
    {
        self.cards.pop()
    }

    /// How many cards are left in the pile.
    pub fn remaining(&self) -> (count: usize)
        ensures
            count == self@.len(),
    {
        self.cards.len()
    }
}

/// There is one full deck in the standard order: two piles that are both
/// laid out so are the same pile.
pub proof fn lemma_standard_deck_is_one(a: Seq<Card>, b: Seq<Card>)
    requires
        is_standard(a),
        is_standard(b),
    ensures
        a == b,
{
    assert forall|i: int| 0 <= i < a.len() implies a[i] == b[i] by {
        lemma_card_by_view(a[i], b[i]);
    }
}

/// No card occurs twice in a full deck.
pub proof fn lemma_standard_deck_distinct(cards: Seq<Card>)
    requires
        is_standard(cards),
    ensures
        cards.no_duplicates(),
{
    assert forall|i: int, j: int|
        0 <= i < cards.len() && 0 <= j < cards.len() && i != j implies cards[i] != cards[j] by {
        assert(cards[i]@ != cards[j]@);
    }
}

/// A shuffle keeps the cards distinct: a reordering of a pile without
/// duplicates has none either.
pub proof fn lemma_reordering_keeps_distinct(before: Seq<Card>, after: Seq<Card>)
    requires
        before.to_multiset() == after.to_multiset(),
        before.no_duplicates(),
    ensures
        after.no_duplicates(),
{
    before.lemma_multiset_has_no_duplicates();
    after.lemma_multiset_has_no_duplicates_conv();
}

} // verus!
