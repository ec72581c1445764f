//! Playing cards: a suit and a rank from ace (1) to king (13).

use vstd::prelude::*;

verus! {

/// One of the four suits of a standard deck.
#[derive(Debug, Copy, Clone, PartialEq, Eq, Structural)]
pub enum Suit {
    Hearts,
    Diamonds,
    Clubs,
    Spades,
}

impl Suit {
    /// The glyph that stands for the suit in text.
    pub open spec fn glyph(self) -> char {
        match self {
            Suit::Hearts => '♥',
            Suit::Diamonds => '♦',
            Suit::Clubs => '♣',
            Suit::Spades => '♠',
        }
    }

    /// The suit's glyph as a one-character string.
    pub fn symbol(&self) -> (s: &'static str)
        ensures
            s@ == seq![self.glyph()],
    {
        proof {
            reveal_strlit("♥");
            reveal_strlit("♦");
            reveal_strlit("♣");
            reveal_strlit("♠");
        }
        let s = match self {
            Suit::Hearts => "♥",
            Suit::Diamonds => "♦",
            Suit::Clubs => "♣",
            Suit::Spades => "♠",
        };
        s
    }
}

/// What a card is: its rank, 1 for the ace up to 13 for the king, and its suit.
pub struct CardView {
    /// 1 for the ace, 2 to 10 for the number cards, 11 to 13 for jack, queen
    /// and king.
    pub rank: int,
    /// The suit.
    pub suit: Suit,
}

/// A card of a standard deck. Every value of this type has a rank from 1 to 13.
#[derive(Debug)]
pub struct Card {
    value: u8,
    suit: Suit,
}

impl View for Card {
    type V = CardView;

    closed spec fn view(&self) -> CardView {
        CardView { rank: self.value as int, suit: self.suit }
    }
}

/// The lowest rank, the ace.
pub const ACE: u8 = 1;

/// The rank of the jack, the lowest face card.
pub const JACK: u8 = 11;

/// The rank of the queen.
pub const QUEEN: u8 = 12;

/// The highest rank, the king.
pub const KING: u8 = 13;

/// Whether `rank` is the rank of a card.
pub open spec fn valid_rank(rank: int) -> bool {
    ACE <= rank <= KING
}

impl Card {
    /// What holds of every card: its rank is one of the thirteen.
    #[verifier::type_invariant]
    pub open spec fn is_valid(self) -> bool {
        valid_rank(self@.rank)
    }

    /// Makes the card of the given rank and suit; a rank outside 1 to 13 is
    /// refused.
    pub fn new(value: u8, suit: Suit) -> (made: Result<Card, &'static str>)
        ensures
            made is Ok <==> valid_rank(value as int),
            made matches Ok(card) ==> card@ == (CardView { rank: value as int, suit }),
            made matches Err(reason) ==> reason@ == "Invalid card value"@,
    {
        if value < ACE || value > KING {
            Err("Invalid card value")
        } else {
            Ok(Card { value, suit })
        }
    }

    /// The card's rank.
    pub fn value(&self) -> (rank: u8)
        ensures
            rank == self@.rank,
            valid_rank(rank as int),
    {
        proof {
            use_type_invariant(self);
        }
        self.value
    }

    /// The card's suit.
    pub fn suit(&self) -> (suit: Suit)
        ensures
            suit == self@.suit,
    {
        self.suit
    }
}

/// Two cards of the same rank and suit are the same card.
pub proof fn lemma_card_by_view(a: Card, b: Card)
    requires
        a@ == b@,
    ensures
        a == b,
{
}

/// A rank is never negative and fits in a byte.
pub proof fn lemma_rank_not_negative(card: Card)
    ensures
        0 <= card@.rank <= u8::MAX,
{
}

} // verus!
