//! Text for the table: numbers, cards, and a hand with its totals.

use crate::card::{Card, CardView, ACE, JACK, KING, QUEEN};
use crate::scoring::{base_total, hand_scores, hand_values, lemma_base_total_prefix};
use vstd::prelude::*;

verus! {

/// The character of the decimal digit `digit`.
pub open spec fn digit_char(digit: int) -> char {
    ('0' as int + digit) as char
}

/// The decimal numeral of `n`, without leading zeros.
pub open spec fn decimal(n: nat) -> Seq<char>
    decreases n,
{
    if n < 10 {
        seq![digit_char(n as int)]
    } else {
        decimal(n / 10).push(digit_char((n % 10) as int))
    }
}

/// How a rank is written: `A`, `J`, `Q` and `K` for the ace and the face
/// cards, the number for the others.
pub open spec fn rank_text(rank: int) -> Seq<char> {
    if rank == ACE {
        seq!['A']
    } else if rank == JACK {
        seq!['J']
    } else if rank == QUEEN {
        seq!['Q']
    } else if rank == KING {
        seq!['K']
    } else {
        decimal(rank as nat)
    }
}

/// How a card is written: its rank, then the glyph of its suit.
pub open spec fn card_text(card: CardView) -> Seq<char> {
    rank_text(card.rank).push(card.suit.glyph())
}

/// The cards of a hand in order, a blank after each.
pub open spec fn cards_text(hand: Seq<Card>) -> Seq<char>
    decreases hand.len(),
{
    if hand.len() == 0 {
        Seq::empty()
    } else {
        cards_text(hand.drop_last()) + card_text(hand.last()@).push(' ')
    }
}

/// The note on a hand's totals: the lowest and, where there is a second
/// one, that one after `or`.
pub open spec fn score_text(values: Seq<int>) -> Seq<char> {
    let first = " score: "@ + decimal(values[0] as nat) + " "@;
    if values.len() >= 2 {
        first + "or "@ + decimal(values[1] as nat)
    } else {
        first
    }
}

/// The line that shows a hand: its cards, then its totals.
pub open spec fn hand_text(hand: Seq<Card>) -> Seq<char> {
    cards_text(hand) + score_text(hand_values(hand))
}

/// What is shown of the dealer's hand while the player's turn lasts: the
/// first card, and `??` in place of the other.
pub open spec fn masked_text(hand: Seq<Card>) -> Seq<char> {
    card_text(hand[0]@) + " ??"@
}

/// The one-character string of a decimal digit.
fn digit_str(digit: u32) -> (s: &'static str)
    requires
        digit < 10,
    ensures
        s@ == seq![digit_char(digit as int)],
{
    proof {
        reveal_strlit("0");
        reveal_strlit("1");
        reveal_strlit("2");
        reveal_strlit("3");
        reveal_strlit("4");
        reveal_strlit("5");
        reveal_strlit("6");
        reveal_strlit("7");
        reveal_strlit("8");
        reveal_strlit("9");
    }
    let s = match digit {
        0 => "0",
        1 => "1",
        2 => "2",
        3 => "3",
        4 => "4",
        5 => "5",
        6 => "6",
        7 => "7",
        8 => "8",
        _ => "9",
    };
    s
}

/// The decimal numeral of `n`.
pub fn decimal_text(n: u32) -> (text: String)
    ensures
        text@ == decimal(n as nat),
    decreases n,
{
    if n < 10 {
        String::from_str(digit_str(n))
    } else {
        let mut text = decimal_text(n / 10);
        text.append(digit_str(n % 10));
        text
    }
}

impl Card {
    /// The card as text: its rank and the glyph of its suit.
    pub fn to_text(&self) -> (text: String)
        ensures
            text@ == card_text(self@),
    {
        proof {
            reveal_strlit("A");
            reveal_strlit("J");
            reveal_strlit("Q");
            reveal_strlit("K");
        }
        let rank = self.value();
        let mut text = if rank == ACE {
            String::from_str("A")
        } else if rank == JACK {
            String::from_str("J")
        } else if rank == QUEEN {
            String::from_str("Q")
        } else if rank == KING {
            String::from_str("K")
        } else {
            decimal_text(rank as u32)
        };
        text.append(self.suit().symbol());
        text
    }
}

/// The dealer's hand as the player sees it during the player's turn: the
/// first card in the open, the other masked.
pub fn masked_line(hand: &Vec<Card>) -> (line: String)
    requires
        hand.len() > 0,
    ensures
        line@ == masked_text(hand@),
{
    let mut line = hand[0].to_text();
    line.append(" ??");
    line
}

/// The line that shows a hand: each card with a blank after it, then the
/// hand's totals.
pub fn hand_line(hand: &Vec<Card>) -> (line: String)
    requires
        base_total(hand@) <= i8::MAX,
    ensures
        line@ == hand_text(hand@),
{
    let mut line = String::new();
    let mut i: usize = 0;
    while i < hand.len()
        invariant
            i <= hand.len(),
            line@ == cards_text(hand@.take(i as int)),
        decreases hand.len() - i,
    {
        let card = hand[i].to_text();
        proof {
            reveal_strlit(" ");
            let seen = hand@.take(i + 1);
            assert(seen.drop_last() =~= hand@.take(i as int));
        }
        line.append(card.as_str());
        line.append(" ");
        i = i + 1;
    }
    assert(hand@.take(i as int) =~= hand@);
    let scores = hand_scores(hand);
    proof {
        lemma_base_total_prefix(hand@, 0);
    }
    line.append(" score: ");
    line.append(decimal_text(scores[0] as u32).as_str());
    line.append(" ");
    if scores.len() >= 2 {
        line.append("or ");
        line.append(decimal_text(scores[1] as u32).as_str());
    }
    line
}

} // verus!
