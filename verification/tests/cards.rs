use blackjack::card::{Card, Suit};
use blackjack::deck::Deck;
use blackjack::text::{decimal_text, hand_line, masked_line};

const SUITS: [Suit; 4] = [Suit::Hearts, Suit::Diamonds, Suit::Clubs, Suit::Spades];

fn drain(deck: &mut Deck) -> Vec<(u8, Suit)> {
    let mut seen = Vec::new();
    while let Some(card) = deck.draw() {
        seen.push((card.value(), card.suit()));
    }
    seen
}

fn standard_from_the_top() -> Vec<(u8, Suit)> {
    let mut expected = Vec::new();
    for suit in [Suit::Spades, Suit::Clubs, Suit::Diamonds, Suit::Hearts] {
        for rank in (1..=13u8).rev() {
            expected.push((rank, suit));
        }
    }
    expected
}

#[test]
fn card_new_accepts_ranks_one_to_thirteen() {
    for suit in SUITS {
        for rank in 1..=13u8 {
            let card = Card::new(rank, suit).unwrap();
            assert_eq!(card.value(), rank);
            assert_eq!(card.suit(), suit);
        }
    }
}

#[test]
fn card_new_refuses_other_ranks() {
    assert_eq!(Card::new(0, Suit::Hearts).unwrap_err(), "Invalid card value");
    assert_eq!(Card::new(14, Suit::Spades).unwrap_err(), "Invalid card value");
    assert_eq!(Card::new(255, Suit::Clubs).unwrap_err(), "Invalid card value");
}

#[test]
fn suit_symbols() {
    assert_eq!(Suit::Hearts.symbol(), "♥");
    assert_eq!(Suit::Diamonds.symbol(), "♦");
    assert_eq!(Suit::Clubs.symbol(), "♣");
    assert_eq!(Suit::Spades.symbol(), "♠");
}

#[test]
fn card_text_is_rank_then_suit() {
    assert_eq!(Card::new(1, Suit::Hearts).unwrap().to_text(), "A♥");
    assert_eq!(Card::new(2, Suit::Diamonds).unwrap().to_text(), "2♦");
    assert_eq!(Card::new(9, Suit::Clubs).unwrap().to_text(), "9♣");
    assert_eq!(Card::new(10, Suit::Spades).unwrap().to_text(), "10♠");
    assert_eq!(Card::new(11, Suit::Hearts).unwrap().to_text(), "J♥");
    assert_eq!(Card::new(12, Suit::Diamonds).unwrap().to_text(), "Q♦");
    assert_eq!(Card::new(13, Suit::Clubs).unwrap().to_text(), "K♣");
}

#[test]
fn decimal_text_writes_numbers() {
    assert_eq!(decimal_text(0), "0");
    assert_eq!(decimal_text(7), "7");
    assert_eq!(decimal_text(10), "10");
    assert_eq!(decimal_text(127), "127");
    assert_eq!(decimal_text(1005), "1005");
    assert_eq!(decimal_text(u32::MAX), "4294967295");
}

#[test]
fn hand_line_with_one_total() {
    let hand = vec![
        Card::new(5, Suit::Hearts).unwrap(),
        Card::new(8, Suit::Hearts).unwrap(),
    ];
    assert_eq!(hand_line(&hand), "5♥ 8♥  score: 13 ");
}

#[test]
fn hand_line_with_two_totals() {
    let hand = vec![
        Card::new(1, Suit::Hearts).unwrap(),
        Card::new(10, Suit::Hearts).unwrap(),
    ];
    assert_eq!(hand_line(&hand), "A♥ 10♥  score: 11 or 21");
}

#[test]
fn hand_line_of_no_cards() {
    assert_eq!(hand_line(&Vec::new()), " score: 0 ");
}

#[test]
fn new_deck_has_fifty_two_cards_in_order() {
    let mut deck = Deck::new();
    assert_eq!(deck.remaining(), 52);
    assert_eq!(drain(&mut deck), standard_from_the_top());
    assert_eq!(deck.remaining(), 0);
}

#[test]
fn new_deck_has_no_card_twice() {
    let mut seen = drain(&mut Deck::new());
    assert_eq!(seen.len(), 52);
    seen.sort_by_key(|(rank, suit)| (*rank, suit.symbol()));
    seen.dedup();
    assert_eq!(seen.len(), 52);
}

#[test]
fn draw_takes_the_top_card() {
    let mut deck = Deck::new();
    let top = deck.draw().unwrap();
    assert_eq!((top.value(), top.suit()), (13, Suit::Spades));
    assert_eq!(deck.remaining(), 51);
    let next = deck.draw().unwrap();
    assert_eq!((next.value(), next.suit()), (12, Suit::Spades));
    assert_eq!(deck.remaining(), 50);
}

#[test]
fn draw_from_an_empty_deck_gives_nothing() {
    let mut deck = Deck::from_cards(Vec::new());
    assert!(deck.draw().is_none());
    assert_eq!(deck.remaining(), 0);
    let mut full = Deck::new();
    for _ in 0..52 {
        assert!(full.draw().is_some());
    }
    assert!(full.draw().is_none());
    assert!(full.draw().is_none());
}

#[test]
fn from_cards_puts_the_last_card_on_top() {
    let mut deck = Deck::from_cards(vec![
        Card::new(2, Suit::Hearts).unwrap(),
        Card::new(9, Suit::Clubs).unwrap(),
    ]);
    assert_eq!(deck.remaining(), 2);
    assert_eq!(drain(&mut deck), vec![(9, Suit::Clubs), (2, Suit::Hearts)]);
}

#[test]
fn shuffle_keeps_every_card() {
    let mut deck = Deck::new();
    deck.shuffle();
    assert_eq!(deck.remaining(), 52);
    let mut seen = drain(&mut deck);
    let mut expected = standard_from_the_top();
    seen.sort_by_key(|(rank, suit)| (*rank, suit.symbol()));
    expected.sort_by_key(|(rank, suit)| (*rank, suit.symbol()));
    assert_eq!(seen, expected);
}

#[test]
fn shuffle_changes_the_order() {
    let mut deck = Deck::new();
    deck.shuffle();
    assert_ne!(drain(&mut deck), standard_from_the_top());
}

#[test]
fn shuffle_of_a_stacked_pile_keeps_duplicates() {
    let mut deck = Deck::from_cards(vec![
        Card::new(1, Suit::Hearts).unwrap(),
        Card::new(1, Suit::Hearts).unwrap(),
        Card::new(5, Suit::Clubs).unwrap(),
    ]);
    deck.shuffle();
    let mut seen = drain(&mut deck);
    seen.sort_by_key(|(rank, suit)| (*rank, suit.symbol()));
    assert_eq!(seen, vec![(1, Suit::Hearts), (1, Suit::Hearts), (5, Suit::Clubs)]);
}

#[test]
fn masked_line_shows_the_first_card_only() {
    let hand = vec![
        Card::new(12, Suit::Spades).unwrap(),
        Card::new(4, Suit::Hearts).unwrap(),
    ];
    assert_eq!(masked_line(&hand), "Q♠ ??");
    let single = vec![Card::new(10, Suit::Diamonds).unwrap()];
    assert_eq!(masked_line(&single), "10♦ ??");
}
