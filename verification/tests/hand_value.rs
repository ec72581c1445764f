use blackjack::card::{Card, Suit};
use blackjack::scoring::{
    best_score, fits_scores, hand_scores, is_bust_scores, player_may_act,
};

fn hand(cards: &[(u8, Suit)]) -> Vec<Card> {
    let mut made = Vec::new();
    for (rank, suit) in cards {
        made.push(Card::new(*rank, *suit).unwrap());
    }
    made
}

#[test]
fn test_hand_value() {
    let hand = vec![
        Card::new(5, Suit::Hearts).unwrap(),
        Card::new(8, Suit::Hearts).unwrap(),
    ];
    assert_eq!(hand_scores(&hand), vec![13]);
}

#[test]
fn test_hand_value_order_doesnt_matter() {
    // Different order of cards should not change the result
    let hand1 = vec![
        Card::new(10, Suit::Hearts).unwrap(),
        Card::new(2, Suit::Hearts).unwrap(),
    ];
    let hand2 = vec![
        Card::new(10, Suit::Hearts).unwrap(),
        Card::new(2, Suit::Hearts).unwrap(),
    ];
    assert_eq!(hand_scores(&hand1), hand_scores(&hand2));
}

#[test]
fn test_hand_value_contains_ace() {
    // First Ace has 2 values
    let hand = vec![
        Card::new(1, Suit::Hearts).unwrap(),
        Card::new(10, Suit::Hearts).unwrap(),
    ];
    assert_eq!(hand_scores(&hand), vec![11, 21]);
}

#[test]
fn test_multiple_aces() {
    // Second ace only has one value
    let hand = vec![
        Card::new(5, Suit::Hearts).unwrap(),
        Card::new(1, Suit::Hearts).unwrap(),
        Card::new(1, Suit::Hearts).unwrap(),
    ];
    assert_eq!(hand_scores(&hand), vec![7, 17]);
}

#[test]
fn test_hand_value_contains_ace_but_over_21() {
    let hand = vec![
        Card::new(10, Suit::Clubs).unwrap(),
        Card::new(9, Suit::Clubs).unwrap(),
        Card::new(1, Suit::Clubs).unwrap(),
    ];
    assert_eq!(hand_scores(&hand), vec![20]);
}

#[test]
fn every_order_of_a_hand_gives_the_same_scores() {
    let cards = [(1u8, Suit::Spades), (7u8, Suit::Hearts), (3u8, Suit::Clubs)];
    let orders = [[0, 1, 2], [0, 2, 1], [1, 0, 2], [1, 2, 0], [2, 0, 1], [2, 1, 0]];
    for order in orders {
        let shuffled = hand(&[cards[order[0]], cards[order[1]], cards[order[2]]]);
        assert_eq!(hand_scores(&shuffled), vec![11, 21]);
    }
}

#[test]
fn reversed_hand_with_an_ace_scores_alike() {
    let forward = hand(&[(1, Suit::Hearts), (10, Suit::Hearts)]);
    let backward = hand(&[(10, Suit::Hearts), (1, Suit::Hearts)]);
    assert_eq!(hand_scores(&forward), hand_scores(&backward));
    assert_eq!(hand_scores(&backward), vec![11, 21]);
}

#[test]
fn empty_hand_scores_zero() {
    assert_eq!(hand_scores(&Vec::new()), vec![0]);
}

#[test]
fn face_cards_count_ten() {
    assert_eq!(hand_scores(&hand(&[(11, Suit::Clubs)])), vec![10]);
    assert_eq!(hand_scores(&hand(&[(12, Suit::Clubs)])), vec![10]);
    assert_eq!(hand_scores(&hand(&[(13, Suit::Clubs)])), vec![10]);
    let faces = hand(&[(11, Suit::Clubs), (12, Suit::Hearts), (13, Suit::Spades)]);
    assert_eq!(hand_scores(&faces), vec![30]);
}

#[test]
fn number_cards_count_their_rank() {
    for rank in 2..=10u8 {
        assert_eq!(hand_scores(&hand(&[(rank, Suit::Diamonds)])), vec![rank as i8]);
    }
}

#[test]
fn lone_ace_is_one_or_eleven() {
    assert_eq!(hand_scores(&hand(&[(1, Suit::Diamonds)])), vec![1, 11]);
}

#[test]
fn ace_with_ten_more_counts_high_up_to_twenty_one_only() {
    // base 11: the high reading is exactly 21
    let eleven = hand(&[(1, Suit::Clubs), (4, Suit::Clubs), (6, Suit::Clubs)]);
    assert_eq!(hand_scores(&eleven), vec![11, 21]);
    // base 12: the high reading would be 22
    let twelve = hand(&[(1, Suit::Clubs), (5, Suit::Clubs), (6, Suit::Clubs)]);
    assert_eq!(hand_scores(&twelve), vec![12]);
}

#[test]
fn bust_hand_with_an_ace_has_one_score() {
    let cards =
        hand(&[(10, Suit::Clubs), (10, Suit::Hearts), (1, Suit::Clubs), (5, Suit::Spades)]);
    assert_eq!(hand_scores(&cards), vec![26]);
}

#[test]
fn four_aces_promote_only_one() {
    let cards =
        hand(&[(1, Suit::Clubs), (1, Suit::Hearts), (1, Suit::Spades), (1, Suit::Diamonds)]);
    assert_eq!(hand_scores(&cards), vec![4, 14]);
}

#[test]
fn scores_fit_until_the_total_passes_127() {
    let mut cards = Vec::new();
    for _ in 0..12 {
        cards.push(Card::new(10, Suit::Hearts).unwrap());
    }
    cards.push(Card::new(7, Suit::Hearts).unwrap());
    assert!(fits_scores(&cards));
    assert_eq!(hand_scores(&cards), vec![127]);
    cards.push(Card::new(1, Suit::Hearts).unwrap());
    assert!(!fits_scores(&cards));
    assert!(fits_scores(&Vec::new()));
}

#[test]
fn player_acts_below_twenty_one_only() {
    assert!(player_may_act(&vec![20]));
    assert!(player_may_act(&vec![7, 17]));
    assert!(!player_may_act(&vec![21]));
    assert!(!player_may_act(&vec![11, 21]));
    assert!(!player_may_act(&vec![22]));
}

#[test]
fn bust_means_every_score_over_twenty_one() {
    assert!(is_bust_scores(&vec![22]));
    assert!(is_bust_scores(&vec![22, 32]));
    assert!(!is_bust_scores(&vec![21]));
    assert!(!is_bust_scores(&vec![12, 22]));
    assert!(!is_bust_scores(&vec![22, 12]));
    assert!(is_bust_scores(&Vec::new()));
}

#[test]
fn best_score_is_the_highest() {
    assert_eq!(best_score(&vec![7, 17]), Some(17));
    assert_eq!(best_score(&vec![17, 7]), Some(17));
    assert_eq!(best_score(&vec![20]), Some(20));
    assert_eq!(best_score(&vec![-3, -1, -2]), Some(-1));
    assert_eq!(best_score(&Vec::new()), None);
}
