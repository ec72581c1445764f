//! Blackjack for one player against a dealer who follows fixed house rules:
//! cards and decks, the valuation of a hand, and the progress of a round from
//! the wager to the payout.

pub mod card;
pub mod deck;
pub mod input;
pub mod round;
pub mod scoring;
pub mod text;
