//! What the player typed: the wager, the choice to hit or stand, and whether
//! to go on. The lines themselves are read elsewhere; here they are judged.

use crate::round::{bet_refusal, Move, RoundError};
use vstd::prelude::*;

verus! {

/// What an answer to the question for the wager comes to.
#[derive(Debug, Copy, Clone, PartialEq, Eq, Structural)]
pub enum BetAnswer {
    /// A wager that can be placed.
    Accepted(i32),
    /// A number above what the player has; the player is told so and asked
    /// again.
    TooMuch,
    /// No number, or one that is not positive; the player is asked again.
    Unusable,
}

/// `text` without the white space at its two ends, as `str::trim` removes
/// it.
pub uninterp spec fn trimmed(text: Seq<char>) -> Seq<char>;

/// `text` in lower case, as `str::to_lowercase` writes it.
pub uninterp spec fn lowercased(text: Seq<char>) -> Seq<char>;

/// Whether `c` is one of the digits `0` to `9`.
pub open spec fn is_digit(c: char) -> bool {
    '0' as int <= c as int <= '9' as int
}

/// Whether `text` is one digit or more and nothing else.
pub open spec fn all_digits(text: Seq<char>) -> bool {
    text.len() > 0 && forall|i: int| 0 <= i < text.len() ==> is_digit(#[trigger] text[i])
}

/// The number that a run of digits writes in base ten.
pub open spec fn digits_value(digits: Seq<char>) -> int
    decreases digits.len(),
{
    if digits.len() == 0 {
        0
    } else {
        digits_value(digits.drop_last()) * 10 + (digits.last() as int - '0' as int)
    }
}

/// The 32-bit number that `text` writes: an optional `+` or `-`, then digits
/// and nothing else, for a number within the range of `i32`. `None` for any
/// other text.
pub open spec fn decimal_i32(text: Seq<char>) -> Option<i32> {
    let signed = text.len() > 0 && (text[0] == '-' || text[0] == '+');
    let digits = if signed {
        text.skip(1)
    } else {
        text
    };
    let value = if signed && text[0] == '-' {
        -digits_value(digits)
    } else {
        digits_value(digits)
    };
    if all_digits(digits) && i32::MIN <= value <= i32::MAX {
        Some(value as i32)
    } else {
        None
    }
}

/// What a parsed answer comes to as a wager against `max`, the player's
/// money: a number above `max` is too much, one that is not positive is
/// unusable, and so is an answer that was no number.
pub open spec fn bet_answer(number: Option<i32>, max: int) -> BetAnswer {
    match number {
        None => BetAnswer::Unusable,
        Some(bet) => match bet_refusal(bet as int, max) {
            None => BetAnswer::Accepted(bet),
            Some(RoundError::BetTooLarge) => BetAnswer::TooMuch,
            Some(_) => BetAnswer::Unusable,
        },
    }
}

/// The choice that a lower-case answer stands for: a hit where it begins
/// with `h`, a stand where it begins with `s`.
pub open spec fn move_of(word: Seq<char>) -> Move {
    if word.len() > 0 && word[0] == 'h' {
        Move::Hit
    } else if word.len() > 0 && word[0] == 's' {
        Move::Stand
    } else {
        Move::Unrecognized
    }
}

/// Whether a trimmed lower-case answer says no.
pub open spec fn says_no(word: Seq<char>) -> bool {
    word == "n"@ || word == "no"@
}

/// `str::trim`: the slice of `text` between its leading and its trailing
/// white space. The result is named, not spelled out.
#[verifier::external_body]
fn trim(text: &str) -> (inner: &str)
    ensures
        inner@ == trimmed(text@),
{
    text.trim()
}

/// `str::to_lowercase`: a new string with every character of `text` in lower
/// case. The result is named, not spelled out.
#[verifier::external_body]
fn to_lowercase(text: &str) -> (lower: String)
    ensures
        lower@ == lowercased(text@),
{
    text.to_lowercase()
}

/// `str::parse::<i32>`, its error dropped: the number where `text` is an
/// optional sign followed by decimal digits only and the number fits in an
/// `i32`, and nothing for any other text, white space at either end
/// included.
#[verifier::external_body]
fn parse_i32(text: &str) -> (number: Option<i32>)
    ensures
        number == decimal_i32(text@),
{
    text.parse::<i32>().ok()
}

/// Judges a parsed answer as a wager against `max`, the player's money.
pub fn judge_bet(number: Option<i32>, max: i32) -> (answer: BetAnswer)
    ensures
        answer == bet_answer(number, max as int),
{
    match number {
        None => BetAnswer::Unusable,
        Some(bet) => {
            if bet > max {
                BetAnswer::TooMuch
            } else if bet <= 0 {
                BetAnswer::Unusable
            } else {
                BetAnswer::Accepted(bet)
            }
        },
    }
}

/// Reads the answer to the question for the wager: the line is trimmed,
/// read as a number, and judged against `max`.
pub fn read_bet_amount(answer: &str, max: i32) -> (reply: BetAnswer)
    ensures
        reply == bet_answer(decimal_i32(trimmed(answer@)), max as int),
{
    judge_bet(parse_i32(trim(answer)), max)
}

/// The choice that a lower-case answer stands for.
pub fn move_from_word(word: &str) -> (choice: Move)
    ensures
        choice == move_of(word@),
{
    if word.unicode_len() == 0 {
        return Move::Unrecognized;
    }
    let first = word.get_char(0);
    if first == 'h' {
        Move::Hit
    } else if first == 's' {
        Move::Stand
    } else {
        Move::Unrecognized
    }
}

/// Reads the answer to "hit or stand": upper and lower case count alike.
pub fn read_move(answer: &str) -> (choice: Move)
    ensures
        choice == move_of(lowercased(answer@)),
{
    let lower = to_lowercase(answer);
    move_from_word(lower.as_str())
}

/// Whether a trimmed lower-case answer lets the session go on: every answer
/// does but `n` and `no`.
pub fn confirm_from_word(word: &str) -> (go_on: bool)
    ensures
        go_on == !says_no(word@),
{
    proof {
        reveal_strlit("n");
        reveal_strlit("no");
    }
    let length = word.unicode_len();
    let no = if length == 1 {
        let only = word.get_char(0);
        assert(only == 'n' ==> word@ =~= "n"@);
        only == 'n'
    } else if length == 2 {
        let first = word.get_char(0);
        let second = word.get_char(1);
        assert(first == 'n' && second == 'o' ==> word@ =~= "no"@);
        first == 'n' && second == 'o'
    } else {
        false
    };
    !no
}

/// Reads the answer to "do you want to continue": the line is trimmed and
/// put in lower case; `n` and `no` end the session, anything else goes on.
pub fn confirm(answer: &str) -> (go_on: bool)
    ensures
        go_on == !says_no(lowercased(trimmed(answer@))),
{
    let lower = to_lowercase(trim(answer));
    confirm_from_word(lower.as_str())
}

} // verus!
