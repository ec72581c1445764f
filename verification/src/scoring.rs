//! Hand valuation: the totals a hand can be read as, the ace counting 1 or 11.

use crate::card::{lemma_rank_not_negative, Card, ACE, JACK, KING};
use vstd::prelude::*;

verus! {

/// The total that a hand must not exceed.
pub const TARGET: i8 = 21;

/// What an ace adds when it is counted high instead of low.
pub const SOFT_BONUS: i8 = 10;

/// What a card of the given rank counts at its face: the ace 1, a face card
/// 10, any other card its rank.
pub open spec fn face_value(rank: int) -> int {
    if rank == ACE {
        1
    } else if JACK <= rank <= KING {
        10
    } else {
        rank
    }
}

/// The sum of the face values of a hand, every ace counted low.
pub open spec fn base_total(hand: Seq<Card>) -> int
    decreases hand.len(),
{
    if hand.len() == 0 {
        0
    } else {
        base_total(hand.drop_last()) + face_value(hand.last()@.rank)
    }
}

/// Whether the hand holds an ace.
pub open spec fn has_ace(hand: Seq<Card>) -> bool {
    exists|i: int| 0 <= i < hand.len() && (#[trigger] hand[i])@.rank == ACE
}

/// Whether one ace of the hand can count high without the hand exceeding the
/// target.
pub open spec fn is_soft(hand: Seq<Card>) -> bool {
    has_ace(hand) && base_total(hand) + SOFT_BONUS <= TARGET
}

/// The totals of a hand, lowest first: the base total, and for a soft hand
/// the base total with one ace counted high. Never more than two.
pub open spec fn hand_values(hand: Seq<Card>) -> Seq<int> {
    if is_soft(hand) {
        seq![base_total(hand), base_total(hand) + SOFT_BONUS]
    } else {
        seq![base_total(hand)]
    }
}

/// The highest total of a hand.
pub open spec fn best_value(hand: Seq<Card>) -> int {
    if is_soft(hand) {
        base_total(hand) + SOFT_BONUS
    } else {
        base_total(hand)
    }
}

/// The scores of a vector as mathematical integers.
pub open spec fn as_values(scores: Seq<i8>) -> Seq<int> {
    scores.map_values(|s: i8| s as int)
}

/// Whether a player holding these totals is still asked to hit or stand:
/// the lowest total is below the target and no total equals it.
pub open spec fn may_act(values: Seq<int>) -> bool {
    values[0] < TARGET && !values.contains(TARGET as int)
}

/// Whether every one of these totals exceeds the target.
pub open spec fn all_bust(values: Seq<int>) -> bool {
    forall|i: int| 0 <= i < values.len() ==> values[i] > TARGET
}

/// Whether `top` is one of these totals and none of them is higher.
pub open spec fn is_highest(values: Seq<int>, top: int) -> bool {
    values.contains(top) && forall|i: int| 0 <= i < values.len() ==> values[i] <= top
}

/// Whether the holder of the hand still has a decision to make.
pub open spec fn can_act(hand: Seq<Card>) -> bool {
    may_act(hand_values(hand))
}

/// Whether the hand is bust: every way to read it exceeds the target.
pub open spec fn is_bust(hand: Seq<Card>) -> bool {
    all_bust(hand_values(hand))
}

/// No card counts less than nothing, and a card with one of the thirteen
/// ranks counts at least 1 and at most 10.
pub proof fn lemma_face_value_bounds(card: Card)
    ensures
        0 <= face_value(card@.rank),
        card.is_valid() ==> 1 <= face_value(card@.rank) <= 10,
{
    lemma_rank_not_negative(card);
}

/// The base total of the first `k` cards is at most that of the whole hand,
/// and is never negative.
pub proof fn lemma_base_total_prefix(hand: Seq<Card>, k: int)
    requires
        0 <= k <= hand.len(),
    ensures
        0 <= base_total(hand.take(k)) <= base_total(hand),
        0 <= base_total(hand),
    decreases hand.len(),
{
    if k == hand.len() {
        assert(hand.take(k) =~= hand);
        if hand.len() > 0 {
            lemma_base_total_prefix(hand.drop_last(), k - 1);
            lemma_face_value_bounds(hand.last());
        }
    } else {
        lemma_base_total_prefix(hand.drop_last(), k);
        assert(hand.drop_last().take(k) =~= hand.take(k));
        lemma_face_value_bounds(hand.last());
    }
}

/// Adding a card to a hand adds its face value to the base total.
pub proof fn lemma_base_total_push(hand: Seq<Card>, card: Card)
    ensures
        base_total(hand.push(card)) == base_total(hand) + face_value(card@.rank),
        has_ace(hand.push(card)) == (has_ace(hand) || card@.rank == ACE),
{
    let more = hand.push(card);
    assert(more.drop_last() =~= hand);
    if has_ace(hand) {
        let i = choose|i: int| 0 <= i < hand.len() && (#[trigger] hand[i])@.rank == ACE;
        assert(more[i]@.rank == ACE);
    }
    if card@.rank == ACE {
        assert(more[hand.len() as int]@.rank == ACE);
    }
    if has_ace(more) {
        let i = choose|i: int| 0 <= i < more.len() && (#[trigger] more[i])@.rank == ACE;
        assert(i < hand.len() ==> hand[i]@.rank == ACE);
    }
}

/// Taking the card at `at` out of a hand takes its face value off the base
/// total.
pub proof fn lemma_base_total_remove(hand: Seq<Card>, at: int)
    requires
        0 <= at < hand.len(),
    ensures
        base_total(hand) == base_total(hand.remove(at)) + face_value(hand[at]@.rank),
    decreases hand.len(),
{
    if at < hand.len() - 1 {
        lemma_base_total_remove(hand.drop_last(), at);
        assert(hand.remove(at).drop_last() =~= hand.drop_last().remove(at));
    }
}

/// Two hands of the same cards, in whatever order, have the same base total.
pub proof fn lemma_base_total_order_independent(a: Seq<Card>, b: Seq<Card>)
    requires
        a.to_multiset() == b.to_multiset(),
    ensures
        base_total(a) == base_total(b),
    decreases a.len(),
{
    a.to_multiset_ensures();
    b.to_multiset_ensures();
    if a.len() > 0 {
        let card = a.last();
        let rest = a.drop_last();
        assert(a.contains(card));
        assert(b.to_multiset().count(card) > 0);
        let at = b.index_of(card);
        assert(rest =~= a.remove(a.len() - 1));
        lemma_base_total_order_independent(rest, b.remove(at));
        lemma_base_total_remove(b, at);
    }
}

/// Where two hands hold the same cards and one holds an ace, so does the
/// other.
proof fn lemma_ace_carries_over(a: Seq<Card>, b: Seq<Card>)
    requires
        a.to_multiset() == b.to_multiset(),
        has_ace(a),
    ensures
        has_ace(b),
{
    a.to_multiset_ensures();
    b.to_multiset_ensures();
    let i = choose|i: int| 0 <= i < a.len() && (#[trigger] a[i])@.rank == ACE;
    assert(b.to_multiset().count(a[i]) > 0);
    assert(b[b.index_of(a[i])]@.rank == ACE);
}

/// The totals of a hand do not depend on the order of its cards: two hands
/// that hold the same cards, each as often as the other, have the same totals.
pub proof fn lemma_hand_values_order_independent(a: Seq<Card>, b: Seq<Card>)
    requires
        a.to_multiset() == b.to_multiset(),
    ensures
        hand_values(a) == hand_values(b),
        best_value(a) == best_value(b),
{
    lemma_base_total_order_independent(a, b);
    if has_ace(a) {
        lemma_ace_carries_over(a, b);
    }
    if has_ace(b) {
        lemma_ace_carries_over(b, a);
    }
}

/// The totals of a hand: the sum with every ace counted 1 and, where the hand
/// holds an ace and ten more still stay within 21, that sum plus ten.
pub fn hand_scores(cards: &Vec<Card>) -> (scores: Vec<i8>)
    requires
        base_total(cards@) <= i8::MAX,
    ensures
        as_values(scores@) == hand_values(cards@),
        1 <= scores@.len() <= 2,
{
    let mut total: i8 = 0;
    let mut seen_ace = false;
    let mut i: usize = 0;
    while i < cards.len()
        invariant
            i <= cards.len(),
            total == base_total(cards@.take(i as int)),
            seen_ace == has_ace(cards@.take(i as int)),
            base_total(cards@) <= i8::MAX,
        decreases cards.len() - i,
    {
        let rank = cards[i].value();
        proof {
            let seen = cards@.take(i as int);
            assert(cards@.take(i + 1) =~= seen.push(cards@[i as int]));
            lemma_base_total_push(seen, cards@[i as int]);
            lemma_base_total_prefix(cards@, i + 1);
        }
        let points: i8 = if rank == ACE {
            seen_ace = true;
            1
        } else if rank >= JACK {
            10
        } else {
            rank as i8
        };
        total = total + points;
        i = i + 1;
    }
    assert(cards@.take(i as int) =~= cards@);
    let mut scores: Vec<i8> = Vec::new();
    scores.push(total);
    if seen_ace && total <= TARGET - SOFT_BONUS {
        scores.push(total + SOFT_BONUS);
    }
    scores
}

/// What the possible readings of a hand come to: the best value is the
/// highest total, a hand is bust exactly when its base total exceeds the
/// target, and its holder can act exactly when the base total is below the
/// target and the hand is not a soft twenty-one.
pub proof fn lemma_hand_values_summary(hand: Seq<Card>)
    ensures
        is_highest(hand_values(hand), best_value(hand)),
        is_bust(hand) <==> base_total(hand) > TARGET,
        is_bust(hand) <==> best_value(hand) > TARGET,
        can_act(hand) <==> base_total(hand) < TARGET && best_value(hand) != TARGET,
        base_total(hand) <= best_value(hand) <= base_total(hand) + SOFT_BONUS,
{
    let values = hand_values(hand);
    assert(values[values.len() - 1] == best_value(hand));
}

/// Whether the totals of the hand fit the type of a score, which is what
/// `hand_scores` asks of a hand.
pub fn fits_scores(cards: &Vec<Card>) -> (fits: bool)
    ensures
        fits == (base_total(cards@) <= i8::MAX),
{
    let mut total: u8 = 0;
    let mut i: usize = 0;
    while i < cards.len()
        invariant
            i <= cards.len(),
            total == base_total(cards@.take(i as int)),
            total <= i8::MAX,
        decreases cards.len() - i,
    {
        let rank = cards[i].value();
        proof {
            let seen = cards@.take(i as int);
            assert(cards@.take(i + 1) =~= seen.push(cards@[i as int]));
            lemma_base_total_push(seen, cards@[i as int]);
            lemma_base_total_prefix(cards@, i + 1);
        }
        let points: u8 = if rank == ACE {
            1
        } else if rank >= JACK {
            10
        } else {
            rank
        };
        total = total + points;
        if total > i8::MAX as u8 {
            return false;
        }
        i = i + 1;
    }
    assert(cards@.take(i as int) =~= cards@);
    true
}

/// Whether the holder of these totals is still asked to hit or stand.
pub fn player_may_act(scores: &Vec<i8>) -> (asked: bool)
    requires
        scores.len() > 0,
    ensures
        asked == may_act(as_values(scores@)),
{
    let mut reached = false;
    let mut i: usize = 0;
    while i < scores.len()
        invariant
            i <= scores.len(),
            reached == exists|k: int| 0 <= k < i && scores@[k] == TARGET,
        decreases scores.len() - i,
    {
        if scores[i] == TARGET {
            reached = true;
        }
        i = i + 1;
    }
    proof {
        let values = as_values(scores@);
        if reached {
            let k = choose|k: int| 0 <= k < scores.len() && scores@[k] == TARGET;
            assert(values[k] == TARGET as int);
        }
        if values.contains(TARGET as int) {
            let k = choose|k: int| 0 <= k < values.len() && values[k] == TARGET as int;
            assert(scores@[k] == TARGET);
        }
    }
    scores[0] < TARGET && !reached
}

/// Whether every total exceeds the target.
pub fn is_bust_scores(scores: &Vec<i8>) -> (bust: bool)
    ensures
        bust == all_bust(as_values(scores@)),
{
    let mut i: usize = 0;
    while i < scores.len()
        invariant
            i <= scores.len(),
            forall|k: int| 0 <= k < i ==> scores@[k] > TARGET,
        decreases scores.len() - i,
    {
        if scores[i] <= TARGET {
            assert(as_values(scores@)[i as int] <= TARGET);
            return false;
        }
        i = i + 1;
    }
    true
}

/// The highest of the totals; `None` where there is none.
pub fn best_score(scores: &Vec<i8>) -> (best: Option<i8>)
    ensures
        best is None <==> scores.len() == 0,
        best matches Some(top) ==> is_highest(as_values(scores@), top as int),
{
    if scores.len() == 0 {
        return None;
    }
    let mut top: i8 = scores[0];
    let mut i: usize = 1;
    while i < scores.len()
        invariant
            1 <= i <= scores.len(),
            exists|k: int| 0 <= k < i && scores@[k] == top,
            forall|k: int| 0 <= k < i ==> scores@[k] <= top,
        decreases scores.len() - i,
    {
        if scores[i] > top {
            top = scores[i];
        }
        i = i + 1;
    }
    proof {
        let k = choose|k: int| 0 <= k < scores.len() && scores@[k] == top;
        assert(as_values(scores@)[k] == top as int);
    }
    Some(top)
}

} // verus!
