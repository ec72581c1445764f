//! One round of play: the wager, the player's turn, the dealer's turn and the
//! payout, as a machine that moves from phase to phase.

use crate::card::Card;
use crate::deck::Deck;
use crate::scoring::{
    as_values, base_total, best_score, best_value, can_act, hand_scores, hand_values, is_bust,
    is_bust_scores, lemma_base_total_push, lemma_hand_values_summary, player_may_act, TARGET,
};
use vstd::prelude::*;

verus! {

/// The total from which the dealer stands.
pub const DEALER_STAND: i8 = 17;

/// The bankroll with which a session opens.
pub const STARTING_BANKROLL: i32 = 1000;

/// How many cards the opening deal takes: two for each side.
pub const DEAL_SIZE: usize = 4;

/// Where a round stands.
#[derive(Debug, Copy, Clone, PartialEq, Eq, Structural)]
pub enum Phase {
    /// No wager has been taken yet.
    Betting,
    /// The player is asked to hit or stand.
    PlayerTurn,
    /// The player is done and not bust; the dealer has yet to draw.
    DealerTurn,
    /// The dealer is done; the hands have yet to be compared.
    Resolution,
    /// The round is over and the bankroll settled.
    Done,
}

/// How a round ended.
#[derive(Debug, Copy, Clone, PartialEq, Eq, Structural)]
pub enum Outcome {
    /// Every total of the player exceeded 21; the wager is lost.
    PlayerBust,
    /// The dealer exceeded 21; the player wins.
    DealerBust,
    /// The dealer's best total beat the player's; the wager is lost.
    DealerWins,
    /// The player's best total beat the dealer's.
    PlayerWins,
    /// Both best totals are equal; the wager is returned.
    Push,
}

/// What the player decided.
#[derive(Debug, Copy, Clone, PartialEq, Eq, Structural)]
pub enum Move {
    /// Take another card.
    Hit,
    /// Take no more cards.
    Stand,
    /// Anything else: it changes nothing and the player is asked again.
    Unrecognized,
}

/// Why a step of the round was refused.
#[derive(Debug, Copy, Clone, PartialEq, Eq, Structural)]
pub enum RoundError {
    /// The round is not in the phase that the step belongs to.
    WrongPhase,
    /// The wager exceeds the bankroll.
    BetTooLarge,
    /// The wager is zero or negative.
    BetNotPositive,
    /// The deck holds too few cards for the step.
    DeckExhausted,
}

/// The bonus on a won wager: one and a half times the wager, rounded down.
pub open spec fn bonus(bet: int) -> int {
    bet * 3 / 2
}

/// What a win adds to the bankroll: the wager itself and the bonus on it.
pub open spec fn winnings(bet: int) -> int {
    bet + bonus(bet)
}

/// How a round ends in which the player, not bust, holds `player_best` and the
/// dealer holds `dealer_best`.
pub open spec fn outcome_of(player_best: int, dealer_best: int) -> Outcome {
    if dealer_best > TARGET {
        Outcome::DealerBust
    } else if dealer_best > player_best {
        Outcome::DealerWins
    } else if dealer_best < player_best {
        Outcome::PlayerWins
    } else {
        Outcome::Push
    }
}

/// What the outcome adds to the bankroll, from which the wager was taken when
/// it was placed.
pub open spec fn payout(outcome: Outcome, bet: int) -> int {
    match outcome {
        Outcome::DealerBust | Outcome::PlayerWins => winnings(bet),
        Outcome::Push => bet,
        Outcome::PlayerBust | Outcome::DealerWins => 0,
    }
}

/// Why a wager of `bet` is refused with `bankroll` at hand; `None` where it is
/// accepted.
pub open spec fn bet_refusal(bet: int, bankroll: int) -> Option<RoundError> {
    if bet > bankroll {
        Some(RoundError::BetTooLarge)
    } else if bet <= 0 {
        Some(RoundError::BetNotPositive)
    } else {
        None
    }
}

/// The `count` cards on top of a pile, in the order in which they are drawn.
pub open spec fn top_cards(pile: Seq<Card>, count: int) -> Seq<Card> {
    Seq::new(count as nat, |i: int| pile[pile.len() - 1 - i])
}

/// The phase that follows once the player holds `player`: the player's turn
/// while a decision is open, the end of the round on a bust, else the
/// dealer's turn.
pub open spec fn phase_with(player: Seq<Card>) -> Phase {
    if can_act(player) {
        Phase::PlayerTurn
    } else if is_bust(player) {
        Phase::Done
    } else {
        Phase::DealerTurn
    }
}

/// A round as a value: its phase, the money and the two hands.
pub struct RoundView {
    /// Where the round stands.
    pub phase: Phase,
    /// The player's money, the wager of a round in progress taken off.
    pub bankroll: int,
    /// The wager of the round; 0 while none is placed.
    pub bet: int,
    /// The player's cards, in the order dealt.
    pub player: Seq<Card>,
    /// The dealer's cards, in the order dealt.
    pub dealer: Seq<Card>,
    /// How the round ended, once it has.
    pub outcome: Option<Outcome>,
}

impl RoundView {
    /// A session's first round with the given bankroll, before the wager.
    pub open spec fn opening(bankroll: int) -> RoundView {
        RoundView {
            phase: Phase::Betting,
            bankroll,
            bet: 0,
            player: Seq::empty(),
            dealer: Seq::empty(),
            outcome: None,
        }
    }

    /// Whether a wager is placed whose winnings the bankroll can still take.
    pub open spec fn in_play(self) -> bool {
        0 < self.bet && 0 <= self.bankroll && self.bankroll + winnings(self.bet) <= i32::MAX
    }

    /// What holds of every round: the money and the totals fit their
    /// machine types, and the hands are what the phase says they are.
    pub open spec fn valid(self) -> bool {
        &&& i32::MIN <= self.bankroll <= i32::MAX
        &&& 0 <= self.bet <= i32::MAX
        &&& base_total(self.player) <= i8::MAX
        &&& base_total(self.dealer) <= i8::MAX
        &&& match self.phase {
            Phase::Betting => self.bet == 0 && self.player.len() == 0 && self.dealer.len() == 0
                && self.outcome is None,
            Phase::PlayerTurn => self.in_play() && can_act(self.player) && self.outcome is None,
            Phase::DealerTurn => self.in_play() && !is_bust(self.player) && self.outcome is None,
            Phase::Resolution => self.in_play() && !is_bust(self.player) && best_value(
                self.dealer,
            ) >= DEALER_STAND && self.outcome is None,
            Phase::Done => self.outcome is Some,
        }
    }

    /// The round with `player` as the player's hand, in the phase that
    /// follows from it; a bust ends the round at once.
    pub open spec fn with_player(self, player: Seq<Card>) -> RoundView {
        RoundView {
            phase: phase_with(player),
            player,
            outcome: if phase_with(player) == Phase::Done {
                Some(Outcome::PlayerBust)
            } else {
                None
            },
            ..self
        }
    }

    /// The round after an accepted wager: the wager is taken off the
    /// bankroll and the four top cards of `pile` are dealt in turn, the
    /// first and third to the player, the second and fourth to the dealer.
    pub open spec fn after_bet(self, bet: int, pile: Seq<Card>) -> RoundView {
        let top = top_cards(pile, DEAL_SIZE as int);
        let staked = RoundView {
            bankroll: self.bankroll - bet,
            bet,
            dealer: seq![top[1], top[3]],
            ..self
        };
        staked.with_player(seq![top[0], top[2]])
    }

    /// The round after the player took `card`.
    pub open spec fn after_hit(self, card: Card) -> RoundView {
        self.with_player(self.player.push(card))
    }

    /// The round after the player stood.
    pub open spec fn after_stand(self) -> RoundView {
        RoundView { phase: Phase::DealerTurn, ..self }
    }

    /// The round after the dealer took the cards `drawn` and stood.
    pub open spec fn after_dealer(self, drawn: Seq<Card>) -> RoundView {
        RoundView { phase: Phase::Resolution, dealer: self.dealer + drawn, ..self }
    }

    /// How the round ends once both hands are final.
    pub open spec fn verdict(self) -> Outcome {
        outcome_of(best_value(self.player), best_value(self.dealer))
    }

    /// The round after the hands were compared and the bankroll settled.
    pub open spec fn after_resolution(self) -> RoundView {
        RoundView {
            phase: Phase::Done,
            bankroll: self.bankroll + payout(self.verdict(), self.bet),
            outcome: Some(self.verdict()),
            ..self
        }
    }

    /// The next round of the session: the bankroll stays, all else is as at
    /// the opening.
    pub open spec fn cleared(self) -> RoundView {
        RoundView::opening(self.bankroll)
    }
}

/// An accepted wager on a round that waits for one leaves a round that is
/// as it should be, given that the four top cards are cards of the deck and
/// that the bankroll can take the winnings.
pub proof fn lemma_bet_keeps_valid(round: RoundView, bet: int, pile: Seq<Card>)
    requires
        round.valid(),
        round.phase == Phase::Betting,
        bet_refusal(bet, round.bankroll) is None,
        round.bankroll + bonus(bet) <= i32::MAX,
        pile.len() >= DEAL_SIZE,
        forall|i: int|
            0 <= i < DEAL_SIZE ==> (#[trigger] top_cards(pile, DEAL_SIZE as int)[i]).is_valid(),
    ensures
        round.after_bet(bet, pile).valid(),
        round.after_bet(bet, pile).phase != Phase::Betting,
{
    let top = top_cards(pile, DEAL_SIZE as int);
    let player = seq![top[0], top[2]];
    let dealer = seq![top[1], top[3]];
    lemma_base_total_push(Seq::empty(), top[0]);
    lemma_base_total_push(seq![top[0]], top[2]);
    lemma_base_total_push(Seq::empty(), top[1]);
    lemma_base_total_push(seq![top[1]], top[3]);
    assert(seq![top[0]].push(top[2]) =~= player);
    assert(seq![top[1]].push(top[3]) =~= dealer);
}

/// A hit during the player's turn leaves a round that is as it should be.
pub proof fn lemma_hit_keeps_valid(round: RoundView, card: Card)
    requires
        round.valid(),
        round.phase == Phase::PlayerTurn,
        card.is_valid(),
    ensures
        round.after_hit(card).valid(),
{
    lemma_base_total_push(round.player, card);
}

/// A stand during the player's turn leaves a round that is as it should be.
pub proof fn lemma_stand_keeps_valid(round: RoundView)
    requires
        round.valid(),
        round.phase == Phase::PlayerTurn,
    ensures
        round.after_stand().valid(),
{
}

/// The dealer's turn leaves a round that is as it should be once the
/// dealer's hand has reached the total to stand on.
pub proof fn lemma_dealer_keeps_valid(round: RoundView, drawn: Seq<Card>)
    requires
        round.valid(),
        round.phase == Phase::DealerTurn,
        best_value(round.dealer + drawn) >= DEALER_STAND,
        base_total(round.dealer + drawn) <= i8::MAX,
    ensures
        round.after_dealer(drawn).valid(),
{
}

/// The resolution leaves a round that is as it should be, and done.
pub proof fn lemma_resolution_keeps_valid(round: RoundView)
    requires
        round.valid(),
        round.phase == Phase::Resolution,
    ensures
        round.after_resolution().valid(),
        round.after_resolution().phase == Phase::Done,
{
}

/// The player's and the dealer's steps leave the money alone: between the
/// wager and the resolution neither the bankroll nor the wager changes.
pub proof fn lemma_steps_keep_stake(round: RoundView, card: Card, drawn: Seq<Card>)
    ensures
        round.after_hit(card).bankroll == round.bankroll,
        round.after_hit(card).bet == round.bet,
        round.after_stand().bankroll == round.bankroll,
        round.after_stand().bet == round.bet,
        round.after_dealer(drawn).bankroll == round.bankroll,
        round.after_dealer(drawn).bet == round.bet,
{
}

/// What a round comes to in money. `before` is the round when the wager
/// `bet` is placed on it, `at_end` the same round when it is resolved. A
/// push leaves the bankroll as it was before the wager, a win adds the bonus
/// to it, and a loss takes the wager off it.
pub proof fn lemma_settlement(before: RoundView, bet: int, pile: Seq<Card>, at_end: RoundView)
    requires
        at_end.bankroll == before.after_bet(bet, pile).bankroll,
        at_end.bet == before.after_bet(bet, pile).bet,
    ensures
        at_end.verdict() == Outcome::Push ==> at_end.after_resolution().bankroll
            == before.bankroll,
        at_end.verdict() == Outcome::PlayerWins || at_end.verdict() == Outcome::DealerBust
            ==> at_end.after_resolution().bankroll == before.bankroll + bonus(bet),
        at_end.verdict() == Outcome::DealerWins ==> at_end.after_resolution().bankroll
            == before.bankroll - bet,
{
}

/// A bust ends the round on the spot: the round is done, the dealer's hand
/// and the bankroll, from which the wager is gone, stay as they are.
pub proof fn lemma_bust_ends_round(round: RoundView, card: Card)
    requires
        is_bust(round.player.push(card)),
    ensures
        round.after_hit(card).phase == Phase::Done,
        round.after_hit(card).outcome == Some(Outcome::PlayerBust),
        round.after_hit(card).dealer == round.dealer,
        round.after_hit(card).bankroll == round.bankroll,
{
}

/// How a round ends once the player, not bust, holds `player_best` and the
/// dealer `dealer_best`.
pub fn decide(player_best: i8, dealer_best: i8) -> (outcome: Outcome)
    ensures
        outcome == outcome_of(player_best as int, dealer_best as int),
{
    if dealer_best > TARGET {
        Outcome::DealerBust
    } else if dealer_best > player_best {
        Outcome::DealerWins
    } else if dealer_best < player_best {
        Outcome::PlayerWins
    } else {
        Outcome::Push
    }
}

/// What an outcome pays on a wager of `bet`.
pub fn payout_for(outcome: Outcome, bet: i32) -> (amount: i32)
    requires
        0 < bet,
        winnings(bet as int) <= i32::MAX,
    ensures
        amount == payout(outcome, bet as int),
{
    match outcome {
        Outcome::DealerBust | Outcome::PlayerWins => {
            let bonus: i64 = bet as i64 * 3 / 2;
            bet + bonus as i32
        },
        Outcome::Push => bet,
        Outcome::PlayerBust | Outcome::DealerWins => 0,
    }
}

/// The best total of a hand.
fn best_of(hand: &Vec<Card>) -> (best: i8)
    requires
        base_total(hand@) <= i8::MAX,
    ensures
        best == best_value(hand@),
{
    let scores = hand_scores(hand);
    let best = best_score(&scores);
    proof {
        lemma_hand_values_summary(hand@);
    }
    best.unwrap()
}

/// The dealer's turn on a hand: the dealer draws from the top of the deck
/// while the best total of the hand is below 17, and stops at the first hand
/// that reaches it, bust or not. Returns whether the dealer stands; the
/// dealer does not where the deck ran out first.
pub fn dealer_play(hand: &mut Vec<Card>, deck: &mut Deck) -> (stands: bool)
    requires
        base_total(old(hand)@) <= i8::MAX,
    ensures
        final(deck)@.len() <= old(deck)@.len(),
        final(deck)@ == old(deck)@.take(final(deck)@.len() as int),
        final(hand)@ == old(hand)@ + top_cards(
            old(deck)@,
            old(deck)@.len() - final(deck)@.len(),
        ),
        forall|k: int|
            0 <= k < old(deck)@.len() - final(deck)@.len() ==> best_value(
                old(hand)@ + #[trigger] top_cards(old(deck)@, k),
            ) < DEALER_STAND,
        stands == (best_value(final(hand)@) >= DEALER_STAND),
        !stands ==> final(deck)@.len() == 0,
        old(deck)@.len() + base_total(old(hand)@) >= DEALER_STAND ==> stands,
        base_total(final(hand)@) <= i8::MAX,
{
    let ghost pile = deck@;
    let ghost start = hand@;
    loop
        invariant
            pile == old(deck)@,
            start == old(hand)@,
            deck@.len() <= pile.len(),
            deck@ == pile.take(deck@.len() as int),
            hand@ == start + top_cards(pile, pile.len() - deck@.len()),
            forall|k: int|
                0 <= k < pile.len() - deck@.len() ==> best_value(
                    start + #[trigger] top_cards(pile, k),
                ) < DEALER_STAND,
            base_total(hand@) <= i8::MAX,
            base_total(hand@) >= base_total(start) + (pile.len() - deck@.len()),
        decreases deck@.len(),
    {
        if best_of(hand) >= DEALER_STAND {
            return true;
        }
        match deck.draw() {
            None => {
                return false;
            },
            Some(card) => {
                proof {
                    use_type_invariant(&card);
                    lemma_base_total_push(hand@, card);
                }
                hand.push(card);
            },
        }
    }
}

/// A round of blackjack and the bankroll it is played for.
pub struct Round {
    phase: Phase,
    bankroll: i32,
    bet: i32,
    player: Vec<Card>,
    dealer: Vec<Card>,
    outcome: Option<Outcome>,
}

impl View for Round {
    type V = RoundView;

    closed spec fn view(&self) -> RoundView {
        RoundView {
            phase: self.phase,
            bankroll: self.bankroll as int,
            bet: self.bet as int,
            player: self.player@,
            dealer: self.dealer@,
            outcome: self.outcome,
        }
    }
}

impl Round {
    /// Whether the round is one that the steps below can leave behind.
    pub open spec fn wf(&self) -> bool {
        self@.valid()
    }

    /// A session's first round, waiting for the wager.
    pub fn new(bankroll: i32) -> (round: Round)
        ensures
            round.wf(),
            round@ == RoundView::opening(bankroll as int),
    {
        Round {
            phase: Phase::Betting,
            bankroll,
            bet: 0,
            player: Vec::new(),
            dealer: Vec::new(),
            outcome: None,
        }
    }

    /// The phase the round is in.
    pub fn phase(&self) -> (phase: Phase)
        ensures
            phase == self@.phase,
    {
        self.phase
    }

    /// The player's money.
    pub fn bankroll(&self) -> (bankroll: i32)
        ensures
            bankroll == self@.bankroll,
    {
        self.bankroll
    }

    /// The wager of the round.
    pub fn bet(&self) -> (bet: i32)
        ensures
            bet == self@.bet,
    {
        self.bet
    }

    /// How the round ended, once it has.
    pub fn outcome(&self) -> (outcome: Option<Outcome>)
        ensures
            outcome == self@.outcome,
    {
        self.outcome
    }

    /// The player's cards, in the order dealt.
    pub fn player_hand(&self) -> (hand: &Vec<Card>)
        ensures
            hand@ == self@.player,
    {
        &self.player
    }

    /// The dealer's cards, in the order dealt.
    pub fn dealer_hand(&self) -> (hand: &Vec<Card>)
        ensures
            hand@ == self@.dealer,
    {
        &self.dealer
    }

    /// The totals of the player's hand.
    pub fn player_scores(&self) -> (scores: Vec<i8>)
        requires
            self.wf(),
        ensures
            as_values(scores@) == hand_values(self@.player),
    {
        hand_scores(&self.player)
    }

    /// The totals of the dealer's hand.
    pub fn dealer_scores(&self) -> (scores: Vec<i8>)
        requires
            self.wf(),
        ensures
            as_values(scores@) == hand_values(self@.dealer),
    {
        hand_scores(&self.dealer)
    }

    /// Sets the phase, and the outcome on a bust, from the player's hand.
    fn follow_player_hand(&mut self)
        requires
            base_total(old(self)@.player) <= i8::MAX,
        ensures
            final(self)@ == old(self)@.with_player(old(self)@.player),
    {
        let scores = hand_scores(&self.player);
        if player_may_act(&scores) {
            self.phase = Phase::PlayerTurn;
            self.outcome = None;
        } else if is_bust_scores(&scores) {
            self.phase = Phase::Done;
            self.outcome = Some(Outcome::PlayerBust);
        } else {
            self.phase = Phase::DealerTurn;
            self.outcome = None;
        }
    }

    /// Whether the bankroll could take the winnings of `bet`, which is what
    /// `place_bet` asks of a wager that it would accept.
    pub fn bet_fits(&self, bet: i32) -> (fits: bool)
        ensures
            fits == (bet_refusal(bet as int, self@.bankroll) is None ==> self@.bankroll + bonus(
                bet as int,
            ) <= i32::MAX),
    {
        if bet > self.bankroll || bet <= 0 {
            true
        } else {
            self.bankroll as i64 + bet as i64 * 3 / 2 <= i32::MAX as i64
        }
    }

    /// Takes the wager and deals. A wager above the bankroll, or one that is
    /// not positive, is refused, and so is any wager while fewer than four
    /// cards are left; a refusal changes nothing. An accepted wager leaves
    /// the bankroll at once, and the player and the dealer get two cards
    /// each, dealt in turn from the top of the deck.
    pub fn place_bet(&mut self, bet: i32, deck: &mut Deck) -> (done: Result<(), RoundError>)
        requires
            old(self).wf(),
            bet_refusal(bet as int, old(self)@.bankroll) is None ==> old(self)@.bankroll + bonus(
                bet as int,
            ) <= i32::MAX,
        ensures
            final(self).wf(),
            done == (if old(self)@.phase != Phase::Betting {
                Err(RoundError::WrongPhase)
            } else if let Some(refusal) = bet_refusal(bet as int, old(self)@.bankroll) {
                Err(refusal)
            } else if old(deck)@.len() < DEAL_SIZE {
                Err(RoundError::DeckExhausted)
            } else {
                Ok(())
            }),
            done is Ok ==> final(self)@ == old(self)@.after_bet(bet as int, old(deck)@)
                && final(deck)@ == old(deck)@.take(old(deck)@.len() - DEAL_SIZE),
            done is Err ==> final(self)@ == old(self)@ && final(deck)@ == old(deck)@,
    {
        if self.phase != Phase::Betting {
            return Err(RoundError::WrongPhase);
        }
        if bet > self.bankroll {
            return Err(RoundError::BetTooLarge);
        }
        if bet <= 0 {
            return Err(RoundError::BetNotPositive);
        }
        if deck.remaining() < DEAL_SIZE {
            return Err(RoundError::DeckExhausted);
        }
        let ghost pile = deck@;
        let ghost top = top_cards(pile, DEAL_SIZE as int);
        let first = deck.draw().unwrap();
        let second = deck.draw().unwrap();
        let third = deck.draw().unwrap();
        let fourth = deck.draw().unwrap();
        proof {
            use_type_invariant(&first);
            use_type_invariant(&second);
            use_type_invariant(&third);
            use_type_invariant(&fourth);
            lemma_bet_keeps_valid(self@, bet as int, pile);
        }
        self.bankroll = self.bankroll - bet;
        self.bet = bet;
        self.player.push(first);
        self.dealer.push(second);
        self.player.push(third);
        self.dealer.push(fourth);
        assert(self.player@ =~= seq![top[0], top[2]]);
        assert(self.dealer@ =~= seq![top[1], top[3]]);
        self.follow_player_hand();
        Ok(())
    }

    /// The player's decision. A hit takes the top card of the deck into the
    /// player's hand; the turn goes on while a decision is still open, ends
    /// the round on a bust, and else passes to the dealer. A stand passes to
    /// the dealer. Any other answer changes nothing. Outside the player's
    /// turn, and on a hit from an empty deck, the step is refused and
    /// changes nothing.
    pub fn player_move(&mut self, choice: Move, deck: &mut Deck) -> (done: Result<(), RoundError>)
        requires
            old(self).wf(),
        ensures
            final(self).wf(),
            done == (if old(self)@.phase != Phase::PlayerTurn {
                Err(RoundError::WrongPhase)
            } else if choice == Move::Hit && old(deck)@.len() == 0 {
                Err(RoundError::DeckExhausted)
            } else {
                Ok(())
            }),
            done is Err ==> final(self)@ == old(self)@ && final(deck)@ == old(deck)@,
            done is Ok ==> match choice {
                Move::Hit => final(self)@ == old(self)@.after_hit(old(deck)@.last())
                    && final(deck)@ == old(deck)@.drop_last(),
                Move::Stand => final(self)@ == old(self)@.after_stand()
                    && final(deck)@ == old(deck)@,
                Move::Unrecognized => final(self)@ == old(self)@ && final(deck)@ == old(deck)@,
            },
    {
        if self.phase != Phase::PlayerTurn {
            return Err(RoundError::WrongPhase);
        }
        match choice {
            Move::Hit => {
                match deck.draw() {
                    None => Err(RoundError::DeckExhausted),
                    Some(card) => {
                        proof {
                            use_type_invariant(&card);
                            lemma_hit_keeps_valid(self@, card);
                        }
                        self.player.push(card);
                        self.follow_player_hand();
                        Ok(())
                    },
                }
            },
            Move::Stand => {
                self.phase = Phase::DealerTurn;
                Ok(())
            },
            Move::Unrecognized => Ok(()),
        }
    }

    /// The dealer's turn: the dealer draws from the top of the deck while
    /// the best total of the dealer's hand is below 17, and never once it
    /// has reached 17, bust or not. The round then waits for its
    /// resolution. Where the deck runs out first the step fails with the
    /// deck empty, the cards drawn so far in the dealer's hand, and the
    /// dealer's turn still open. Outside the dealer's turn the step is
    /// refused and changes nothing.
    pub fn dealer_turn(&mut self, deck: &mut Deck) -> (done: Result<(), RoundError>)
        requires
            old(self).wf(),
        ensures
            final(self).wf(),
            old(self)@.phase != Phase::DealerTurn ==> done == Err::<(), RoundError>(
                RoundError::WrongPhase,
            ) && final(self)@ == old(self)@ && final(deck)@ == old(deck)@,
            old(self)@.phase == Phase::DealerTurn ==> {
                let drawn = top_cards(old(deck)@, old(deck)@.len() - final(deck)@.len());
                &&& final(deck)@.len() <= old(deck)@.len()
                &&& final(deck)@ == old(deck)@.take(final(deck)@.len() as int)
                &&& forall|k: int|
                    0 <= k < drawn.len() ==> best_value(
                        old(self)@.dealer + #[trigger] top_cards(old(deck)@, k),
                    ) < DEALER_STAND
                &&& old(deck)@.len() + base_total(old(self)@.dealer) >= DEALER_STAND ==> done is Ok
                &&& if best_value(old(self)@.dealer + drawn) >= DEALER_STAND {
                    done is Ok && final(self)@ == old(self)@.after_dealer(drawn)
                } else {
                    &&& done == Err::<(), RoundError>(RoundError::DeckExhausted)
                    &&& final(deck)@.len() == 0
                    &&& final(self)@ == RoundView {
                        dealer: old(self)@.dealer + drawn,
                        ..old(self)@
                    }
                }
            },
    {
        if self.phase != Phase::DealerTurn {
            return Err(RoundError::WrongPhase);
        }
        if dealer_play(&mut self.dealer, deck) {
            self.phase = Phase::Resolution;
            Ok(())
        } else {
            Err(RoundError::DeckExhausted)
        }
    }

    /// Compares the hands and settles the bankroll. A dealer above 21 loses;
    /// else the higher best total wins, and equal totals are a push. A win
    /// adds the wager and the bonus on it to the bankroll, a push the wager
    /// alone, a loss nothing. Outside the resolution the step is refused and
    /// changes nothing.
    pub fn resolve(&mut self) -> (done: Result<Outcome, RoundError>)
        requires
            old(self).wf(),
        ensures
            final(self).wf(),
            old(self)@.phase != Phase::Resolution ==> done == Err::<Outcome, RoundError>(
                RoundError::WrongPhase,
            ) && final(self)@ == old(self)@,
            old(self)@.phase == Phase::Resolution ==> done == Ok::<Outcome, RoundError>(
                old(self)@.verdict(),
            ) && final(self)@ == old(self)@.after_resolution(),
    {
        if self.phase != Phase::Resolution {
            return Err(RoundError::WrongPhase);
        }
        let player_best = best_of(&self.player);
        let dealer_best = best_of(&self.dealer);
        let outcome = decide(player_best, dealer_best);
        let amount = payout_for(outcome, self.bet);
        self.bankroll = self.bankroll + amount;
        self.outcome = Some(outcome);
        self.phase = Phase::Done;
        Ok(outcome)
    }

    /// Opens the next round where the session goes on: the finished round is
    /// cleared and the bankroll kept. The session goes on only if the round
    /// is over, the player wants to go on, and the bankroll is not exactly
    /// zero; else nothing changes.
    pub fn next_round(&mut self, keep_playing: bool) -> (again: bool)
        requires
            old(self).wf(),
        ensures
            final(self).wf(),
            again == (old(self)@.phase == Phase::Done && old(self)@.bankroll != 0 && keep_playing),
            again ==> final(self)@ == old(self)@.cleared(),
            !again ==> final(self)@ == old(self)@,
    {
        if self.phase == Phase::Done && self.bankroll != 0 && keep_playing {
            self.phase = Phase::Betting;
            self.bet = 0;
            self.player = Vec::new();
            self.dealer = Vec::new();
            self.outcome = None;
            true
        } else {
            false
        }
    }
}

} // verus!
