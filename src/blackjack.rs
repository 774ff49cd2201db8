use vstd::prelude::*;

use crate::card::{Card, rank_value};
use crate::hand::{
    DealerHand, PlayerHand, Status, dealer_status, hand_winnings, is_soft, player_status_after_draw,
};
use crate::rules::{BlackjackPayout, Rules, min_bet_of};
use crate::shoe::{Shoe, shuffle_due};
use crate::state::{GameState, dealt_dealer_hand, dealt_hand, fresh_hand, turn_in_play, up_card_only};
use crate::statistics::{Statistics, capped};
use crate::turn::{PlayerTurn, all_finished, all_wf, lemma_current_replaced};

verus! {

/// The player's options for playing their hand.
#[derive(Debug, Clone, Copy, PartialEq, Eq, Structural)]
pub enum HandAction {
    Stand,
    Hit,
    Double,
    Split,
    Surrender,
}

/// The game input. Different states require different inputs.
#[derive(Debug, Clone, Copy, PartialEq, Eq, Structural)]
pub enum Input {
    Bet(u32),
    Choice(bool),
    Action(HandAction),
}

#[derive(Debug, Clone, Copy, PartialEq, Eq, Structural)]
pub enum TransitionError {
    WrongInput,
    BetError(BetError),
    DoubleError(DoubleError),
    SplitError(SplitError),
    SurrenderError(SurrenderError),
}

#[derive(Debug, Clone, Copy, PartialEq, Eq, Structural)]
pub enum BetError {
    BetTooLow,
    BetTooHigh,
    CantAfford,
}

#[derive(Debug, Clone, Copy, PartialEq, Eq, Structural)]
pub enum DoubleError {
    CantAfford,
    NotTwoCards,
    DoubleAfterSplitNotAllowed,
}

#[derive(Debug, Clone, Copy, PartialEq, Eq, Structural)]
pub enum SplitError {
    CantAfford,
    NotPair,
    MaxSplitsReached,
    SplitAcesNotAllowed,
}

#[derive(Debug, Clone, Copy, PartialEq, Eq, Structural)]
pub enum SurrenderError {
    NotTwoCards,
    LateSurrenderNotAllowed,
}

impl TransitionError {
    /// A message for the player.
    pub fn message(&self) -> &'static str {
        match self {
            TransitionError::WrongInput => "Wrong input",
            TransitionError::BetError(err) => match err {
                BetError::BetTooLow => "Bet too low",
                BetError::BetTooHigh => "Bet too high",
                BetError::CantAfford => "Can't afford bet",
            },
            TransitionError::DoubleError(err) => match err {
                DoubleError::CantAfford => "Can't afford to double",
                DoubleError::NotTwoCards => "Not two cards",
                DoubleError::DoubleAfterSplitNotAllowed => "Double after split not allowed",
            },
            TransitionError::SplitError(err) => match err {
                SplitError::CantAfford => "Can't afford to split",
                SplitError::NotPair => "Not a pair",
                SplitError::MaxSplitsReached => "Max splits reached",
                SplitError::SplitAcesNotAllowed => "Split aces not allowed",
            },
            TransitionError::SurrenderError(err) => match err {
                SurrenderError::NotTwoCards => "Not two cards",
                SurrenderError::LateSurrenderNotAllowed => "Late surrender not allowed",
            },
        }
    }
}

/// If the player input is invalid, the game cannot progress.
/// In these cases, the game returns an error with the unchanged state.
pub type FallibleTransition = Result<GameState, (GameState, TransitionError)>;

/// Why a bet cannot be placed, if it cannot: below the minimum (one chip when
/// none is configured), above the maximum, or more than the player has.
pub open spec fn bet_error(rules: Rules, chips: u32, bet: u32) -> Option<BetError> {
    if (bet as nat) < min_bet_of(rules) {
        Some(BetError::BetTooLow)
    } else if rules.max_bet is Some && bet > rules.max_bet->0 {
        Some(BetError::BetTooHigh)
    } else if bet > chips {
        Some(BetError::CantAfford)
    } else {
        None
    }
}

/// Why an insurance bet cannot be placed, if it cannot: more than half the
/// bet on the hand, or more than the player has.
pub open spec fn insurance_error(chips: u32, hand: PlayerHand, bet: u32) -> Option<BetError> {
    if bet > hand.bet / 2 {
        Some(BetError::BetTooHigh)
    } else if bet > chips {
        Some(BetError::CantAfford)
    } else {
        None
    }
}

/// Two cards of equal value.
pub open spec fn is_pair(hand: PlayerHand) -> bool {
    hand.cards@.len() == 2 && rank_value(hand.cards@[0].rank) == rank_value(hand.cards@[1].rank)
}

/// Why the hand cannot be doubled, if it cannot.
pub open spec fn double_error(rules: Rules, chips: u32, hand: PlayerHand) -> Option<DoubleError> {
    if hand.cards@.len() != 2 {
        Some(DoubleError::NotTwoCards)
    } else if hand.bet > chips {
        Some(DoubleError::CantAfford)
    } else if hand.splits > 0 && !rules.double_after_split {
        Some(DoubleError::DoubleAfterSplitNotAllowed)
    } else {
        None
    }
}

/// Why the hand cannot be split, if it cannot. A soft pair is a pair of aces.
pub open spec fn split_error(rules: Rules, chips: u32, hand: PlayerHand) -> Option<SplitError> {
    if !is_pair(hand) {
        Some(SplitError::NotPair)
    } else if hand.bet > chips {
        Some(SplitError::CantAfford)
    } else if rules.max_splits is Some && hand.splits >= rules.max_splits->0 {
        Some(SplitError::MaxSplitsReached)
    } else if is_soft(hand.cards@) && !rules.split_aces {
        Some(SplitError::SplitAcesNotAllowed)
    } else {
        None
    }
}

/// Why the hand cannot be surrendered, if it cannot.
pub open spec fn surrender_error(rules: Rules, hand: PlayerHand) -> Option<SurrenderError> {
    if hand.cards@.len() != 2 {
        Some(SurrenderError::NotTwoCards)
    } else if !rules.offer_late_surrender {
        Some(SurrenderError::LateSurrenderNotAllowed)
    } else {
        None
    }
}

/// The game table. This is where the game is played.
/// It holds the player's chips, the shoe, and the game rules.
#[derive(Debug)]
pub struct Table {
    pub chips: u32,
    pub shoe: Shoe,
    pub rules: Rules,
    pub statistics: Statistics,
    /// Only stop at the states requiring user input and do not validate the input.
    pub is_simulation: bool,
}

/// The card the shoe dealt last.
pub open spec fn last_drawn(shoe: Shoe) -> Card {
    shoe.cards@[shoe.cursor - 1]
}

/// Some hand was stood on.
pub open spec fn any_stood(hands: Seq<PlayerHand>) -> bool {
    exists|i: int| 0 <= i < hands.len() && (#[trigger] hands[i]).status == Status::Stood
}

/// When the player's turn ends without a hand that was stood on, nothing the
/// dealer draws can change the outcome, so the dealer stands as they are.
pub open spec fn dealer_after_turn(d: DealerHand, hands: Seq<PlayerHand>) -> DealerHand {
    if d.status == Status::InPlay && !any_stood(hands) {
        DealerHand { status: Status::Stood, ..d }
    } else {
        d
    }
}

/// Of `hands`, those before `pos` are finished: the round goes on with the
/// first hand still in play, or, when none is left, the dealer reveals the
/// hole card.
pub open spec fn turn_moved_on(
    hands: Seq<PlayerHand>,
    pos: nat,
    d: DealerHand,
    ins: u32,
    s: GameState,
) -> bool {
    match s {
        GameState::PlayPlayerTurn(t, d2, i2) => {
            &&& turn_in_play(t)
            &&& t.hands() == hands
            &&& t.position() >= pos
            &&& d2 == d
            &&& i2 == ins
        },
        GameState::RevealHoleCard(hs, d2, i2) => {
            &&& hs@ == hands
            &&& all_finished(hs@)
            &&& d2 == dealer_after_turn(d, hs@)
            &&& i2 == ins
        },
        _ => false,
    }
}

/// The turn goes on unchanged while its current hand is in play, and moves on
/// otherwise.
pub open spec fn turn_advanced(turn: PlayerTurn, d: DealerHand, ins: u32, s: GameState) -> bool {
    &&& turn.current_hand.status == Status::InPlay ==> s == GameState::PlayPlayerTurn(turn, d, ins)
    &&& turn_moved_on(turn.hands(), turn.position(), d, ins, s)
}

/// `d` is the dealer's hand `before` with `card` dealt to it.
pub open spec fn dealt_to_dealer(before: DealerHand, d: DealerHand, card: Card) -> bool {
    &&& d.wf()
    &&& d.cards@ == before.cards@.push(card)
    &&& d.status == dealer_status(d.cards@, before.soft_17)
    &&& d.soft_17 == before.soft_17
}

/// Where the round goes once the hole card is dealt. The dealer can only
/// have blackjack when showing a ten or an ace; unless the player has
/// blackjack, the offers of early surrender and insurance then come before
/// the dealer checks the hole card.
pub open spec fn hole_card_route(rules: Rules, p: PlayerHand, d: DealerHand, s: GameState) -> bool {
    let up = rank_value(d.cards@[0].rank);
    if up < 10 || p.status == Status::Blackjack {
        turn_moved_on(seq![p], 0, d, 0, s)
    } else if rules.offer_early_surrender {
        s == GameState::OfferEarlySurrender(p, d)
    } else if rules.offer_insurance && up == 11 {
        s == GameState::OfferInsurance(p, d)
    } else {
        s == GameState::CheckDealerHoleCard(p, d, 0)
    }
}

/// The hands with their winnings against the dealer's hand filled in.
pub open spec fn settled(hands: Seq<PlayerHand>, d: DealerHand, payout: BlackjackPayout) -> Seq<
    PlayerHand,
> {
    Seq::new(
        hands.len(),
        |i: int| PlayerHand { winnings: hand_winnings(hands[i], d, payout) as u64, ..hands[i] },
    )
}

/// The sum of the hands' bets.
pub open spec fn sum_bets(hands: Seq<PlayerHand>) -> nat
    decreases hands.len(),
{
    if hands.len() == 0 {
        0
    } else {
        sum_bets(hands.drop_last()) + hands.last().bet as nat
    }
}

/// The sum of the hands' winnings.
pub open spec fn sum_winnings(hands: Seq<PlayerHand>) -> nat
    decreases hands.len(),
{
    if hands.len() == 0 {
        0
    } else {
        sum_winnings(hands.drop_last()) + hands.last().winnings as nat
    }
}

/// Insurance pays 2:1, with its stake back, when the dealer has blackjack, and
/// is lost otherwise.
pub open spec fn insurance_return(d: DealerHand, ins: u32) -> nat {
    if d.status == Status::Blackjack {
        3 * ins as nat
    } else {
        0
    }
}

/// The state after the payout: the game is over once the player cannot cover
/// the smallest bet, the shoe is shuffled when due, and otherwise betting
/// starts again.
pub open spec fn after_payout(t: Table) -> GameState {
    if (t.chips as nat) < min_bet_of(t.rules) {
        GameState::GameOver
    } else if shuffle_due(t.shoe.cursor as nat, t.shoe.cards@.len(), t.shoe.penetration as nat) {
        GameState::Shuffle
    } else {
        GameState::Betting
    }
}

impl Table {
    pub open spec fn simulating(self) -> bool {
        self.is_simulation
    }

    pub open spec fn wf(self) -> bool {
        self.shoe.wf()
    }

    /// Only the shoe has changed.
    pub open spec fn dealt_from(self, old: Table) -> bool {
        &&& self.wf()
        &&& self.chips == old.chips
        &&& self.rules == old.rules
        &&& self.statistics == old.statistics
        &&& self.is_simulation == old.is_simulation
        &&& self.shoe.decks == old.shoe.decks
        &&& self.shoe.penetration == old.shoe.penetration
    }

    pub fn new(chips: u32, shoe: Shoe, rules: Rules) -> (t: Table)
        ensures
            t.chips == chips,
            t.shoe == shoe,
            t.rules == rules,
            t.statistics.rounds == 0,
            t.statistics.hands_won == 0,
            t.statistics.hands_pushed == 0,
            t.statistics.hands_lost == 0,
            t.statistics.dealer_blackjacks == 0,
            !t.simulating(),
    {
        Table { chips, shoe, rules, statistics: Statistics::new(), is_simulation: false }
    }

    /// Whether the table runs as a simulation.
    pub fn is_simulation(&self) -> (r: bool)
        ensures
            r == self.simulating(),
    {
        self.is_simulation
    }

    /// Turns simulation on or off. A simulation does not check the player's
    /// moves and passes through every state that needs no input.
    pub fn set_simulation(&mut self, on: bool)
        ensures
            final(self).simulating() == on,
            final(self).chips == old(self).chips,
            final(self).shoe == old(self).shoe,
            final(self).rules == old(self).rules,
            final(self).statistics == old(self).statistics,
    {
        self.is_simulation = on;
    }

    /// Whether the player may double down on the hand.
    pub fn check_double_allowed(&self, hand: &PlayerHand) -> (r: Result<(), DoubleError>)
        ensures
            r is Err <==> double_error(self.rules, self.chips, *hand) is Some,
            r is Err ==> r->Err_0 == double_error(self.rules, self.chips, *hand)->0,
    {
        if hand.size() != 2 {
            Err(DoubleError::NotTwoCards)
        } else if hand.bet > self.chips {
            Err(DoubleError::CantAfford)
        } else if hand.splits > 0 && !self.rules.double_after_split {
            Err(DoubleError::DoubleAfterSplitNotAllowed)
        } else {
            Ok(())
        }
    }

    /// Whether the player may split the hand.
    pub fn check_split_allowed(&self, hand: &PlayerHand) -> (r: Result<(), SplitError>)
        requires
            hand.wf(),
        ensures
            r is Err <==> split_error(self.rules, self.chips, *hand) is Some,
            r is Err ==> r->Err_0 == split_error(self.rules, self.chips, *hand)->0,
    {
        if !hand.is_pair() {
            Err(SplitError::NotPair)
        } else if hand.bet > self.chips {
            Err(SplitError::CantAfford)
        } else if match self.rules.max_splits {
            Some(max) => hand.splits >= max,
            None => false,
        } {
            Err(SplitError::MaxSplitsReached)
        } else if hand.value.soft && !self.rules.split_aces {
            Err(SplitError::SplitAcesNotAllowed)
        } else {
            Ok(())
        }
    }

    /// Whether the player may surrender the hand.
    pub fn check_surrender_allowed(&self, hand: &PlayerHand) -> (r: Result<(), SurrenderError>)
        ensures
            r is Err <==> surrender_error(self.rules, *hand) is Some,
            r is Err ==> r->Err_0 == surrender_error(self.rules, *hand)->0,
    {
        if hand.size() != 2 {
            Err(SurrenderError::NotTwoCards)
        } else if !self.rules.offer_late_surrender {
            Err(SurrenderError::LateSurrenderNotAllowed)
        } else {
            Ok(())
        }
    }
}

impl Table {
    /// The dealer deals the first card to the player and the player's hand is created.
    fn deal_first_player_card(&mut self, bet: u32) -> (s: GameState)
        requires
            old(self).wf(),
        ensures
            final(self).dealt_from(*old(self)),
            s.wf(),
            match s {
                GameState::DealFirstDealerCard(p) => p.cards@ == seq![last_drawn(final(self).shoe)]
                    && p.bet == bet && p.splits == 0 && p.winnings == 0,
                _ => false,
            },
    {
        let card = self.shoe.draw_card();
        let player_hand = PlayerHand::new(card, bet);
        GameState::DealFirstDealerCard(player_hand)
    }

    /// The dealer deals the first card to themselves and the dealer's hand is created.
    fn deal_first_dealer_card(&mut self, player_hand: PlayerHand) -> (s: GameState)
        requires
            old(self).wf(),
            fresh_hand(player_hand),
            player_hand.splits == 0,
        ensures
            final(self).dealt_from(*old(self)),
            s.wf(),
            match s {
                GameState::DealSecondPlayerCard(p, d) => p == player_hand && d.cards@ == seq![
                    last_drawn(final(self).shoe),
                ] && d.soft_17 == old(self).rules.dealer_soft_17,
                _ => false,
            },
    {
        let card = self.shoe.draw_card();
        let dealer_hand = DealerHand::new(card, self.rules.dealer_soft_17);
        GameState::DealSecondPlayerCard(player_hand, dealer_hand)
    }

    /// The dealer deals the second card to the player.
    fn deal_second_player_card(&mut self, player_hand: PlayerHand, dealer_hand: DealerHand) -> (s:
        GameState)
        requires
            old(self).wf(),
            fresh_hand(player_hand),
            player_hand.splits == 0,
            up_card_only(dealer_hand),
        ensures
            final(self).dealt_from(*old(self)),
            s.wf(),
            match s {
                GameState::DealHoleCard(p, d) => {
                    &&& p.cards@ == player_hand.cards@.push(last_drawn(final(self).shoe))
                    &&& p.status == player_status_after_draw(p.cards@, 0)
                    &&& p.bet == player_hand.bet
                    &&& d == dealer_hand
                },
                _ => false,
            },
    {
        let mut player_hand = player_hand;
        let card = self.shoe.draw_card();
        player_hand.add_card(card);
        proof {
            lemma_two_cards_not_busted(player_hand);
        }
        GameState::DealHoleCard(player_hand, dealer_hand)
    }
}

impl Table {
    /// The turn goes on while the player has a hand in play; otherwise the
    /// dealer reveals the hole card.
    fn play_player_turn_or_go_to_dealer_turn(
        &mut self,
        player_turn: PlayerTurn,
        dealer_hand: DealerHand,
        insurance_bet: u32,
    ) -> (s: GameState)
        requires
            player_turn.wf(),
            dealer_hand.wf(),
        ensures
            *final(self) == *old(self),
            s.wf(),
            turn_advanced(player_turn, dealer_hand, insurance_bet, s),
    {
        match player_turn.continue_playing() {
            Ok(turn) => GameState::PlayPlayerTurn(turn, dealer_hand, insurance_bet),
            Err(player_hands) => {
                let mut dealer_hand = dealer_hand;
                let mut stood = false;
                let mut i: usize = 0;
                while i < player_hands.len()
                    invariant
                        i <= player_hands@.len(),
                        stood == exists|j: int|
                            0 <= j < i && (#[trigger] player_hands@[j]).status == Status::Stood,
                    decreases player_hands@.len() - i,
                {
                    if player_hands[i].status == Status::Stood {
                        stood = true;
                    }
                    i = i + 1;
                }
                if dealer_hand.status == Status::InPlay && !stood {
                    dealer_hand.stand();
                }
                GameState::RevealHoleCard(player_hands, dealer_hand, insurance_bet)
            },
        }
    }

    /// The dealer deals the hole card to themselves.
    fn deal_hole_card(&mut self, player_hand: PlayerHand, dealer_hand: DealerHand) -> (s: GameState)
        requires
            old(self).wf(),
            dealt_hand(player_hand),
            up_card_only(dealer_hand),
        ensures
            final(self).dealt_from(*old(self)),
            s.wf(),
            exists|d: DealerHand|
                dealt_to_dealer(dealer_hand, d, last_drawn(final(self).shoe)) && hole_card_route(
                    old(self).rules,
                    player_hand,
                    d,
                    s,
                ),
    {
        let mut hand = dealer_hand;
        let card = self.shoe.draw_card();
        hand.add_card(card);
        assert(dealt_to_dealer(dealer_hand, hand, card));
        assert(hand.cards@[0] == dealer_hand.cards@[0]);
        let showing = hand.showing();
        if showing < 10 || player_hand.status == Status::Blackjack {
            let player_turn = PlayerTurn::new(player_hand);
            let s = self.play_player_turn_or_go_to_dealer_turn(player_turn, hand, 0);
            assert(hole_card_route(self.rules, player_hand, hand, s));
            s
        } else if self.rules.offer_early_surrender {
            GameState::OfferEarlySurrender(player_hand, hand)
        } else if self.rules.offer_insurance && showing == 11 {
            GameState::OfferInsurance(player_hand, hand)
        } else {
            GameState::CheckDealerHoleCard(player_hand, hand, 0)
        }
    }
}

impl Table {
    /// The player places a bet to start the round. Outside a simulation the
    /// bet must be within the table limits and the player must cover it.
    fn bet(&mut self, bet: u32) -> (r: FallibleTransition)
        requires
            old(self).simulating() ==> bet <= old(self).chips,
        ensures
            ({
                let e = bet_error(old(self).rules, old(self).chips, bet);
                if !old(self).simulating() && e is Some {
                    &&& r == Err::<GameState, (GameState, TransitionError)>(
                        (GameState::Betting, TransitionError::BetError(e->0)),
                    )
                    &&& *final(self) == *old(self)
                } else {
                    &&& r == Ok::<GameState, (GameState, TransitionError)>(
                        GameState::DealFirstPlayerCard(bet),
                    )
                    &&& final(self).chips == old(self).chips - bet
                    &&& *final(self) == (Table { chips: final(self).chips, ..*old(self) })
                }
            }),
    {
        if self.is_simulation {
            self.chips = self.chips - bet;
            return Ok(GameState::DealFirstPlayerCard(bet));
        }
        if bet < self.rules.min_playable_bet() {
            Err((GameState::Betting, TransitionError::BetError(BetError::BetTooLow)))
        } else if match self.rules.max_bet {
            Some(max) => bet > max,
            None => false,
        } {
            Err((GameState::Betting, TransitionError::BetError(BetError::BetTooHigh)))
        } else if bet > self.chips {
            Err((GameState::Betting, TransitionError::BetError(BetError::CantAfford)))
        } else {
            self.chips = self.chips - bet;
            Ok(GameState::DealFirstPlayerCard(bet))
        }
    }

    /// The player decides whether to surrender before the dealer checks the
    /// hole card. Otherwise insurance comes next when it is offered and the
    /// dealer shows an ace, and then the dealer's check.
    fn choose_early_surrender(
        &mut self,
        player_hand: PlayerHand,
        dealer_hand: DealerHand,
        surrender: bool,
    ) -> (s: GameState)
        requires
            dealt_hand(player_hand),
            player_hand.status == Status::InPlay,
            dealt_dealer_hand(dealer_hand),
        ensures
            *final(self) == *old(self),
            s.wf(),
            surrender ==> match s {
                GameState::Surrender(t, d, i) => t.hands() == seq![player_hand] && t.position() == 0
                    && d == dealer_hand && i == 0,
                _ => false,
            },
            !surrender ==> s == if old(self).rules.offer_insurance && rank_value(
                dealer_hand.cards@[0].rank,
            ) == 11 {
                GameState::OfferInsurance(player_hand, dealer_hand)
            } else {
                GameState::CheckDealerHoleCard(player_hand, dealer_hand, 0)
            },
    {
        if surrender {
            GameState::Surrender(PlayerTurn::new(player_hand), dealer_hand, 0)
        } else if self.rules.offer_insurance && dealer_hand.showing() == 11 {
            GameState::OfferInsurance(player_hand, dealer_hand)
        } else {
            GameState::CheckDealerHoleCard(player_hand, dealer_hand, 0)
        }
    }

    /// The player places an insurance bet of at most half the bet on the hand.
    fn bet_insurance(&mut self, player_hand: PlayerHand, dealer_hand: DealerHand, insurance_bet: u32) -> (r:
        FallibleTransition)
        requires
            dealt_hand(player_hand),
            player_hand.status == Status::InPlay,
            dealt_dealer_hand(dealer_hand),
            old(self).simulating() ==> insurance_bet <= old(self).chips,
        ensures
            ({
                let e = insurance_error(old(self).chips, player_hand, insurance_bet);
                if !old(self).simulating() && e is Some {
                    &&& r == Err::<GameState, (GameState, TransitionError)>(
                        (
                            GameState::OfferInsurance(player_hand, dealer_hand),
                            TransitionError::BetError(e->0),
                        ),
                    )
                    &&& *final(self) == *old(self)
                } else {
                    &&& r == Ok::<GameState, (GameState, TransitionError)>(
                        GameState::CheckDealerHoleCard(player_hand, dealer_hand, insurance_bet),
                    )
                    &&& final(self).chips == old(self).chips - insurance_bet
                    &&& *final(self) == (Table { chips: final(self).chips, ..*old(self) })
                }
            }),
    {
        if !self.is_simulation {
            if insurance_bet > player_hand.bet / 2 {
                return Err(
                    (
                        GameState::OfferInsurance(player_hand, dealer_hand),
                        TransitionError::BetError(BetError::BetTooHigh),
                    ),
                );
            } else if insurance_bet > self.chips {
                return Err(
                    (
                        GameState::OfferInsurance(player_hand, dealer_hand),
                        TransitionError::BetError(BetError::CantAfford),
                    ),
                );
            }
        }
        self.chips = self.chips - insurance_bet;
        Ok(GameState::CheckDealerHoleCard(player_hand, dealer_hand, insurance_bet))
    }

    /// The dealer checks the hole card. With blackjack the round is over;
    /// otherwise the player plays their hand.
    fn check_dealer_hole_card(
        &mut self,
        player_hand: PlayerHand,
        dealer_hand: DealerHand,
        insurance_bet: u32,
    ) -> (s: GameState)
        requires
            dealt_hand(player_hand),
            player_hand.status == Status::InPlay,
            dealt_dealer_hand(dealer_hand),
        ensures
            *final(self) == *old(self),
            s.wf(),
            dealer_hand.status == Status::Blackjack ==> match s {
                GameState::RoundOver(hs, d, i) => hs@ == seq![player_hand] && d == dealer_hand && i
                    == insurance_bet,
                _ => false,
            },
            dealer_hand.status != Status::Blackjack ==> turn_moved_on(
                seq![player_hand],
                0,
                dealer_hand,
                insurance_bet,
                s,
            ),
    {
        if dealer_hand.status == Status::Blackjack {
            let mut hands: Vec<PlayerHand> = Vec::new();
            hands.push(player_hand);
            assert(hands@ =~= seq![player_hand]);
            GameState::RoundOver(hands, dealer_hand, insurance_bet)
        } else {
            self.play_player_turn_or_go_to_dealer_turn(
                PlayerTurn::new(player_hand),
                dealer_hand,
                insurance_bet,
            )
        }
    }
}

/// Whether a simulation can carry out the action without going into debt or
/// splitting what is not two cards. A simulation trusts its caller to choose
/// legal actions, and checks none of the rules.
pub open spec fn simulated_action_ok(chips: u32, hand: PlayerHand, action: HandAction) -> bool {
    match action {
        HandAction::Double => hand.bet <= chips,
        HandAction::Split => hand.bet <= chips && hand.cards@.len() == 2,
        _ => true,
    }
}

/// The hand in play of `turn` after the player's action `hand`, with the
/// rest of the turn as it was.
pub open spec fn hands_after(turn: PlayerTurn, hand: PlayerHand) -> Seq<PlayerHand> {
    turn.hands().update(turn.position() as int, hand)
}

impl Table {
    /// The player chooses how to play the hand in play. Outside a simulation,
    /// doubling, splitting and surrendering are checked against the rules
    /// and the player's chips; doubling and splitting cost the hand's bet.
    fn play_player_turn(
        &mut self,
        turn: PlayerTurn,
        dealer_hand: DealerHand,
        insurance_bet: u32,
        action: HandAction,
    ) -> (r: FallibleTransition)
        requires
            turn_in_play(turn),
            dealer_hand.wf(),
            old(self).simulating() ==> simulated_action_ok(
                old(self).chips,
                turn.current_hand,
                action,
            ),
        ensures
            ({
                let sim = old(self).simulating();
                let hand = turn.current_hand;
                let rules = old(self).rules;
                let chips = old(self).chips;
                let same = GameState::PlayPlayerTurn(turn, dealer_hand, insurance_bet);
                match action {
                    HandAction::Hit => r == Ok::<GameState, (GameState, TransitionError)>(
                        GameState::Hit(turn, dealer_hand, insurance_bet),
                    ) && *final(self) == *old(self),
                    HandAction::Stand => r == Ok::<GameState, (GameState, TransitionError)>(
                        GameState::Stand(turn, dealer_hand, insurance_bet),
                    ) && *final(self) == *old(self),
                    HandAction::Double => if !sim && double_error(rules, chips, hand) is Some {
                        r == Err::<GameState, (GameState, TransitionError)>(
                            (same, TransitionError::DoubleError(double_error(rules, chips, hand)->0)),
                        ) && *final(self) == *old(self)
                    } else {
                        r == Ok::<GameState, (GameState, TransitionError)>(
                            GameState::Double(turn, dealer_hand, insurance_bet),
                        ) && final(self).chips == chips - hand.bet && *final(self) == Table {
                            chips: final(self).chips,
                            ..*old(self)
                        }
                    },
                    HandAction::Split => if !sim && split_error(rules, chips, hand) is Some {
                        r == Err::<GameState, (GameState, TransitionError)>(
                            (same, TransitionError::SplitError(split_error(rules, chips, hand)->0)),
                        ) && *final(self) == *old(self)
                    } else {
                        r == Ok::<GameState, (GameState, TransitionError)>(
                            GameState::Split(turn, dealer_hand, insurance_bet),
                        ) && final(self).chips == chips - hand.bet && *final(self) == Table {
                            chips: final(self).chips,
                            ..*old(self)
                        }
                    },
                    HandAction::Surrender => if !sim && surrender_error(rules, hand) is Some {
                        r == Err::<GameState, (GameState, TransitionError)>(
                            (
                                same,
                                TransitionError::SurrenderError(surrender_error(rules, hand)->0),
                            ),
                        ) && *final(self) == *old(self)
                    } else {
                        r == Ok::<GameState, (GameState, TransitionError)>(
                            GameState::Surrender(turn, dealer_hand, insurance_bet),
                        ) && *final(self) == *old(self)
                    },
                }
            }),
    {
        match action {
            HandAction::Hit => Ok(GameState::Hit(turn, dealer_hand, insurance_bet)),
            HandAction::Stand => Ok(GameState::Stand(turn, dealer_hand, insurance_bet)),
            HandAction::Double => {
                if !self.is_simulation {
                    if let Err(err) = self.check_double_allowed(&turn.current_hand) {
                        return Err(
                            (
                                GameState::PlayPlayerTurn(turn, dealer_hand, insurance_bet),
                                TransitionError::DoubleError(err),
                            ),
                        );
                    }
                }
                self.chips = self.chips - turn.current_hand.bet;
                Ok(GameState::Double(turn, dealer_hand, insurance_bet))
            },
            HandAction::Split => {
                if !self.is_simulation {
                    if let Err(err) = self.check_split_allowed(&turn.current_hand) {
                        return Err(
                            (
                                GameState::PlayPlayerTurn(turn, dealer_hand, insurance_bet),
                                TransitionError::SplitError(err),
                            ),
                        );
                    }
                }
                self.chips = self.chips - turn.current_hand.bet;
                Ok(GameState::Split(turn, dealer_hand, insurance_bet))
            },
            HandAction::Surrender => {
                if !self.is_simulation {
                    if let Err(err) = self.check_surrender_allowed(&turn.current_hand) {
                        return Err(
                            (
                                GameState::PlayPlayerTurn(turn, dealer_hand, insurance_bet),
                                TransitionError::SurrenderError(err),
                            ),
                        );
                    }
                }
                Ok(GameState::Surrender(turn, dealer_hand, insurance_bet))
            },
        }
    }

    /// The dealer deals the next card to the hand in play.
    fn hit(&mut self, turn: PlayerTurn, dealer_hand: DealerHand, insurance_bet: u32) -> (s: GameState)
        requires
            old(self).wf(),
            turn_in_play(turn),
            dealer_hand.wf(),
        ensures
            final(self).dealt_from(*old(self)),
            s.wf(),
            exists|h: PlayerHand|
                {
                    &&& h.cards@ == turn.current_hand.cards@.push(last_drawn(final(self).shoe))
                    &&& h.status == player_status_after_draw(h.cards@, turn.current_hand.splits)
                    &&& h.bet == turn.current_hand.bet
                    &&& h.splits == turn.current_hand.splits
                    &&& turn_moved_on(
                        hands_after(turn, h),
                        turn.position(),
                        dealer_hand,
                        insurance_bet,
                        s,
                    )
                },
    {
        let mut turn = turn;
        let ghost before = turn;
        let card = self.shoe.draw_card();
        turn.current_hand.add_card(card);
        proof {
            lemma_current_replaced(before, turn);
        }
        let s = self.play_player_turn_or_go_to_dealer_turn(turn, dealer_hand, insurance_bet);
        assert(turn_moved_on(
            hands_after(before, turn.current_hand),
            before.position(),
            dealer_hand,
            insurance_bet,
            s,
        ));
        s
    }

    /// The player stands on the hand in play.
    fn stand(&mut self, turn: PlayerTurn, dealer_hand: DealerHand, insurance_bet: u32) -> (s: GameState)
        requires
            turn_in_play(turn),
            dealer_hand.wf(),
        ensures
            *final(self) == *old(self),
            s.wf(),
            turn_moved_on(
                hands_after(turn, PlayerHand { status: Status::Stood, ..turn.current_hand }),
                turn.position(),
                dealer_hand,
                insurance_bet,
                s,
            ),
    {
        let mut turn = turn;
        let ghost before = turn;
        turn.current_hand.stand();
        proof {
            lemma_current_replaced(before, turn);
        }
        self.play_player_turn_or_go_to_dealer_turn(turn, dealer_hand, insurance_bet)
    }

    /// The player gives up the hand in play for half its bet.
    fn late_surrender(&mut self, turn: PlayerTurn, dealer_hand: DealerHand, insurance_bet: u32) -> (s:
        GameState)
        requires
            turn_in_play(turn),
            dealer_hand.wf(),
        ensures
            *final(self) == *old(self),
            s.wf(),
            turn_moved_on(
                hands_after(turn, PlayerHand { status: Status::Surrendered, ..turn.current_hand }),
                turn.position(),
                dealer_hand,
                insurance_bet,
                s,
            ),
    {
        let mut turn = turn;
        let ghost before = turn;
        turn.current_hand.surrender();
        proof {
            lemma_current_replaced(before, turn);
        }
        self.play_player_turn_or_go_to_dealer_turn(turn, dealer_hand, insurance_bet)
    }

    /// The player doubles the bet on the hand in play and takes one last card.
    fn double(&mut self, turn: PlayerTurn, dealer_hand: DealerHand, insurance_bet: u32) -> (s: GameState)
        requires
            old(self).wf(),
            turn_in_play(turn),
            dealer_hand.wf(),
        ensures
            final(self).dealt_from(*old(self)),
            s.wf(),
            exists|h: PlayerHand|
                {
                    &&& h.cards@ == turn.current_hand.cards@.push(last_drawn(final(self).shoe))
                    &&& h.bet == (if 2 * turn.current_hand.bet <= u32::MAX {
                        2 * turn.current_hand.bet
                    } else {
                        u32::MAX as int
                    })
                    &&& h.status == if crate::hand::hand_total(h.cards@) > 21 {
                        Status::Busted
                    } else {
                        Status::Doubled
                    }
                    &&& turn_moved_on(
                        hands_after(turn, h),
                        turn.position(),
                        dealer_hand,
                        insurance_bet,
                        s,
                    )
                },
    {
        let mut turn = turn;
        let ghost before = turn;
        let card = self.shoe.draw_card();
        turn.current_hand.double(card);
        proof {
            lemma_current_replaced(before, turn);
        }
        let s = self.play_player_turn_or_go_to_dealer_turn(turn, dealer_hand, insurance_bet);
        assert(turn_moved_on(
            hands_after(before, turn.current_hand),
            before.position(),
            dealer_hand,
            insurance_bet,
            s,
        ));
        s
    }

    /// The dealer separates the hand in play into two hands of one card.
    fn split(&mut self, turn: PlayerTurn, dealer_hand: DealerHand, insurance_bet: u32) -> (s: GameState)
        requires
            turn_in_play(turn),
            turn.current_hand.cards@.len() == 2,
            dealer_hand.wf(),
        ensures
            *final(self) == *old(self),
            s.wf(),
            match s {
                GameState::DealFirstSplitCard(t, n, d, i) => {
                    &&& t.hands() == hands_after(turn, t.current_hand)
                    &&& t.position() == turn.position()
                    &&& t.current_hand.cards@ == seq![turn.current_hand.cards@[0]]
                    &&& n.cards@ == seq![turn.current_hand.cards@[1]]
                    &&& t.current_hand.bet == turn.current_hand.bet
                    &&& n.bet == turn.current_hand.bet
                    &&& t.current_hand.splits == n.splits
                    &&& n.splits == (if turn.current_hand.splits < 255 {
                        turn.current_hand.splits + 1
                    } else {
                        255int
                    })
                    &&& d == dealer_hand
                    &&& i == insurance_bet
                },
                _ => false,
            },
    {
        let mut turn = turn;
        let ghost before = turn;
        let new_hand = turn.current_hand.split();
        proof {
            lemma_current_replaced(before, turn);
        }
        GameState::DealFirstSplitCard(turn, new_hand, dealer_hand, insurance_bet)
    }

    /// The dealer deals a card to the first of the two split hands.
    fn deal_first_split_card(
        &mut self,
        turn: PlayerTurn,
        new_hand: PlayerHand,
        dealer_hand: DealerHand,
        insurance_bet: u32,
    ) -> (s: GameState)
        requires
            old(self).wf(),
            turn_in_play(turn),
            fresh_hand(new_hand),
            dealer_hand.wf(),
        ensures
            final(self).dealt_from(*old(self)),
            s.wf(),
            match s {
                GameState::DealSecondSplitCard(t, n, d, i) => {
                    &&& t.hands() == hands_after(turn, t.current_hand)
                    &&& t.position() == turn.position()
                    &&& t.current_hand.cards@ == turn.current_hand.cards@.push(
                        last_drawn(final(self).shoe),
                    )
                    &&& t.current_hand.status == player_status_after_draw(
                        t.current_hand.cards@,
                        turn.current_hand.splits,
                    )
                    &&& n == new_hand
                    &&& d == dealer_hand
                    &&& i == insurance_bet
                },
                _ => false,
            },
    {
        let mut turn = turn;
        let ghost before = turn;
        let card = self.shoe.draw_card();
        turn.current_hand.add_card(card);
        proof {
            lemma_current_replaced(before, turn);
        }
        GameState::DealSecondSplitCard(turn, new_hand, dealer_hand, insurance_bet)
    }

    /// The dealer deals a card to the second of the two split hands, which is
    /// put aside to be played after the hands already waiting.
    fn deal_second_split_card(
        &mut self,
        turn: PlayerTurn,
        new_hand: PlayerHand,
        dealer_hand: DealerHand,
        insurance_bet: u32,
    ) -> (s: GameState)
        requires
            old(self).wf(),
            turn.wf(),
            fresh_hand(new_hand),
            dealer_hand.wf(),
        ensures
            final(self).dealt_from(*old(self)),
            s.wf(),
            exists|h: PlayerHand|
                {
                    &&& h.cards@ == new_hand.cards@.push(last_drawn(final(self).shoe))
                    &&& h.status == player_status_after_draw(h.cards@, new_hand.splits)
                    &&& h.bet == new_hand.bet
                    &&& h.splits == new_hand.splits
                    &&& turn_moved_on(
                        turn.hands().push(h),
                        turn.position(),
                        dealer_hand,
                        insurance_bet,
                        s,
                    )
                },
    {
        let ghost old_turn = turn;
        let mut turn = turn;
        let mut hand = new_hand;
        let card = self.shoe.draw_card();
        hand.add_card(card);
        turn.defer(hand);
        let s = self.play_player_turn_or_go_to_dealer_turn(turn, dealer_hand, insurance_bet);
        assert(turn_moved_on(
            old_turn.hands().push(hand),
            old_turn.position(),
            dealer_hand,
            insurance_bet,
            s,
        ));
        s
    }
}

/// Settling the hands keeps their bets.
proof fn lemma_settled_bets(hands: Seq<PlayerHand>, d: DealerHand, payout: BlackjackPayout)
    ensures
        sum_bets(settled(hands, d, payout)) == sum_bets(hands),
    decreases hands.len(),
{
    if hands.len() > 0 {
        assert(settled(hands, d, payout).drop_last() =~= settled(hands.drop_last(), d, payout));
        lemma_settled_bets(hands.drop_last(), d, payout);
    }
}

impl Table {
    /// The dealer's hand is revealed: the dealer plays on while it is in play,
    /// otherwise the round is over.
    fn play_dealer_turn_or_end_round(
        &mut self,
        player_hands: Vec<PlayerHand>,
        dealer_hand: DealerHand,
        insurance_bet: u32,
    ) -> (s: GameState)
        requires
            all_wf(player_hands@),
            dealer_hand.wf(),
        ensures
            *final(self) == *old(self),
            s.wf(),
            s == if dealer_hand.status == Status::InPlay {
                GameState::PlayDealerTurn(player_hands, dealer_hand, insurance_bet)
            } else {
                GameState::RoundOver(player_hands, dealer_hand, insurance_bet)
            },
    {
        if dealer_hand.status == Status::InPlay {
            GameState::PlayDealerTurn(player_hands, dealer_hand, insurance_bet)
        } else {
            GameState::RoundOver(player_hands, dealer_hand, insurance_bet)
        }
    }

    /// The dealer draws a card.
    fn play_dealer_turn(
        &mut self,
        player_hands: Vec<PlayerHand>,
        dealer_hand: DealerHand,
        insurance_bet: u32,
    ) -> (s: GameState)
        requires
            old(self).wf(),
            all_wf(player_hands@),
            dealer_hand.wf(),
            dealer_hand.status == Status::InPlay,
        ensures
            final(self).dealt_from(*old(self)),
            s.wf(),
            exists|d: DealerHand|
                dealt_to_dealer(dealer_hand, d, last_drawn(final(self).shoe)) && s == if d.status
                    == Status::InPlay {
                    GameState::PlayDealerTurn(player_hands, d, insurance_bet)
                } else {
                    GameState::RoundOver(player_hands, d, insurance_bet)
                },
    {
        let mut hand = dealer_hand;
        let card = self.shoe.draw_card();
        hand.add_card(card);
        assert(dealt_to_dealer(dealer_hand, hand, card));
        self.play_dealer_turn_or_end_round(player_hands, hand, insurance_bet)
    }

    /// The round is over: each hand is settled against the dealer's, the
    /// round is recorded, and the total wagered and returned are reckoned.
    fn end_round(&mut self, player_hands: Vec<PlayerHand>, dealer_hand: DealerHand, insurance: u32) -> (s:
        GameState)
        requires
            all_wf(player_hands@),
            dealer_hand.wf(),
        ensures
            ({
                let hands = settled(player_hands@, dealer_hand, old(self).rules.blackjack_payout);
                &&& s == GameState::Payout(
                    capped(sum_bets(player_hands@), insurance as nat) as u64,
                    capped(sum_winnings(hands), insurance_return(dealer_hand, insurance)) as u64,
                )
                &&& final(self).statistics.rounds as nat == capped(
                    old(self).statistics.rounds as nat,
                    1,
                )
                &&& final(self).statistics.hands_won as nat == capped(
                    old(self).statistics.hands_won as nat,
                    crate::statistics::count_won(hands),
                )
                &&& final(self).statistics.hands_pushed as nat == capped(
                    old(self).statistics.hands_pushed as nat,
                    crate::statistics::count_pushed(hands),
                )
                &&& final(self).statistics.hands_lost as nat == capped(
                    old(self).statistics.hands_lost as nat,
                    crate::statistics::count_lost(hands),
                )
                &&& *final(self) == (Table { statistics: final(self).statistics, ..*old(self) })
            }),
    {
        let ghost hands0 = player_hands@;
        let payout = self.rules.blackjack_payout;
        let ghost target = settled(hands0, dealer_hand, payout);
        let mut rest = player_hands;
        let mut hands: Vec<PlayerHand> = Vec::new();
        let mut total_bet: u64 = 0;
        let mut winnings: u64 = 0;
        while rest.len() > 0
            invariant
                hands@.len() + rest@.len() == hands0.len(),
                hands@ == target.take(hands@.len() as int),
                rest@ == hands0.subrange(hands@.len() as int, hands0.len() as int),
                all_wf(hands0),
                dealer_hand.wf(),
                target == settled(hands0, dealer_hand, payout),
                total_bet as nat == capped(sum_bets(hands@), 0),
                winnings as nat == capped(sum_winnings(hands@), 0),
            decreases rest@.len(),
        {
            let ghost k = hands@.len() as int;
            let mut hand = rest.remove(0);
            assert(hand == hands0[k]);
            hand.winnings = hand.calculate_winnings(&dealer_hand, payout);
            total_bet = total_bet.saturating_add(hand.bet as u64);
            winnings = winnings.saturating_add(hand.winnings);
            hands.push(hand);
            assert(hands@ =~= target.take(k + 1));
            assert(hands@.drop_last() == target.take(k));
            assert(rest@ =~= hands0.subrange(k + 1, hands0.len() as int));
        }
        assert(hands@ =~= target);
        proof {
            lemma_settled_bets(hands0, dealer_hand, payout);
        }
        total_bet = total_bet.saturating_add(insurance as u64);
        if dealer_hand.status == Status::Blackjack {
            winnings = winnings.saturating_add(3 * insurance as u64);
        }
        self.statistics.update(&hands, &dealer_hand);
        GameState::Payout(total_bet, winnings)
    }

    /// The dealer pays the player's winnings. The game is over once the
    /// player cannot cover the smallest bet; otherwise the shoe is shuffled
    /// when due and betting starts again.
    fn pay_out_winnings(&mut self, winnings: u64) -> (s: GameState)
        requires
            old(self).wf(),
        ensures
            final(self).wf(),
            final(self).chips as nat == (if old(self).chips + winnings <= u32::MAX {
                old(self).chips + winnings
            } else {
                u32::MAX as int
            }),
            *final(self) == (Table { chips: final(self).chips, ..*old(self) }),
            s == after_payout(*final(self)),
    {
        let total = (self.chips as u64).saturating_add(winnings);
        self.chips = if total > u32::MAX as u64 {
            u32::MAX
        } else {
            total as u32
        };
        if self.chips < self.rules.min_playable_bet() {
            GameState::GameOver
        } else if self.shoe.needs_shuffle() {
            GameState::Shuffle
        } else {
            GameState::Betting
        }
    }

    /// The dealer shuffles the shoe and betting starts again.
    fn shuffle_dispenser(&mut self) -> (s: GameState)
        requires
            old(self).wf(),
        ensures
            final(self).wf(),
            final(self).shoe.cursor == 0,
            final(self).shoe.decks == old(self).shoe.decks,
            final(self).shoe.penetration == old(self).shoe.penetration,
            *final(self) == (Table { shoe: final(self).shoe, ..*old(self) }),
            s == GameState::Betting,
    {
        self.shoe.shuffle();
        GameState::Betting
    }
}

/// Whether the input is of the kind the state waits for. States that need
/// no input take any; the game over takes none.
pub open spec fn input_fits(state: GameState, input: Option<Input>) -> bool {
    match state {
        GameState::Betting | GameState::OfferInsurance(..) => input matches Some(Input::Bet(_)),
        GameState::OfferEarlySurrender(..) => input matches Some(Input::Choice(_)),
        GameState::PlayPlayerTurn(..) => input matches Some(Input::Action(_)),
        GameState::GameOver => false,
        _ => true,
    }
}

/// What a simulation needs of its input: it never bets or doubles with chips
/// the player does not have, and only splits two cards.
pub open spec fn simulated_input_ok(t: Table, state: GameState, input: Option<Input>) -> bool {
    match (state, input) {
        (GameState::Betting, Some(Input::Bet(b))) => b <= t.chips,
        (GameState::OfferInsurance(..), Some(Input::Bet(b))) => b <= t.chips,
        (GameState::PlayPlayerTurn(turn, _, _), Some(Input::Action(a))) => simulated_action_ok(
            t.chips,
            turn.current_hand,
            a,
        ),
        _ => true,
    }
}

pub open spec fn ok(s: GameState) -> FallibleTransition {
    Ok(s)
}

pub open spec fn fail(s: GameState, e: TransitionError) -> FallibleTransition {
    Err((s, e))
}

/// Only the chips have changed, by `-amount`.
pub open spec fn debited(t0: Table, t1: Table, amount: u32) -> bool {
    t1.chips == t0.chips - amount && t1 == Table { chips: t1.chips, ..t0 }
}

/// One transition of the round from `state` on `input`, from table `t0` to
/// table `t1`, with result `r`. A state that waits for input refuses input
/// of the wrong kind, and a move that breaks the rules, and stays as it was;
/// every other state moves on.
pub open spec fn stepped(
    t0: Table,
    t1: Table,
    state: GameState,
    input: Option<Input>,
    r: FallibleTransition,
) -> bool {
    let sim = t0.simulating();
    let last = last_drawn(t1.shoe);
    if !input_fits(state, input) {
        r == fail(state, TransitionError::WrongInput) && t1 == t0
    } else {
        match state {
            GameState::Betting => {
                let b = input->Some_0->Bet_0;
                let e = bet_error(t0.rules, t0.chips, b);
                if !sim && e is Some {
                    r == fail(GameState::Betting, TransitionError::BetError(e->0)) && t1 == t0
                } else {
                    r == ok(GameState::DealFirstPlayerCard(b)) && debited(t0, t1, b)
                }
            },
            GameState::DealFirstPlayerCard(b) => t1.dealt_from(t0) && match r {
                Ok(GameState::DealFirstDealerCard(p)) => p.cards@ == seq![last] && p.bet == b
                    && p.splits == 0 && p.winnings == 0,
                _ => false,
            },
            GameState::DealFirstDealerCard(p) => t1.dealt_from(t0) && match r {
                Ok(GameState::DealSecondPlayerCard(p2, d)) => p2 == p && d.cards@ == seq![last]
                    && d.soft_17 == t0.rules.dealer_soft_17,
                _ => false,
            },
            GameState::DealSecondPlayerCard(p, d) => t1.dealt_from(t0) && match r {
                Ok(GameState::DealHoleCard(p2, d2)) => {
                    &&& p2.cards@ == p.cards@.push(last)
                    &&& p2.status == player_status_after_draw(p2.cards@, 0)
                    &&& p2.bet == p.bet
                    &&& d2 == d
                },
                _ => false,
            },
            GameState::DealHoleCard(p, d) => t1.dealt_from(t0) && match r {
                Ok(s) => exists|d2: DealerHand|
                    dealt_to_dealer(d, d2, last) && hole_card_route(t0.rules, p, d2, s),
                _ => false,
            },
            GameState::OfferEarlySurrender(p, d) => t1 == t0 && match r {
                Ok(s) => if input->Some_0->Choice_0 {
                    match s {
                        GameState::Surrender(t, d2, i) => t.hands() == seq![p] && t.position() == 0
                            && d2 == d && i == 0,
                        _ => false,
                    }
                } else {
                    s == if t0.rules.offer_insurance && rank_value(d.cards@[0].rank) == 11 {
                        GameState::OfferInsurance(p, d)
                    } else {
                        GameState::CheckDealerHoleCard(p, d, 0)
                    }
                },
                _ => false,
            },
            GameState::OfferInsurance(p, d) => {
                let b = input->Some_0->Bet_0;
                let e = insurance_error(t0.chips, p, b);
                if !sim && e is Some {
                    r == fail(state, TransitionError::BetError(e->0)) && t1 == t0
                } else {
                    r == ok(GameState::CheckDealerHoleCard(p, d, b)) && debited(t0, t1, b)
                }
            },
            GameState::CheckDealerHoleCard(p, d, i) => t1 == t0 && match r {
                Ok(s) => if d.status == Status::Blackjack {
                    match s {
                        GameState::RoundOver(hs, d2, i2) => hs@ == seq![p] && d2 == d && i2 == i,
                        _ => false,
                    }
                } else {
                    turn_moved_on(seq![p], 0, d, i, s)
                },
                _ => false,
            },
            GameState::PlayPlayerTurn(turn, d, i) => {
                let hand = turn.current_hand;
                match input->Some_0->Action_0 {
                    HandAction::Hit => r == ok(GameState::Hit(turn, d, i)) && t1 == t0,
                    HandAction::Stand => r == ok(GameState::Stand(turn, d, i)) && t1 == t0,
                    HandAction::Double => if !sim && double_error(t0.rules, t0.chips, hand) is Some {
                        r == fail(
                            state,
                            TransitionError::DoubleError(double_error(t0.rules, t0.chips, hand)->0),
                        ) && t1 == t0
                    } else {
                        r == ok(GameState::Double(turn, d, i)) && debited(t0, t1, hand.bet)
                    },
                    HandAction::Split => if !sim && split_error(t0.rules, t0.chips, hand) is Some {
                        r == fail(
                            state,
                            TransitionError::SplitError(split_error(t0.rules, t0.chips, hand)->0),
                        ) && t1 == t0
                    } else {
                        r == ok(GameState::Split(turn, d, i)) && debited(t0, t1, hand.bet)
                    },
                    HandAction::Surrender => if !sim && surrender_error(t0.rules, hand) is Some {
                        r == fail(
                            state,
                            TransitionError::SurrenderError(surrender_error(t0.rules, hand)->0),
                        ) && t1 == t0
                    } else {
                        r == ok(GameState::Surrender(turn, d, i)) && t1 == t0
                    },
                }
            },
            GameState::Stand(turn, d, i) => t1 == t0 && match r {
                Ok(s) => turn_moved_on(
                    hands_after(turn, PlayerHand { status: Status::Stood, ..turn.current_hand }),
                    turn.position(),
                    d,
                    i,
                    s,
                ),
                _ => false,
            },
            GameState::Surrender(turn, d, i) => t1 == t0 && match r {
                Ok(s) => turn_moved_on(
                    hands_after(
                        turn,
                        PlayerHand { status: Status::Surrendered, ..turn.current_hand },
                    ),
                    turn.position(),
                    d,
                    i,
                    s,
                ),
                _ => false,
            },
            GameState::Hit(turn, d, i) => t1.dealt_from(t0) && match r {
                Ok(s) => exists|h: PlayerHand|
                    {
                        &&& h.cards@ == turn.current_hand.cards@.push(last)
                        &&& h.status == player_status_after_draw(h.cards@, turn.current_hand.splits)
                        &&& h.bet == turn.current_hand.bet
                        &&& h.splits == turn.current_hand.splits
                        &&& turn_moved_on(hands_after(turn, h), turn.position(), d, i, s)
                    },
                _ => false,
            },
            GameState::Double(turn, d, i) => t1.dealt_from(t0) && match r {
                Ok(s) => exists|h: PlayerHand|
                    {
                        &&& h.cards@ == turn.current_hand.cards@.push(last)
                        &&& h.bet == (if 2 * turn.current_hand.bet <= u32::MAX {
                            2 * turn.current_hand.bet
                        } else {
                            u32::MAX as int
                        })
                        &&& h.status == if crate::hand::hand_total(h.cards@) > 21 {
                            Status::Busted
                        } else {
                            Status::Doubled
                        }
                        &&& turn_moved_on(hands_after(turn, h), turn.position(), d, i, s)
                    },
                _ => false,
            },
            GameState::Split(turn, d, i) => t1 == t0 && match r {
                Ok(GameState::DealFirstSplitCard(t, n, d2, i2)) => {
                    &&& t.hands() == hands_after(turn, t.current_hand)
                    &&& t.position() == turn.position()
                    &&& t.current_hand.cards@ == seq![turn.current_hand.cards@[0]]
                    &&& n.cards@ == seq![turn.current_hand.cards@[1]]
                    &&& t.current_hand.bet == turn.current_hand.bet
                    &&& n.bet == turn.current_hand.bet
                    &&& t.current_hand.splits == n.splits
                    &&& n.splits == (if turn.current_hand.splits < 255 {
                        turn.current_hand.splits + 1
                    } else {
                        255int
                    })
                    &&& d2 == d
                    &&& i2 == i
                },
                _ => false,
            },
            GameState::DealFirstSplitCard(turn, n, d, i) => t1.dealt_from(t0) && match r {
                Ok(GameState::DealSecondSplitCard(t, n2, d2, i2)) => {
                    &&& t.hands() == hands_after(turn, t.current_hand)
                    &&& t.position() == turn.position()
                    &&& t.current_hand.cards@ == turn.current_hand.cards@.push(last)
                    &&& t.current_hand.status == player_status_after_draw(
                        t.current_hand.cards@,
                        turn.current_hand.splits,
                    )
                    &&& n2 == n
                    &&& d2 == d
                    &&& i2 == i
                },
                _ => false,
            },
            GameState::DealSecondSplitCard(turn, n, d, i) => t1.dealt_from(t0) && match r {
                Ok(s) => exists|h: PlayerHand|
                    {
                        &&& h.cards@ == n.cards@.push(last)
                        &&& h.status == player_status_after_draw(h.cards@, n.splits)
                        &&& h.bet == n.bet
                        &&& h.splits == n.splits
                        &&& turn_moved_on(turn.hands().push(h), turn.position(), d, i, s)
                    },
                _ => false,
            },
            GameState::RevealHoleCard(hs, d, i) => t1 == t0 && r == ok(
                if d.status == Status::InPlay {
                    GameState::PlayDealerTurn(hs, d, i)
                } else {
                    GameState::RoundOver(hs, d, i)
                },
            ),
            GameState::PlayDealerTurn(hs, d, i) => t1.dealt_from(t0) && match r {
                Ok(s) => exists|d2: DealerHand|
                    dealt_to_dealer(d, d2, last) && s == if d2.status == Status::InPlay {
                        GameState::PlayDealerTurn(hs, d2, i)
                    } else {
                        GameState::RoundOver(hs, d2, i)
                    },
                _ => false,
            },
            GameState::RoundOver(hs, d, i) => {
                let hands = settled(hs@, d, t0.rules.blackjack_payout);
                &&& r == ok(
                    GameState::Payout(
                        capped(sum_bets(hs@), i as nat) as u64,
                        capped(sum_winnings(hands), insurance_return(d, i)) as u64,
                    ),
                )
                &&& t1.statistics.rounds as nat == capped(t0.statistics.rounds as nat, 1)
                &&& t1.statistics.hands_won as nat == capped(
                    t0.statistics.hands_won as nat,
                    crate::statistics::count_won(hands),
                )
                &&& t1.statistics.hands_pushed as nat == capped(
                    t0.statistics.hands_pushed as nat,
                    crate::statistics::count_pushed(hands),
                )
                &&& t1.statistics.hands_lost as nat == capped(
                    t0.statistics.hands_lost as nat,
                    crate::statistics::count_lost(hands),
                )
                &&& t1 == Table { statistics: t1.statistics, ..t0 }
            },
            GameState::Payout(_, w) => {
                &&& t1.chips as nat == (if t0.chips + w <= u32::MAX {
                    t0.chips + w
                } else {
                    u32::MAX as int
                })
                &&& t1 == Table { chips: t1.chips, ..t0 }
                &&& r == ok(after_payout(t1))
            },
            GameState::Shuffle => {
                &&& t1.wf()
                &&& t1.shoe.cursor == 0
                &&& t1.shoe.decks == t0.shoe.decks
                &&& t1.shoe.penetration == t0.shoe.penetration
                &&& t1 == Table { shoe: t1.shoe, ..t0 }
                &&& r == ok(GameState::Betting)
            },
            GameState::GameOver => false,
        }
    }
}

/// `n` transitions without input lead from `s0` on table `t0` to `s1` on
/// table `t1`.
pub open spec fn auto_run(t0: Table, t1: Table, s0: GameState, s1: GameState, n: nat) -> bool
    decreases n,
{
    if n == 0 {
        t0 == t1 && s0 == s1
    } else {
        exists|tm: Table, sm: GameState|
            auto_run(t0, tm, s0, sm, (n - 1) as nat) && #[trigger] stepped(tm, t1, sm, None, ok(s1))
    }
}

/// The state waits for input, or the game is over.
pub open spec fn waits(s: GameState) -> bool {
    crate::state::needs_input(s) || s is GameOver
}

/// A card adds its value, aces as one, to the hard total.
proof fn lemma_hard_total_push(cards: Seq<Card>, card: Card)
    ensures
        crate::hand::hard_total(cards.push(card)) == crate::hand::hard_total(cards)
            + crate::card::hard_rank_value(card.rank),
{
    assert(cards.push(card).drop_last() =~= cards);
}

/// Whether the state waits for input, or the game is over.
fn is_waiting(s: &GameState) -> (r: bool)
    ensures
        r == waits(*s),
{
    match s {
        GameState::Betting | GameState::OfferEarlySurrender(..) | GameState::OfferInsurance(..)
        | GameState::PlayPlayerTurn(..) | GameState::GameOver => true,
        _ => false,
    }
}

impl Table {
    /// One transition of the round.
    #[verifier::spinoff_prover]
    #[verifier::rlimit(100)]
    fn step(&mut self, state: GameState, input: Option<Input>) -> (r: FallibleTransition)
        requires
            old(self).wf(),
            state.wf(),
            old(self).simulating() ==> simulated_input_ok(*old(self), state, input),
        ensures
            final(self).wf(),
            stepped(*old(self), *final(self), state, input, r),
            r is Ok ==> r->Ok_0.wf(),
            !waits(state) ==> r is Ok && (waits(r->Ok_0) || r->Ok_0.auto_rank()
                < state.auto_rank()),
            old(self).simulating() && input_fits(state, input) ==> r is Ok,
    {
        match state {
            GameState::Betting => match input {
                Some(Input::Bet(bet)) => self.bet(bet),
                _ => Err((GameState::Betting, TransitionError::WrongInput)),
            },
            GameState::DealFirstPlayerCard(bet) => Ok(self.deal_first_player_card(bet)),
            GameState::DealFirstDealerCard(player_hand) => Ok(
                self.deal_first_dealer_card(player_hand),
            ),
            GameState::DealSecondPlayerCard(player_hand, dealer_hand) => Ok(
                self.deal_second_player_card(player_hand, dealer_hand),
            ),
            GameState::DealHoleCard(player_hand, dealer_hand) => {
                let s = self.deal_hole_card(player_hand, dealer_hand);
                Ok(s)
            },
            GameState::OfferEarlySurrender(player_hand, dealer_hand) => match input {
                Some(Input::Choice(early_surrender)) => Ok(
                    self.choose_early_surrender(player_hand, dealer_hand, early_surrender),
                ),
                _ => Err(
                    (
                        GameState::OfferEarlySurrender(player_hand, dealer_hand),
                        TransitionError::WrongInput,
                    ),
                ),
            },
            GameState::OfferInsurance(player_hand, dealer_hand) => match input {
                Some(Input::Bet(insurance_bet)) => self.bet_insurance(
                    player_hand,
                    dealer_hand,
                    insurance_bet,
                ),
                _ => Err(
                    (
                        GameState::OfferInsurance(player_hand, dealer_hand),
                        TransitionError::WrongInput,
                    ),
                ),
            },
            GameState::CheckDealerHoleCard(player_hand, dealer_hand, insurance_bet) => Ok(
                self.check_dealer_hole_card(player_hand, dealer_hand, insurance_bet),
            ),
            GameState::PlayPlayerTurn(turn, dealer_hand, insurance_bet) => match input {
                Some(Input::Action(action)) => self.play_player_turn(
                    turn,
                    dealer_hand,
                    insurance_bet,
                    action,
                ),
                _ => Err(
                    (
                        GameState::PlayPlayerTurn(turn, dealer_hand, insurance_bet),
                        TransitionError::WrongInput,
                    ),
                ),
            },
            GameState::Stand(turn, dealer_hand, insurance_bet) => Ok(
                self.stand(turn, dealer_hand, insurance_bet),
            ),
            GameState::Hit(turn, dealer_hand, insurance_bet) => Ok(
                self.hit(turn, dealer_hand, insurance_bet),
            ),
            GameState::Double(turn, dealer_hand, insurance_bet) => Ok(
                self.double(turn, dealer_hand, insurance_bet),
            ),
            GameState::Split(turn, dealer_hand, insurance_bet) => Ok(
                self.split(turn, dealer_hand, insurance_bet),
            ),
            GameState::DealFirstSplitCard(turn, new_hand, dealer_hand, insurance_bet) => Ok(
                self.deal_first_split_card(turn, new_hand, dealer_hand, insurance_bet),
            ),
            GameState::DealSecondSplitCard(turn, new_hand, dealer_hand, insurance_bet) => Ok(
                self.deal_second_split_card(turn, new_hand, dealer_hand, insurance_bet),
            ),
            GameState::Surrender(turn, dealer_hand, insurance_bet) => Ok(
                self.late_surrender(turn, dealer_hand, insurance_bet),
            ),
            GameState::RevealHoleCard(player_hands, dealer_hand, insurance_bet) => Ok(
                self.play_dealer_turn_or_end_round(player_hands, dealer_hand, insurance_bet),
            ),
            GameState::PlayDealerTurn(player_hands, dealer_hand, insurance_bet) => {
                let ghost before = dealer_hand;
                let s = self.play_dealer_turn(player_hands, dealer_hand, insurance_bet);
                proof {
                    lemma_hard_total_push(before.cards@, last_drawn(self.shoe));
                }
                Ok(s)
            },
            GameState::RoundOver(player_hands, dealer_hand, insurance_bet) => Ok(
                self.end_round(player_hands, dealer_hand, insurance_bet),
            ),
            GameState::Payout(_, winnings) => Ok(self.pay_out_winnings(winnings)),
            GameState::Shuffle => Ok(self.shuffle_dispenser()),
            GameState::GameOver => Err((GameState::GameOver, TransitionError::WrongInput)),
        }
    }

    /// Plays the game from the given state and input, and returns the next
    /// state, or the same state with the reason it could not progress. A
    /// simulation goes on through the states that need no input and stops at
    /// the next one that does, or at the game over.
    pub fn play(&mut self, state: GameState, input: Option<Input>) -> (r: FallibleTransition)
        requires
            old(self).wf(),
            state.wf(),
            old(self).simulating() ==> simulated_input_ok(*old(self), state, input),
        ensures
            final(self).wf(),
            final(self).rules == old(self).rules,
            final(self).is_simulation == old(self).is_simulation,
            r is Ok ==> r->Ok_0.wf(),
            !old(self).simulating() ==> stepped(*old(self), *final(self), state, input, r),
            !input_fits(state, input) ==> r == fail(state, TransitionError::WrongInput)
                && *final(self) == *old(self),
            old(self).simulating() ==> (r is Ok <==> input_fits(state, input)),
            old(self).simulating() && r is Ok ==> waits(r->Ok_0),
            old(self).simulating() && r is Ok ==> exists|t: Table, s: GameState, n: nat|
                stepped(*old(self), t, state, input, ok(s)) && auto_run(
                    t,
                    *final(self),
                    s,
                    r->Ok_0,
                    n,
                ),
    {
        let first = self.step(state, input);
        if !self.is_simulation {
            return first;
        }
        let ghost t_first = *self;
        let mut s = match first {
            Ok(s) => s,
            Err(e) => return Err(e),
        };
        let ghost s_first = s;
        let ghost mut n: nat = 0;
        assert(auto_run(t_first, *self, s_first, s, 0));
        while !is_waiting(&s)
            invariant
                self.wf(),
                s.wf(),
                self.simulating(),
                self.rules == old(self).rules,
                self.is_simulation == old(self).is_simulation,
                input_fits(state, input),
                stepped(*old(self), t_first, state, input, ok(s_first)),
                auto_run(t_first, *self, s_first, s, n),
            decreases s.auto_rank(),
        {
            let ghost t_before = *self;
            let ghost s_before = s;
            s = match self.step(s, None) {
                Ok(next) => next,
                Err(e) => return Err(e),
            };
            proof {
                assert(stepped(t_before, *self, s_before, None, ok(s)));
                assert(auto_run(t_first, *self, s_first, s, n + 1));
                n = n + 1;
            }
        }
        Ok(s)
    }
}

/// With splits capped at one, a pair that came from a split (its lineage
/// counts a split) cannot be split again: the check refuses it with
/// `MaxSplitsReached` whenever the player can cover the bet.
pub proof fn lemma_split_lineage_capped(rules: Rules, chips: u32, hand: PlayerHand)
    requires
        rules.max_splits == Some(1u8),
        hand.splits >= 1,
        is_pair(hand),
        hand.bet <= chips,
    ensures
        split_error(rules, chips, hand) == Some(SplitError::MaxSplitsReached),
{
}

/// Two cards never bust.
proof fn lemma_two_cards_not_busted(h: PlayerHand)
    requires
        h.cards@.len() == 2,
    ensures
        crate::hand::hand_total(h.cards@) <= 21,
{
    let c = h.cards@;
    assert(c.drop_last().drop_last() =~= Seq::<Card>::empty());
    reveal_with_fuel(crate::hand::hard_total, 3);
    reveal_with_fuel(crate::hand::ace_count, 3);
}

} // verus!
