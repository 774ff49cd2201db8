use blackjack::blackjack::{
    BetError, DoubleError, HandAction, Input, SplitError, SurrenderError, Table, TransitionError,
};
use blackjack::card::{Card, Rank, Suit};
use blackjack::hand::{DealerHand, PlayerHand, Status};
use blackjack::rules::{BlackjackPayout, DealerSoft17Action, Rules};
use blackjack::shoe::Shoe;
use blackjack::state::GameState;

fn card(rank: Rank) -> Card {
    Card::new(rank, Suit::Spades)
}

/// A shoe of four decks whose first cards have the given ranks, in order.
fn stacked(ranks: &[Rank]) -> Shoe {
    let mut shoe = Shoe::new(4, 0, 7);
    for (k, rank) in ranks.iter().enumerate() {
        let j = (k..shoe.cards.len())
            .find(|&j| shoe.cards[j].rank == *rank)
            .unwrap();
        shoe.cards.swap(k, j);
    }
    shoe
}

fn waits(state: &GameState) -> bool {
    matches!(
        state,
        GameState::Betting
            | GameState::OfferEarlySurrender(..)
            | GameState::OfferInsurance(..)
            | GameState::PlayPlayerTurn(..)
            | GameState::GameOver
    )
}

/// Plays through the states that need no input.
fn advance(table: &mut Table, mut state: GameState) -> GameState {
    while !waits(&state) {
        state = table.play(state, None).unwrap();
    }
    state
}

fn player_hand(ranks: &[Rank], bet: u32) -> PlayerHand {
    let mut hand = PlayerHand::new(card(ranks[0]), bet);
    for r in &ranks[1..] {
        hand.add_card(card(*r));
    }
    hand
}

fn dealer_hand(ranks: &[Rank], soft_17: DealerSoft17Action) -> DealerHand {
    let mut hand = DealerHand::new(card(ranks[0]), soft_17);
    for r in &ranks[1..] {
        hand.add_card(card(*r));
    }
    hand
}

#[test]
fn test_bet() {
    let mut table = Table::new(
        100,
        Shoe::new(4, 500, 1),
        Rules {
            min_bet: Some(1),
            max_bet: Some(100),
            ..Rules::default()
        },
    );
    assert_eq!(
        table.play(GameState::Betting, Some(Input::Bet(50))),
        Ok(GameState::DealFirstPlayerCard(50))
    );
    assert_eq!(
        table.play(GameState::Betting, Some(Input::Bet(101))),
        Err((
            GameState::Betting,
            TransitionError::BetError(BetError::BetTooHigh)
        ))
    );
    assert_eq!(
        table.play(GameState::Betting, Some(Input::Bet(0))),
        Err((
            GameState::Betting,
            TransitionError::BetError(BetError::BetTooLow)
        ))
    );
    assert_eq!(
        table.play(GameState::Betting, Some(Input::Bet(1))),
        Ok(GameState::DealFirstPlayerCard(1))
    );
    assert_eq!(
        table.play(GameState::Betting, Some(Input::Bet(50))),
        Err((
            GameState::Betting,
            TransitionError::BetError(BetError::CantAfford)
        ))
    );
}

#[test]
fn bet_without_minimum_needs_one_chip() {
    let mut table = Table::new(100, Shoe::new(1, 0, 1), Rules::default());
    assert_eq!(
        table.play(GameState::Betting, Some(Input::Bet(0))),
        Err((
            GameState::Betting,
            TransitionError::BetError(BetError::BetTooLow)
        ))
    );
    assert_eq!(table.chips, 100);
    assert_eq!(
        table.play(GameState::Betting, Some(Input::Bet(100))),
        Ok(GameState::DealFirstPlayerCard(100))
    );
    assert_eq!(table.chips, 0);
}

#[test]
fn wrong_input_keeps_state() {
    let mut table = Table::new(100, Shoe::new(1, 0, 1), Rules::default());
    assert_eq!(
        table.play(GameState::Betting, Some(Input::Choice(true))),
        Err((GameState::Betting, TransitionError::WrongInput))
    );
    assert_eq!(
        table.play(GameState::Betting, None),
        Err((GameState::Betting, TransitionError::WrongInput))
    );
    assert_eq!(
        table.play(GameState::GameOver, Some(Input::Bet(1))),
        Err((GameState::GameOver, TransitionError::WrongInput))
    );
    assert_eq!(table.chips, 100);
}

#[test]
fn ace_ace_nine_is_soft_21() {
    let hand = player_hand(&[Rank::Ace, Rank::Ace, Rank::Nine], 10);
    assert_eq!(hand.value.total, 21);
    assert!(hand.value.soft);
    assert_eq!(hand.status, Status::Stood);
}

#[test]
fn aces_soften_to_avoid_bust() {
    let hand = player_hand(&[Rank::Ace, Rank::Ace], 10);
    assert_eq!(hand.value.total, 12);
    assert!(hand.value.soft);
    let hand = player_hand(&[Rank::Ace, Rank::Six, Rank::Nine], 10);
    assert_eq!(hand.value.total, 16);
    assert!(!hand.value.soft);
    let hand = player_hand(&[Rank::King, Rank::Queen, Rank::Two], 10);
    assert_eq!(hand.value.total, 22);
    assert_eq!(hand.status, Status::Busted);
}

#[test]
fn natural_and_split_twenty_one() {
    let hand = player_hand(&[Rank::Ace, Rank::King], 10);
    assert_eq!(hand.status, Status::Blackjack);
    let mut pair = player_hand(&[Rank::Ace, Rank::Ace], 10);
    let mut other = pair.split();
    assert_eq!(pair.splits, 1);
    assert_eq!(other.splits, 1);
    other.add_card(card(Rank::King));
    assert_eq!(other.value.total, 21);
    assert_eq!(other.status, Status::Stood);
}

#[test]
fn ten_valued_cards_pair() {
    assert!(player_hand(&[Rank::King, Rank::Queen], 10).is_pair());
    assert!(player_hand(&[Rank::Eight, Rank::Eight], 10).is_pair());
    assert!(!player_hand(&[Rank::Eight, Rank::Nine], 10).is_pair());
}

#[test]
fn shuffle_resets_the_shoe() {
    let mut shoe = Shoe::new(2, 500, 3);
    assert_eq!(shoe.cards.len(), 104);
    for _ in 0..60 {
        shoe.draw_card();
    }
    assert!(shoe.needs_shuffle());
    shoe.shuffle();
    assert_eq!(shoe.cursor, 0);
    assert_eq!(shoe.cards.len(), 104);
    assert!(!shoe.needs_shuffle());
}

#[test]
fn penetration_threshold() {
    let mut shoe = Shoe::new(1, 250, 5);
    for _ in 0..38 {
        shoe.draw_card();
    }
    assert!(!shoe.needs_shuffle());
    shoe.draw_card();
    assert!(shoe.needs_shuffle());
}

#[test]
fn shoe_holds_full_decks_in_new_order() {
    let shoe = Shoe::new(1, 0, 11);
    let fresh = Shoe::new(1, 0, 12);
    assert_ne!(shoe.cards, fresh.cards);
    for rank in [Rank::Ace, Rank::Seven, Rank::King] {
        assert_eq!(shoe.cards.iter().filter(|c| c.rank == rank).count(), 4);
    }
}

#[test]
fn exhausted_shoe_reshuffles() {
    let mut shoe = Shoe::new(1, 0, 9);
    for _ in 0..52 {
        shoe.draw_card();
    }
    assert_eq!(shoe.cursor, 52);
    shoe.draw_card();
    assert_eq!(shoe.cursor, 1);
}

#[test]
fn second_split_is_refused_at_max_splits_one() {
    let rules = Rules {
        max_splits: Some(1),
        ..Rules::default()
    };
    let shoe = stacked(&[
        Rank::Eight,
        Rank::Six,
        Rank::Eight,
        Rank::Ten,
        Rank::Eight,
        Rank::Three,
    ]);
    let mut table = Table::new(1000, shoe, rules);
    let state = table.play(GameState::Betting, Some(Input::Bet(10))).unwrap();
    let state = advance(&mut table, state);
    assert!(matches!(state, GameState::PlayPlayerTurn(..)));
    let state = table
        .play(state, Some(Input::Action(HandAction::Split)))
        .unwrap();
    assert_eq!(table.chips, 980);
    let state = advance(&mut table, state);
    match &state {
        GameState::PlayPlayerTurn(turn, _, _) => {
            assert_eq!(turn.current_hand.splits, 1);
            assert!(turn.current_hand.is_pair());
        }
        _ => panic!("expected the player's turn"),
    }
    let result = table.play(state, Some(Input::Action(HandAction::Split)));
    assert!(matches!(
        result,
        Err((
            GameState::PlayPlayerTurn(..),
            TransitionError::SplitError(SplitError::MaxSplitsReached)
        ))
    ));
    assert_eq!(table.chips, 980);
}

#[test]
fn split_errors() {
    let table = Table::new(
        5,
        Shoe::new(1, 0, 1),
        Rules {
            split_aces: false,
            ..Rules::default()
        },
    );
    assert_eq!(
        table.check_split_allowed(&player_hand(&[Rank::Eight, Rank::Nine], 5)),
        Err(SplitError::NotPair)
    );
    assert_eq!(
        table.check_split_allowed(&player_hand(&[Rank::Eight, Rank::Eight], 6)),
        Err(SplitError::CantAfford)
    );
    assert_eq!(
        table.check_split_allowed(&player_hand(&[Rank::Ace, Rank::Ace], 5)),
        Err(SplitError::SplitAcesNotAllowed)
    );
    assert_eq!(
        table.check_split_allowed(&player_hand(&[Rank::Eight, Rank::Eight], 5)),
        Ok(())
    );
}

#[test]
fn double_errors() {
    let table = Table::new(
        5,
        Shoe::new(1, 0, 1),
        Rules {
            double_after_split: false,
            ..Rules::default()
        },
    );
    assert_eq!(
        table.check_double_allowed(&player_hand(&[Rank::Two, Rank::Three, Rank::Four], 5)),
        Err(DoubleError::NotTwoCards)
    );
    assert_eq!(
        table.check_double_allowed(&player_hand(&[Rank::Two, Rank::Three], 6)),
        Err(DoubleError::CantAfford)
    );
    let mut split_hand = player_hand(&[Rank::Two, Rank::Two], 5);
    split_hand.split();
    split_hand.add_card(card(Rank::Nine));
    assert_eq!(
        table.check_double_allowed(&split_hand),
        Err(DoubleError::DoubleAfterSplitNotAllowed)
    );
    assert_eq!(
        table.check_double_allowed(&player_hand(&[Rank::Two, Rank::Three], 5)),
        Ok(())
    );
}

#[test]
fn surrender_errors() {
    let table = Table::new(5, Shoe::new(1, 0, 1), Rules::default());
    assert_eq!(
        table.check_surrender_allowed(&player_hand(&[Rank::Two, Rank::Three], 5)),
        Err(SurrenderError::LateSurrenderNotAllowed)
    );
    let table = Table::new(
        5,
        Shoe::new(1, 0, 1),
        Rules {
            offer_late_surrender: true,
            ..Rules::default()
        },
    );
    assert_eq!(
        table.check_surrender_allowed(&player_hand(&[Rank::Two, Rank::Three, Rank::Four], 5)),
        Err(SurrenderError::NotTwoCards)
    );
    assert_eq!(
        table.check_surrender_allowed(&player_hand(&[Rank::Two, Rank::Three], 5)),
        Ok(())
    );
}

#[test]
fn double_debits_and_doubles_bet() {
    let shoe = stacked(&[Rank::Six, Rank::Seven, Rank::Five, Rank::Ten, Rank::Nine, Rank::Two]);
    let mut table = Table::new(100, shoe, Rules::default());
    let state = table.play(GameState::Betting, Some(Input::Bet(20))).unwrap();
    let state = advance(&mut table, state);
    let state = table
        .play(state, Some(Input::Action(HandAction::Double)))
        .unwrap();
    assert_eq!(table.chips, 60);
    let state = table.play(state, None).unwrap();
    match &state {
        GameState::RevealHoleCard(hands, _, _) => {
            assert_eq!(hands[0].bet, 40);
            assert_eq!(hands[0].status, Status::Doubled);
            assert_eq!(hands[0].value.total, 20);
        }
        _ => panic!("expected the dealer's turn"),
    }
    // Dealer 7 + 10 = 17 stands; 20 beats 17 and pays 1:1 on 40.
    let state = advance(&mut table, state);
    assert_eq!(state, GameState::Betting);
    assert_eq!(table.chips, 140);
}

#[test]
fn double_refused_when_chips_short() {
    let shoe = stacked(&[Rank::Six, Rank::Seven, Rank::Five, Rank::Ten]);
    let mut table = Table::new(30, shoe, Rules::default());
    let state = table.play(GameState::Betting, Some(Input::Bet(20))).unwrap();
    let state = advance(&mut table, state);
    let result = table.play(state, Some(Input::Action(HandAction::Double)));
    assert!(matches!(
        result,
        Err((
            GameState::PlayPlayerTurn(..),
            TransitionError::DoubleError(DoubleError::CantAfford)
        ))
    ));
    assert_eq!(table.chips, 10);
}

#[test]
fn dealer_busts_player_stands_on_twenty() {
    let shoe = stacked(&[Rank::Ten, Rank::Six, Rank::King, Rank::Ten, Rank::Nine]);
    let mut table = Table::new(100, shoe, Rules::default());
    let state = table.play(GameState::Betting, Some(Input::Bet(50))).unwrap();
    assert_eq!(state, GameState::DealFirstPlayerCard(50));
    assert_eq!(table.chips, 50);
    let state = advance(&mut table, state);
    let state = table
        .play(state, Some(Input::Action(HandAction::Stand)))
        .unwrap();
    let state = advance_until_payout(&mut table, state);
    assert_eq!(state, GameState::Payout(50, 100));
    let state = advance(&mut table, state);
    assert_eq!(state, GameState::Betting);
    assert_eq!(table.chips, 150);
}

fn advance_until_payout(table: &mut Table, mut state: GameState) -> GameState {
    while !matches!(state, GameState::Payout(..)) {
        state = table.play(state, None).unwrap();
    }
    state
}

#[test]
fn player_blackjack_pays_three_to_two() {
    let shoe = stacked(&[Rank::Ace, Rank::Nine, Rank::King, Rank::Seven]);
    let mut table = Table::new(100, shoe, Rules::default());
    let state = table.play(GameState::Betting, Some(Input::Bet(100))).unwrap();
    assert_eq!(table.chips, 0);
    let state = table.play(state, None).unwrap();
    let state = table.play(state, None).unwrap();
    let state = table.play(state, None).unwrap();
    let state = table.play(state, None).unwrap();
    assert!(matches!(state, GameState::RevealHoleCard(..)));
    let state = table.play(state, None).unwrap();
    assert!(matches!(state, GameState::RoundOver(..)));
    let state = table.play(state, None).unwrap();
    assert_eq!(state, GameState::Payout(100, 250));
    let state = table.play(state, None).unwrap();
    assert_eq!(state, GameState::Betting);
    assert_eq!(table.chips, 250);
}

#[test]
fn blackjack_against_blackjack_pushes() {
    let player = player_hand(&[Rank::Ace, Rank::King], 40);
    let dealer = dealer_hand(&[Rank::Ace, Rank::Queen], DealerSoft17Action::Stand);
    assert_eq!(dealer.status, Status::Blackjack);
    assert_eq!(player.calculate_winnings(&dealer, BlackjackPayout::ThreeToTwo), 40);

    let shoe = stacked(&[Rank::Ace, Rank::Ace, Rank::King, Rank::Queen]);
    let mut table = Table::new(100, shoe, Rules::default());
    let state = table.play(GameState::Betting, Some(Input::Bet(40))).unwrap();
    let state = advance_until_payout(&mut table, state);
    assert_eq!(state, GameState::Payout(40, 40));
    table.play(state, None).unwrap();
    assert_eq!(table.chips, 100);
}

#[test]
fn settlement_values() {
    let stand = DealerSoft17Action::Stand;
    let dealer_18 = dealer_hand(&[Rank::Ten, Rank::Eight], stand);
    let dealer_bust = dealer_hand(&[Rank::Ten, Rank::Six, Rank::Nine], stand);
    let three_two = BlackjackPayout::ThreeToTwo;
    let mut nineteen = player_hand(&[Rank::Ten, Rank::Nine], 10);
    nineteen.stand();
    assert_eq!(nineteen.calculate_winnings(&dealer_18, three_two), 20);
    let mut eighteen = player_hand(&[Rank::Nine, Rank::Nine], 10);
    eighteen.stand();
    assert_eq!(eighteen.calculate_winnings(&dealer_18, three_two), 10);
    let mut seventeen = player_hand(&[Rank::Ten, Rank::Seven], 10);
    seventeen.stand();
    assert_eq!(seventeen.calculate_winnings(&dealer_18, three_two), 0);
    assert_eq!(seventeen.calculate_winnings(&dealer_bust, three_two), 20);
    let busted = player_hand(&[Rank::Ten, Rank::Six, Rank::Nine], 10);
    assert_eq!(busted.calculate_winnings(&dealer_bust, three_two), 0);
    let mut surrendered = player_hand(&[Rank::Ten, Rank::Six], 10);
    surrendered.surrender();
    assert_eq!(surrendered.calculate_winnings(&dealer_18, three_two), 5);
    let natural = player_hand(&[Rank::Ace, Rank::Jack], 10);
    assert_eq!(natural.calculate_winnings(&dealer_18, three_two), 25);
    assert_eq!(
        natural.calculate_winnings(&dealer_18, BlackjackPayout::SixToFive),
        22
    );
}

#[test]
fn dealer_soft_17_policy() {
    let stands = dealer_hand(&[Rank::Ace, Rank::Six], DealerSoft17Action::Stand);
    assert_eq!(stands.status, Status::Stood);
    let hits = dealer_hand(&[Rank::Ace, Rank::Six], DealerSoft17Action::Hit);
    assert_eq!(hits.status, Status::InPlay);
    let hard = dealer_hand(&[Rank::Ten, Rank::Seven], DealerSoft17Action::Hit);
    assert_eq!(hard.status, Status::Stood);
    assert_eq!(hard.showing(), 10);
}

#[test]
fn dealer_skips_drawing_when_no_hand_stood() {
    let shoe = stacked(&[Rank::Ten, Rank::Five, Rank::Six, Rank::Six, Rank::King]);
    let mut table = Table::new(100, shoe, Rules::default());
    let state = table.play(GameState::Betting, Some(Input::Bet(10))).unwrap();
    let state = advance(&mut table, state);
    let state = table
        .play(state, Some(Input::Action(HandAction::Hit)))
        .unwrap();
    let state = table.play(state, None).unwrap();
    match &state {
        GameState::RevealHoleCard(hands, dealer, _) => {
            assert_eq!(hands[0].status, Status::Busted);
            assert_eq!(dealer.status, Status::Stood);
            assert_eq!(dealer.cards.len(), 2);
        }
        _ => panic!("expected the dealer's turn"),
    }
    let state = advance_until_payout(&mut table, state);
    assert_eq!(state, GameState::Payout(10, 0));
}

#[test]
fn insurance_pays_on_dealer_blackjack() {
    let rules = Rules {
        offer_insurance: true,
        ..Rules::default()
    };
    let shoe = stacked(&[Rank::Ten, Rank::Ace, Rank::Nine, Rank::King]);
    let mut table = Table::new(100, shoe, rules);
    let state = table.play(GameState::Betting, Some(Input::Bet(20))).unwrap();
    let state = advance(&mut table, state);
    assert!(matches!(state, GameState::OfferInsurance(..)));
    let refused = table.play(state.clone(), Some(Input::Bet(11)));
    assert!(matches!(
        refused,
        Err((
            GameState::OfferInsurance(..),
            TransitionError::BetError(BetError::BetTooHigh)
        ))
    ));
    let state = table.play(state, Some(Input::Bet(10))).unwrap();
    assert_eq!(table.chips, 70);
    let state = table.play(state, None).unwrap();
    assert!(matches!(state, GameState::RoundOver(..)));
    let state = table.play(state, None).unwrap();
    assert_eq!(state, GameState::Payout(30, 30));
    table.play(state, None).unwrap();
    assert_eq!(table.chips, 100);
}

#[test]
fn insurance_cant_afford() {
    let rules = Rules {
        offer_insurance: true,
        ..Rules::default()
    };
    let shoe = stacked(&[Rank::Ten, Rank::Ace, Rank::Nine, Rank::Five]);
    let mut table = Table::new(25, shoe, rules);
    let state = table.play(GameState::Betting, Some(Input::Bet(20))).unwrap();
    let state = advance(&mut table, state);
    let refused = table.play(state, Some(Input::Bet(6)));
    assert!(matches!(
        refused,
        Err((
            GameState::OfferInsurance(..),
            TransitionError::BetError(BetError::CantAfford)
        ))
    ));
}

#[test]
fn early_surrender_returns_half() {
    let rules = Rules {
        offer_early_surrender: true,
        ..Rules::default()
    };
    let shoe = stacked(&[Rank::Ten, Rank::King, Rank::Six, Rank::Ace]);
    let mut table = Table::new(100, shoe, rules);
    let state = table.play(GameState::Betting, Some(Input::Bet(20))).unwrap();
    let state = advance(&mut table, state);
    assert!(matches!(state, GameState::OfferEarlySurrender(..)));
    let state = table.play(state, Some(Input::Choice(true))).unwrap();
    assert!(matches!(state, GameState::Surrender(..)));
    let state = advance_until_payout(&mut table, state);
    assert_eq!(state, GameState::Payout(20, 10));
    table.play(state, None).unwrap();
    assert_eq!(table.chips, 90);
}

#[test]
fn payout_boundary_at_min_bet() {
    let rules = Rules {
        min_bet: Some(10),
        ..Rules::default()
    };
    let mut table = Table::new(0, Shoe::new(1, 0, 1), rules);
    assert_eq!(
        table.play(GameState::Payout(10, 10), None),
        Ok(GameState::Betting)
    );
    assert_eq!(table.chips, 10);
    let mut table = Table::new(0, Shoe::new(1, 0, 1), rules);
    assert_eq!(
        table.play(GameState::Payout(10, 9), None),
        Ok(GameState::GameOver)
    );
    let mut table = Table::new(0, Shoe::new(1, 0, 1), Rules::default());
    assert_eq!(
        table.play(GameState::Payout(10, 0), None),
        Ok(GameState::GameOver)
    );
}

#[test]
fn payout_goes_through_shuffle_when_due() {
    let mut shoe = Shoe::new(1, 1000, 1);
    shoe.draw_card();
    let mut table = Table::new(50, shoe, Rules::default());
    let state = table.play(GameState::Payout(0, 0), None).unwrap();
    assert_eq!(state, GameState::Shuffle);
    let state = table.play(state, None).unwrap();
    assert_eq!(state, GameState::Betting);
    assert_eq!(table.shoe.cursor, 0);
}

#[test]
fn simulation_stops_only_for_input() {
    let mut table = Table::new(1000, Shoe::new(2, 500, 21), Rules::default());
    table.set_simulation(true);
    assert!(table.is_simulation());
    let mut state = GameState::Betting;
    for _ in 0..40 {
        let input = match &state {
            GameState::Betting => Input::Bet(10),
            GameState::PlayPlayerTurn(turn, _, _) => {
                if turn.current_hand.value.total < 17 {
                    Input::Action(HandAction::Hit)
                } else {
                    Input::Action(HandAction::Stand)
                }
            }
            GameState::GameOver => break,
            _ => panic!("simulation stopped at a state that needs no input"),
        };
        state = table.play(state, Some(input)).unwrap();
        assert!(waits(&state));
    }
    assert!(table.statistics.rounds > 0);
    assert_eq!(
        table.statistics.hands_won + table.statistics.hands_pushed + table.statistics.hands_lost,
        table.statistics.rounds
    );
}

#[test]
fn statistics_count_outcomes() {
    let shoe = stacked(&[Rank::Ten, Rank::Six, Rank::King, Rank::Ten, Rank::Nine]);
    let mut table = Table::new(100, shoe, Rules::default());
    let state = table.play(GameState::Betting, Some(Input::Bet(50))).unwrap();
    let state = advance(&mut table, state);
    let state = table
        .play(state, Some(Input::Action(HandAction::Stand)))
        .unwrap();
    advance_until_payout(&mut table, state);
    assert_eq!(table.statistics.rounds, 1);
    assert_eq!(table.statistics.hands_won, 1);
    assert_eq!(table.statistics.hands_lost, 0);
}

#[test]
fn error_messages() {
    assert_eq!(TransitionError::WrongInput.message(), "Wrong input");
    assert_eq!(
        TransitionError::SplitError(SplitError::MaxSplitsReached).message(),
        "Max splits reached"
    );
}
