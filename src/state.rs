use vstd::prelude::*;

use crate::hand::{DealerHand, PlayerHand, Status, hard_total};
use crate::turn::{PlayerTurn, all_wf};

verus! {

/// A point in a round, with what is needed to resume from it.
#[derive(Debug, Clone, PartialEq, Eq)]
pub enum GameState {
    Betting,
    DealFirstPlayerCard(u32),
    DealFirstDealerCard(PlayerHand),
    DealSecondPlayerCard(PlayerHand, DealerHand),
    DealHoleCard(PlayerHand, DealerHand),
    OfferEarlySurrender(PlayerHand, DealerHand),
    OfferInsurance(PlayerHand, DealerHand),
    CheckDealerHoleCard(PlayerHand, DealerHand, u32),
    PlayPlayerTurn(PlayerTurn, DealerHand, u32),
    Stand(PlayerTurn, DealerHand, u32),
    Hit(PlayerTurn, DealerHand, u32),
    Double(PlayerTurn, DealerHand, u32),
    Split(PlayerTurn, DealerHand, u32),
    DealFirstSplitCard(PlayerTurn, PlayerHand, DealerHand, u32),
    DealSecondSplitCard(PlayerTurn, PlayerHand, DealerHand, u32),
    Surrender(PlayerTurn, DealerHand, u32),
    RevealHoleCard(Vec<PlayerHand>, DealerHand, u32),
    PlayDealerTurn(Vec<PlayerHand>, DealerHand, u32),
    RoundOver(Vec<PlayerHand>, DealerHand, u32),
    /// The total wagered in the round and what it returns to the player.
    Payout(u64, u64),
    Shuffle,
    GameOver,
}

/// A hand in play of a single card.
pub open spec fn fresh_hand(h: PlayerHand) -> bool {
    h.wf() && h.status == Status::InPlay && h.cards@.len() == 1
}

/// The player's initial two-card hand, before they act on it.
pub open spec fn dealt_hand(h: PlayerHand) -> bool {
    h.wf() && h.cards@.len() == 2 && h.splits == 0 && (h.status == Status::InPlay || h.status
        == Status::Blackjack)
}

/// The dealer's hand of the up-card alone.
pub open spec fn up_card_only(d: DealerHand) -> bool {
    d.wf() && d.status == Status::InPlay && d.cards@.len() == 1
}

/// The dealer's hand once the hole card is dealt.
pub open spec fn dealt_dealer_hand(d: DealerHand) -> bool {
    d.wf() && d.cards@.len() == 2
}

/// The turn has a hand in play.
pub open spec fn turn_in_play(t: PlayerTurn) -> bool {
    t.wf() && t.current_hand.status == Status::InPlay
}

/// The states that wait for the player's input.
pub open spec fn needs_input(s: GameState) -> bool {
    match s {
        GameState::Betting | GameState::OfferEarlySurrender(..) | GameState::OfferInsurance(..)
        | GameState::PlayPlayerTurn(..) => true,
        _ => false,
    }
}

impl GameState {
    /// What each state carries is what the round can have produced there.
    pub open spec fn wf(self) -> bool {
        match self {
            GameState::DealFirstDealerCard(p) => fresh_hand(p) && p.splits == 0,
            GameState::DealSecondPlayerCard(p, d) => fresh_hand(p) && p.splits == 0
                && up_card_only(d),
            GameState::DealHoleCard(p, d) => dealt_hand(p) && up_card_only(d),
            GameState::OfferEarlySurrender(p, d) | GameState::OfferInsurance(p, d) => dealt_hand(p)
                && p.status == Status::InPlay && dealt_dealer_hand(d),
            GameState::CheckDealerHoleCard(p, d, _) => dealt_hand(p) && p.status == Status::InPlay
                && dealt_dealer_hand(d),
            GameState::PlayPlayerTurn(t, d, _) | GameState::Stand(t, d, _) | GameState::Hit(t, d, _)
            | GameState::Double(t, d, _) | GameState::Surrender(t, d, _) => turn_in_play(t)
                && d.wf(),
            GameState::Split(t, d, _) => turn_in_play(t) && t.current_hand.cards@.len() == 2
                && d.wf(),
            GameState::DealFirstSplitCard(t, n, d, _) => turn_in_play(t) && fresh_hand(n) && d.wf(),
            GameState::DealSecondSplitCard(t, n, d, _) => t.wf() && fresh_hand(n) && d.wf(),
            GameState::RevealHoleCard(hs, d, _) | GameState::RoundOver(hs, d, _) => all_wf(hs@)
                && d.wf(),
            GameState::PlayDealerTurn(hs, d, _) => all_wf(hs@) && d.wf() && d.status
                == Status::InPlay,
            _ => true,
        }
    }

    /// A measure that every state passed through without input lowers, until
    /// the round waits for input or the game is over.
    pub open spec fn auto_rank(self) -> nat {
        match self {
            GameState::DealFirstPlayerCard(_) => 200,
            GameState::DealFirstDealerCard(_) => 199,
            GameState::DealSecondPlayerCard(..) => 198,
            GameState::DealHoleCard(..) => 197,
            GameState::CheckDealerHoleCard(..) => 196,
            GameState::Split(..) => 195,
            GameState::DealFirstSplitCard(..) => 194,
            GameState::DealSecondSplitCard(..) | GameState::Stand(..) | GameState::Hit(..)
            | GameState::Double(..) | GameState::Surrender(..) => 193,
            GameState::RevealHoleCard(_, d, _) => (4 + 2 * (40 - hard_total(d.cards@))) as nat,
            GameState::PlayDealerTurn(_, d, _) => (3 + 2 * (40 - hard_total(d.cards@))) as nat,
            GameState::RoundOver(..) => 3,
            GameState::Payout(..) => 2,
            GameState::Shuffle => 1,
            _ => 0,
        }
    }
}

} // verus!
