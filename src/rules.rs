use vstd::prelude::*;

verus! {

/// What a blackjack pays on top of the returned stake.
#[derive(Debug, Clone, Copy, PartialEq, Eq, Structural)]
pub enum BlackjackPayout {
    ThreeToTwo,
    SixToFive,
}

/// Whether the dealer hits or stands on a soft 17.
#[derive(Debug, Clone, Copy, PartialEq, Eq, Structural)]
pub enum DealerSoft17Action {
    Stand,
    Hit,
}

/// The table's configuration. It does not change during play.
#[derive(Debug, Clone, Copy, PartialEq, Eq, Structural)]
pub struct Rules {
    pub min_bet: Option<u32>,
    pub max_bet: Option<u32>,
    pub blackjack_payout: BlackjackPayout,
    pub dealer_soft_17: DealerSoft17Action,
    pub offer_early_surrender: bool,
    pub offer_late_surrender: bool,
    pub offer_insurance: bool,
    pub split_aces: bool,
    pub double_after_split: bool,
    pub max_splits: Option<u8>,
}

/// The smallest bet the table takes: the configured minimum, or one chip.
pub open spec fn min_bet_of(rules: Rules) -> nat {
    match rules.min_bet {
        Some(m) => m as nat,
        None => 1,
    }
}

/// The profit that a blackjack on `bet` earns.
pub open spec fn blackjack_profit(bet: nat, payout: BlackjackPayout) -> nat {
    match payout {
        BlackjackPayout::ThreeToTwo => bet * 3 / 2,
        BlackjackPayout::SixToFive => bet * 6 / 5,
    }
}

impl Rules {
    /// The smallest bet the table takes.
    pub fn min_playable_bet(&self) -> (r: u32)
        ensures
            r as nat == min_bet_of(*self),
    {
        match self.min_bet {
            Some(m) => m,
            None => 1,
        }
    }
}

impl Default for Rules {
    /// No bet limits, blackjack pays 3:2, the dealer stands on soft 17, no
    /// surrender or insurance, aces may be split, doubling after a split is
    /// allowed and splits are not capped.
    fn default() -> (r: Rules)
        ensures
            r == (Rules {
                min_bet: None,
                max_bet: None,
                blackjack_payout: BlackjackPayout::ThreeToTwo,
                dealer_soft_17: DealerSoft17Action::Stand,
                offer_early_surrender: false,
                offer_late_surrender: false,
                offer_insurance: false,
                split_aces: true,
                double_after_split: true,
                max_splits: None,
            }),
    {
        Rules {
            min_bet: None,
            max_bet: None,
            blackjack_payout: BlackjackPayout::ThreeToTwo,
            dealer_soft_17: DealerSoft17Action::Stand,
            offer_early_surrender: false,
            offer_late_surrender: false,
            offer_insurance: false,
            split_aces: true,
            double_after_split: true,
            max_splits: None,
        }
    }
}

} // verus!
