use vstd::prelude::*;

use crate::hand::{DealerHand, PlayerHand, Status};

verus! {

/// How many of the settled hands returned more than their bet.
pub open spec fn count_won(hands: Seq<PlayerHand>) -> nat
    decreases hands.len(),
{
    if hands.len() == 0 {
        0
    } else {
        count_won(hands.drop_last()) + if hands.last().winnings > hands.last().bet as u64 {
            1nat
        } else {
            0nat
        }
    }
}

/// How many of the settled hands returned exactly their bet.
pub open spec fn count_pushed(hands: Seq<PlayerHand>) -> nat
    decreases hands.len(),
{
    if hands.len() == 0 {
        0
    } else {
        count_pushed(hands.drop_last()) + if hands.last().winnings == hands.last().bet as u64 {
            1nat
        } else {
            0nat
        }
    }
}

/// How many of the settled hands returned less than their bet.
pub open spec fn count_lost(hands: Seq<PlayerHand>) -> nat
    decreases hands.len(),
{
    if hands.len() == 0 {
        0
    } else {
        count_lost(hands.drop_last()) + if hands.last().winnings < hands.last().bet as u64 {
            1nat
        } else {
            0nat
        }
    }
}

/// `a + b`, held at `u64::MAX`.
pub open spec fn capped(a: nat, b: nat) -> nat {
    if a + b <= u64::MAX {
        a + b
    } else {
        u64::MAX as nat
    }
}

/// Outcome counts over the rounds played. They only ever grow.
#[derive(Debug, Clone, Copy, PartialEq, Eq, Structural)]
pub struct Statistics {
    pub rounds: u64,
    pub hands_won: u64,
    pub hands_pushed: u64,
    pub hands_lost: u64,
    pub dealer_blackjacks: u64,
}

impl Statistics {
    pub fn new() -> (s: Statistics)
        ensures
            s == (Statistics {
                rounds: 0,
                hands_won: 0,
                hands_pushed: 0,
                hands_lost: 0,
                dealer_blackjacks: 0,
            }),
    {
        Statistics { rounds: 0, hands_won: 0, hands_pushed: 0, hands_lost: 0, dealer_blackjacks: 0 }
    }

    /// Records a settled round.
    pub fn update(&mut self, player_hands: &Vec<PlayerHand>, dealer_hand: &DealerHand)
        ensures
            final(self).rounds as nat == capped(old(self).rounds as nat, 1),
            final(self).hands_won as nat == capped(
                old(self).hands_won as nat,
                count_won(player_hands@),
            ),
            final(self).hands_pushed as nat == capped(
                old(self).hands_pushed as nat,
                count_pushed(player_hands@),
            ),
            final(self).hands_lost as nat == capped(
                old(self).hands_lost as nat,
                count_lost(player_hands@),
            ),
            final(self).dealer_blackjacks as nat == capped(
                old(self).dealer_blackjacks as nat,
                if dealer_hand.status == Status::Blackjack {
                    1nat
                } else {
                    0nat
                },
            ),
    {
        self.rounds = self.rounds.saturating_add(1);
        if dealer_hand.status == Status::Blackjack {
            self.dealer_blackjacks = self.dealer_blackjacks.saturating_add(1);
        }
        let ghost start = *self;
        let mut i: usize = 0;
        while i < player_hands.len()
            invariant
                i <= player_hands@.len(),
                self.rounds == start.rounds,
                self.dealer_blackjacks == start.dealer_blackjacks,
                self.hands_won as nat == capped(
                    start.hands_won as nat,
                    count_won(player_hands@.take(i as int)),
                ),
                self.hands_pushed as nat == capped(
                    start.hands_pushed as nat,
                    count_pushed(player_hands@.take(i as int)),
                ),
                self.hands_lost as nat == capped(
                    start.hands_lost as nat,
                    count_lost(player_hands@.take(i as int)),
                ),
            decreases player_hands@.len() - i,
        {
            proof {
                assert(player_hands@.take(i as int + 1).drop_last() =~= player_hands@.take(
                    i as int,
                ));
            }
            let hand = &player_hands[i];
            let bet = hand.bet as u64;
            if hand.winnings > bet {
                self.hands_won = self.hands_won.saturating_add(1);
            } else if hand.winnings == bet {
                self.hands_pushed = self.hands_pushed.saturating_add(1);
            } else {
                self.hands_lost = self.hands_lost.saturating_add(1);
            }
            i = i + 1;
        }
        assert(player_hands@.take(i as int) =~= player_hands@);
    }
}

} // verus!
