use vstd::prelude::*;

use crate::card::{Card, Rank, hard_rank_value, rank_value};
use crate::rules::{BlackjackPayout, DealerSoft17Action, blackjack_profit};

verus! {

/// The sum of the cards' values with every ace counted as one.
pub open spec fn hard_total(cards: Seq<Card>) -> nat
    decreases cards.len(),
{
    if cards.len() == 0 {
        0
    } else {
        hard_total(cards.drop_last()) + hard_rank_value(cards.last().rank)
    }
}

/// How many aces the cards hold.
pub open spec fn ace_count(cards: Seq<Card>) -> nat
    decreases cards.len(),
{
    if cards.len() == 0 {
        0
    } else {
        ace_count(cards.drop_last()) + if cards.last().rank == Rank::Ace { 1nat } else { 0nat }
    }
}

/// A hand is soft when one of its aces can count as eleven without busting.
pub open spec fn is_soft(cards: Seq<Card>) -> bool {
    ace_count(cards) > 0 && hard_total(cards) + 10 <= 21
}

/// The value of a hand: aces count as one, except that one of them counts as
/// eleven when that does not take the hand over 21.
pub open spec fn hand_total(cards: Seq<Card>) -> nat {
    if is_soft(cards) {
        hard_total(cards) + 10
    } else {
        hard_total(cards)
    }
}

/// The lifecycle status of a hand.
#[derive(Debug, Clone, Copy, PartialEq, Eq, Structural)]
pub enum Status {
    InPlay,
    Stood,
    Busted,
    Blackjack,
    Surrendered,
    Doubled,
}

/// The value of a hand: its total and whether an ace counts as eleven in it.
#[derive(Debug, Clone, Copy, PartialEq, Eq, Structural)]
pub struct HandValue {
    pub total: u8,
    pub soft: bool,
}

impl HandValue {
    pub open spec fn describes(self, cards: Seq<Card>) -> bool {
        self.total as nat == hand_total(cards) && self.soft == is_soft(cards)
    }

    /// Computes the value of the cards.
    pub fn of(cards: &Vec<Card>) -> (v: HandValue)
        requires
            hard_total(cards@) <= 31,
        ensures
            v.describes(cards@),
    {
        let mut hard: u8 = 0;
        let mut aces: bool = false;
        let mut i: usize = 0;
        while i < cards.len()
            invariant
                i <= cards@.len(),
                hard_total(cards@) <= 31,
                hard as nat == hard_total(cards@.take(i as int)),
                aces == (ace_count(cards@.take(i as int)) > 0),
            decreases cards@.len() - i,
        {
            proof {
                assert(cards@.take(i as int + 1).drop_last() =~= cards@.take(i as int));
                lemma_hard_total_prefix(cards@, i as int + 1);
            }
            let card = cards[i];
            hard = hard + card.rank.hard_value();
            if card.rank == Rank::Ace {
                aces = true;
            }
            i = i + 1;
        }
        assert(cards@.take(i as int) =~= cards@);
        if aces && hard + 10 <= 21 {
            HandValue { total: hard + 10, soft: true }
        } else {
            HandValue { total: hard, soft: false }
        }
    }
}

/// A prefix of a hand never totals more than the hand.
pub proof fn lemma_hard_total_prefix(cards: Seq<Card>, n: int)
    requires
        0 <= n <= cards.len(),
    ensures
        hard_total(cards.take(n)) <= hard_total(cards),
    decreases cards.len(),
{
    if n < cards.len() {
        assert(cards.drop_last().take(n) =~= cards.take(n));
        lemma_hard_total_prefix(cards.drop_last(), n);
    } else {
        assert(cards.take(n) =~= cards);
    }
}

/// Every ace adds at least one to the hard total.
pub proof fn lemma_aces_bounded(cards: Seq<Card>)
    ensures
        ace_count(cards) <= hard_total(cards),
    decreases cards.len(),
{
    if cards.len() > 0 {
        lemma_aces_bounded(cards.drop_last());
    }
}

/// A hand of one card is worth that card's value and is never busted.
pub proof fn lemma_single_card(card: Card)
    ensures
        hard_total(seq![card]) == hard_rank_value(card.rank),
        hand_total(seq![card]) == rank_value(card.rank),
        hand_total(seq![card]) <= 11,
        ace_count(seq![card]) == if card.rank == Rank::Ace { 1nat } else { 0nat },
{
    assert(seq![card].drop_last() =~= Seq::<Card>::empty());
    reveal_with_fuel(hard_total, 2);
    reveal_with_fuel(ace_count, 2);
}

/// The total of the cards when `elevens` of the aces count as eleven.
pub open spec fn counted_total(cards: Seq<Card>, elevens: nat) -> nat {
    hard_total(cards) + 10 * elevens
}

/// The hand total counts an ace as eleven exactly when that does not bust the
/// hand, and never counts more than one: of all the ways to count some of the
/// aces as eleven, it is the largest that stays within 21, or the hard total
/// when every way busts.
pub proof fn lemma_ace_softening(cards: Seq<Card>)
    ensures
        hand_total(cards) == hard_total(cards) || hand_total(cards) == hard_total(cards) + 10,
        hand_total(cards) == hard_total(cards) + 10 ==> ace_count(cards) >= 1 && hand_total(
            cards,
        ) <= 21,
        forall|k: nat|
            k <= ace_count(cards) && #[trigger] counted_total(cards, k) <= 21 ==> counted_total(
                cards,
                k,
            ) <= hand_total(cards),
        forall|k: nat| 2 <= k <= ace_count(cards) ==> #[trigger] counted_total(cards, k) > 21,
{
    lemma_aces_bounded(cards);
}

/// The status a player's hand takes on after it has been dealt a card: 21 on
/// an untouched two-card hand that was never split is a blackjack, any other
/// 21 stands.
pub open spec fn player_status_after_draw(cards: Seq<Card>, splits: u8) -> Status {
    if hand_total(cards) > 21 {
        Status::Busted
    } else if hand_total(cards) == 21 {
        if cards.len() == 2 && splits == 0 {
            Status::Blackjack
        } else {
            Status::Stood
        }
    } else {
        Status::InPlay
    }
}

/// The dealer draws below 17, and on a soft 17 when the table says so.
pub open spec fn dealer_must_hit(cards: Seq<Card>, soft_17: DealerSoft17Action) -> bool {
    hand_total(cards) < 17 || (hand_total(cards) == 17 && is_soft(cards) && soft_17
        == DealerSoft17Action::Hit)
}

/// The status of the dealer's hand after it has been dealt a card.
pub open spec fn dealer_status(cards: Seq<Card>, soft_17: DealerSoft17Action) -> Status {
    if hand_total(cards) > 21 {
        Status::Busted
    } else if cards.len() == 2 && hand_total(cards) == 21 {
        Status::Blackjack
    } else if dealer_must_hit(cards, soft_17) {
        Status::InPlay
    } else {
        Status::Stood
    }
}

/// One of the player's hands, with the bet placed on it.
#[derive(Debug, Clone, PartialEq, Eq)]
pub struct PlayerHand {
    pub cards: Vec<Card>,
    pub value: HandValue,
    pub bet: u32,
    /// How many splits led to this hand.
    pub splits: u8,
    pub status: Status,
    /// What the hand returns to the player when the round is settled.
    pub winnings: u64,
}

/// The dealer's hand.
#[derive(Debug, Clone, PartialEq, Eq)]
pub struct DealerHand {
    pub cards: Vec<Card>,
    pub value: HandValue,
    pub status: Status,
    pub soft_17: DealerSoft17Action,
}

/// What a finished hand returns to the player, its stake included, against the
/// dealer's finished hand.
pub open spec fn hand_winnings(hand: PlayerHand, dealer: DealerHand, payout: BlackjackPayout) -> nat {
    let bet = hand.bet as nat;
    let total = hand_total(hand.cards@);
    let dealer_total = hand_total(dealer.cards@);
    match hand.status {
        Status::Surrendered => bet / 2,
        Status::Busted => 0,
        Status::Blackjack => if dealer.status == Status::Blackjack {
            bet
        } else {
            bet + blackjack_profit(bet, payout)
        },
        _ => if dealer.status == Status::Blackjack {
            0
        } else if dealer.status == Status::Busted || total > dealer_total {
            2 * bet
        } else if total == dealer_total {
            bet
        } else {
            0
        },
    }
}

/// A player's blackjack against the dealer's blackjack is a push: the hand
/// returns exactly its bet.
pub proof fn lemma_blackjacks_push(hand: PlayerHand, dealer: DealerHand, payout: BlackjackPayout)
    requires
        hand.status == Status::Blackjack,
        dealer.status == Status::Blackjack,
    ensures
        hand_winnings(hand, dealer, payout) == hand.bet as nat,
{
}

impl PlayerHand {
    pub open spec fn wf(self) -> bool {
        &&& self.cards@.len() >= 1
        &&& hard_total(self.cards@) <= 31
        &&& self.value.describes(self.cards@)
        &&& self.status == Status::InPlay ==> hand_total(self.cards@) < 21
        &&& (self.status == Status::Busted <==> hand_total(self.cards@) > 21)
        &&& self.status == Status::Blackjack ==> hand_total(self.cards@) == 21
            && self.cards@.len() == 2
    }

    /// A hand of one card, dealt on a bet.
    pub fn new(card: Card, bet: u32) -> (h: PlayerHand)
        ensures
            h.wf(),
            h.cards@ == seq![card],
            h.bet == bet,
            h.splits == 0,
            h.status == Status::InPlay,
            h.winnings == 0,
    {
        let mut cards: Vec<Card> = Vec::new();
        cards.push(card);
        proof {
            lemma_single_card(card);
            assert(cards@ =~= seq![card]);
        }
        let value = HandValue::of(&cards);
        PlayerHand { cards, value, bet, splits: 0, status: Status::InPlay, winnings: 0 }
    }

    /// The number of cards in the hand.
    pub fn size(&self) -> (r: usize)
        ensures
            r == self.cards@.len(),
    {
        self.cards.len()
    }

    /// Two cards of equal value. Ten-valued cards of different ranks, such as a
    /// king and a queen, make a pair.
    pub fn is_pair(&self) -> (r: bool)
        ensures
            r == (self.cards@.len() == 2 && rank_value(self.cards@[0].rank) == rank_value(
                self.cards@[1].rank,
            )),
    {
        self.cards.len() == 2 && self.cards[0].rank.value() == self.cards[1].rank.value()
    }

    /// Deals a card to a hand in play.
    pub fn add_card(&mut self, card: Card)
        requires
            old(self).wf(),
            old(self).status == Status::InPlay,
        ensures
            final(self).wf(),
            final(self).cards@ == old(self).cards@.push(card),
            final(self).status == player_status_after_draw(final(self).cards@, old(self).splits),
            final(self).bet == old(self).bet,
            final(self).splits == old(self).splits,
            final(self).winnings == old(self).winnings,
    {
        proof {
            assert(old(self).cards@.push(card).drop_last() =~= old(self).cards@);
        }
        self.cards.push(card);
        self.value = HandValue::of(&self.cards);
        self.status = if self.value.total > 21 {
            Status::Busted
        } else if self.value.total == 21 {
            if self.cards.len() == 2 && self.splits == 0 {
                Status::Blackjack
            } else {
                Status::Stood
            }
        } else {
            Status::InPlay
        };
    }

    /// The player stands on the hand.
    pub fn stand(&mut self)
        requires
            old(self).wf(),
            old(self).status == Status::InPlay,
        ensures
            final(self).wf(),
            *final(self) == (PlayerHand { status: Status::Stood, ..*old(self) }),
    {
        self.status = Status::Stood;
    }

    /// The player gives up the hand and half of its bet.
    pub fn surrender(&mut self)
        requires
            old(self).wf(),
            old(self).status == Status::InPlay,
        ensures
            final(self).wf(),
            *final(self) == (PlayerHand { status: Status::Surrendered, ..*old(self) }),
    {
        self.status = Status::Surrendered;
    }

    /// The player doubles the bet and takes exactly one more card, which
    /// finishes the hand.
    pub fn double(&mut self, card: Card)
        requires
            old(self).wf(),
            old(self).status == Status::InPlay,
        ensures
            final(self).wf(),
            final(self).cards@ == old(self).cards@.push(card),
            final(self).bet == (if 2 * old(self).bet <= u32::MAX {
                2 * old(self).bet
            } else {
                u32::MAX as int
            }),
            final(self).status == if hand_total(final(self).cards@) > 21 {
                Status::Busted
            } else {
                Status::Doubled
            },
            final(self).splits == old(self).splits,
            final(self).winnings == old(self).winnings,
    {
        proof {
            assert(old(self).cards@.push(card).drop_last() =~= old(self).cards@);
        }
        self.cards.push(card);
        self.value = HandValue::of(&self.cards);
        self.bet = self.bet.saturating_add(self.bet);
        self.status = if self.value.total > 21 {
            Status::Busted
        } else {
            Status::Doubled
        };
    }

    /// Splits a two-card hand: this hand keeps its first card and the returned
    /// hand takes the second, with the same bet. Both count one more split.
    pub fn split(&mut self) -> (new_hand: PlayerHand)
        requires
            old(self).wf(),
            old(self).status == Status::InPlay,
            old(self).cards@.len() == 2,
        ensures
            final(self).wf(),
            new_hand.wf(),
            final(self).cards@ == seq![old(self).cards@[0]],
            new_hand.cards@ == seq![old(self).cards@[1]],
            final(self).bet == old(self).bet,
            new_hand.bet == old(self).bet,
            final(self).splits == new_hand.splits,
            new_hand.splits == (if old(self).splits < 255 {
                old(self).splits + 1
            } else {
                255int
            }),
            final(self).status == Status::InPlay,
            new_hand.status == Status::InPlay,
            final(self).winnings == old(self).winnings,
            new_hand.winnings == 0,
    {
        let second = self.cards.pop().unwrap();
        let splits = self.splits.saturating_add(1);
        proof {
            lemma_single_card(self.cards@[0]);
            assert(self.cards@ =~= seq![self.cards@[0]]);
        }
        self.value = HandValue::of(&self.cards);
        self.splits = splits;
        let mut new_hand = PlayerHand::new(second, self.bet);
        new_hand.splits = splits;
        new_hand
    }

    /// What the finished hand returns to the player against the dealer's
    /// finished hand.
    pub fn calculate_winnings(&self, dealer_hand: &DealerHand, payout: BlackjackPayout) -> (r: u64)
        requires
            self.wf(),
            dealer_hand.wf(),
        ensures
            r as nat == hand_winnings(*self, *dealer_hand, payout),
    {
        let bet = self.bet as u64;
        match self.status {
            Status::Surrendered => bet / 2,
            Status::Busted => 0,
            Status::Blackjack => if dealer_hand.status == Status::Blackjack {
                bet
            } else {
                match payout {
                    BlackjackPayout::ThreeToTwo => bet + bet * 3 / 2,
                    BlackjackPayout::SixToFive => bet + bet * 6 / 5,
                }
            },
            _ => if dealer_hand.status == Status::Blackjack {
                0
            } else if dealer_hand.status == Status::Busted || self.value.total
                > dealer_hand.value.total {
                2 * bet
            } else if self.value.total == dealer_hand.value.total {
                bet
            } else {
                0
            },
        }
    }
}

impl DealerHand {
    pub open spec fn wf(self) -> bool {
        &&& self.cards@.len() >= 1
        &&& hard_total(self.cards@) <= 31
        &&& self.value.describes(self.cards@)
        &&& self.status == Status::InPlay ==> dealer_must_hit(self.cards@, self.soft_17)
        &&& (self.status == Status::Busted <==> hand_total(self.cards@) > 21)
        &&& (self.status == Status::Blackjack <==> (self.cards@.len() == 2 && hand_total(
            self.cards@,
        ) == 21))
        &&& self.status != Status::Surrendered
        &&& self.status != Status::Doubled
    }

    /// The dealer's hand of one card, the up-card.
    pub fn new(card: Card, soft_17: DealerSoft17Action) -> (h: DealerHand)
        ensures
            h.wf(),
            h.cards@ == seq![card],
            h.status == Status::InPlay,
            h.soft_17 == soft_17,
    {
        let mut cards: Vec<Card> = Vec::new();
        cards.push(card);
        proof {
            lemma_single_card(card);
            assert(cards@ =~= seq![card]);
        }
        let value = HandValue::of(&cards);
        DealerHand { cards, value, status: Status::InPlay, soft_17 }
    }

    /// The value of the up-card, from 2 to 11.
    pub fn showing(&self) -> (r: u8)
        requires
            self.wf(),
        ensures
            r as nat == rank_value(self.cards@[0].rank),
    {
        self.cards[0].rank.value()
    }

    /// Deals a card to the dealer's hand in play.
    pub fn add_card(&mut self, card: Card)
        requires
            old(self).wf(),
            old(self).status == Status::InPlay,
        ensures
            final(self).wf(),
            final(self).cards@ == old(self).cards@.push(card),
            final(self).status == dealer_status(final(self).cards@, old(self).soft_17),
            final(self).soft_17 == old(self).soft_17,
    {
        proof {
            assert(old(self).cards@.push(card).drop_last() =~= old(self).cards@);
        }
        self.cards.push(card);
        self.value = HandValue::of(&self.cards);
        self.status = if self.value.total > 21 {
            Status::Busted
        } else if self.cards.len() == 2 && self.value.total == 21 {
            Status::Blackjack
        } else if self.value.total < 17 || (self.value.total == 17 && self.value.soft
            && self.soft_17 == DealerSoft17Action::Hit) {
            Status::InPlay
        } else {
            Status::Stood
        };
    }

    /// The dealer stands without drawing further.
    pub fn stand(&mut self)
        requires
            old(self).wf(),
            old(self).status == Status::InPlay,
        ensures
            final(self).wf(),
            *final(self) == (DealerHand { status: Status::Stood, ..*old(self) }),
    {
        self.status = Status::Stood;
    }
}

} // verus!
