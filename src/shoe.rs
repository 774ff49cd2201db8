use vstd::prelude::*;
use vstd::seq_lib::to_multiset_update;
use vstd::wrapping::u64_specs;

use crate::card::{Card, Rank, Suit, all_ranks, all_suits};

verus! {

/// The number of cards in one deck.
pub const DECK_SIZE: usize = 52;

/// Penetration is given in thousandths of the shoe.
pub const PENETRATION_SCALE: u64 = 1000;

/// The card at position `i` of a fresh deck: thirteen ranks of each suit in
/// turn.
pub open spec fn fresh_card(i: int) -> Card {
    Card { rank: all_ranks()[i % 13], suit: all_suits()[(i % 52) / 13] }
}

/// `decks` fresh decks one after another.
pub open spec fn fresh_cards(decks: nat) -> Seq<Card> {
    Seq::new(decks * 52, |i: int| fresh_card(i))
}

/// The shoe needs a shuffle once the cursor has reached the part of the shoe
/// that the penetration leaves unplayed: `cursor >= len * (1 - penetration)`.
pub open spec fn shuffle_due(cursor: nat, len: nat, penetration: nat) -> bool {
    cursor * 1000 >= len * (1000 - penetration)
}

/// The next state of the shoe's pseudo-random generator.
pub open spec fn next_seed(seed: u64) -> u64 {
    u64_specs::wrapping_add(u64_specs::wrapping_mul(seed, 6364136223846793005), 1442695040888963407)
}

/// The cards of one or more decks, dealt from a cursor.
#[derive(Debug, Clone, PartialEq, Eq)]
pub struct Shoe {
    pub cards: Vec<Card>,
    /// How many cards have been dealt since the last shuffle.
    pub cursor: usize,
    pub decks: u8,
    /// The share of the shoe, in thousandths, that is played between shuffles.
    pub penetration: u16,
    /// The state of the generator that orders the cards.
    pub seed: u64,
}

fn rank_at(i: usize) -> (r: Rank)
    requires
        i < 13,
    ensures
        r == all_ranks()[i as int],
{
    match i {
        0 => Rank::Ace,
        1 => Rank::Two,
        2 => Rank::Three,
        3 => Rank::Four,
        4 => Rank::Five,
        5 => Rank::Six,
        6 => Rank::Seven,
        7 => Rank::Eight,
        8 => Rank::Nine,
        9 => Rank::Ten,
        10 => Rank::Jack,
        11 => Rank::Queen,
        _ => Rank::King,
    }
}

fn suit_at(i: usize) -> (s: Suit)
    requires
        i < 4,
    ensures
        s == all_suits()[i as int],
{
    match i {
        0 => Suit::Clubs,
        1 => Suit::Diamonds,
        2 => Suit::Hearts,
        _ => Suit::Spades,
    }
}

/// Lays out `decks` fresh decks in order.
fn fresh_shoe(decks: u8) -> (cards: Vec<Card>)
    ensures
        cards@ == fresh_cards(decks as nat),
{
    let n: usize = decks as usize * DECK_SIZE;
    let mut cards: Vec<Card> = Vec::new();
    let mut i: usize = 0;
    while i < n
        invariant
            n == decks as nat * 52,
            i <= n,
            cards@ == fresh_cards(decks as nat).take(i as int),
        decreases n - i,
    {
        let card = Card { rank: rank_at(i % 13), suit: suit_at((i % DECK_SIZE) / 13) };
        cards.push(card);
        i = i + 1;
        assert(cards@ =~= fresh_cards(decks as nat).take(i as int));
    }
    assert(cards@ =~= fresh_cards(decks as nat));
    cards
}

/// Advances the generator.
fn step_seed(seed: u64) -> (r: u64)
    ensures
        r == next_seed(seed),
{
    seed.wrapping_mul(6364136223846793005).wrapping_add(1442695040888963407)
}

/// A freshly shuffled shoe is never due for another shuffle, unless its
/// penetration is the whole shoe, which asks for a shuffle before every round.
pub proof fn lemma_shuffled_not_due(shoe: Shoe)
    requires
        shoe.wf(),
        shoe.cursor == 0,
        shoe.penetration < 1000,
    ensures
        !shuffle_due(shoe.cursor as nat, shoe.cards@.len(), shoe.penetration as nat),
{
    assert(shoe.cards@.len() * (1000 - shoe.penetration) > 0) by (nonlinear_arith)
        requires
            shoe.cards@.len() >= 52,
            shoe.penetration < 1000,
    ;
}

impl Shoe {
    pub open spec fn wf(self) -> bool {
        &&& 1 <= self.decks
        &&& self.penetration <= 1000
        &&& self.cards@.len() == self.decks as nat * 52
        &&& self.cursor <= self.cards@.len()
        &&& self.cards@.to_multiset() == fresh_cards(self.decks as nat).to_multiset()
    }

    /// A shoe of `decks` decks, shuffled from `seed`.
    pub fn new(decks: u8, penetration: u16, seed: u64) -> (s: Shoe)
        requires
            1 <= decks,
            penetration <= 1000,
        ensures
            s.wf(),
            s.cursor == 0,
            s.decks == decks,
            s.penetration == penetration,
    {
        let mut shoe = Shoe { cards: fresh_shoe(decks), cursor: 0, decks, penetration, seed };
        shoe.shuffle();
        shoe
    }

    /// Whether the cursor has crossed the penetration threshold.
    pub fn needs_shuffle(&self) -> (r: bool)
        requires
            self.wf(),
        ensures
            r == shuffle_due(self.cursor as nat, self.cards@.len(), self.penetration as nat),
    {
        let len = self.cards.len() as u64;
        let unplayed = PENETRATION_SCALE - self.penetration as u64;
        assert(len * unplayed <= 255 * 52 * 1000) by (nonlinear_arith)
            requires
                len <= 255 * 52,
                unplayed <= 1000,
        ;
        (self.cursor as u64) * PENETRATION_SCALE >= len * unplayed
    }

    /// Gathers every card back and puts the shoe in a new order.
    pub fn shuffle(&mut self)
        requires
            1 <= old(self).decks,
            old(self).penetration <= 1000,
        ensures
            final(self).wf(),
            final(self).cursor == 0,
            final(self).decks == old(self).decks,
            final(self).penetration == old(self).penetration,
    {
        let mut cards = fresh_shoe(self.decks);
        let ghost fresh = cards@;
        let mut seed = self.seed;
        let mut i: usize = cards.len();
        while i > 1
            invariant
                i <= cards@.len(),
                cards@.len() == fresh.len(),
                cards@.to_multiset() == fresh.to_multiset(),
            decreases i,
        {
            seed = step_seed(seed);
            let j: usize = ((seed >> 33) % (i as u64)) as usize;
            let last: usize = i - 1;
            let a = cards[last];
            let b = cards[j];
            let ghost s0 = cards@;
            cards.set(last, b);
            cards.set(j, a);
            proof {
                broadcast use vstd::multiset::group_multiset_axioms;

                let s1 = s0.update(last as int, b);
                to_multiset_update(s0, last as int, b);
                to_multiset_update(s1, j as int, a);
                assert(cards@ == s1.update(j as int, a));
                assert(s1[j as int] == b);
                assert(s0.to_multiset().count(a) > 0) by {
                    vstd::seq_lib::to_multiset_contains(s0, a);
                    assert(s0.contains(a)) by {
                        assert(s0[last as int] == a);
                    }
                }
                assert(cards@.to_multiset() =~= s0.to_multiset());
            }
            i = last;
        }
        self.cards = cards;
        self.cursor = 0;
        self.seed = seed;
    }

    /// Deals the next card. A shoe that has run out is shuffled first, so a
    /// card is always dealt.
    pub fn draw_card(&mut self) -> (c: Card)
        requires
            old(self).wf(),
        ensures
            final(self).wf(),
            final(self).decks == old(self).decks,
            final(self).penetration == old(self).penetration,
            1 <= final(self).cursor,
            c == final(self).cards@[final(self).cursor - 1],
            old(self).cursor < old(self).cards@.len() ==> {
                &&& final(self).cards@ == old(self).cards@
                &&& final(self).cursor == old(self).cursor + 1
                &&& final(self).seed == old(self).seed
            },
    {
        if self.cursor >= self.cards.len() {
            self.shuffle();
        }
        let c = self.cards[self.cursor];
        self.cursor = self.cursor + 1;
        c
    }
}

} // verus!
