use vstd::prelude::*;

verus! {

/// The rank of a playing card.
#[derive(Debug, Clone, Copy, PartialEq, Eq, Structural)]
pub enum Rank {
    Ace,
    Two,
    Three,
    Four,
    Five,
    Six,
    Seven,
    Eight,
    Nine,
    Ten,
    Jack,
    Queen,
    King,
}

/// The suit of a playing card. It has no bearing on a card's value.
#[derive(Debug, Clone, Copy, PartialEq, Eq, Structural)]
pub enum Suit {
    Clubs,
    Diamonds,
    Hearts,
    Spades,
}

/// A playing card.
#[derive(Debug, Clone, Copy, PartialEq, Eq, Structural)]
pub struct Card {
    pub rank: Rank,
    pub suit: Suit,
}

/// The value of a rank when an ace counts as one.
pub open spec fn hard_rank_value(rank: Rank) -> nat {
    match rank {
        Rank::Ace => 1,
        Rank::Two => 2,
        Rank::Three => 3,
        Rank::Four => 4,
        Rank::Five => 5,
        Rank::Six => 6,
        Rank::Seven => 7,
        Rank::Eight => 8,
        Rank::Nine => 9,
        _ => 10,
    }
}

/// The value of a rank when an ace counts as eleven (2 to 11).
pub open spec fn rank_value(rank: Rank) -> nat {
    if rank == Rank::Ace {
        11
    } else {
        hard_rank_value(rank)
    }
}

/// The thirteen ranks, ace first.
pub open spec fn all_ranks() -> Seq<Rank> {
    seq![
        Rank::Ace, Rank::Two, Rank::Three, Rank::Four, Rank::Five, Rank::Six, Rank::Seven,
        Rank::Eight, Rank::Nine, Rank::Ten, Rank::Jack, Rank::Queen, Rank::King,
    ]
}

/// The four suits.
pub open spec fn all_suits() -> Seq<Suit> {
    seq![Suit::Clubs, Suit::Diamonds, Suit::Hearts, Suit::Spades]
}

impl Rank {
    /// The value of the rank with an ace counted as eleven.
    pub fn value(&self) -> (r: u8)
        ensures
            r as nat == rank_value(*self),
            2 <= r <= 11,
    {
        match self {
            Rank::Ace => 11,
            Rank::Two => 2,
            Rank::Three => 3,
            Rank::Four => 4,
            Rank::Five => 5,
            Rank::Six => 6,
            Rank::Seven => 7,
            Rank::Eight => 8,
            Rank::Nine => 9,
            _ => 10,
        }
    }

    /// The value of the rank with an ace counted as one.
    pub fn hard_value(&self) -> (r: u8)
        ensures
            r as nat == hard_rank_value(*self),
            1 <= r <= 10,
    {
        match self {
            Rank::Ace => 1,
            Rank::Two => 2,
            Rank::Three => 3,
            Rank::Four => 4,
            Rank::Five => 5,
            Rank::Six => 6,
            Rank::Seven => 7,
            Rank::Eight => 8,
            Rank::Nine => 9,
            _ => 10,
        }
    }
}

impl Card {
    pub fn new(rank: Rank, suit: Suit) -> (c: Card)
        ensures
            c.rank == rank,
            c.suit == suit,
    {
        Card { rank, suit }
    }
}

} // verus!
