use vstd::prelude::*;

verus! {

/// One of the four suits. Spades are the trump suit: any Spade beats any
/// non-Spade card regardless of rank.
#[derive(Debug, Clone, Copy, PartialEq, Eq, PartialOrd, Ord, Structural)]
pub enum Suit {
    Clubs,
    Diamonds,
    Hearts,
    Spades,
}

impl Suit {
    /// Position of the suit in the total order, Spades highest.
    pub open spec fn spec_value(self) -> int {
        match self {
            Suit::Clubs => 0,
            Suit::Diamonds => 1,
            Suit::Hearts => 2,
            Suit::Spades => 3,
        }
    }

    pub fn all() -> (r: [Suit; 4])
        ensures
            r@ =~= seq![Suit::Clubs, Suit::Diamonds, Suit::Hearts, Suit::Spades],
    {
        [Suit::Clubs, Suit::Diamonds, Suit::Hearts, Suit::Spades]
    }
}

/// One of the thirteen ranks, totally ordered from Two (lowest) to Ace
/// (highest).
#[derive(Debug, Clone, Copy, PartialEq, Eq, PartialOrd, Ord, Structural)]
pub enum Rank {
    Two,
    Three,
    Four,
    Five,
    Six,
    Seven,
    Eight,
    Nine,
    Ten,
    Jack,
    Queen,
    King,
    Ace,
}

impl Rank {
    /// Position of the rank in the total order, Two == 0 up to Ace == 12.
    pub open spec fn spec_value(self) -> int {
        match self {
            Rank::Two => 0,
            Rank::Three => 1,
            Rank::Four => 2,
            Rank::Five => 3,
            Rank::Six => 4,
            Rank::Seven => 5,
            Rank::Eight => 6,
            Rank::Nine => 7,
            Rank::Ten => 8,
            Rank::Jack => 9,
            Rank::Queen => 10,
            Rank::King => 11,
            Rank::Ace => 12,
        }
    }

    /// Jack, Queen, King and Ace are the face cards.
    pub open spec fn spec_is_face(self) -> bool {
        self.spec_value() >= Rank::Jack.spec_value()
    }

    pub fn value(self) -> (v: u8)
        ensures
            v as int == self.spec_value(),
    {
        match self {
            Rank::Two => 0,
            Rank::Three => 1,
            Rank::Four => 2,
            Rank::Five => 3,
            Rank::Six => 4,
            Rank::Seven => 5,
            Rank::Eight => 6,
            Rank::Nine => 7,
            Rank::Ten => 8,
            Rank::Jack => 9,
            Rank::Queen => 10,
            Rank::King => 11,
            Rank::Ace => 12,
        }
    }

    pub fn all() -> (r: [Rank; 13])
        ensures
            r@ =~= seq![
                Rank::Two,
                Rank::Three,
                Rank::Four,
                Rank::Five,
                Rank::Six,
                Rank::Seven,
                Rank::Eight,
                Rank::Nine,
                Rank::Ten,
                Rank::Jack,
                Rank::Queen,
                Rank::King,
                Rank::Ace,
            ],
    {
        [
            Rank::Two,
            Rank::Three,
            Rank::Four,
            Rank::Five,
            Rank::Six,
            Rank::Seven,
            Rank::Eight,
            Rank::Nine,
            Rank::Ten,
            Rank::Jack,
            Rank::Queen,
            Rank::King,
            Rank::Ace,
        ]
    }
}

/// An immutable (suit, rank) pair; a copyable value equal by both fields.
#[derive(Debug, Clone, Copy, PartialEq, Eq, Structural)]
pub struct Card {
    pub suit: Suit,
    pub rank: Rank,
}

impl Card {
    pub fn new(suit: Suit, rank: Rank) -> (c: Card)
        ensures
            c == (Card { suit, rank }),
    {
        Card { suit, rank }
    }

    pub fn get_suit(self) -> (s: Suit)
        ensures
            s == self.suit,
    {
        self.suit
    }

    pub fn get_rank(self) -> (r: Rank)
        ensures
            r == self.rank,
    {
        self.rank
    }
}

} // verus!
