//! Playing cards: rank, suit and the color that follows from the suit.

use vstd::prelude::*;

verus! {

/// Rank of the ace, the lowest card of a suit.
pub const ACE: u32 = 1;

/// Rank of the king, the highest card of a suit.
pub const KING: u32 = 13;

/// The color of a card.
#[derive(Clone, Copy, Debug, PartialEq, Eq, Structural)]
pub enum Color {
    Black,
    Red,
}

/// The suit of a card.
#[derive(Clone, Copy, Debug, PartialEq, Eq, Structural)]
pub enum Suit {
    Spade,
    Heart,
    Diamond,
    Club,
}

impl Suit {
    /// Spades and clubs are black, hearts and diamonds are red.
    pub open spec fn spec_color(self) -> Color {
        match self {
            Suit::Spade | Suit::Club => Color::Black,
            Suit::Heart | Suit::Diamond => Color::Red,
        }
    }

    /// The color of this suit.
    #[verifier::when_used_as_spec(spec_color)]
    pub fn color(self) -> (c: Color)
        ensures
            c == self.spec_color(),
    {
        match self {
            Suit::Spade | Suit::Club => Color::Black,
            Suit::Heart | Suit::Diamond => Color::Red,
        }
    }
}

impl Default for Suit {
    /// Spades, for where a suit is needed and none matters.
    fn default() -> (suit: Suit)
        ensures
            suit == Suit::Spade,
    {
        Suit::Spade
    }
}

impl Default for Color {
    /// Black, the color of the default suit.
    fn default() -> (color: Color)
        ensures
            color == Color::Black,
    {
        Color::Black
    }
}

/// A playing card. Its color is not stored: it is always the color of its
/// suit, so the two can never disagree.
#[derive(Clone, Copy, Debug, PartialEq, Eq, Structural)]
pub struct Card {
    /// The rank: 1 for the ace, up to 13 for the king.
    pub number: u32,
    pub suit: Suit,
}

impl Card {
    /// The color of the card, which is the color of its suit.
    pub open spec fn color(self) -> Color {
        self.suit.spec_color()
    }

    /// A card of a standard deck has a rank from ace to king.
    pub open spec fn in_deck(self) -> bool {
        ACE <= self.number <= KING
    }

    /// `self` may lie directly on `upper` in a run: it is one rank lower
    /// and of the other color.
    pub open spec fn stacks_on(self, upper: Card) -> bool {
        upper.color() != self.color() && upper.number == self.number + 1
    }

    /// `self` is the next card of the ascending suit run that `top` ends.
    pub open spec fn follows_in_suit(self, top: Card) -> bool {
        self.suit == top.suit && self.number == top.number + 1
    }

    /// A card of a rank and suit.
    pub fn new(number: u32, suit: Suit) -> (card: Card)
        ensures
            card == (Card { number, suit }),
    {
        Card { number, suit }
    }

    /// The color of the card.
    pub fn get_color(self) -> (color: Color)
        ensures
            color == self.color(),
    {
        self.suit.color()
    }

    /// The rank of the card: 1 for the ace, up to 13 for the king.
    pub fn get_number(self) -> (number: u32)
        ensures
            number == self.number,
    {
        self.number
    }

    /// The suit of the card.
    pub fn get_suit(self) -> (suit: Suit)
        ensures
            suit == self.suit,
    {
        self.suit
    }
}

impl Default for Card {
    /// A card of rank 0, which no deck has: for where a card is needed
    /// and none matters.
    fn default() -> (card: Card)
        ensures
            card == (Card { number: 0, suit: Suit::Spade }),
    {
        Card { number: 0, suit: Suit::Spade }
    }
}

} // verus!
