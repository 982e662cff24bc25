//! The deck of fifty-two cards, sorted and shuffled.

use crate::card::{Card, Suit, ACE, KING};
use rand::seq::SliceRandom;
use vstd::prelude::*;

verus! {

/// Number of cards of a deck.
pub const DECK_SIZE: usize = 52;

/// Number of cards of one suit.
pub const SUIT_SIZE: usize = 13;

/// The suits in the order in which a sorted deck has them.
pub open spec fn suit_at(index: int) -> Suit {
    if index == 0 {
        Suit::Club
    } else if index == 1 {
        Suit::Diamond
    } else if index == 2 {
        Suit::Heart
    } else {
        Suit::Spade
    }
}

/// The place of a suit in a sorted deck: the inverse of [`suit_at`].
pub open spec fn suit_index(suit: Suit) -> int {
    match suit {
        Suit::Club => 0,
        Suit::Diamond => 1,
        Suit::Heart => 2,
        Suit::Spade => 3,
    }
}

/// The card at a place of a sorted deck.
pub open spec fn sorted_card(index: int) -> Card {
    Card { number: (index % 13 + 1) as u32, suit: suit_at(index / 13) }
}

/// The deck suit by suit, each suit from its ace to its king.
pub open spec fn sorted_deck() -> Seq<Card> {
    Seq::new(DECK_SIZE as nat, |index: int| sorted_card(index))
}

/// A full deck holds the cards of a sorted deck, each as often as the
/// sorted deck does, in any order.
pub open spec fn is_full_deck(deck: Seq<Card>) -> bool {
    deck.to_multiset() == sorted_deck().to_multiset()
}

/// A sorted deck has no card twice, and has every card from ace to king
/// of every suit.
pub proof fn lemma_sorted_deck()
    ensures
        sorted_deck().no_duplicates(),
        forall|card: Card| card.in_deck() <==> sorted_deck().contains(card),
{
    let deck = sorted_deck();
    assert forall|card: Card| card.in_deck() implies deck.contains(card) by {
        let index = suit_index(card.suit) * 13 + card.number - 1;
        assert(deck[index] == card);
    }
}

/// A full deck has fifty-two cards, none of them twice, and every card
/// from ace to king of every suit exactly once.
pub proof fn lemma_full_deck(deck: Seq<Card>)
    requires
        is_full_deck(deck),
    ensures
        deck.len() == DECK_SIZE,
        deck.no_duplicates(),
        forall|card: Card| card.in_deck() <==> deck.contains(card),
        forall|card: Card| card.in_deck() ==> deck.to_multiset().count(card) == 1,
{
    let sorted = sorted_deck();
    lemma_sorted_deck();
    sorted.lemma_multiset_has_no_duplicates();
    deck.to_multiset_ensures();
    sorted.to_multiset_ensures();
    deck.lemma_multiset_has_no_duplicates_conv();
    assert forall|card: Card| card.in_deck() <==> deck.contains(card) by {
        assert(sorted.contains(card) <==> sorted.to_multiset().count(card) > 0);
    }
}

fn suit_of_index(index: usize) -> (suit: Suit)
    ensures
        suit == suit_at(index as int),
{
    if index == 0 {
        Suit::Club
    } else if index == 1 {
        Suit::Diamond
    } else if index == 2 {
        Suit::Heart
    } else {
        Suit::Spade
    }
}

/// Makes a sorted deck.
pub fn generate_sorted_deck() -> (deck: Vec<Card>)
    ensures
        deck@ == sorted_deck(),
{
    let mut deck: Vec<Card> = Vec::new();
    let mut suit_index: usize = 0;
    while suit_index < 4
        invariant
            suit_index <= 4,
            deck@.len() == suit_index * 13,
            forall|i: int| 0 <= i < deck@.len() ==> deck@[i] == sorted_card(i),
        decreases 4 - suit_index,
    {
        let suit = suit_of_index(suit_index);
        let mut number: u32 = ACE;
        while number <= KING
            invariant
                ACE <= number <= KING + 1,
                suit_index < 4,
                suit == suit_at(suit_index as int),
                deck@.len() == suit_index * 13 + number - 1,
                forall|i: int| 0 <= i < deck@.len() ==> deck@[i] == sorted_card(i),
            decreases KING + 1 - number,
        {
            deck.push(Card::new(number, suit));
            number += 1;
        }
        suit_index += 1;
    }
    deck
}

/// `rand::rngs::ThreadRng`, the random number generator of a thread.
/// It is handed on as it is; nothing is known of what is inside.
#[verifier::external_type_specification]
#[verifier::external_body]
pub struct ExThreadRng(rand::rngs::ThreadRng);

/// Calls `rand::thread_rng`, which hands out the random number
/// generator of the current thread. Nothing is claimed of it. The call
/// ends the program where the operating system gives no randomness to
/// start the generator with.
#[verifier::external_body]
fn thread_rng() -> rand::rngs::ThreadRng {
    rand::thread_rng()
}

/// Calls `rand::seq::SliceRandom::shuffle` on the cards. The claim is
/// that shuffling only reorders: it swaps cards among themselves, so
/// afterwards the same cards are there, each as often as before. Which
/// order comes out is left open.
#[verifier::external_body]
fn shuffle(deck: &mut Vec<Card>, rng: &mut rand::rngs::ThreadRng)
    ensures
        final(deck)@.to_multiset() == old(deck)@.to_multiset(),
{
    deck.shuffle(rng)
}

/// Makes a full deck in random order.
pub fn generate_card_deck() -> (deck: Vec<Card>)
    ensures
        is_full_deck(deck@),
{
    let mut rng = thread_rng();
    let mut deck = generate_sorted_deck();
    shuffle(&mut deck, &mut rng);
    deck
}

} // verus!
