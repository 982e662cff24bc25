//! Rule engine of a Klondike solitaire game: the board, how a game is set
//! up, and what each click does to the board.

pub mod board;
pub mod card;
pub mod deck;
pub mod ident;
pub mod moves;
pub mod playing_area;
pub mod selection;
pub mod setup;
pub mod slot;
pub mod stack;

pub use board::{Board, SUIT_COUNT};
pub use card::{Card, Color, Suit, ACE, KING};
pub use deck::{generate_card_deck, generate_sorted_deck, DECK_SIZE};
pub use ident::{get_coords_from_id, ClickTarget, DecodeError, COLUMNS, ROWS};
pub use moves::{
    ace_click, alternating, click_element, debug_delete_selection, deck_click, decreasing,
    playing_area_clicked, return_click, stack_click, ClickError,
};
pub use playing_area::PlayingArea;
pub use selection::{Origin, Selection};
pub use setup::{
    generate_aces, generate_selection_slots, generate_starting_board, start, start_with, DEALT,
};
pub use slot::{slots_to_cards, Slot, SlotState};
pub use stack::{Stack, STACK_SIZE};
