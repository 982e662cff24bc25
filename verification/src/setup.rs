//! How a game starts: the cards are dealt into the playing area, and
//! the rest of the board is laid out empty.

use crate::board::{Board, BoardView, SUIT_COUNT};
use crate::card::Card;
use crate::deck::{generate_card_deck, is_full_deck, lemma_full_deck, DECK_SIZE};
use crate::ident::{
    make_numbered_id, make_playing_area_id, numbered_id, playing_area_id, COLUMNS, ROWS,
};
use crate::playing_area::{area_wf, PlayingArea};
use crate::selection::{Origin, Selection, SelectionView};
use crate::slot::{
    cards_of, lemma_all_cards, lemma_cards_of_add, lemma_no_cards, slot_views, Slot, SlotState,
    SlotView,
};
use crate::stack::{Stack, StackView};
use vstd::prelude::*;

verus! {

/// Number of cards that are dealt into the playing area.
pub const DEALT: usize = 28;

/// The number of cards that lie in the columns before a column: the
/// first column gets one card, each further column one more.
pub open spec fn dealt_before(column: int) -> int
    decreases column,
{
    if column <= 0 {
        0
    } else {
        dealt_before(column - 1) + column
    }
}

/// The draw pile that is left of a deck once the playing area is dealt.
pub open spec fn left_after(deck: Seq<Card>, dealt: int) -> Seq<Card> {
    if dealt <= deck.len() {
        deck.take(deck.len() - dealt)
    } else {
        Seq::empty()
    }
}

/// The state in which a slot of the playing area starts. Cards are
/// dealt from the end of the deck, column by column and from the top of
/// each column down. The column with index `c` gets `c + 1` cards; the
/// slot below them is empty, and the slots further down are blank.
/// Where the deck runs out, a slot that would get a card is empty.
pub open spec fn dealt_state(deck: Seq<Card>, column: int, row: int) -> SlotState {
    if row <= column {
        let count = dealt_before(column) + row;
        if count < deck.len() {
            SlotState::Occupied(deck[deck.len() - 1 - count])
        } else {
            SlotState::Empty
        }
    } else if row == column + 1 {
        SlotState::Empty
    } else {
        SlotState::Blank
    }
}

/// A column of the playing area as a game starts with it.
pub open spec fn dealt_column(deck: Seq<Card>, column: int) -> Seq<SlotView> {
    Seq::new(
        ROWS as nat,
        |row: int| SlotView { id: playing_area_id(column, row), state: dealt_state(deck, column, row) },
    )
}

/// The playing area as a game starts with it.
pub open spec fn dealt_area(deck: Seq<Card>) -> Seq<Seq<SlotView>> {
    Seq::new(COLUMNS as nat, |column: int| dealt_column(deck, column))
}

/// The name of the ace piles.
pub open spec fn ace_pile_name() -> Seq<char> {
    "ace"@
}

/// The ace piles as a game starts with them: all empty.
pub open spec fn fresh_aces() -> Seq<SlotView> {
    Seq::new(
        SUIT_COUNT as nat,
        |i: int| SlotView { id: numbered_id(ace_pile_name(), i as nat), state: SlotState::Empty },
    )
}

/// The board with which a game on a given deck starts.
pub open spec fn initial_board(deck: Seq<Card>) -> BoardView {
    BoardView {
        available_cards: left_after(deck, DEALT as int),
        deck: None,
        stack: StackView::fresh(),
        selection: SelectionView::fresh(COLUMNS as nat),
        playing_area: dealt_area(deck),
        aces: fresh_aces(),
    }
}

/// The number of cards that lie in a playing area.
pub open spec fn card_count(area: Seq<Seq<SlotView>>) -> nat
    decreases area.len(),
{
    if area.len() == 0 {
        0
    } else {
        card_count(area.drop_last()) + cards_of(area.last()).len()
    }
}

/// Twenty-eight cards are dealt in all.
pub proof fn lemma_dealt_in_all()
    ensures
        dealt_before(COLUMNS as int) == DEALT,
{
    reveal_with_fuel(dealt_before, 8);
}

/// With a deck of at least twenty-eight cards, the column with index
/// `c` starts with cards in its first `c + 1` slots, an empty slot
/// below them and blank slots further down; so it holds `c + 1` cards.
pub proof fn lemma_dealt_column(deck: Seq<Card>, column: int)
    requires
        deck.len() >= DEALT,
        0 <= column < COLUMNS,
    ensures
        forall|row: int|
            0 <= row < ROWS ==> (#[trigger] dealt_column(deck, column)[row]).state is Occupied == (row
                <= column),
        dealt_column(deck, column)[column + 1].state is Empty,
        forall|row: int|
            column + 1 < row < ROWS ==> (#[trigger] dealt_column(deck, column)[row]).state is Blank,
        cards_of(dealt_column(deck, column)).len() == column + 1,
{
    reveal_with_fuel(dealt_before, 8);
    let slots = dealt_column(deck, column);
    let front = slots.take(column + 1);
    let back = slots.skip(column + 1);
    let cards = Seq::new(
        (column + 1) as nat,
        |row: int| deck[deck.len() - 1 - (dealt_before(column) + row)],
    );
    assert(slots =~= front + back);
    lemma_cards_of_add(front, back);
    lemma_all_cards(front, cards);
    lemma_no_cards(back);
}

/// A game on a deck of fifty-two cards starts with twenty-eight cards
/// in the playing area and twenty-four in the draw pile.
pub proof fn lemma_initial_counts(deck: Seq<Card>)
    requires
        deck.len() == DECK_SIZE,
    ensures
        card_count(initial_board(deck).playing_area) == DEALT,
        initial_board(deck).available_cards.len() == DECK_SIZE - DEALT,
{
    let area = dealt_area(deck);
    reveal_with_fuel(dealt_before, 8);
    assert forall|n: int| 0 <= n <= COLUMNS implies card_count(#[trigger] area.take(n))
        == dealt_before(n) by {
        lemma_count_of_columns(deck, n);
    }
    assert(area.take(COLUMNS as int) =~= area);
}

proof fn lemma_count_of_columns(deck: Seq<Card>, n: int)
    requires
        deck.len() >= DEALT,
        0 <= n <= COLUMNS,
    ensures
        card_count(dealt_area(deck).take(n)) == dealt_before(n),
    decreases n,
{
    let area = dealt_area(deck);
    if n > 0 {
        lemma_count_of_columns(deck, n - 1);
        lemma_dealt_column(deck, n - 1);
        assert(area.take(n).drop_last() =~= area.take(n - 1));
    }
}

/// A game on a deck that leaves cards for the draw pile starts on a
/// well-formed board.
pub proof fn lemma_initial_board_wf(deck: Seq<Card>)
    requires
        deck.len() > DEALT,
    ensures
        initial_board(deck).wf(),
{
    let board = initial_board(deck);
    assert(board.stack.slots =~= crate::stack::showing(board.stack.slots, board.stack.contents));
    lemma_no_cards(board.selection.contents);
}

/// Deals the playing area from the end of the deck.
pub fn generate_starting_board(deck: &mut Vec<Card>) -> (area: PlayingArea)
    ensures
        area@ == dealt_area(old(deck)@),
        final(deck)@ == left_after(old(deck)@, DEALT as int),
        area_wf(area@),
{
    let mut columns: Vec<Vec<Slot>> = Vec::new();
    let mut column_index: usize = 0;
    while column_index < COLUMNS
        invariant
            column_index <= COLUMNS,
            columns@.len() == column_index,
            dealt_before(column_index as int) >= 0,
            deck@ == left_after(old(deck)@, dealt_before(column_index as int)),
            forall|c: int|
                0 <= c < column_index ==> slot_views(#[trigger] columns@[c]@) == dealt_column(
                    old(deck)@,
                    c,
                ),
        decreases COLUMNS - column_index,
    {
        let mut column: Vec<Slot> = Vec::new();
        let mut row_index: usize = 0;
        while row_index < ROWS
            invariant
                row_index <= ROWS,
                column_index < COLUMNS,
                column@.len() == row_index,
                dealt_before(column_index as int) >= 0,
                deck@ == left_after(
                    old(deck)@,
                    dealt_before(column_index as int) + if row_index <= column_index {
                        row_index as int
                    } else {
                        column_index + 1
                    },
                ),
                forall|r: int|
                    0 <= r < row_index ==> (#[trigger] column@[r])@ == dealt_column(
                        old(deck)@,
                        column_index as int,
                    )[r],
            decreases ROWS - row_index,
        {
            let id = make_playing_area_id(column_index, row_index);
            let state = if row_index <= column_index {
                SlotState::from(deck.pop())
            } else if row_index == column_index + 1 {
                SlotState::Empty
            } else {
                SlotState::Blank
            };
            column.push(Slot::new(id, state));
            row_index += 1;
        }
        columns.push(column);
        column_index += 1;
    }
    proof {
        lemma_dealt_in_all();
    }
    let area = PlayingArea::new(columns);
    area
}

/// Makes the selection of a new game: blank slots, nothing selected.
pub fn generate_selection_slots() -> (selection: Selection)
    ensures
        selection@ == SelectionView::fresh(COLUMNS as nat),
{
    let mut slots: Vec<Slot> = Vec::new();
    let mut i: usize = 0;
    while i < COLUMNS
        invariant
            i <= COLUMNS,
            slots@.len() == i,
            forall|k: int|
                0 <= k < i ==> (#[trigger] slots@[k])@ == SelectionView::fresh(
                    COLUMNS as nat,
                ).contents[k],
        decreases COLUMNS - i,
    {
        slots.push(Slot::new(make_numbered_id("selected", i), SlotState::Blank));
        i += 1;
    }
    let selection = Selection::new(Origin::Nowhere, slots);
    assert(selection@.contents =~= SelectionView::fresh(COLUMNS as nat).contents);
    selection
}

/// Makes the ace piles of a new game: one empty slot for each suit.
pub fn generate_aces() -> (aces: Vec<Slot>)
    ensures
        slot_views(aces@) == fresh_aces(),
{
    let mut aces: Vec<Slot> = Vec::new();
    let mut index: usize = 0;
    while index < SUIT_COUNT
        invariant
            index <= SUIT_COUNT,
            aces@.len() == index,
            forall|k: int| 0 <= k < index ==> (#[trigger] aces@[k])@ == fresh_aces()[k],
        decreases SUIT_COUNT - index,
    {
        aces.push(Slot::new(make_numbered_id("ace", index), SlotState::Empty));
        index += 1;
    }
    aces
}

/// Starts a game on a given deck, whose last card is dealt first. The
/// board is well formed if the deck leaves cards for the draw pile.
pub fn start_with(deck: Vec<Card>) -> (board: Board)
    ensures
        board@ == initial_board(deck@),
        deck@.len() > DEALT ==> board@.wf(),
{
    let mut available_cards = deck;
    let stack = Stack::new();
    let selection = generate_selection_slots();
    let playing_area = generate_starting_board(&mut available_cards);
    let aces = generate_aces();
    proof {
        if deck@.len() > DEALT {
            lemma_initial_board_wf(deck@);
        }
    }
    Board { available_cards, deck: None, stack, selection, playing_area, aces }
}

/// Starts a game on a full deck in random order: twenty-eight cards
/// lie in the playing area, twenty-four in the draw pile, and nothing
/// anywhere else.
pub fn start() -> (board: Board)
    ensures
        exists|deck: Seq<Card>| #[trigger] is_full_deck(deck) && board@ == initial_board(deck),
        board@.wf(),
        board@.available_cards.len() == DECK_SIZE - DEALT,
        card_count(board@.playing_area) == DEALT,
{
    let deck = generate_card_deck();
    proof {
        lemma_full_deck(deck@);
        lemma_initial_counts(deck@);
    }
    start_with(deck)
}

} // verus!
