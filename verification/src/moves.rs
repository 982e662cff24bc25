//! What a click does to the board.

use crate::board::{Board, BoardView};
use crate::card::{Card, Suit, ACE};
use crate::ident::{
    ace_index_of, click_target, coords_of_id, decode_ace_index, decode_click_target,
    get_coords_from_id, ClickTarget, DecodeError, COLUMNS, ROWS,
};
use crate::playing_area::{blank_from, laid, laid_at_id, resolve_all};
use crate::selection::{lemma_clear, lemma_set_contents, Origin, OriginView};
use crate::slot::{cards_of, lemma_some_card, Slot, SlotState, SlotView};
use crate::stack::{showing, StackView};
use vstd::prelude::*;
use vstd::string::StringExecFns;

verus! {

/// Why a click was not carried out. A move that the rules do not allow
/// is no error: it leaves the board as it is.
#[derive(Clone, Copy, Debug, PartialEq, Eq, Structural)]
pub enum ClickError {
    /// The identifier of the clicked element could not be read.
    Decode(DecodeError),
    /// The board is not well formed.
    MalformedBoard,
    /// The draw pile is used up, and dealing the waste pile anew is not
    /// provided for.
    NotImplemented,
}

/// The card at `i` differs in color from the card before it.
pub open spec fn changes_color_at(cards: Seq<Card>, i: int) -> bool {
    cards[i - 1].color() != cards[i].color()
}

/// The card at `i` is one rank below the card before it.
pub open spec fn steps_down_at(cards: Seq<Card>, i: int) -> bool {
    cards[i - 1].number == cards[i].number + 1
}

/// Neighbouring cards differ in color.
pub open spec fn is_alternating(cards: Seq<Card>) -> bool {
    forall|i: int| 0 < i < cards.len() ==> #[trigger] changes_color_at(cards, i)
}

/// Each card is one rank below the card before it.
pub open spec fn is_decreasing(cards: Seq<Card>) -> bool {
    forall|i: int| 0 < i < cards.len() ==> #[trigger] steps_down_at(cards, i)
}

/// Whether neighbouring cards differ in color.
pub fn alternating(list: &[Card]) -> (ok: bool)
    ensures
        ok == is_alternating(list@),
{
    let mut i: usize = 1;
    while i < list.len()
        invariant
            1 <= i,
            forall|k: int| 0 < k < i && k < list@.len() ==> #[trigger] changes_color_at(list@, k),
        decreases list@.len() - i,
    {
        if list[i - 1].get_color() == list[i].get_color() {
            assert(!changes_color_at(list@, i as int));
            return false;
        }
        i += 1;
    }
    true
}

/// Whether each card is one rank below the card before it.
pub fn decreasing(list: &[Card]) -> (ok: bool)
    ensures
        ok == is_decreasing(list@),
{
    let mut i: usize = 1;
    while i < list.len()
        invariant
            1 <= i,
            forall|k: int| 0 < k < i && k < list@.len() ==> #[trigger] steps_down_at(list@, k),
        decreases list@.len() - i,
    {
        let upper = list[i - 1].get_number();
        if upper == 0 || upper - 1 != list[i].get_number() {
            assert(!steps_down_at(list@, i as int));
            return false;
        }
        i += 1;
    }
    true
}

/// Whether a card may be laid at a slot of the playing area: at the top
/// of a column, or on a card that it stacks on.
pub open spec fn can_lay_at(area: Seq<Seq<SlotView>>, column: int, row: int, card: Card) -> bool {
    row == 0 || (area[column][row - 1].state matches SlotState::Occupied(top) && card.stacks_on(top))
}

/// The board after the run that starts at a slot was lifted into the
/// selection.
pub open spec fn lifted(board: BoardView, column: int, row: int) -> BoardView {
    BoardView {
        selection: board.selection.set_contents(
            OriginView::PlayingAreaId(board.playing_area[column][row].id),
            cards_of(board.playing_area[column].skip(row)),
        ),
        playing_area: resolve_all(
            board.playing_area.update(column, blank_from(board.playing_area[column], row)),
        ),
        ..board
    }
}

/// The board after the selected cards were laid at a slot and below it.
pub open spec fn laid_down(board: BoardView, column: int, row: int) -> BoardView {
    BoardView {
        selection: board.selection.clear(),
        playing_area: resolve_all(
            board.playing_area.update(
                column,
                laid(board.playing_area[column], row, board.selection.cards()),
            ),
        ),
        ..board
    }
}

/// The board after a click on a slot of the playing area.
///
/// On a card, with nothing selected: the cards from there down are
/// lifted, if they alternate in color and fall in rank one by one.
/// On an empty slot, with cards selected: the cards are laid there, if
/// the first of them may lie there and all of them fit into the column.
/// In every other case the board stays as it is.
pub open spec fn area_clicked(board: BoardView, column: int, row: int) -> BoardView {
    let run = cards_of(board.playing_area[column].skip(row));
    let cards = board.selection.cards();
    match board.playing_area[column][row].state {
        SlotState::Occupied(_) => if board.selection.origin is Nowhere && is_alternating(run)
            && is_decreasing(run) {
            lifted(board, column, row)
        } else {
            board
        },
        SlotState::Empty => if !(board.selection.origin is Nowhere) && can_lay_at(
            board.playing_area,
            column,
            row,
            cards[0],
        ) && row + cards.len() <= ROWS {
            laid_down(board, column, row)
        } else {
            board
        },
        SlotState::Blank => board,
    }
}

/// What a click on the element of the playing area with an identifier
/// gives: the board after the click, or why the identifier is not one.
pub open spec fn playing_area_click_result(board: BoardView, id: Seq<char>) -> Result<
    BoardView,
    ClickError,
> {
    match coords_of_id(id) {
        Ok((column, row)) => Ok(area_clicked(board, column as int, row as int)),
        Err(error) => Err(ClickError::Decode(error)),
    }
}

/// The view of what a click gives.
pub open spec fn result_view(result: Result<Board, ClickError>) -> Result<BoardView, ClickError> {
    match result {
        Ok(board) => Ok(board@),
        Err(error) => Err(error),
    }
}

/// Lifting a run leaves the board well formed.
pub proof fn lemma_lifted_wf(board: BoardView, column: int, row: int)
    requires
        board.wf(),
        0 <= column < COLUMNS,
        0 <= row < ROWS,
        board.playing_area[column][row].state is Occupied,
        board.selection.origin is Nowhere,
    ensures
        lifted(board, column, row).wf(),
        lifted(board, column, row).selection.cards() == cards_of(board.playing_area[column].skip(row)),
{
    let below = board.playing_area[column].skip(row);
    let run = cards_of(below);
    lemma_some_card(below, 0);
    lemma_set_contents(
        board.selection,
        OriginView::PlayingAreaId(board.playing_area[column][row].id),
        run,
    );
}

/// Laying the selected cards down leaves the board well formed.
pub proof fn lemma_laid_down_wf(board: BoardView, column: int, row: int)
    requires
        board.wf(),
        0 <= column < COLUMNS,
    ensures
        laid_down(board, column, row).wf(),
{
    lemma_clear(board.selection);
}

/// Handles a click on a slot of the playing area.
pub fn playing_area_clicked(old_state: Board, id: &str) -> (clicked: Result<Board, ClickError>)
    requires
        old_state@.wf(),
    ensures
        result_view(clicked) == playing_area_click_result(old_state@, id@),
        clicked matches Ok(new_state) ==> new_state@.wf(),
{
    let mut new_state = old_state;
    let (column, row) = match get_coords_from_id(id) {
        Ok(coords) => coords,
        Err(error) => {
            return Err(ClickError::Decode(error));
        },
    };
    let state = *new_state.playing_area.slot_at(column, row).get_state();
    match state {
        SlotState::Occupied(_) => {
            if !new_state.selection.get_origin().is_none() {
                return Ok(new_state);
            }
            let selection = new_state.playing_area.cards_from(column, row);
            if !alternating(selection.as_slice()) || !decreasing(selection.as_slice()) {
                return Ok(new_state);
            }
            let origin = Origin::PlayingAreaId(
                String::from_str(new_state.playing_area.slot_at(column, row).get_id()),
            );
            proof {
                lemma_lifted_wf(old_state@, column as int, row as int);
            }
            new_state.selection.set_contents(origin, selection);
            new_state.playing_area.clear_from(column, row);
            new_state.playing_area.update_empty_slots();
        },
        SlotState::Empty => {
            if new_state.selection.get_origin().is_none() {
                return Ok(new_state);
            }
            let cards = new_state.selection.get_cards();
            let allowed = row == 0 || match *new_state.playing_area.slot_at(
                column,
                row - 1,
            ).get_state() {
                SlotState::Occupied(top) => top.get_color() != cards[0].get_color()
                    && top.get_number() > 0 && top.get_number() - 1 == cards[0].get_number(),
                _ => false,
            };
            if !allowed || cards.len() > ROWS - row {
                return Ok(new_state);
            }
            proof {
                lemma_laid_down_wf(old_state@, column as int, row as int);
            }
            new_state.playing_area.add_at_coord(column, row, &cards);
            new_state.selection.clear();
            new_state.playing_area.update_empty_slots();
        },
        SlotState::Blank => {},
    }
    Ok(new_state)
}

/// How many cards one click draws at most.
pub const DRAW_COUNT: usize = 3;

/// The slot that stands for the draw pile once it is used up.
pub open spec fn deck_marker() -> SlotView {
    SlotView { id: "deck0"@, state: SlotState::Empty }
}

/// The number of cards that a click on the draw pile draws: three, or
/// as many as are left.
pub open spec fn draw_count(board: BoardView) -> int {
    if board.available_cards.len() < DRAW_COUNT {
        board.available_cards.len() as int
    } else {
        DRAW_COUNT as int
    }
}

/// The board after a draw. The end of the draw pile moves on top of the
/// waste pile, the last card of the draw pile lowest, so that the card
/// drawn last is the top of the waste pile. A draw pile that is used up
/// gives way to its marker.
pub open spec fn drawn(board: BoardView) -> BoardView {
    let left = board.available_cards.len() - draw_count(board);
    let contents = board.available_cards.skip(left) + board.stack.contents;
    BoardView {
        available_cards: board.available_cards.take(left),
        deck: if left == 0 {
            Some(deck_marker())
        } else {
            None
        },
        stack: StackView { slots: showing(board.stack.slots, contents), contents },
        ..board
    }
}

/// What a click on the draw pile gives: a draw, as long as the draw
/// pile has not given way to its marker.
pub open spec fn deck_click_result(board: BoardView) -> Result<BoardView, ClickError> {
    if board.deck is Some {
        Err(ClickError::NotImplemented)
    } else {
        Ok(drawn(board))
    }
}

/// The board after a click on the waste pile: its top card is
/// selected, unless cards are selected already or the pile has none.
pub open spec fn stack_clicked(board: BoardView) -> BoardView {
    if board.selection.origin is Nowhere && board.stack.contents.len() > 0 {
        BoardView {
            stack: board.stack.pop(),
            selection: board.selection.set_contents(
                OriginView::Stack,
                seq![board.stack.contents[0]],
            ),
            ..board
        }
    } else {
        board
    }
}

/// The board after the selected cards went back to where they came
/// from: a run to its slot of the playing area, a single card on top of
/// the waste pile. With nothing selected the board stays as it is.
pub open spec fn returned(board: BoardView) -> BoardView {
    match board.selection.origin {
        OriginView::Nowhere => board,
        OriginView::PlayingAreaId(id) => BoardView {
            playing_area: resolve_all(laid_at_id(board.playing_area, id, board.selection.cards())),
            selection: board.selection.clear(),
            ..board
        },
        _ => BoardView {
            stack: board.stack.push(board.selection.cards()[0]),
            selection: board.selection.clear(),
            ..board
        },
    }
}

/// Whether an ace pile takes a card: an empty pile takes an ace, a pile
/// with cards takes the next card of its suit.
pub open spec fn pile_accepts(pile: SlotState, card: Card) -> bool {
    match pile {
        SlotState::Empty => card.number == ACE,
        SlotState::Occupied(top) => card.follows_in_suit(top),
        SlotState::Blank => false,
    }
}

/// The rule of the ace piles: an empty pile takes the ace of any suit
/// and no other card; a pile with cards takes the card of the suit of
/// its top card that is one rank higher, and no other; a blank pile
/// takes nothing.
pub proof fn lemma_pile_rule(top: Card, card: Card, suit: Suit)
    ensures
        pile_accepts(SlotState::Empty, Card { number: ACE, suit }),
        pile_accepts(SlotState::Empty, card) <==> card.number == ACE,
        pile_accepts(SlotState::Occupied(top), card) <==> card.suit == top.suit && card.number
            == top.number + 1,
        !pile_accepts(SlotState::Blank, card),
{
}

/// The board after a click on the ace pile with an index: a single
/// selected card goes on the pile, if the pile takes it.
pub open spec fn ace_clicked(board: BoardView, index: int) -> BoardView {
    let cards = board.selection.cards();
    if cards.len() == 1 && pile_accepts(board.aces[index].state, cards[0]) {
        BoardView {
            aces: board.aces.update(
                index,
                board.aces[index].with_state(SlotState::Occupied(cards[0])),
            ),
            selection: board.selection.clear(),
            ..board
        }
    } else {
        board
    }
}

/// What a click on the ace pile that a character names gives.
pub open spec fn ace_click_result(board: BoardView, id: char) -> Result<BoardView, ClickError> {
    match ace_index_of(id) {
        Some(index) => Ok(ace_clicked(board, index as int)),
        None => Err(ClickError::Decode(DecodeError::InvalidIndex)),
    }
}

/// The board with nothing selected, whatever was selected before.
pub open spec fn without_selection(board: BoardView) -> BoardView {
    BoardView { selection: board.selection.clear(), ..board }
}

/// What a click on the element with an identifier gives.
pub open spec fn click_result(id: Seq<char>, board: BoardView) -> Result<BoardView, ClickError> {
    if !board.wf() {
        Err(ClickError::MalformedBoard)
    } else {
        match click_target(id) {
            Ok(ClickTarget::PlayingArea) => playing_area_click_result(board, id),
            Ok(ClickTarget::Deck) => deck_click_result(board),
            Ok(ClickTarget::Return) => Ok(returned(board)),
            Ok(ClickTarget::Stack) => Ok(stack_clicked(board)),
            Ok(ClickTarget::Ace(index)) => ace_click_result(board, index),
            Err(error) => Err(ClickError::Decode(error)),
        }
    }
}

/// Handles a click on an ace pile: puts the selected card on it.
pub fn ace_click(old_state: Board, id: char) -> (clicked: Result<Board, ClickError>)
    requires
        old_state@.wf(),
    ensures
        result_view(clicked) == ace_click_result(old_state@, id),
        clicked matches Ok(new_state) ==> new_state@.wf(),
{
    let mut new_state = old_state;
    let index = match decode_ace_index(id) {
        Some(index) => index,
        None => {
            return Err(ClickError::Decode(DecodeError::InvalidIndex));
        },
    };
    let cards = new_state.selection.get_cards();
    if cards.len() != 1 {
        return Ok(new_state);
    }
    let card = cards[0];
    let accepted = match *new_state.aces[index].get_state() {
        SlotState::Empty => card.get_number() == ACE,
        SlotState::Occupied(top) => card.get_suit() == top.get_suit() && card.get_number() > 0
            && card.get_number() - 1 == top.get_number(),
        SlotState::Blank => false,
    };
    if accepted {
        new_state.aces[index].set_state(SlotState::Occupied(card));
        new_state.selection.clear();
        proof {
            lemma_clear(old_state@.selection);
            assert(new_state@.aces =~= old_state@.aces.update(
                index as int,
                old_state@.aces[index as int].with_state(SlotState::Occupied(card)),
            ));
        }
    }
    Ok(new_state)
}

/// Handles a click on the waste pile: selects its top card.
pub fn stack_click(old_state: Board) -> (new_state: Board)
    requires
        old_state@.wf(),
    ensures
        new_state@ == stack_clicked(old_state@),
        new_state@.wf(),
{
    let mut new_state = old_state;
    if !new_state.selection.get_origin().is_none() || new_state.stack.is_empty() {
        return new_state;
    }
    let card = new_state.stack.pop();
    let mut cards: Vec<Card> = Vec::new();
    cards.push(card);
    proof {
        lemma_set_contents(old_state@.selection, OriginView::Stack, cards@);
    }
    new_state.selection.set_contents(Origin::Stack, cards);
    new_state
}

/// Handles a click on the way back: the selected cards return to
/// where they came from.
pub fn return_click(old_state: Board) -> (new_state: Board)
    requires
        old_state@.wf(),
    ensures
        new_state@ == returned(old_state@),
        new_state@.wf(),
        old_state@.selection.origin is Nowhere ==> new_state == old_state,
{
    let mut new_state = old_state;
    if new_state.selection.get_origin().is_none() {
        return new_state;
    }
    let cards = new_state.selection.get_cards();
    match new_state.selection.get_origin() {
        Origin::PlayingAreaId(id) => {
            let _ = new_state.playing_area.add_at_id(id.clone(), cards);
            new_state.playing_area.update_empty_slots();
        },
        _ => {
            new_state.stack.push(cards[0]);
        },
    }
    new_state.selection.clear();
    proof {
        lemma_clear(old_state@.selection);
    }
    new_state
}

/// Handles a click on the draw pile: draws up to three cards onto the
/// waste pile.
pub fn deck_click(old_state: Board) -> (clicked: Result<Board, ClickError>)
    requires
        old_state@.wf(),
    ensures
        result_view(clicked) == deck_click_result(old_state@),
        clicked matches Ok(new_state) ==> new_state@.wf(),
{
    let mut new_state = old_state;
    if new_state.deck.is_some() {
        return Err(ClickError::NotImplemented);
    }
    let ghost total = old_state@.available_cards.len() as int;
    let mut count: usize = 0;
    while count < DRAW_COUNT && new_state.available_cards.len() > 0
        invariant
            count <= DRAW_COUNT,
            count <= total,
            total == old_state@.available_cards.len(),
            new_state.deck is None,
            new_state.selection == old_state.selection,
            new_state.playing_area == old_state.playing_area,
            new_state.aces == old_state.aces,
            new_state.available_cards@ == old_state@.available_cards.take(total - count),
            new_state.stack@.contents == old_state@.available_cards.skip(total - count)
                + old_state@.stack.contents,
            new_state.stack@.slots == showing(old_state@.stack.slots, new_state.stack@.contents),
            new_state.stack@.wf(),
        decreases DRAW_COUNT - count,
    {
        let card = new_state.available_cards.pop().unwrap();
        new_state.stack.push(card);
        count += 1;
    }
    if new_state.available_cards.len() == 0 {
        new_state.deck = Some(Slot::new(String::from_str("deck0"), SlotState::Empty));
    }
    Ok(new_state)
}

/// Clears the selection without putting its cards anywhere. Meant for
/// trying things out, not for play: the cards are gone from the board.
pub fn debug_delete_selection(board_state: Board) -> (board: Board)
    ensures
        board@ == without_selection(board_state@),
        board_state@.wf() ==> board@.wf(),
{
    let mut board = board_state;
    board.selection.clear();
    proof {
        lemma_clear(board_state@.selection);
    }
    board
}

/// Carries out a click on the element with an identifier, on a board
/// that need not be well formed.
pub fn click_element(id: &str, board_state: Board) -> (clicked: Result<Board, ClickError>)
    ensures
        result_view(clicked) == click_result(id@, board_state@),
        clicked matches Ok(new_state) ==> new_state@.wf(),
{
    if !board_state.is_well_formed() {
        return Err(ClickError::MalformedBoard);
    }
    match decode_click_target(id) {
        Ok(ClickTarget::PlayingArea) => playing_area_clicked(board_state, id),
        Ok(ClickTarget::Deck) => deck_click(board_state),
        Ok(ClickTarget::Return) => Ok(return_click(board_state)),
        Ok(ClickTarget::Stack) => Ok(stack_click(board_state)),
        Ok(ClickTarget::Ace(index)) => ace_click(board_state, index),
        Err(error) => Err(ClickError::Decode(error)),
    }
}

} // verus!
