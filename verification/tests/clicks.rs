use solitaire::{
    ace_click, alternating, click_element, debug_delete_selection, deck_click, decreasing,
    generate_sorted_deck, playing_area_clicked, return_click, stack_click, start, start_with,
    Board, Card, ClickError, DecodeError, Origin, Slot, SlotState, Suit, COLUMNS, ROWS,
};

fn card(number: u32, suit: Suit) -> Card {
    Card::new(number, suit)
}

/// A board without cards: every column starts with an empty slot, and
/// the draw pile is used up.
fn bare_board() -> Board {
    let mut board = start_with(vec![]);
    board.deck = Some(Slot::new("deck0".to_string(), SlotState::Empty));
    for column in 0..COLUMNS {
        for row in 0..ROWS {
            board.playing_area.set_slot_state_at_coord(column, row, SlotState::Blank);
        }
    }
    board.playing_area.update_empty_slots();
    assert!(board.is_well_formed());
    board
}

/// A bare board with the given cards in one column, from the top down.
fn board_with_column(column: usize, cards: &[Card]) -> Board {
    let mut board = bare_board();
    board.playing_area.add_at_coord(column, 0, &cards.to_vec());
    board.playing_area.update_empty_slots();
    assert!(board.is_well_formed());
    board
}

fn states(board: &Board, column: usize) -> Vec<SlotState> {
    board.playing_area.get_columns()[column].iter().map(|slot| slot.state).collect()
}

fn column_of(cards: &[Card]) -> Vec<SlotState> {
    let mut expected = vec![SlotState::Blank; ROWS];
    for (row, card) in cards.iter().enumerate() {
        expected[row] = SlotState::Occupied(*card);
    }
    if cards.len() < ROWS {
        expected[cards.len()] = SlotState::Empty;
    }
    expected
}

#[test]
fn king_queen_jack_alternate_and_decrease() {
    let run = [card(13, Suit::Spade), card(12, Suit::Heart), card(11, Suit::Spade)];
    assert!(alternating(&run));
    assert!(decreasing(&run));
}

#[test]
fn two_spades_do_not_alternate() {
    let run = [card(13, Suit::Spade), card(12, Suit::Spade)];
    assert!(!alternating(&run));
    assert!(decreasing(&run));
}

#[test]
fn spade_and_club_do_not_alternate() {
    assert!(!alternating(&[card(5, Suit::Spade), card(4, Suit::Club)]));
    assert!(!alternating(&[card(5, Suit::Heart), card(4, Suit::Diamond)]));
    assert!(alternating(&[card(5, Suit::Heart), card(4, Suit::Club)]));
}

#[test]
fn a_gap_in_rank_does_not_decrease() {
    assert!(!decreasing(&[card(13, Suit::Spade), card(11, Suit::Heart)]));
    assert!(!decreasing(&[card(11, Suit::Spade), card(12, Suit::Heart)]));
    assert!(!decreasing(&[card(7, Suit::Spade), card(7, Suit::Heart)]));
    assert!(!decreasing(&[card(0, Suit::Spade), card(0, Suit::Heart)]));
}

#[test]
fn a_break_at_the_end_of_a_run_is_found() {
    let run = [
        card(9, Suit::Spade),
        card(8, Suit::Heart),
        card(7, Suit::Club),
        card(6, Suit::Club),
    ];
    assert!(!alternating(&run));
    assert!(decreasing(&run));
    let run = [card(9, Suit::Spade), card(8, Suit::Heart), card(6, Suit::Club)];
    assert!(alternating(&run));
    assert!(!decreasing(&run));
}

#[test]
fn single_card_and_no_card_pass_both_checks() {
    assert!(alternating(&[card(4, Suit::Club)]));
    assert!(decreasing(&[card(4, Suit::Club)]));
    assert!(alternating(&[]));
    assert!(decreasing(&[]));
}

#[test]
fn run_of_king_queen_jack_is_lifted() {
    let run = [card(13, Suit::Spade), card(12, Suit::Heart), card(11, Suit::Spade)];
    let board = board_with_column(0, &run);
    let board = playing_area_clicked(board, "a0").unwrap();
    assert_eq!(board.selection.get_cards(), run.to_vec());
    assert_eq!(board.selection.origin, Origin::PlayingAreaId("a0".to_string()));
    assert_eq!(states(&board, 0), column_of(&[]));
    assert!(board.is_well_formed());
}

#[test]
fn run_of_two_spades_is_not_lifted() {
    let run = [card(13, Suit::Spade), card(12, Suit::Spade)];
    let before = board_with_column(0, &run);
    let after = playing_area_clicked(before.clone(), "a0").unwrap();
    assert_eq!(after, before);
}

#[test]
fn run_with_a_gap_is_not_lifted() {
    let run = [card(13, Suit::Spade), card(11, Suit::Heart)];
    let before = board_with_column(3, &run);
    let after = playing_area_clicked(before.clone(), "d0").unwrap();
    assert_eq!(after, before);
}

#[test]
fn lower_part_of_a_column_is_lifted() {
    let cards = [card(4, Suit::Spade), card(12, Suit::Spade), card(11, Suit::Heart)];
    let board = board_with_column(2, &cards);
    let board = playing_area_clicked(board, "c1").unwrap();
    assert_eq!(board.selection.get_cards(), cards[1..].to_vec());
    assert_eq!(board.selection.origin, Origin::PlayingAreaId("c1".to_string()));
    assert_eq!(states(&board, 2), column_of(&cards[..1]));
}

#[test]
fn last_card_of_a_column_is_lifted_alone() {
    let cards = [card(4, Suit::Spade), card(12, Suit::Spade)];
    let board = board_with_column(2, &cards);
    let board = playing_area_clicked(board, "c1").unwrap();
    assert_eq!(board.selection.get_cards(), vec![card(12, Suit::Spade)]);
    assert_eq!(states(&board, 2), column_of(&cards[..1]));
}

#[test]
fn run_of_thirteen_cards_is_lifted_whole() {
    let mut run = vec![];
    for i in 0..13u32 {
        run.push(card(13 - i, if i % 2 == 0 { Suit::Club } else { Suit::Diamond }));
    }
    let board = board_with_column(5, &run);
    let board = playing_area_clicked(board, "f0").unwrap();
    assert_eq!(board.selection.get_cards(), run);
    assert_eq!(board.selection.get_slots().len(), 13);
    assert_eq!(states(&board, 5), column_of(&[]));
    assert!(board.is_well_formed());
    let board = return_click(board);
    assert_eq!(states(&board, 5), column_of(&run));
    assert!(board.selection.is_empty());
}

#[test]
fn nothing_is_lifted_while_cards_are_selected() {
    let mut board = board_with_column(0, &[card(13, Suit::Spade)]);
    board.stack.push(card(2, Suit::Heart));
    let before = stack_click(board);
    assert_eq!(before.selection.len(), 1);
    let after = playing_area_clicked(before.clone(), "a0").unwrap();
    assert_eq!(after, before);
}

#[test]
fn card_is_laid_on_the_next_higher_card_of_the_other_color() {
    let mut board = board_with_column(0, &[card(10, Suit::Spade)]);
    board.stack.push(card(9, Suit::Diamond));
    let board = stack_click(board);
    let board = playing_area_clicked(board, "a1").unwrap();
    assert_eq!(states(&board, 0), column_of(&[card(10, Suit::Spade), card(9, Suit::Diamond)]));
    assert!(board.selection.is_empty());
    assert_eq!(board.selection.origin, Origin::Nowhere);
    assert!(board.is_well_formed());
}

#[test]
fn card_is_not_laid_on_a_card_of_its_color() {
    let mut board = board_with_column(0, &[card(10, Suit::Spade)]);
    board.stack.push(card(9, Suit::Club));
    let before = stack_click(board);
    let after = playing_area_clicked(before.clone(), "a1").unwrap();
    assert_eq!(after, before);
}

#[test]
fn card_is_not_laid_on_a_card_of_the_wrong_rank() {
    for number in [8, 10, 11] {
        let mut board = board_with_column(0, &[card(10, Suit::Spade)]);
        board.stack.push(card(number, Suit::Heart));
        let before = stack_click(board);
        let after = playing_area_clicked(before.clone(), "a1").unwrap();
        assert_eq!(after, before);
    }
}

#[test]
fn any_card_is_laid_at_the_top_of_an_empty_column() {
    let mut board = bare_board();
    board.stack.push(card(4, Suit::Heart));
    let board = stack_click(board);
    let board = playing_area_clicked(board, "e0").unwrap();
    assert_eq!(states(&board, 4), column_of(&[card(4, Suit::Heart)]));
    assert!(board.selection.is_empty());
}

#[test]
fn run_is_moved_from_one_column_to_another() {
    let run = [card(9, Suit::Heart), card(8, Suit::Club), card(7, Suit::Diamond)];
    let mut board = board_with_column(0, &run);
    board.playing_area.add_at_coord(1, 0, &vec![card(10, Suit::Club)]);
    board.playing_area.update_empty_slots();
    let board = playing_area_clicked(board, "a0").unwrap();
    let board = playing_area_clicked(board, "b1").unwrap();
    assert_eq!(states(&board, 0), column_of(&[]));
    assert_eq!(
        states(&board, 1),
        column_of(&[card(10, Suit::Club), run[0], run[1], run[2]])
    );
    assert!(board.selection.is_empty());
    assert!(board.is_well_formed());
}

#[test]
fn run_that_does_not_fit_is_not_laid() {
    let mut column = vec![];
    for i in 0..12u32 {
        column.push(card(13 - i, if i % 2 == 0 { Suit::Heart } else { Suit::Club }));
    }
    let run = [card(1, Suit::Heart), card(13, Suit::Club)];
    let mut board = board_with_column(0, &column);
    board.selection.set_contents(Origin::PlayingAreaId("b0".to_string()), run.to_vec());
    assert!(board.is_well_formed());
    assert_eq!(board.playing_area.slot_at(0, 12).state, SlotState::Empty);
    let after = playing_area_clicked(board.clone(), "ac").unwrap();
    assert_eq!(after, board);
    assert_eq!(after.selection.get_cards(), run.to_vec());
}

#[test]
fn single_card_is_laid_in_the_last_row() {
    let mut column = vec![];
    for i in 0..12u32 {
        column.push(card(13 - i, if i % 2 == 0 { Suit::Heart } else { Suit::Club }));
    }
    let mut board = board_with_column(0, &column);
    board.stack.push(card(1, Suit::Heart));
    let board = stack_click(board);
    let board = playing_area_clicked(board, "ac").unwrap();
    assert_eq!(board.playing_area.slot_at(0, 12).state, SlotState::Occupied(card(1, Suit::Heart)));
    assert!(board.selection.is_empty());
}

#[test]
fn click_on_an_empty_slot_with_nothing_selected_does_nothing() {
    let before = board_with_column(0, &[card(10, Suit::Spade)]);
    let after = playing_area_clicked(before.clone(), "a1").unwrap();
    assert_eq!(after, before);
}

#[test]
fn click_on_a_blank_slot_does_nothing() {
    let mut board = board_with_column(0, &[card(10, Suit::Spade)]);
    let before = board.clone();
    assert_eq!(playing_area_clicked(board.clone(), "a5").unwrap(), before);
    board.stack.push(card(9, Suit::Heart));
    let before = stack_click(board);
    assert_eq!(playing_area_clicked(before.clone(), "a2").unwrap(), before);
}

#[test]
fn click_on_a_bad_playing_area_id_is_an_error() {
    let board = bare_board();
    assert_eq!(
        playing_area_clicked(board.clone(), "h0"),
        Err(ClickError::Decode(DecodeError::InvalidColumn))
    );
    assert_eq!(
        playing_area_clicked(board.clone(), "ad"),
        Err(ClickError::Decode(DecodeError::InvalidRow))
    );
    assert_eq!(
        playing_area_clicked(board.clone(), ""),
        Err(ClickError::Decode(DecodeError::MissingColumn))
    );
    assert_eq!(
        playing_area_clicked(board, "a"),
        Err(ClickError::Decode(DecodeError::MissingRow))
    );
}

#[test]
fn empty_ace_pile_takes_the_ace_of_any_suit() {
    for (index, suit) in [Suit::Spade, Suit::Heart, Suit::Diamond, Suit::Club].iter().enumerate() {
        let mut board = bare_board();
        board.stack.push(card(1, *suit));
        let board = stack_click(board);
        let id = ['0', '1', '2', '3'][index];
        let board = ace_click(board, id).unwrap();
        assert_eq!(board.aces[index].state, SlotState::Occupied(card(1, *suit)));
        assert_eq!(board.aces[index].get_id(), format!("ace{}", index));
        assert!(board.selection.is_empty());
        assert_eq!(board.selection.origin, Origin::Nowhere);
        assert!(board.is_well_formed());
    }
}

#[test]
fn empty_ace_pile_takes_nothing_but_an_ace() {
    for number in [0, 2, 5, 13] {
        let mut board = bare_board();
        board.stack.push(card(number, Suit::Heart));
        let before = stack_click(board);
        let after = ace_click(before.clone(), '0').unwrap();
        assert_eq!(after, before);
    }
}

fn board_with_five_of_diamonds_and(selected: Card) -> Board {
    let mut board = bare_board();
    board.aces[2].set_state(SlotState::Occupied(card(5, Suit::Diamond)));
    board.stack.push(selected);
    let board = stack_click(board);
    assert!(board.is_well_formed());
    board
}

#[test]
fn pile_with_five_of_diamonds_takes_six_of_diamonds() {
    let board = board_with_five_of_diamonds_and(card(6, Suit::Diamond));
    let board = ace_click(board, '2').unwrap();
    assert_eq!(board.aces[2].state, SlotState::Occupied(card(6, Suit::Diamond)));
    assert!(board.selection.is_empty());
}

#[test]
fn pile_with_five_of_diamonds_rejects_six_of_hearts() {
    let before = board_with_five_of_diamonds_and(card(6, Suit::Heart));
    let after = ace_click(before.clone(), '2').unwrap();
    assert_eq!(after, before);
    assert_eq!(after.aces[2].state, SlotState::Occupied(card(5, Suit::Diamond)));
}

#[test]
fn pile_with_five_of_diamonds_rejects_seven_of_diamonds() {
    let before = board_with_five_of_diamonds_and(card(7, Suit::Diamond));
    let after = ace_click(before.clone(), '2').unwrap();
    assert_eq!(after, before);
}

#[test]
fn pile_with_five_of_diamonds_rejects_lower_diamonds() {
    for number in [1, 4, 5] {
        let before = board_with_five_of_diamonds_and(card(number, Suit::Diamond));
        let after = ace_click(before.clone(), '2').unwrap();
        assert_eq!(after, before);
    }
}

#[test]
fn ace_pile_takes_nothing_when_nothing_is_selected() {
    let before = bare_board();
    assert_eq!(ace_click(before.clone(), '0').unwrap(), before);
}

#[test]
fn ace_pile_takes_no_run() {
    let run = [card(1, Suit::Spade), card(0, Suit::Heart)];
    let board = board_with_column(0, &run);
    let before = playing_area_clicked(board, "a0").unwrap();
    assert_eq!(before.selection.len(), 2);
    assert_eq!(ace_click(before.clone(), '0').unwrap(), before);
}

#[test]
fn ace_pile_with_a_bad_index_is_an_error() {
    let board = bare_board();
    for id in ['4', '9', 'a', ' '] {
        assert_eq!(
            ace_click(board.clone(), id),
            Err(ClickError::Decode(DecodeError::InvalidIndex))
        );
    }
}

#[test]
fn click_on_the_stack_selects_its_top_card() {
    let mut board = bare_board();
    board.stack.push(card(3, Suit::Club));
    board.stack.push(card(8, Suit::Heart));
    let board = stack_click(board);
    assert_eq!(board.selection.get_cards(), vec![card(8, Suit::Heart)]);
    assert_eq!(board.selection.origin, Origin::Stack);
    assert_eq!(*board.stack.get_cards(), vec![card(3, Suit::Club)]);
    assert!(board.is_well_formed());
}

#[test]
fn click_on_the_stack_does_nothing_while_cards_are_selected() {
    let mut board = bare_board();
    board.stack.push(card(3, Suit::Club));
    board.stack.push(card(8, Suit::Heart));
    let before = stack_click(board);
    let after = stack_click(before.clone());
    assert_eq!(after, before);
}

#[test]
fn click_on_an_empty_stack_does_nothing() {
    let before = bare_board();
    assert_eq!(stack_click(before.clone()), before);
}

#[test]
fn return_with_nothing_selected_leaves_the_board_unchanged() {
    let before = start();
    let after = return_click(before.clone());
    assert_eq!(after, before);
    assert_eq!(format!("{:?}", after), format!("{:?}", before));
}

#[test]
fn return_puts_a_card_back_on_the_stack() {
    let mut board = bare_board();
    board.stack.push(card(3, Suit::Club));
    board.stack.push(card(8, Suit::Heart));
    let before = board.clone();
    let board = return_click(stack_click(board));
    assert_eq!(board, before);
}

#[test]
fn return_puts_a_run_back_where_it_was() {
    let cards = [card(4, Suit::Spade), card(12, Suit::Spade), card(11, Suit::Heart)];
    let before = board_with_column(2, &cards);
    let lifted = playing_area_clicked(before.clone(), "c1").unwrap();
    assert_ne!(lifted, before);
    let after = return_click(lifted);
    assert_eq!(after, before);
}

#[test]
fn draw_moves_three_cards_to_the_stack() {
    let deck = generate_sorted_deck();
    let board = deck_click(start_with(deck.clone())).unwrap();
    assert_eq!(board.available_cards[..], deck[..21]);
    assert_eq!(*board.stack.get_cards(), vec![deck[21], deck[22], deck[23]]);
    assert!(board.deck.is_none());
    assert!(board.is_well_formed());
}

#[test]
fn second_draw_goes_on_top_of_the_first() {
    let deck = generate_sorted_deck();
    let board = deck_click(start_with(deck.clone())).unwrap();
    let board = deck_click(board).unwrap();
    assert_eq!(board.available_cards.len(), 18);
    assert_eq!(
        *board.stack.get_cards(),
        vec![deck[18], deck[19], deck[20], deck[21], deck[22], deck[23]]
    );
}

#[test]
fn draw_takes_what_is_left_of_a_short_pile() {
    let mut board = bare_board();
    board.available_cards = vec![card(1, Suit::Heart), card(2, Suit::Heart)];
    board.deck = None;
    assert!(board.is_well_formed());
    let board = deck_click(board).unwrap();
    assert!(board.available_cards.is_empty());
    assert_eq!(*board.stack.get_cards(), vec![card(1, Suit::Heart), card(2, Suit::Heart)]);
    assert_eq!(board.deck, Some(Slot::new("deck0".to_string(), SlotState::Empty)));
}

#[test]
fn draw_of_a_single_card_uses_the_pile_up() {
    let mut board = bare_board();
    board.available_cards = vec![card(7, Suit::Club)];
    board.deck = None;
    let board = deck_click(board).unwrap();
    assert!(board.available_cards.is_empty());
    assert_eq!(*board.stack.get_cards(), vec![card(7, Suit::Club)]);
    assert!(board.deck.is_some());
    assert!(board.is_well_formed());
}

#[test]
fn board_with_an_empty_pile_and_no_marker_is_malformed() {
    let mut board = bare_board();
    board.deck = None;
    assert!(!board.is_well_formed());
    assert_eq!(click_element("deck0", board), Err(ClickError::MalformedBoard));
}

#[test]
fn board_with_cards_to_draw_and_a_marker_is_malformed() {
    let mut board = bare_board();
    board.available_cards = vec![card(7, Suit::Club)];
    assert!(!board.is_well_formed());
    assert_eq!(click_element("deck0", board), Err(ClickError::MalformedBoard));
}

#[test]
fn eighth_draw_uses_the_pile_up() {
    let mut board = start();
    for draws in 1..=8 {
        board = deck_click(board).unwrap();
        assert_eq!(board.available_cards.len(), 24 - 3 * draws);
        assert_eq!(board.stack.get_cards().len(), 3 * draws);
        assert_eq!(board.deck.is_some(), draws == 8);
    }
    assert_eq!(board.deck, Some(Slot::new("deck0".to_string(), SlotState::Empty)));
    assert!(board.is_well_formed());
}

#[test]
fn draw_from_a_used_up_pile_is_not_implemented() {
    let mut board = start();
    for _ in 0..8 {
        board = deck_click(board).unwrap();
    }
    assert_eq!(deck_click(board.clone()), Err(ClickError::NotImplemented));
    assert_eq!(click_element("deck0", board), Err(ClickError::NotImplemented));
}

#[test]
fn draw_leaves_the_selection_alone() {
    let mut board = start_with(generate_sorted_deck());
    board = deck_click(board).unwrap();
    board = stack_click(board);
    let selection = board.selection.clone();
    board = deck_click(board).unwrap();
    assert_eq!(board.selection, selection);
    assert_eq!(board.stack.get_cards().len(), 5);
}

#[test]
fn debug_delete_selection_drops_the_selected_cards() {
    let mut board = bare_board();
    board.stack.push(card(3, Suit::Club));
    let board = stack_click(board);
    let after = debug_delete_selection(board.clone());
    assert!(after.selection.is_empty());
    assert_eq!(after.selection.origin, Origin::Nowhere);
    assert_eq!(after.selection.get_slots().len(), 7);
    assert_eq!(after.stack, board.stack);
    assert_eq!(after.playing_area, board.playing_area);
    assert_eq!(after, bare_board());
}

#[test]
fn click_element_reaches_every_handler() {
    let board = start_with(generate_sorted_deck());
    let drawn = click_element("deck0", board.clone()).unwrap();
    assert_eq!(drawn, deck_click(board.clone()).unwrap());
    assert_eq!(click_element("deck", board.clone()).unwrap(), drawn);
    let picked = click_element("selection0", drawn.clone()).unwrap();
    assert_eq!(picked, stack_click(drawn.clone()));
    assert_eq!(click_element("stack0", drawn.clone()).unwrap(), picked);
    assert_eq!(click_element("return0", picked.clone()).unwrap(), drawn);
    assert_eq!(click_element("return", picked.clone()).unwrap(), drawn);
    assert_eq!(
        click_element("ace1", picked.clone()).unwrap(),
        ace_click(picked.clone(), '1').unwrap()
    );
    assert_eq!(
        click_element("a0", board.clone()).unwrap(),
        playing_area_clicked(board.clone(), "a0").unwrap()
    );
    assert_ne!(click_element("a0", board.clone()).unwrap(), board);
}

#[test]
fn click_element_reports_an_unknown_element() {
    let board = start();
    for id in ["", "x", "bogus", "selected0", "s10", "deck00", "ace"] {
        assert_eq!(
            click_element(id, board.clone()),
            Err(ClickError::Decode(DecodeError::UnknownTarget)),
            "{}",
            id
        );
    }
}

#[test]
fn click_element_reports_a_bad_slot_address() {
    let board = start();
    assert_eq!(
        click_element("s0", board.clone()),
        Err(ClickError::Decode(DecodeError::InvalidColumn))
    );
    assert_eq!(
        click_element("ad", board.clone()),
        Err(ClickError::Decode(DecodeError::InvalidRow))
    );
    assert_eq!(
        click_element("ace4", board),
        Err(ClickError::Decode(DecodeError::InvalidIndex))
    );
}

#[test]
fn click_element_reports_a_malformed_board() {
    let mut board = start();
    board.aces.pop();
    assert!(!board.is_well_formed());
    assert_eq!(click_element("deck0", board.clone()), Err(ClickError::MalformedBoard));
    assert_eq!(click_element("bogus", board), Err(ClickError::MalformedBoard));
}

#[test]
fn board_whose_selection_cannot_go_back_is_malformed() {
    let mut board = bare_board();
    board.selection.set_contents(
        Origin::PlayingAreaId("ac".to_string()),
        vec![card(5, Suit::Heart), card(4, Suit::Club)],
    );
    assert!(!board.is_well_formed());
    let mut board = bare_board();
    board.selection.set_contents(Origin::PlayingAreaId("zz".to_string()), vec![card(5, Suit::Heart)]);
    assert!(!board.is_well_formed());
    let mut board = bare_board();
    board.selection.set_contents(
        Origin::Stack,
        vec![card(5, Suit::Heart), card(4, Suit::Club)],
    );
    assert!(!board.is_well_formed());
    assert_eq!(click_element("return", board), Err(ClickError::MalformedBoard));
}

#[test]
fn illegal_move_is_no_error() {
    let board = start_with(generate_sorted_deck());
    assert_eq!(click_element("a5", board.clone()), Ok(board.clone()));
    assert_eq!(click_element("ace0", board.clone()), Ok(board.clone()));
    assert_eq!(click_element("return", board.clone()), Ok(board.clone()));
    assert_eq!(click_element("selection0", board.clone()), Ok(board));
}

#[test]
fn game_from_draw_to_placement() {
    let mut deck = generate_sorted_deck();
    deck.swap(48, 51);
    assert_eq!(deck[51], card(10, Suit::Spade));
    assert_eq!(deck[21], card(9, Suit::Diamond));
    let board = start_with(deck.clone());
    assert_eq!(board.available_cards.len(), 24);
    assert_eq!(board.playing_area.slot_at(0, 0).state, SlotState::Occupied(deck[51]));
    assert_eq!(board.playing_area.slot_at(0, 1).state, SlotState::Empty);

    let board = click_element("deck0", board).unwrap();
    assert_eq!(board.available_cards.len(), 21);
    assert_eq!(board.stack.get_cards().len(), 3);
    assert_eq!(board.stack.get_cards()[0], deck[21]);

    let board = click_element("selection0", board).unwrap();
    assert_eq!(board.selection.get_cards(), vec![deck[21]]);
    assert_eq!(board.selection.origin, Origin::Stack);
    assert_eq!(board.stack.get_cards().len(), 2);

    let board = click_element("a1", board).unwrap();
    assert!(board.selection.is_empty());
    assert_eq!(board.selection.origin, Origin::Nowhere);
    assert_eq!(board.playing_area.slot_at(0, 1).state, SlotState::Occupied(deck[21]));
    assert_eq!(board.playing_area.slot_at(0, 2).state, SlotState::Empty);
    assert_eq!(board.playing_area.slot_at(0, 3).state, SlotState::Blank);
    assert_eq!(board.available_cards.len(), 21);
    assert_eq!(board.stack.get_cards().len(), 2);
    assert!(board.is_well_formed());
}
