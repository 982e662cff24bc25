use solitaire::ident::{
    decode_ace_index, decode_click_target, is_playing_area_id, make_numbered_id,
    make_playing_area_id,
};
use solitaire::{get_coords_from_id, ClickTarget, DecodeError, COLUMNS, ROWS};

#[test]
fn first_slot_decodes_to_origin() {
    assert_eq!(get_coords_from_id("a0"), Ok((0, 0)));
}

#[test]
fn last_slot_decodes_to_last_column_and_row() {
    assert_eq!(get_coords_from_id("gc"), Ok((6, 12)));
}

#[test]
fn row_digits_are_hexadecimal() {
    assert_eq!(get_coords_from_id("b9"), Ok((1, 9)));
    assert_eq!(get_coords_from_id("ba"), Ok((1, 10)));
    assert_eq!(get_coords_from_id("bb"), Ok((1, 11)));
    assert_eq!(get_coords_from_id("bc"), Ok((1, 12)));
}

#[test]
fn every_column_letter_decodes() {
    let letters = ["a", "b", "c", "d", "e", "f", "g"];
    for (column, letter) in letters.iter().enumerate() {
        let id = format!("{}0", letter);
        assert_eq!(get_coords_from_id(&id), Ok((column, 0)));
    }
}

#[test]
fn empty_id_misses_its_column() {
    assert_eq!(get_coords_from_id(""), Err(DecodeError::MissingColumn));
}

#[test]
fn letter_behind_g_is_no_column() {
    assert_eq!(get_coords_from_id("h0"), Err(DecodeError::InvalidColumn));
    assert_eq!(get_coords_from_id("z5"), Err(DecodeError::InvalidColumn));
}

#[test]
fn digit_is_no_column() {
    assert_eq!(get_coords_from_id("00"), Err(DecodeError::InvalidColumn));
}

#[test]
fn capital_letter_is_no_column() {
    assert_eq!(get_coords_from_id("A0"), Err(DecodeError::InvalidColumn));
}

#[test]
fn lone_column_misses_its_row() {
    assert_eq!(get_coords_from_id("a"), Err(DecodeError::MissingRow));
}

#[test]
fn digit_behind_c_is_no_row() {
    assert_eq!(get_coords_from_id("ad"), Err(DecodeError::InvalidRow));
    assert_eq!(get_coords_from_id("af"), Err(DecodeError::InvalidRow));
    assert_eq!(get_coords_from_id("a-"), Err(DecodeError::InvalidRow));
}

#[test]
fn capital_digit_is_no_row() {
    assert_eq!(get_coords_from_id("aC"), Err(DecodeError::InvalidRow));
}

#[test]
fn column_is_checked_before_row() {
    assert_eq!(get_coords_from_id("zz"), Err(DecodeError::InvalidColumn));
}

#[test]
fn only_two_characters_are_read() {
    assert_eq!(get_coords_from_id("a0xyz"), Ok((0, 0)));
}

#[test]
fn non_ascii_id_is_rejected() {
    assert_eq!(get_coords_from_id("é0"), Err(DecodeError::InvalidColumn));
    assert_eq!(get_coords_from_id("aé"), Err(DecodeError::InvalidRow));
}

#[test]
fn made_id_decodes_to_its_place() {
    for column in 0..COLUMNS {
        for row in 0..ROWS {
            let id = make_playing_area_id(column, row);
            assert_eq!(get_coords_from_id(&id), Ok((column, row)));
            assert!(is_playing_area_id(&id, column, row));
        }
    }
}

#[test]
fn made_ids_are_letter_and_digit() {
    assert_eq!(make_playing_area_id(0, 0), "a0");
    assert_eq!(make_playing_area_id(3, 9), "d9");
    assert_eq!(make_playing_area_id(6, 10), "ga");
    assert_eq!(make_playing_area_id(6, 12), "gc");
}

#[test]
fn id_of_another_place_is_told_apart() {
    assert!(!is_playing_area_id("a0", 0, 1));
    assert!(!is_playing_area_id("a0", 1, 0));
    assert!(!is_playing_area_id("a0x", 0, 0));
    assert!(!is_playing_area_id("a", 0, 0));
    assert!(!is_playing_area_id("", 0, 0));
}

#[test]
fn numbered_ids_count_in_base_ten() {
    assert_eq!(make_numbered_id("ace", 0), "ace0");
    assert_eq!(make_numbered_id("s", 8), "s8");
    assert_eq!(make_numbered_id("selected", 9), "selected9");
    assert_eq!(make_numbered_id("selected", 10), "selected10");
    assert_eq!(make_numbered_id("selected", 12), "selected12");
    assert_eq!(make_numbered_id("n", 1203), "n1203");
    assert_eq!(make_numbered_id("", 40), "40");
}

#[test]
fn two_characters_aim_at_the_playing_area() {
    assert_eq!(decode_click_target("a0"), Ok(ClickTarget::PlayingArea));
    assert_eq!(decode_click_target("gc"), Ok(ClickTarget::PlayingArea));
    assert_eq!(decode_click_target("zz"), Ok(ClickTarget::PlayingArea));
}

#[test]
fn deck_is_named_with_or_without_digit() {
    assert_eq!(decode_click_target("deck"), Ok(ClickTarget::Deck));
    assert_eq!(decode_click_target("deck0"), Ok(ClickTarget::Deck));
}

#[test]
fn return_is_named_with_or_without_digit() {
    assert_eq!(decode_click_target("return"), Ok(ClickTarget::Return));
    assert_eq!(decode_click_target("return0"), Ok(ClickTarget::Return));
}

#[test]
fn waste_pile_is_named_selection_or_stack() {
    assert_eq!(decode_click_target("selection0"), Ok(ClickTarget::Stack));
    assert_eq!(decode_click_target("selection8"), Ok(ClickTarget::Stack));
    assert_eq!(decode_click_target("stack0"), Ok(ClickTarget::Stack));
}

#[test]
fn ace_pile_carries_its_index() {
    assert_eq!(decode_click_target("ace0"), Ok(ClickTarget::Ace('0')));
    assert_eq!(decode_click_target("ace3"), Ok(ClickTarget::Ace('3')));
    assert_eq!(decode_click_target("ace9"), Ok(ClickTarget::Ace('9')));
}

#[test]
fn other_names_are_unknown() {
    let unknown = [
        "", "a", "ace", "dec", "decks", "deckx", "deck00", "returnx", "selection", "selectionx",
        "stack", "selected0", "s10", "bogus", "a very long identifier", "Deck", "ace00",
    ];
    for id in unknown {
        assert_eq!(decode_click_target(id), Err(DecodeError::UnknownTarget), "{}", id);
    }
}

#[test]
fn ace_index_is_a_digit_below_four() {
    assert_eq!(decode_ace_index('0'), Some(0));
    assert_eq!(decode_ace_index('1'), Some(1));
    assert_eq!(decode_ace_index('2'), Some(2));
    assert_eq!(decode_ace_index('3'), Some(3));
    assert_eq!(decode_ace_index('4'), None);
    assert_eq!(decode_ace_index('a'), None);
    assert_eq!(decode_ace_index('/'), None);
}
