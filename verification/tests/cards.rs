use solitaire::{slots_to_cards, Card, Color, Slot, SlotState, Suit, ACE, KING};

#[test]
fn spades_and_clubs_are_black() {
    assert_eq!(Suit::Spade.color(), Color::Black);
    assert_eq!(Suit::Club.color(), Color::Black);
}

#[test]
fn hearts_and_diamonds_are_red() {
    assert_eq!(Suit::Heart.color(), Color::Red);
    assert_eq!(Suit::Diamond.color(), Color::Red);
}

#[test]
fn card_keeps_number_and_suit() {
    let card = Card::new(12, Suit::Heart);
    assert_eq!(card.get_number(), 12);
    assert_eq!(card.get_suit(), Suit::Heart);
    assert_eq!(card.get_color(), Color::Red);
}

#[test]
fn card_color_follows_suit() {
    for number in ACE..=KING {
        assert_eq!(Card::new(number, Suit::Spade).get_color(), Color::Black);
        assert_eq!(Card::new(number, Suit::Club).get_color(), Color::Black);
        assert_eq!(Card::new(number, Suit::Heart).get_color(), Color::Red);
        assert_eq!(Card::new(number, Suit::Diamond).get_color(), Color::Red);
    }
}

#[test]
fn cards_are_equal_by_number_and_suit() {
    assert_eq!(Card::new(5, Suit::Club), Card::new(5, Suit::Club));
    assert_ne!(Card::new(5, Suit::Club), Card::new(6, Suit::Club));
    assert_ne!(Card::new(5, Suit::Club), Card::new(5, Suit::Spade));
}

#[test]
fn default_card_is_a_black_spade() {
    let card = Card::default();
    assert_eq!(card.get_number(), 0);
    assert_eq!(card.get_suit(), Suit::Spade);
    assert_eq!(card.get_color(), Color::Black);
    assert_eq!(Suit::default(), Suit::Spade);
    assert_eq!(Color::default(), Color::Black);
}

#[test]
fn only_an_occupied_state_is_occupied() {
    assert!(SlotState::Occupied(Card::new(1, Suit::Heart)).is_occupied());
    assert!(!SlotState::Empty.is_occupied());
    assert!(!SlotState::Blank.is_occupied());
}

#[test]
fn occupied_state_gives_its_card() {
    let state = SlotState::Occupied(Card::new(7, Suit::Diamond));
    assert_eq!(*state.get_card(), Card::new(7, Suit::Diamond));
}

#[test]
fn state_from_a_card_is_occupied() {
    let card = Card::new(3, Suit::Club);
    assert_eq!(SlotState::from(Some(card)), SlotState::Occupied(card));
}

#[test]
fn state_from_no_card_is_empty() {
    assert_eq!(SlotState::from(None), SlotState::Empty);
}

#[test]
fn slot_keeps_id_and_state() {
    let slot = Slot::new("a0".to_string(), SlotState::Blank);
    assert_eq!(slot.get_id(), "a0");
    assert_eq!(*slot.get_state(), SlotState::Blank);
    assert_eq!(slot.state, SlotState::Blank);
}

#[test]
fn set_state_keeps_the_id() {
    let mut slot = Slot::new("c4".to_string(), SlotState::Blank);
    slot.set_state(SlotState::Occupied(Card::new(9, Suit::Spade)));
    assert_eq!(slot.get_id(), "c4");
    assert_eq!(slot.state, SlotState::Occupied(Card::new(9, Suit::Spade)));
}

#[test]
fn slots_to_cards_takes_the_occupied_slots_in_order() {
    let slots = vec![
        Slot::new("x0".to_string(), SlotState::Occupied(Card::new(4, Suit::Heart))),
        Slot::new("x1".to_string(), SlotState::Empty),
        Slot::new("x2".to_string(), SlotState::Occupied(Card::new(2, Suit::Club))),
        Slot::new("x3".to_string(), SlotState::Blank),
        Slot::new("x4".to_string(), SlotState::Occupied(Card::new(13, Suit::Spade))),
    ];
    assert_eq!(
        slots_to_cards(&slots),
        vec![Card::new(4, Suit::Heart), Card::new(2, Suit::Club), Card::new(13, Suit::Spade)]
    );
}

#[test]
fn slots_to_cards_of_no_slots_is_empty() {
    let slots: Vec<Slot> = vec![];
    assert!(slots_to_cards(&slots).is_empty());
}

#[test]
fn slots_to_cards_of_cardless_slots_is_empty() {
    let slots = vec![
        Slot::new("x0".to_string(), SlotState::Empty),
        Slot::new("x1".to_string(), SlotState::Blank),
    ];
    assert!(slots_to_cards(&slots).is_empty());
}
