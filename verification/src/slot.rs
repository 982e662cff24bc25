//! Slots: the cells of the board, each with an identifier and a state.

use crate::card::Card;
use vstd::prelude::*;
use vstd::std_specs::convert::FromSpecImpl;

verus! {

/// What a slot holds.
#[derive(Clone, Copy, Debug, PartialEq, Eq, Structural)]
pub enum SlotState {
    /// A card lies in the slot.
    Occupied(Card),
    /// No card lies in the slot, and one can be put there.
    Empty,
    /// The slot cannot be reached yet.
    Blank,
}

impl SlotState {
    /// Whether a card lies in the slot.
    pub fn is_occupied(&self) -> (occupied: bool)
        ensures
            occupied == (*self is Occupied),
    {
        match self {
            SlotState::Occupied(_) => true,
            _ => false,
        }
    }

    /// The card of an occupied slot.
    pub fn get_card(&self) -> (card: &Card)
        requires
            *self is Occupied,
        ensures
            *card == self->Occupied_0,
    {
        match self {
            SlotState::Occupied(card) => card,
            _ => vstd::pervasive::unreached(),
        }
    }
}

impl From<Option<Card>> for SlotState {
    /// A card makes an occupied slot, no card an empty one.
    fn from(value: Option<Card>) -> (state: SlotState) {
        match value {
            Some(card) => SlotState::Occupied(card),
            None => SlotState::Empty,
        }
    }
}

impl FromSpecImpl<Option<Card>> for SlotState {
    open spec fn obeys_from_spec() -> bool {
        true
    }

    open spec fn from_spec(value: Option<Card>) -> SlotState {
        match value {
            Some(card) => SlotState::Occupied(card),
            None => SlotState::Empty,
        }
    }
}

/// A cell of the board. Its identifier is fixed when it is made.
#[derive(Clone, Debug, PartialEq, Eq)]
pub struct Slot {
    id: String,
    pub state: SlotState,
}

/// A slot as contracts see it: the characters of its identifier, and its state.
pub struct SlotView {
    pub id: Seq<char>,
    pub state: SlotState,
}

impl View for Slot {
    type V = SlotView;

    closed spec fn view(&self) -> SlotView {
        SlotView { id: self.id@, state: self.state }
    }
}

impl Slot {
    /// A slot with an identifier, in a state.
    pub fn new(id: String, state: SlotState) -> (slot: Slot)
        ensures
            slot@ == (SlotView { id: id@, state }),
    {
        Slot { id, state }
    }

    /// The identifier of the slot.
    pub fn get_id(&self) -> (id: &str)
        ensures
            id@ == self@.id,
    {
        self.id.as_str()
    }

    /// The state of the slot.
    pub fn get_state(&self) -> (state: &SlotState)
        ensures
            *state == self@.state,
    {
        &self.state
    }

    /// Gives the slot another state. The identifier stays.
    pub fn set_state(&mut self, state: SlotState)
        ensures
            final(self)@ == (SlotView { id: old(self)@.id, state }),
    {
        self.state = state;
    }
}

impl SlotView {
    /// The same slot in another state.
    pub open spec fn with_state(self, state: SlotState) -> SlotView {
        SlotView { id: self.id, state }
    }
}

/// The views of a sequence of slots.
pub open spec fn slot_views(slots: Seq<Slot>) -> Seq<SlotView> {
    slots.map_values(|slot: Slot| slot@)
}

/// Whether a slot holds a card.
pub open spec fn holds_card(slot: SlotView) -> bool {
    slot.state is Occupied
}

/// The card of an occupied slot.
pub open spec fn card_in(slot: SlotView) -> Card {
    slot.state->Occupied_0
}

/// The cards that lie in a sequence of slots, in the order of the slots.
pub open spec fn cards_of(slots: Seq<SlotView>) -> Seq<Card> {
    slots.filter(|slot: SlotView| holds_card(slot)).map_values(|slot: SlotView| card_in(slot))
}

/// One more slot adds its card, if it has one, behind the others.
pub proof fn lemma_cards_of_push(slots: Seq<SlotView>, slot: SlotView)
    ensures
        cards_of(slots.push(slot)) == if holds_card(slot) {
            cards_of(slots).push(card_in(slot))
        } else {
            cards_of(slots)
        },
{
    slots.lemma_filter_push(slot, |slot: SlotView| holds_card(slot));
}

/// The cards of two runs of slots laid end to end are the cards of the
/// first followed by those of the second.
pub proof fn lemma_cards_of_add(front: Seq<SlotView>, back: Seq<SlotView>)
    ensures
        cards_of(front + back) == cards_of(front) + cards_of(back),
{
}

/// Slots that hold no cards give no cards.
pub proof fn lemma_no_cards(slots: Seq<SlotView>)
    requires
        forall|i: int| 0 <= i < slots.len() ==> !holds_card(#[trigger] slots[i]),
    ensures
        cards_of(slots) == Seq::<Card>::empty(),
    decreases slots.len(),
{
    if slots.len() > 0 {
        lemma_no_cards(slots.drop_last());
        lemma_cards_of_push(slots.drop_last(), slots.last());
        assert(slots =~= slots.drop_last().push(slots.last()));
    }
}

/// Slots that all hold a card give the cards of all of them.
pub proof fn lemma_all_cards(slots: Seq<SlotView>, cards: Seq<Card>)
    requires
        slots.len() == cards.len(),
        forall|i: int|
            0 <= i < slots.len() ==> (#[trigger] slots[i]).state == SlotState::Occupied(cards[i]),
    ensures
        cards_of(slots) == cards,
    decreases slots.len(),
{
    if slots.len() > 0 {
        lemma_all_cards(slots.drop_last(), cards.drop_last());
        lemma_cards_of_push(slots.drop_last(), slots.last());
        assert(slots =~= slots.drop_last().push(slots.last()));
    }
}

/// Where a slot holds a card, there is at least one card.
pub proof fn lemma_some_card(slots: Seq<SlotView>, i: int)
    requires
        0 <= i < slots.len(),
        holds_card(slots[i]),
    ensures
        cards_of(slots).len() > 0,
    decreases slots.len(),
{
    lemma_cards_of_push(slots.drop_last(), slots.last());
    assert(slots =~= slots.drop_last().push(slots.last()));
    if i < slots.len() - 1 {
        lemma_some_card(slots.drop_last(), i);
    }
}

/// Collects the cards that lie in the slots, in the order of the slots.
pub fn slots_to_cards(slots: &[Slot]) -> (cards: Vec<Card>)
    ensures
        cards@ == cards_of(slot_views(slots@)),
{
    let mut cards: Vec<Card> = Vec::new();
    let mut i: usize = 0;
    while i < slots.len()
        invariant
            i <= slots.len(),
            cards@ == cards_of(slot_views(slots@).take(i as int)),
        decreases slots.len() - i,
    {
        proof {
            let views = slot_views(slots@);
            assert(views.take(i + 1) =~= views.take(i as int).push(views[i as int]));
            lemma_cards_of_push(views.take(i as int), views[i as int]);
        }
        match slots[i].state {
            SlotState::Occupied(card) => {
                cards.push(card);
            },
            _ => {},
        }
        i += 1;
    }
    assert(slot_views(slots@).take(i as int) =~= slot_views(slots@));
    cards
}

} // verus!
