//! The selection: the cards that were picked up and wait to be put down.

use crate::card::Card;
use crate::ident::{make_numbered_id, numbered_id};
use crate::slot::{
    cards_of, holds_card, lemma_all_cards, lemma_cards_of_add, lemma_no_cards, lemma_some_card,
    slot_views, slots_to_cards, Slot, SlotState, SlotView,
};
use vstd::prelude::*;

verus! {

/// Where the selected cards were taken from.
#[derive(Clone, Debug, PartialEq, Eq)]
pub enum Origin {
    /// Nothing is selected.
    Nowhere,
    /// The draw pile.
    Deck,
    /// The waste pile.
    Stack,
    /// The slot of the playing area with this identifier.
    PlayingAreaId(String),
}

/// An origin as contracts see it.
pub enum OriginView {
    Nowhere,
    Deck,
    Stack,
    PlayingAreaId(Seq<char>),
}

impl View for Origin {
    type V = OriginView;

    open spec fn view(&self) -> OriginView {
        match self {
            Origin::Nowhere => OriginView::Nowhere,
            Origin::Deck => OriginView::Deck,
            Origin::Stack => OriginView::Stack,
            Origin::PlayingAreaId(id) => OriginView::PlayingAreaId(id@),
        }
    }
}

impl Origin {
    /// Whether nothing is selected.
    pub fn is_none(&self) -> (none: bool)
        ensures
            none == (self@ is Nowhere),
    {
        match self {
            Origin::Nowhere => true,
            _ => false,
        }
    }

    /// Whether the cards come from a slot of the playing area.
    pub fn has_id(&self) -> (has_id: bool)
        ensures
            has_id == (self@ is PlayingAreaId),
    {
        match self {
            Origin::PlayingAreaId(_) => true,
            _ => false,
        }
    }

    /// The identifier of the slot that the cards come from.
    pub fn unwrap(self) -> (id: String)
        requires
            self@ is PlayingAreaId,
        ensures
            id@ == self@->PlayingAreaId_0,
    {
        match self {
            Origin::PlayingAreaId(id) => id,
            _ => vstd::pervasive::unreached(),
        }
    }
}

/// The selected cards, held in slots, and where they come from.
#[derive(Clone, Debug, PartialEq, Eq)]
pub struct Selection {
    pub origin: Origin,
    contents: Vec<Slot>,
}

/// A selection as contracts see it.
pub struct SelectionView {
    pub origin: OriginView,
    pub contents: Seq<SlotView>,
}

/// The name of the slots of a selection.
pub open spec fn selection_slot_name() -> Seq<char> {
    "selected"@
}

/// Slots that hold the given cards, one in each slot from the first on.
/// Slots behind the cards stay as they are; where there are more cards
/// than slots, slots are added.
pub open spec fn holding(slots: Seq<SlotView>, cards: Seq<Card>) -> Seq<SlotView> {
    Seq::new(
        if slots.len() >= cards.len() {
            slots.len()
        } else {
            cards.len()
        },
        |i: int|
            if i < cards.len() {
                SlotView {
                    id: if i < slots.len() {
                        slots[i].id
                    } else {
                        numbered_id(selection_slot_name(), i as nat)
                    },
                    state: SlotState::Occupied(cards[i]),
                }
            } else {
                slots[i]
            },
    )
}

/// The same slots, all of them blank.
pub open spec fn blanked(slots: Seq<SlotView>) -> Seq<SlotView> {
    Seq::new(slots.len(), |i: int| slots[i].with_state(SlotState::Blank))
}

impl SelectionView {
    /// The selected cards, the first one being the top of the run.
    pub open spec fn cards(self) -> Seq<Card> {
        cards_of(self.contents)
    }

    /// No slot is merely empty, and an origin is named exactly when
    /// cards are selected.
    pub open spec fn wf(self) -> bool {
        &&& forall|i: int|
            0 <= i < self.contents.len() ==> !((#[trigger] self.contents[i]).state is Empty)
        &&& self.origin is Nowhere <==> self.cards().len() == 0
    }

    /// The selection after `set_contents`: one that is in use stays as
    /// it is, a free one takes the origin and the cards.
    pub open spec fn set_contents(self, origin: OriginView, cards: Seq<Card>) -> SelectionView {
        if self.origin is Nowhere {
            SelectionView { origin, contents: holding(self.contents, cards) }
        } else {
            self
        }
    }

    /// The selection with nothing selected.
    pub open spec fn clear(self) -> SelectionView {
        SelectionView { origin: OriginView::Nowhere, contents: blanked(self.contents) }
    }

    /// A selection with `count` blank slots and nothing selected.
    pub open spec fn fresh(count: nat) -> SelectionView {
        SelectionView {
            origin: OriginView::Nowhere,
            contents: Seq::new(
                count,
                |i: int|
                    SlotView {
                        id: numbered_id(selection_slot_name(), i as nat),
                        state: SlotState::Blank,
                    },
            ),
        }
    }
}

/// A well-formed selection names no origin exactly when all of its
/// slots are blank.
pub proof fn lemma_free_selection_is_blank(selection: SelectionView)
    requires
        selection.wf(),
    ensures
        selection.origin is Nowhere <==> forall|i: int|
            0 <= i < selection.contents.len() ==> (#[trigger] selection.contents[i]).state is Blank,
{
    let slots = selection.contents;
    if forall|i: int| 0 <= i < slots.len() ==> (#[trigger] slots[i]).state is Blank {
        lemma_no_cards(slots);
    }
    if selection.origin is Nowhere {
        lemma_free_selection_holds_nothing(selection);
    }
}

/// Cards put into blank slots are the cards that the slots then hold.
pub proof fn lemma_holding_cards(slots: Seq<SlotView>, cards: Seq<Card>)
    requires
        forall|i: int| 0 <= i < slots.len() ==> !holds_card(#[trigger] slots[i]),
    ensures
        cards_of(holding(slots, cards)) == cards,
{
    let held = holding(slots, cards);
    let front = held.take(cards.len() as int);
    let back = held.skip(cards.len() as int);
    assert(held =~= front + back);
    lemma_cards_of_add(front, back);
    lemma_all_cards(front, cards);
    lemma_no_cards(back);
}

/// A selection that is well formed and free holds no card in any slot.
pub proof fn lemma_free_selection_holds_nothing(selection: SelectionView)
    requires
        selection.wf(),
        selection.origin is Nowhere,
    ensures
        forall|i: int|
            0 <= i < selection.contents.len() ==> !holds_card(#[trigger] selection.contents[i]),
{
    assert forall|i: int| 0 <= i < selection.contents.len() implies !holds_card(
        #[trigger] selection.contents[i],
    ) by {
        if holds_card(selection.contents[i]) {
            lemma_some_card(selection.contents, i);
        }
    }
}

/// Cards given to a well-formed, free selection are the cards that it
/// then holds, in the order given; with an origin and at least one
/// card the selection is well formed again.
pub proof fn lemma_set_contents(selection: SelectionView, origin: OriginView, cards: Seq<Card>)
    requires
        selection.wf(),
        selection.origin is Nowhere,
    ensures
        selection.set_contents(origin, cards).cards() == cards,
        selection.set_contents(origin, cards).origin == origin,
        !(origin is Nowhere) && cards.len() > 0 ==> selection.set_contents(origin, cards).wf(),
{
    lemma_free_selection_holds_nothing(selection);
    lemma_holding_cards(selection.contents, cards);
}

/// A cleared selection holds no cards, names no origin and is well
/// formed, whatever it held before.
pub proof fn lemma_clear(selection: SelectionView)
    ensures
        selection.clear().cards() == Seq::<Card>::empty(),
        selection.clear().origin is Nowhere,
        selection.clear().wf(),
{
    lemma_no_cards(selection.clear().contents);
}

impl View for Selection {
    type V = SelectionView;

    closed spec fn view(&self) -> SelectionView {
        SelectionView { origin: self.origin@, contents: slot_views(self.contents@) }
    }
}

impl Selection {
    /// A selection made of its parts, as they are.
    pub fn new(origin: Origin, contents: Vec<Slot>) -> (selection: Selection)
        ensures
            selection@ == (SelectionView { origin: origin@, contents: slot_views(contents@) }),
    {
        Selection { origin, contents }
    }

    /// Where the selected cards come from.
    pub fn get_origin(&self) -> (origin: &Origin)
        ensures
            origin@ == self@.origin,
    {
        &self.origin
    }

    /// The slots that hold the selected cards.
    pub fn get_slots(&self) -> (slots: &Vec<Slot>)
        ensures
            slot_views(slots@) == self@.contents,
    {
        &self.contents
    }

    /// The selected cards, the first one being the top of the run.
    pub fn get_cards(&self) -> (cards: Vec<Card>)
        ensures
            cards@ == self@.cards(),
    {
        slots_to_cards(self.contents.as_slice())
    }

    /// Selects the cards, unless cards are selected already.
    pub fn set_contents(&mut self, origin: Origin, cards: Vec<Card>)
        ensures
            final(self)@ == old(self)@.set_contents(origin@, cards@),
    {
        if !self.origin.is_none() {
            return ;
        }
        self.origin = origin;
        let mut index: usize = 0;
        while index < cards.len()
            invariant
                index <= cards.len(),
                self.origin@ == origin@,
                self.contents@.len() == if old(self).contents@.len() >= index {
                    old(self).contents@.len()
                } else {
                    index as nat
                },
                forall|i: int|
                    0 <= i < index ==> (#[trigger] self.contents@[i])@ == holding(
                        old(self)@.contents,
                        cards@,
                    )[i],
                forall|i: int|
                    index <= i < self.contents@.len() ==> (#[trigger] self.contents@[i])@ == (old(
                        self,
                    ).contents@[i])@,
            decreases cards.len() - index,
        {
            let state = SlotState::Occupied(cards[index]);
            if index < self.contents.len() {
                self.contents[index].set_state(state);
            } else {
                self.contents.push(Slot::new(make_numbered_id("selected", index), state));
            }
            index += 1;
        }
        assert(self@.contents =~= holding(old(self)@.contents, cards@));
    }

    /// Selects nothing: the origin is forgotten and every slot is blank.
    pub fn clear(&mut self)
        ensures
            final(self)@ == old(self)@.clear(),
    {
        self.origin = Origin::Nowhere;
        let mut index: usize = 0;
        while index < self.contents.len()
            invariant
                index <= self.contents@.len(),
                self.origin@ is Nowhere,
                self.contents@.len() == old(self).contents@.len(),
                forall|i: int|
                    0 <= i < index ==> (#[trigger] self.contents@[i])@ == blanked(
                        old(self)@.contents,
                    )[i],
                forall|i: int|
                    index <= i < self.contents@.len() ==> (#[trigger] self.contents@[i])@ == (old(
                        self,
                    ).contents@[i])@,
            decreases self.contents@.len() - index,
        {
            self.contents[index].set_state(SlotState::Blank);
            index += 1;
        }
        assert(self@.contents =~= blanked(old(self)@.contents));
    }

    /// Whether no slot is merely empty, and an origin is named exactly
    /// when cards are selected.
    pub fn is_well_formed(&self) -> (ok: bool)
        ensures
            ok == self@.wf(),
    {
        let mut index: usize = 0;
        while index < self.contents.len()
            invariant
                index <= self.contents@.len(),
                forall|i: int| 0 <= i < index ==> !((#[trigger] self@.contents[i]).state is Empty),
            decreases self.contents@.len() - index,
        {
            if *self.contents[index].get_state() == SlotState::Empty {
                assert(self@.contents[index as int].state is Empty);
                return false;
            }
            index += 1;
        }
        self.origin.is_none() == self.is_empty()
    }

    /// The number of selected cards.
    pub fn len(&self) -> (len: usize)
        ensures
            len == self@.cards().len(),
    {
        self.get_cards().len()
    }

    /// Whether no card is selected.
    pub fn is_empty(&self) -> (empty: bool)
        ensures
            empty == (self@.cards().len() == 0),
    {
        self.get_cards().len() == 0
    }
}

} // verus!
