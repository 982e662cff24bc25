//! The waste pile: the cards drawn from the deck, last drawn first.

use crate::card::Card;
use crate::ident::{make_numbered_id, numbered_id};
use crate::slot::{slot_views, Slot, SlotState, SlotView};
use vstd::prelude::*;

verus! {

/// Number of slots in which the waste pile shows its cards.
pub const STACK_SIZE: usize = 9;

/// The waste pile. `contents` holds its cards, the last drawn one first;
/// the slots show the first of them.
#[derive(Clone, Debug, PartialEq, Eq)]
pub struct Stack {
    available_slots: Vec<Slot>,
    contents: Vec<Card>,
}

/// A waste pile as contracts see it.
pub struct StackView {
    pub slots: Seq<SlotView>,
    pub contents: Seq<Card>,
}

/// The name of the slots of a waste pile.
pub open spec fn stack_slot_name() -> Seq<char> {
    "s"@
}

/// What slots show of a pile of cards: slot `i` holds card `i`, and the
/// slots beyond the last card are empty.
pub open spec fn showing(slots: Seq<SlotView>, contents: Seq<Card>) -> Seq<SlotView> {
    Seq::new(
        slots.len(),
        |i: int|
            slots[i].with_state(
                if i < contents.len() {
                    SlotState::Occupied(contents[i])
                } else {
                    SlotState::Empty
                },
            ),
    )
}

impl StackView {
    /// The slots show the cards, and there are as many slots as a waste
    /// pile has.
    pub open spec fn wf(self) -> bool {
        &&& self.slots.len() == STACK_SIZE
        &&& self.slots == showing(self.slots, self.contents)
    }

    /// The pile with one more card on top.
    pub open spec fn push(self, card: Card) -> StackView {
        StackView {
            slots: showing(self.slots, seq![card] + self.contents),
            contents: seq![card] + self.contents,
        }
    }

    /// The pile without its top card.
    pub open spec fn pop(self) -> StackView {
        StackView {
            slots: showing(self.slots, self.contents.drop_first()),
            contents: self.contents.drop_first(),
        }
    }

    /// A pile without cards, as a new game has it.
    pub open spec fn fresh() -> StackView {
        StackView {
            slots: Seq::new(
                STACK_SIZE as nat,
                |i: int|
                    SlotView { id: numbered_id(stack_slot_name(), i as nat), state: SlotState::Empty },
            ),
            contents: Seq::empty(),
        }
    }
}

impl View for Stack {
    type V = StackView;

    closed spec fn view(&self) -> StackView {
        StackView { slots: slot_views(self.available_slots@), contents: self.contents@ }
    }
}

impl Stack {
    /// A pile without cards.
    pub fn new() -> (stack: Stack)
        ensures
            stack@ == StackView::fresh(),
            stack@.wf(),
    {
        let mut available_slots: Vec<Slot> = Vec::new();
        let mut index: usize = 0;
        while index < STACK_SIZE
            invariant
                index <= STACK_SIZE,
                available_slots@.len() == index,
                forall|i: int|
                    0 <= i < index ==> (#[trigger] available_slots@[i])@ == StackView::fresh().slots[i],
            decreases STACK_SIZE - index,
        {
            available_slots.push(Slot::new(make_numbered_id("s", index), SlotState::Empty));
            index += 1;
        }
        let stack = Stack { available_slots, contents: Vec::new() };
        assert(stack@.slots =~= StackView::fresh().slots);
        assert(stack@.slots =~= showing(stack@.slots, stack@.contents));
        stack
    }

    /// A pile made of its parts, as they are.
    pub fn from_parts(available_slots: Vec<Slot>, contents: Vec<Card>) -> (stack: Stack)
        ensures
            stack@ == (StackView { slots: slot_views(available_slots@), contents: contents@ }),
    {
        Stack { available_slots, contents }
    }

    /// The slots in which the pile shows its cards.
    pub fn get_slots(&self) -> (slots: &Vec<Slot>)
        ensures
            slot_views(slots@) == self@.slots,
    {
        &self.available_slots
    }

    /// The cards of the pile, the top one first.
    pub fn get_cards(&self) -> (cards: &Vec<Card>)
        ensures
            cards@ == self@.contents,
    {
        &self.contents
    }

    /// Makes the slots show the cards.
    fn update_stack_slots(&mut self)
        ensures
            final(self)@.contents == old(self)@.contents,
            final(self)@.slots == showing(old(self)@.slots, old(self)@.contents),
    {
        let mut index: usize = 0;
        while index < self.available_slots.len()
            invariant
                self.contents == old(self).contents,
                self.available_slots@.len() == old(self).available_slots@.len(),
                index <= self.available_slots@.len(),
                forall|i: int|
                    0 <= i < index ==> (#[trigger] self.available_slots@[i])@ == showing(
                        old(self)@.slots,
                        old(self)@.contents,
                    )[i],
                forall|i: int|
                    index <= i < self.available_slots@.len() ==> (#[trigger] self.available_slots@[i])@
                        == (old(self).available_slots@[i])@,
            decreases self.available_slots@.len() - index,
        {
            let state = if index < self.contents.len() {
                SlotState::Occupied(self.contents[index])
            } else {
                SlotState::Empty
            };
            self.available_slots[index].set_state(state);
            index += 1;
        }
    }

    /// Puts a card on top of the pile.
    pub fn push(&mut self, card: Card)
        ensures
            final(self)@ == old(self)@.push(card),
            old(self)@.wf() ==> final(self)@.wf(),
    {
        self.contents.insert(0, card);
        assert(self.contents@ =~= seq![card] + old(self).contents@);
        self.update_stack_slots();
        assert(self@.slots =~= showing(self@.slots, self@.contents));
    }

    /// Takes the top card off the pile.
    pub fn pop(&mut self) -> (card: Card)
        requires
            old(self)@.contents.len() > 0,
        ensures
            card == old(self)@.contents[0],
            final(self)@ == old(self)@.pop(),
            old(self)@.wf() ==> final(self)@.wf(),
    {
        let card = self.contents.remove(0);
        self.update_stack_slots();
        assert(self@.slots =~= showing(self@.slots, self@.contents));
        card
    }

    /// Whether the slots show the cards, and are as many as a waste pile has.
    pub fn is_well_formed(&self) -> (ok: bool)
        ensures
            ok == self@.wf(),
    {
        if self.available_slots.len() != STACK_SIZE {
            return false;
        }
        let mut index: usize = 0;
        while index < STACK_SIZE
            invariant
                index <= STACK_SIZE,
                self.available_slots@.len() == STACK_SIZE,
                forall|i: int|
                    0 <= i < index ==> self@.slots[i] == #[trigger] showing(
                        self@.slots,
                        self@.contents,
                    )[i],
            decreases STACK_SIZE - index,
        {
            let shown = if index < self.contents.len() {
                SlotState::Occupied(self.contents[index])
            } else {
                SlotState::Empty
            };
            if *self.available_slots[index].get_state() != shown {
                assert(self@.slots[index as int] != showing(self@.slots, self@.contents)[index as int]);
                return false;
            }
            index += 1;
        }
        assert(self@.slots =~= showing(self@.slots, self@.contents));
        true
    }

    /// Whether the pile has no cards.
    pub fn is_empty(&self) -> (empty: bool)
        ensures
            empty == (self@.contents.len() == 0),
    {
        self.contents.len() == 0
    }
}

/// The pile is last in, first out: the card pushed last is the one
/// popped, and popping it gives back the pile as it was before the push.
pub proof fn lemma_push_then_pop(stack: StackView, card: Card)
    requires
        stack.wf(),
    ensures
        stack.push(card).contents[0] == card,
        stack.push(card).pop() == stack,
{
    let pushed = stack.push(card);
    assert(pushed.contents.drop_first() =~= stack.contents);
    assert(pushed.pop().slots =~= stack.slots);
}

} // verus!
