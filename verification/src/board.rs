//! The board: everything that makes up the state of a game.

use crate::card::Card;
use crate::ident::{coords_of_id, get_coords_from_id, ROWS};
use crate::playing_area::{area_wf, PlayingArea};
use crate::selection::{Origin, OriginView, Selection, SelectionView};
use crate::slot::{slot_views, Slot, SlotView};
use crate::stack::{Stack, StackView};
use vstd::prelude::*;

verus! {

/// Number of ace piles, one for each suit.
pub const SUIT_COUNT: usize = 4;

/// The state of a game.
#[derive(Clone, Debug, PartialEq, Eq)]
pub struct Board {
    /// The draw pile. The card at the end is drawn next.
    pub available_cards: Vec<Card>,
    /// The slot that takes the place of the draw pile once it is used up.
    pub deck: Option<Slot>,
    /// The waste pile, where drawn cards go.
    pub stack: Stack,
    /// The cards that are picked up.
    pub selection: Selection,
    /// The seven columns in which the game is played.
    pub playing_area: PlayingArea,
    /// The ace piles, on which each suit is built up from its ace.
    pub aces: Vec<Slot>,
}

/// A board as contracts see it.
pub struct BoardView {
    pub available_cards: Seq<Card>,
    pub deck: Option<SlotView>,
    pub stack: StackView,
    pub selection: SelectionView,
    pub playing_area: Seq<Seq<SlotView>>,
    pub aces: Seq<SlotView>,
}

impl View for Board {
    type V = BoardView;

    open spec fn view(&self) -> BoardView {
        BoardView {
            available_cards: self.available_cards@,
            deck: match self.deck {
                Some(slot) => Some(slot@),
                None => None,
            },
            stack: self.stack@,
            selection: self.selection@,
            playing_area: self.playing_area@,
            aces: slot_views(self.aces@),
        }
    }
}

/// The selected cards can go back to where they come from: a run from
/// the playing area fits below the slot that it was lifted from, and
/// from a pile comes a single card.
pub open spec fn origin_fits(selection: SelectionView) -> bool {
    match selection.origin {
        OriginView::Nowhere => true,
        OriginView::PlayingAreaId(id) => {
            &&& coords_of_id(id) is Ok
            &&& coords_of_id(id)->Ok_0.1 + selection.cards().len() <= ROWS
        },
        _ => selection.cards().len() == 1,
    }
}

impl BoardView {
    /// Every part of the board is well formed, there is a pile for
    /// each suit, the selection can go back to its origin, and the
    /// marker of the draw pile is there exactly when the draw pile is
    /// used up.
    pub open spec fn wf(self) -> bool {
        &&& self.deck is Some <==> self.available_cards.len() == 0
        &&& area_wf(self.playing_area)
        &&& self.aces.len() == SUIT_COUNT
        &&& self.stack.wf()
        &&& self.selection.wf()
        &&& origin_fits(self.selection)
    }
}

impl Board {
    /// Whether the board is well formed. Every click asks for a board
    /// that is.
    pub fn is_well_formed(&self) -> (ok: bool)
        ensures
            ok == self@.wf(),
    {
        if self.deck.is_some() != (self.available_cards.len() == 0) {
            return false;
        }
        if !self.playing_area.is_well_formed() || self.aces.len() != SUIT_COUNT
            || !self.stack.is_well_formed() || !self.selection.is_well_formed() {
            return false;
        }
        let selected = self.selection.len();
        match self.selection.get_origin() {
            Origin::Nowhere => true,
            Origin::PlayingAreaId(id) => match get_coords_from_id(id.as_str()) {
                Ok((_, row)) => selected <= ROWS - row,
                Err(_) => false,
            },
            _ => selected == 1,
        }
    }
}

} // verus!
