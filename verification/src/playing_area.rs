//! The playing area: seven columns of thirteen slots each.

use crate::card::Card;
use crate::ident::{
    coords_of_id, get_coords_from_id, is_playing_area_id, playing_area_id, DecodeError, COLUMNS, ROWS,
};
use crate::slot::{cards_of, slot_views, slots_to_cards, Slot, SlotState, SlotView};
use vstd::prelude::*;
use vstd::slice::slice_subrange;

verus! {

/// A column from `row` on blank, and as it was above.
pub open spec fn blank_from(column: Seq<SlotView>, row: int) -> Seq<SlotView> {
    Seq::new(
        column.len(),
        |r: int|
            if r >= row {
                column[r].with_state(SlotState::Blank)
            } else {
                column[r]
            },
    )
}

/// A column with the cards laid from `row` downwards, the first card at
/// `row`. Cards that do not fit into the column are not laid at all.
pub open spec fn laid(column: Seq<SlotView>, row: int, cards: Seq<Card>) -> Seq<SlotView> {
    if row + cards.len() <= column.len() {
        Seq::new(
            column.len(),
            |r: int|
                if row <= r < row + cards.len() {
                    column[r].with_state(SlotState::Occupied(cards[r - row]))
                } else {
                    column[r]
                },
        )
    } else {
        column
    }
}

/// Whether the blank slot at `row` can be reached: it is the first of
/// its column, or the slot above it holds a card.
pub open spec fn reachable(column: Seq<SlotView>, row: int) -> bool {
    row == 0 || column[row - 1].state is Occupied
}

/// A column after its blank slots that can be reached have become
/// empty. Every other slot stays as it is.
pub open spec fn resolved(column: Seq<SlotView>) -> Seq<SlotView> {
    Seq::new(
        column.len(),
        |r: int|
            if column[r].state is Blank && reachable(column, r) {
                column[r].with_state(SlotState::Empty)
            } else {
                column[r]
            },
    )
}

/// Cards laid into a column open the slot below them, and no slot
/// further down: the blank slot below the last card becomes empty, and
/// the blank slot below that one stays blank, since the slot above it
/// holds no card.
pub proof fn lemma_laying_opens_one_slot(column: Seq<SlotView>, row: int, cards: Seq<Card>)
    requires
        0 <= row,
        cards.len() > 0,
        row + cards.len() + 1 < column.len(),
        column[row + cards.len()].state is Blank,
        column[row + cards.len() + 1].state is Blank,
    ensures
        forall|i: int|
            0 <= i < cards.len() ==> (#[trigger] resolved(laid(column, row, cards))[row + i]).state
                == SlotState::Occupied(cards[i]),
        resolved(laid(column, row, cards))[row + cards.len()].state is Empty,
        resolved(laid(column, row, cards))[row + cards.len() + 1].state is Blank,
{
}

/// Resolving changes nothing but blank slots that can be reached:
/// a slot that is not blank stays as it is, a blank slot becomes empty
/// where it can be reached and stays blank elsewhere, and every slot
/// keeps its identifier.
pub proof fn lemma_resolved(column: Seq<SlotView>, row: int)
    requires
        0 <= row < column.len(),
    ensures
        resolved(column).len() == column.len(),
        resolved(column)[row].id == column[row].id,
        !(column[row].state is Blank) ==> resolved(column)[row] == column[row],
        column[row].state is Blank && reachable(column, row) ==> resolved(column)[row].state is Empty,
        column[row].state is Blank && !reachable(column, row) ==> resolved(column)[row].state is Blank,
{
}

/// A playing area with every column resolved.
pub open spec fn resolve_all(area: Seq<Seq<SlotView>>) -> Seq<Seq<SlotView>> {
    Seq::new(area.len(), |c: int| resolved(area[c]))
}

/// A playing area has seven columns of thirteen slots, and each slot
/// carries the identifier of its place.
pub open spec fn area_wf(area: Seq<Seq<SlotView>>) -> bool {
    &&& area.len() == COLUMNS
    &&& forall|c: int| 0 <= c < COLUMNS ==> (#[trigger] area[c]).len() == ROWS
    &&& forall|c: int, r: int|
        0 <= c < COLUMNS && 0 <= r < ROWS ==> (#[trigger] area[c][r]).id == playing_area_id(c, r)
}

/// The slot that an identifier addresses.
pub open spec fn slot_with_id(area: Seq<Seq<SlotView>>, id: Seq<char>) -> SlotView {
    area[coords_of_id(id)->Ok_0.0 as int][coords_of_id(id)->Ok_0.1 as int]
}

/// A playing area with another slot in the place that an identifier addresses.
pub open spec fn with_slot_at_id(area: Seq<Seq<SlotView>>, id: Seq<char>, slot: SlotView) -> Seq<
    Seq<SlotView>,
> {
    let column = coords_of_id(id)->Ok_0.0 as int;
    let row = coords_of_id(id)->Ok_0.1 as int;
    area.update(column, area[column].update(row, slot))
}

/// Whether one of the identifiers addresses the slot at a column and row.
pub open spec fn names_slot(ids: Seq<Seq<char>>, column: int, row: int) -> bool {
    exists|i: int|
        0 <= i < ids.len() && #[trigger] coords_of_id(ids[i]) == Ok::<(usize, usize), DecodeError>(
            (column as usize, row as usize),
        )
}

/// A playing area in which the slots that the identifiers address are
/// blank, and every other slot is as it was.
pub open spec fn blank_at_ids(area: Seq<Seq<SlotView>>, ids: Seq<Seq<char>>) -> Seq<Seq<SlotView>> {
    Seq::new(
        area.len(),
        |c: int|
            Seq::new(
                area[c].len(),
                |r: int|
                    if names_slot(ids, c, r) {
                        area[c][r].with_state(SlotState::Blank)
                    } else {
                        area[c][r]
                    },
            ),
    )
}

/// The characters of each of a sequence of identifiers.
pub open spec fn id_views(ids: Seq<String>) -> Seq<Seq<char>> {
    ids.map_values(|id: String| id@)
}

/// A playing area with cards laid at the slot that an identifier addresses.
pub open spec fn laid_at_id(area: Seq<Seq<SlotView>>, id: Seq<char>, cards: Seq<Card>) -> Seq<
    Seq<SlotView>,
> {
    let column = coords_of_id(id)->Ok_0.0 as int;
    let row = coords_of_id(id)->Ok_0.1 as int;
    area.update(column, laid(area[column], row, cards))
}

/// The main part of the board, column by column.
#[derive(Clone, Debug, PartialEq, Eq)]
pub struct PlayingArea {
    columns: Vec<Vec<Slot>>,
}

impl View for PlayingArea {
    type V = Seq<Seq<SlotView>>;

    closed spec fn view(&self) -> Seq<Seq<SlotView>> {
        Seq::new(self.columns@.len(), |c: int| slot_views(self.columns@[c]@))
    }
}

fn blank_column_from(column: &mut Vec<Slot>, row: usize)
    ensures
        slot_views(final(column)@) == blank_from(slot_views(old(column)@), row as int),
{
    let mut r: usize = row;
    while r < column.len()
        invariant
            row <= r,
            column@.len() == old(column)@.len(),
            forall|i: int|
                0 <= i < column@.len() && !(row <= i < r) ==> (#[trigger] column@[i])@ == (old(
                    column,
                )@[i])@,
            forall|i: int|
                row <= i < r && i < column@.len() ==> (#[trigger] column@[i])@ == (old(
                    column,
                )@[i])@.with_state(SlotState::Blank),
        decreases column@.len() - r,
    {
        column[r].set_state(SlotState::Blank);
        r += 1;
    }
}

fn lay_cards(column: &mut Vec<Slot>, row: usize, cards: &Vec<Card>)
    requires
        row + cards@.len() <= old(column)@.len(),
    ensures
        slot_views(final(column)@) == laid(slot_views(old(column)@), row as int, cards@),
{
    let rows = column.len();
    let mut k: usize = 0;
    while k < cards.len()
        invariant
            k <= cards@.len(),
            rows == column@.len(),
            row + cards@.len() <= column@.len(),
            column@.len() == old(column)@.len(),
            forall|i: int|
                0 <= i < column@.len() && !(row <= i < row + k) ==> (#[trigger] column@[i])@ == (old(
                    column,
                )@[i])@,
            forall|i: int|
                row <= i < row + k ==> (#[trigger] column@[i])@ == (old(column)@[i])@.with_state(
                    SlotState::Occupied(cards@[i - row]),
                ),
        decreases cards@.len() - k,
    {
        column[row + k].set_state(SlotState::Occupied(cards[k]));
        k += 1;
    }
}

fn resolve_column(column: &mut Vec<Slot>)
    ensures
        slot_views(final(column)@) == resolved(slot_views(old(column)@)),
{
    let ghost before = slot_views(old(column)@);
    let mut r: usize = 0;
    while r < column.len()
        invariant
            column@.len() == old(column)@.len(),
            before == slot_views(old(column)@),
            forall|i: int|
                0 <= i < r && i < column@.len() ==> (#[trigger] column@[i])@ == resolved(before)[i],
            forall|i: int| r <= i < column@.len() ==> (#[trigger] column@[i])@ == before[i],
        decreases column@.len() - r,
    {
        let above_holds_card = r == 0 || column[r - 1].get_state().is_occupied();
        if above_holds_card && *column[r].get_state() == SlotState::Blank {
            column[r].set_state(SlotState::Empty);
        }
        r += 1;
    }
}

impl PlayingArea {
    /// A playing area made of its columns, as they are.
    pub fn new(columns: Vec<Vec<Slot>>) -> (area: PlayingArea)
        ensures
            area@ == Seq::new(columns@.len(), |c: int| slot_views(columns@[c]@)),
    {
        PlayingArea { columns }
    }

    /// The columns, each with its slots from the top down.
    pub fn get_columns(&self) -> (columns: &Vec<Vec<Slot>>)
        ensures
            self@ == Seq::new(columns@.len(), |c: int| slot_views(columns@[c]@)),
    {
        &self.columns
    }

    /// Whether the playing area has seven columns of thirteen slots,
    /// each slot with the identifier of its place.
    pub fn is_well_formed(&self) -> (ok: bool)
        ensures
            ok == area_wf(self@),
    {
        if self.columns.len() != COLUMNS {
            return false;
        }
        let mut c: usize = 0;
        while c < COLUMNS
            invariant
                c <= COLUMNS,
                self.columns@.len() == COLUMNS,
                forall|k: int| 0 <= k < c ==> (#[trigger] self@[k]).len() == ROWS,
                forall|k: int, r: int|
                    0 <= k < c && 0 <= r < ROWS ==> (#[trigger] self@[k][r]).id == playing_area_id(k, r),
            decreases COLUMNS - c,
        {
            if self.columns[c].len() != ROWS {
                return false;
            }
            let mut r: usize = 0;
            while r < ROWS
                invariant
                    r <= ROWS,
                    c < COLUMNS,
                    self.columns@.len() == COLUMNS,
                    self.columns@[c as int]@.len() == ROWS,
                    forall|i: int|
                        0 <= i < r ==> (#[trigger] self@[c as int][i]).id == playing_area_id(
                            c as int,
                            i,
                        ),
                decreases ROWS - r,
            {
                if !is_playing_area_id(self.columns[c][r].get_id(), c, r) {
                    assert(self@[c as int][r as int].id != playing_area_id(c as int, r as int));
                    return false;
                }
                r += 1;
            }
            c += 1;
        }
        true
    }

    /// The slot at a column and row.
    pub fn slot_at(&self, column: usize, row: usize) -> (slot: &Slot)
        requires
            column < self@.len(),
            row < self@[column as int].len(),
        ensures
            slot@ == self@[column as int][row as int],
    {
        &self.columns[column][row]
    }

    /// The slot that an identifier addresses.
    pub fn get_from_id(&self, id: &str) -> (slot: Result<&Slot, DecodeError>)
        requires
            area_wf(self@),
        ensures
            match slot {
                Ok(slot) => coords_of_id(id@) is Ok && slot@ == slot_with_id(self@, id@),
                Err(error) => coords_of_id(id@) == Err::<(usize, usize), DecodeError>(error),
            },
    {
        match get_coords_from_id(id) {
            Ok((column, row)) => Ok(&self.columns[column][row]),
            Err(error) => Err(error),
        }
    }

    /// The slot that an identifier addresses, to be changed in place.
    pub fn get_from_id_mut(&mut self, id: &str) -> (slot: Result<&mut Slot, DecodeError>)
        requires
            area_wf(old(self)@),
        ensures
            match slot {
                Ok(slot) => {
                    &&& coords_of_id(id@) is Ok
                    &&& slot@ == slot_with_id(old(self)@, id@)
                    &&& final(self)@ =~~= with_slot_at_id(old(self)@, id@, final(slot)@)
                },
                Err(error) => {
                    &&& coords_of_id(id@) == Err::<(usize, usize), DecodeError>(error)
                    &&& final(self)@ == old(self)@
                },
            },
    {
        match get_coords_from_id(id) {
            Ok((column, row)) => {
                let slot = &mut self.columns[column][row];
                Ok(slot)
            },
            Err(error) => Err(error),
        }
    }

    /// The cards that lie in a column from `row` downwards.
    pub fn cards_from(&self, column: usize, row: usize) -> (cards: Vec<Card>)
        requires
            column < self@.len(),
            row <= self@[column as int].len(),
        ensures
            cards@ == cards_of(self@[column as int].skip(row as int)),
    {
        let slots = self.columns[column].as_slice();
        let run = slice_subrange(slots, row, slots.len());
        assert(slot_views(run@) =~= self@[column as int].skip(row as int));
        slots_to_cards(run)
    }

    /// Gives the slot at a column and row another state.
    pub fn set_slot_state_at_coord(&mut self, column: usize, row: usize, state: SlotState)
        requires
            column < old(self)@.len(),
            row < old(self)@[column as int].len(),
        ensures
            final(self)@ == old(self)@.update(
                column as int,
                old(self)@[column as int].update(
                    row as int,
                    old(self)@[column as int][row as int].with_state(state),
                ),
            ),
    {
        self.columns[column][row].set_state(state);
        assert(self@[column as int] =~= old(self)@[column as int].update(
            row as int,
            old(self)@[column as int][row as int].with_state(state),
        ));
    }

    /// Makes the slots blank that the identifiers address. Where one of
    /// the identifiers cannot be read, no slot is changed, and the error
    /// is that of the first such identifier.
    pub fn clear_slots(&mut self, ids: Vec<String>) -> (cleared: Result<(), DecodeError>)
        requires
            area_wf(old(self)@),
        ensures
            match cleared {
                Ok(_) => {
                    &&& forall|i: int| 0 <= i < ids@.len() ==> coords_of_id(#[trigger] ids@[i]@) is Ok
                    &&& final(self)@ == blank_at_ids(old(self)@, id_views(ids@))
                },
                Err(error) => {
                    &&& exists|i: int|
                        {
                            &&& 0 <= i < ids@.len()
                            &&& #[trigger] coords_of_id(ids@[i]@) == Err::<(usize, usize), DecodeError>(
                                error,
                            )
                            &&& forall|j: int| 0 <= j < i ==> coords_of_id(#[trigger] ids@[j]@) is Ok
                        }
                    &&& final(self)@ == old(self)@
                },
            },
    {
        let ghost names = id_views(ids@);
        let mut coords: Vec<(usize, usize)> = Vec::new();
        let mut i: usize = 0;
        while i < ids.len()
            invariant
                i <= ids@.len(),
                coords@.len() == i,
                forall|j: int|
                    0 <= j < i ==> coords_of_id(#[trigger] ids@[j]@) == Ok::<
                        (usize, usize),
                        DecodeError,
                    >(coords@[j]),
                forall|j: int| 0 <= j < i ==> (#[trigger] coords@[j]).0 < COLUMNS && coords@[j].1 < ROWS,
            decreases ids@.len() - i,
        {
            match get_coords_from_id(ids[i].as_str()) {
                Ok(place) => {
                    coords.push(place);
                },
                Err(error) => {
                    return Err(error);
                },
            }
            i += 1;
        }
        let mut k: usize = 0;
        assert(self@ =~~= blank_at_ids(old(self)@, names.take(0)));
        while k < coords.len()
            invariant
                k <= coords@.len(),
                coords@.len() == ids@.len(),
                names == id_views(ids@),
                area_wf(old(self)@),
                forall|j: int|
                    0 <= j < ids@.len() ==> coords_of_id(#[trigger] ids@[j]@) == Ok::<
                        (usize, usize),
                        DecodeError,
                    >(coords@[j]),
                forall|j: int|
                    0 <= j < coords@.len() ==> (#[trigger] coords@[j]).0 < COLUMNS && coords@[j].1
                        < ROWS,
                self@ == blank_at_ids(old(self)@, names.take(k as int)),
            decreases coords@.len() - k,
        {
            let (column, row) = coords[k];
            self.set_slot_state_at_coord(column, row, SlotState::Blank);
            proof {
                let before = names.take(k as int);
                let after = names.take(k + 1);
                assert(coords_of_id(after[k as int]) == Ok::<(usize, usize), DecodeError>(
                    (column, row),
                ));
                assert(self@ =~~= blank_at_ids(old(self)@, after));
            }
            k += 1;
        }
        assert(names.take(k as int) =~= names);
        Ok(())
    }

    /// Makes every slot of a column from `row` downwards blank.
    pub fn clear_from(&mut self, column: usize, row: usize)
        requires
            column < old(self)@.len(),
        ensures
            final(self)@ == old(self)@.update(
                column as int,
                blank_from(old(self)@[column as int], row as int),
            ),
    {
        blank_column_from(&mut self.columns[column], row);
    }

    /// Makes every blank slot that can be reached empty: the first slot
    /// of a column, and a slot below a card.
    pub fn update_empty_slots(&mut self)
        ensures
            final(self)@ == resolve_all(old(self)@),
    {
        let mut c: usize = 0;
        while c < self.columns.len()
            invariant
                self.columns@.len() == old(self).columns@.len(),
                c <= self.columns@.len(),
                forall|k: int|
                    0 <= k < c ==> slot_views(#[trigger] self.columns@[k]@) == resolved(
                        old(self)@[k],
                    ),
                forall|k: int|
                    c <= k < self.columns@.len() ==> slot_views(#[trigger] self.columns@[k]@) == old(
                        self,
                    )@[k],
            decreases self.columns@.len() - c,
        {
            resolve_column(&mut self.columns[c]);
            c += 1;
        }
    }

    /// Lays cards into a column from `row` downwards. Cards that do not
    /// fit into the column are not laid at all.
    pub fn add_at_coord(&mut self, column: usize, row: usize, to_add: &Vec<Card>)
        requires
            column < old(self)@.len(),
        ensures
            final(self)@ == old(self)@.update(
                column as int,
                laid(old(self)@[column as int], row as int, to_add@),
            ),
    {
        let rows = self.columns[column].len();
        if row > rows || to_add.len() > rows - row {
            return ;
        }
        lay_cards(&mut self.columns[column], row, to_add);
    }

    /// Lays cards at the slot that an identifier addresses, and below it.
    /// Cards that do not fit into the column are not laid at all.
    pub fn add_at_id(&mut self, id: String, to_add: Vec<Card>) -> (added: Result<(), DecodeError>)
        requires
            area_wf(old(self)@),
        ensures
            match added {
                Ok(_) => coords_of_id(id@) is Ok && final(self)@ == laid_at_id(old(self)@, id@, to_add@),
                Err(error) => {
                    &&& coords_of_id(id@) == Err::<(usize, usize), DecodeError>(error)
                    &&& final(self)@ == old(self)@
                },
            },
    {
        match get_coords_from_id(id.as_str()) {
            Ok((column, row)) => {
                self.add_at_coord(column, row, &to_add);
                Ok(())
            },
            Err(error) => Err(error),
        }
    }
}

} // verus!
