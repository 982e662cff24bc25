//! Identifiers: the address of a slot in the playing area, and the names
//! under which the other slots are known.

use vstd::prelude::*;
use vstd::string::{StrSliceExecFns, StringExecFns};

verus! {

broadcast use vstd::string::group_string_axioms;

/// Number of columns of the playing area.
pub const COLUMNS: usize = 7;

/// Number of rows of each column of the playing area.
pub const ROWS: usize = 13;

/// Why an identifier could not be read.
#[derive(Clone, Copy, Debug, PartialEq, Eq, Structural)]
pub enum DecodeError {
    /// The identifier is empty, so the column is missing.
    MissingColumn,
    /// The first character is not one of the column letters `a` to `g`.
    InvalidColumn,
    /// The identifier ends after the column letter.
    MissingRow,
    /// The second character is not one of the row digits `0` to `c`.
    InvalidRow,
    /// The identifier names nothing that can be clicked.
    UnknownTarget,
    /// The index behind a name is not one that the name has.
    InvalidIndex,
}

/// The column that a letter stands for: `a` to `g` are columns 0 to 6.
pub open spec fn column_of(c: char) -> Option<usize> {
    if 'a' <= c && c <= 'g' {
        Some((c as u32 - 'a' as u32) as usize)
    } else {
        None
    }
}

/// The row that a digit stands for: `0` to `9` and `a` to `c` are rows 0 to 12.
pub open spec fn row_of(c: char) -> Option<usize> {
    if '0' <= c && c <= '9' {
        Some((c as u32 - '0' as u32) as usize)
    } else if 'a' <= c && c <= 'c' {
        Some((10 + c as u32 - 'a' as u32) as usize)
    } else {
        None
    }
}

/// Column and row that an identifier addresses. Only the first two
/// characters are read.
pub open spec fn coords_of_id(id: Seq<char>) -> Result<(usize, usize), DecodeError> {
    if id.len() == 0 {
        Err(DecodeError::MissingColumn)
    } else if column_of(id[0]) is None {
        Err(DecodeError::InvalidColumn)
    } else if id.len() == 1 {
        Err(DecodeError::MissingRow)
    } else if row_of(id[1]) is None {
        Err(DecodeError::InvalidRow)
    } else {
        Ok((column_of(id[0])->0, row_of(id[1])->0))
    }
}

fn decode_column(c: char) -> (column: Option<usize>)
    ensures
        column == column_of(c),
{
    if 'a' <= c && c <= 'g' {
        Some((c as u32 - 'a' as u32) as usize)
    } else {
        None
    }
}

fn decode_row(c: char) -> (row: Option<usize>)
    ensures
        row == row_of(c),
{
    if '0' <= c && c <= '9' {
        Some((c as u32 - '0' as u32) as usize)
    } else if 'a' <= c && c <= 'c' {
        Some((10 + c as u32 - 'a' as u32) as usize)
    } else {
        None
    }
}

/// Reads the column and row that a playing-area identifier addresses.
pub fn get_coords_from_id(id: &str) -> (coords: Result<(usize, usize), DecodeError>)
    ensures
        coords == coords_of_id(id@),
        coords matches Ok((column, row)) ==> column < COLUMNS && row < ROWS,
{
    let mut id_chars = id.chars();
    let column = match id_chars.next() {
        None => {
            return Err(DecodeError::MissingColumn);
        },
        Some(c) => match decode_column(c) {
            None => {
                return Err(DecodeError::InvalidColumn);
            },
            Some(column) => column,
        },
    };
    let row = match id_chars.next() {
        None => {
            return Err(DecodeError::MissingRow);
        },
        Some(c) => match decode_row(c) {
            None => {
                return Err(DecodeError::InvalidRow);
            },
            Some(row) => row,
        },
    };
    Ok((column, row))
}

/// The letter of a column: the inverse of [`column_of`].
pub open spec fn column_letter(column: int) -> char {
    ('a' as int + column) as char
}

/// The digit of a number below sixteen, in lower-case hexadecimal; for
/// a row, the inverse of [`row_of`].
pub open spec fn digit_char(digit: int) -> char {
    if digit < 10 {
        ('0' as int + digit) as char
    } else {
        ('a' as int + digit - 10) as char
    }
}

/// The identifier of the slot at a column and row of the playing area.
pub open spec fn playing_area_id(column: int, row: int) -> Seq<char> {
    seq![column_letter(column), digit_char(row)]
}

/// The digits of a number, written in base ten without leading zeros.
pub open spec fn decimal_digits(n: nat) -> Seq<char>
    decreases n,
{
    if n < 10 {
        seq![digit_char(n as int)]
    } else {
        decimal_digits(n / 10).push(digit_char((n % 10) as int))
    }
}

/// The identifier of the slot with a given index among those of one
/// name: the name, followed by the index in base ten.
pub open spec fn numbered_id(name: Seq<char>, index: nat) -> Seq<char> {
    name + decimal_digits(index)
}

/// An identifier of the playing area decodes to the column and row that
/// it was made from.
pub proof fn lemma_playing_area_id_decodes(column: int, row: int)
    requires
        0 <= column < COLUMNS,
        0 <= row < ROWS,
    ensures
        coords_of_id(playing_area_id(column, row)) == Ok::<(usize, usize), DecodeError>(
            (column as usize, row as usize),
        ),
{
}

fn column_name(column: usize) -> (name: &'static str)
    requires
        column < COLUMNS,
    ensures
        name@ == seq![column_letter(column as int)],
{
    proof {
        reveal_strlit("a");
        reveal_strlit("b");
        reveal_strlit("c");
        reveal_strlit("d");
        reveal_strlit("e");
        reveal_strlit("f");
        reveal_strlit("g");
    }
    let name = match column {
        0 => "a",
        1 => "b",
        2 => "c",
        3 => "d",
        4 => "e",
        5 => "f",
        _ => "g",
    };
    name
}

fn digit_name(digit: usize) -> (name: &'static str)
    requires
        digit < 16,
    ensures
        name@ == seq![digit_char(digit as int)],
{
    proof {
        reveal_strlit("0");
        reveal_strlit("1");
        reveal_strlit("2");
        reveal_strlit("3");
        reveal_strlit("4");
        reveal_strlit("5");
        reveal_strlit("6");
        reveal_strlit("7");
        reveal_strlit("8");
        reveal_strlit("9");
        reveal_strlit("a");
        reveal_strlit("b");
        reveal_strlit("c");
        reveal_strlit("d");
        reveal_strlit("e");
        reveal_strlit("f");
    }
    let name = match digit {
        0 => "0",
        1 => "1",
        2 => "2",
        3 => "3",
        4 => "4",
        5 => "5",
        6 => "6",
        7 => "7",
        8 => "8",
        9 => "9",
        10 => "a",
        11 => "b",
        12 => "c",
        13 => "d",
        14 => "e",
        _ => "f",
    };
    name
}

/// Builds the identifier of the slot at a column and row of the playing area.
pub fn make_playing_area_id(column: usize, row: usize) -> (id: String)
    requires
        column < COLUMNS,
        row < ROWS,
    ensures
        id@ == playing_area_id(column as int, row as int),
{
    let mut id = String::from_str(column_name(column));
    id.append(digit_name(row));
    id
}

fn append_decimal(id: &mut String, n: usize)
    ensures
        final(id)@ == old(id)@ + decimal_digits(n as nat),
    decreases n,
{
    if n >= 10 {
        append_decimal(id, n / 10);
    }
    id.append(digit_name(n % 10));
}

/// Builds the identifier of the slot with a given index among those of one name.
pub fn make_numbered_id(name: &str, index: usize) -> (id: String)
    ensures
        id@ == numbered_id(name@, index as nat),
{
    let mut id = String::from_str(name);
    append_decimal(&mut id, index);
    id
}

/// Whether an identifier is the one of the slot at a column and row of
/// the playing area.
pub fn is_playing_area_id(id: &str, column: usize, row: usize) -> (same: bool)
    requires
        column < COLUMNS,
        row < ROWS,
    ensures
        same == (id@ == playing_area_id(column as int, row as int)),
{
    let mut id_chars = id.chars();
    let first = id_chars.next();
    let second = id_chars.next();
    let third = id_chars.next();
    match (first, second, third) {
        (Some(letter), Some(digit), None) => {
            let same = decode_column(letter) == Some(column) && decode_row(digit) == Some(row);
            assert(same == (id@ =~= playing_area_id(column as int, row as int)));
            same
        },
        _ => {
            false
        },
    }
}

/// What a click can be aimed at.
#[derive(Clone, Copy, Debug, PartialEq, Eq, Structural)]
pub enum ClickTarget {
    /// A slot of the playing area; the identifier says which.
    PlayingArea,
    /// The draw pile.
    Deck,
    /// The place that sends the selected cards back.
    Return,
    /// The waste pile.
    Stack,
    /// An ace pile, with the character that says which.
    Ace(char),
}

/// Whether a character is a digit of base ten.
pub open spec fn is_decimal_digit(c: char) -> bool {
    '0' <= c && c <= '9'
}

/// Whether an identifier is a name followed by one digit of base ten.
pub open spec fn is_numbered(id: Seq<char>, name: Seq<char>) -> bool {
    id.len() == name.len() + 1 && id.drop_last() == name && is_decimal_digit(id.last())
}

/// What an identifier says was clicked.
///
/// Two characters address a slot of the playing area. The draw pile is
/// `deck` and the way back is `return`, each with or without a digit
/// behind it. The waste pile is `selection` or `stack` with a digit, and
/// an ace pile is `ace` with one more character, its index.
pub open spec fn click_target(id: Seq<char>) -> Result<ClickTarget, DecodeError> {
    if id.len() == 2 {
        Ok(ClickTarget::PlayingArea)
    } else if id == "deck"@ || is_numbered(id, "deck"@) {
        Ok(ClickTarget::Deck)
    } else if id == "return"@ || is_numbered(id, "return"@) {
        Ok(ClickTarget::Return)
    } else if is_numbered(id, "selection"@) || is_numbered(id, "stack"@) {
        Ok(ClickTarget::Stack)
    } else if id.len() == 4 && id.drop_last() == "ace"@ {
        Ok(ClickTarget::Ace(id.last()))
    } else {
        Err(DecodeError::UnknownTarget)
    }
}

/// The index of the ace pile that a character stands for: `0` to `3`.
pub open spec fn ace_index_of(c: char) -> Option<usize> {
    if '0' <= c && c <= '3' {
        Some((c as u32 - '0' as u32) as usize)
    } else {
        None
    }
}

/// Reads the index of an ace pile.
pub fn decode_ace_index(c: char) -> (index: Option<usize>)
    ensures
        index == ace_index_of(c),
        index matches Some(i) ==> i < 4,
{
    if '0' <= c && c <= '3' {
        Some((c as u32 - '0' as u32) as usize)
    } else {
        None
    }
}

/// Whether the first `len` characters of an identifier spell a name.
fn spells(id: &str, len: usize, name: &str) -> (same: bool)
    requires
        len <= id@.len(),
    ensures
        same == (id@.take(len as int) == name@),
{
    if name.unicode_len() != len {
        return false;
    }
    let mut i: usize = 0;
    while i < len
        invariant
            i <= len,
            len <= id@.len(),
            len == name@.len(),
            forall|k: int| 0 <= k < i ==> id@[k] == name@[k],
        decreases len - i,
    {
        if id.get_char(i) != name.get_char(i) {
            return false;
        }
        i += 1;
    }
    assert(id@.take(len as int) =~= name@);
    true
}

/// Reads what an identifier says was clicked.
pub fn decode_click_target(id: &str) -> (target: Result<ClickTarget, DecodeError>)
    ensures
        target == click_target(id@),
{
    proof {
        reveal_strlit("deck");
        reveal_strlit("return");
        reveal_strlit("selection");
        reveal_strlit("stack");
        reveal_strlit("ace");
    }
    let len = id.unicode_len();
    if len == 2 {
        return Ok(ClickTarget::PlayingArea);
    }
    if len < 4 || len > 10 {
        return Err(DecodeError::UnknownTarget);
    }
    let last = id.get_char(len - 1);
    let numbered = '0' <= last && last <= '9';
    assert(id@.take(len as int) =~= id@);
    if spells(id, len, "deck") || (numbered && spells(id, len - 1, "deck")) {
        Ok(ClickTarget::Deck)
    } else if spells(id, len, "return") || (numbered && spells(id, len - 1, "return")) {
        Ok(ClickTarget::Return)
    } else if numbered && (spells(id, len - 1, "selection") || spells(id, len - 1, "stack")) {
        Ok(ClickTarget::Stack)
    } else if len == 4 && spells(id, len - 1, "ace") {
        Ok(ClickTarget::Ace(last))
    } else {
        Err(DecodeError::UnknownTarget)
    }
}

} // verus!
