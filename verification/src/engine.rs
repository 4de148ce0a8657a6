//! The rules by which keystrokes change a passage: where the cursor sits,
//! how a typed character is judged, and what a backspace undoes.
//!
//! Everything is stated over the cells as plain values and a position, which
//! counts the characters already typed. Since every cell before the position
//! holds exactly one character, the position is also the index of the cell
//! to type next.

use crate::passage::{
    cell_views, is_fresh, lemma_text_of_concat, lemma_text_of_one, passage_text, Cell, CellState,
    CellView,
};
use vstd::prelude::*;
use vstd::string::StringExecFns;

verus! {

/// A verdict proper: the cell has been typed, rightly or wrongly.
pub open spec fn is_judged(state: CellState) -> bool {
    state == CellState::Correct || state == CellState::Incorrect
}

/// The shape every passage keeps while it is being typed.
///
/// No cell is empty. Every cell before the position is a single character
/// with a verdict. Unless the passage is exhausted, the cell at the position
/// is a single character and carries the one cursor. Every cell after it is
/// untouched.
pub open spec fn well_formed(cells: Seq<CellView>, position: int) -> bool {
    &&& 0 <= position <= cells.len()
    &&& forall|i: int| 0 <= i < cells.len() ==> (#[trigger] cells[i]).text.len() >= 1
    &&& forall|i: int|
        0 <= i < position ==> (#[trigger] cells[i]).text.len() == 1 && is_judged(cells[i].state)
    &&& position < cells.len() ==> cells[position].text.len() == 1 && cells[position].state
        == CellState::Cursor
    &&& forall|i: int| position < i < cells.len() ==> (#[trigger] cells[i]).state == CellState::Untouched
}

/// The verdict on typing `typed` where the passage has `expected`.
pub open spec fn judge(expected: char, typed: char) -> CellState {
    if expected == typed {
        CellState::Correct
    } else {
        CellState::Incorrect
    }
}

/// The same cell under another verdict.
pub open spec fn marked(cell: CellView, state: CellState) -> CellView {
    CellView { text: cell.text, state }
}

/// The cells with the cursor put on the first character of cell `at`. A cell
/// of one character is marked as it stands; a longer one is split into its
/// first character, which takes the cursor, and the untouched rest. Past the
/// end there is nothing to mark.
pub open spec fn with_cursor(cells: Seq<CellView>, at: int) -> Seq<CellView> {
    if !(0 <= at < cells.len()) {
        cells
    } else if cells[at].text.len() <= 1 {
        cells.update(at, marked(cells[at], CellState::Cursor))
    } else {
        cells.update(
            at,
            CellView { text: cells[at].text.skip(1), state: CellState::Untouched },
        ).insert(at, CellView { text: cells[at].text.take(1), state: CellState::Cursor })
    }
}

/// The cells after `typed` is entered at `position`: the cell there takes its
/// verdict and the cursor moves on to the next character.
pub open spec fn after_character(cells: Seq<CellView>, position: int, typed: char) -> Seq<CellView> {
    with_cursor(
        cells.update(position, marked(cells[position], judge(cells[position].text[0], typed))),
        position + 1,
    )
}

/// The cells after a backspace at `position`, which is not zero: the cell
/// that held the cursor, if any, is untouched again and the cursor sits on
/// the cell before it.
pub open spec fn after_backspace(cells: Seq<CellView>, position: int) -> Seq<CellView> {
    let cleared = if position < cells.len() {
        cells.update(position, marked(cells[position], CellState::Untouched))
    } else {
        cells
    };
    cleared.update(position - 1, marked(cells[position - 1], CellState::Cursor))
}

/// How many of the first `upto` cells carry `state`.
pub open spec fn tally(cells: Seq<CellView>, upto: int, state: CellState) -> int
    decreases upto,
{
    if upto <= 0 {
        0
    } else {
        tally(cells, upto - 1, state) + if cells[upto - 1].state == state {
            1int
        } else {
            0int
        }
    }
}

/// A tally depends only on the verdicts of the cells it covers.
pub proof fn lemma_tally_agrees(a: Seq<CellView>, b: Seq<CellView>, upto: int, state: CellState)
    requires
        upto <= a.len(),
        upto <= b.len(),
        forall|i: int| 0 <= i < upto ==> (#[trigger] a[i]).state == (#[trigger] b[i]).state,
    ensures
        tally(a, upto, state) == tally(b, upto, state),
    decreases upto,
{
    if upto > 0 {
        lemma_tally_agrees(a, b, upto - 1, state);
    }
}

/// Where every covered cell has a verdict, the two tallies add up to the
/// number of cells covered, and neither is negative.
pub proof fn lemma_tallies_cover(cells: Seq<CellView>, upto: int)
    requires
        0 <= upto <= cells.len(),
        forall|i: int| 0 <= i < upto ==> is_judged((#[trigger] cells[i]).state),
    ensures
        tally(cells, upto, CellState::Correct) >= 0,
        tally(cells, upto, CellState::Incorrect) >= 0,
        tally(cells, upto, CellState::Correct) + tally(cells, upto, CellState::Incorrect) == upto,
    decreases upto,
{
    if upto > 0 {
        lemma_tallies_cover(cells, upto - 1);
    }
}

/// Cells that differ only in their verdicts spell the same text.
pub proof fn lemma_text_ignores_states(a: Seq<CellView>, b: Seq<CellView>)
    requires
        a.len() == b.len(),
        forall|i: int| 0 <= i < a.len() ==> (#[trigger] a[i]).text == (#[trigger] b[i]).text,
    ensures
        passage_text(a) == passage_text(b),
    decreases a.len(),
{
    if a.len() > 0 {
        lemma_text_ignores_states(a.drop_last(), b.drop_last());
    }
}

/// Replacing a stretch of cells by another that spells the same leaves the
/// text of the whole as it was.
proof fn lemma_text_of_replaced(
    front: Seq<CellView>,
    old_middle: Seq<CellView>,
    new_middle: Seq<CellView>,
    back: Seq<CellView>,
)
    requires
        passage_text(old_middle) == passage_text(new_middle),
    ensures
        passage_text(front + old_middle + back) == passage_text(front + new_middle + back),
{
    lemma_text_of_concat(front + old_middle, back);
    lemma_text_of_concat(front, old_middle);
    lemma_text_of_concat(front + new_middle, back);
    lemma_text_of_concat(front, new_middle);
}

/// A cell spells the same as its first character followed by its rest.
proof fn lemma_text_of_split(cell: CellView, head: CellView, rest: CellView)
    requires
        cell.text.len() >= 1,
        head.text == cell.text.take(1),
        rest.text == cell.text.skip(1),
    ensures
        passage_text(seq![cell]) == passage_text(seq![head, rest]),
{
    lemma_text_of_one(cell);
    lemma_text_of_one(head);
    lemma_text_of_one(rest);
    lemma_text_of_concat(seq![head], seq![rest]);
    assert(seq![head, rest] =~= seq![head] + seq![rest]);
    assert(head.text + rest.text =~= cell.text);
}

/// Putting the cursor on a cell changes no character of the passage.
pub proof fn lemma_cursor_keeps_text(cells: Seq<CellView>, at: int)
    ensures
        passage_text(with_cursor(cells, at)) == passage_text(cells),
{
    let after = with_cursor(cells, at);
    if !(0 <= at < cells.len()) {
    } else if cells[at].text.len() <= 1 {
        lemma_text_ignores_states(after, cells);
    } else {
        let head = CellView { text: cells[at].text.take(1), state: CellState::Cursor };
        let rest = CellView { text: cells[at].text.skip(1), state: CellState::Untouched };
        let front = cells.take(at);
        let back = cells.skip(at + 1);
        lemma_text_of_split(cells[at], head, rest);
        lemma_text_of_replaced(front, seq![cells[at]], seq![head, rest], back);
        assert(cells =~= front + seq![cells[at]] + back);
        assert(after =~= front + seq![head, rest] + back);
    }
}

/// A fresh passage with the cursor put on its first character is well formed
/// at position zero.
pub proof fn lemma_cursor_opens(cells: Seq<CellView>)
    requires
        is_fresh(cells),
    ensures
        well_formed(with_cursor(cells, 0), 0),
{
    let after = with_cursor(cells, 0);
    if cells.len() > 0 {
        let shift: int = if cells[0].text.len() > 1 {
            1
        } else {
            0
        };
        assert forall|i: int| 0 < i < after.len() implies (#[trigger] after[i]).text.len() >= 1
            && after[i].state == CellState::Untouched by {
            if i > shift {
                assert(after[i] == cells[i - shift]);
            }
        }
    }
}

/// Typing a character keeps the passage well formed, moves the position on
/// by one, changes no character of the passage, and adds one to the tally of
/// the verdict given while the other tally stays.
pub proof fn lemma_character(cells: Seq<CellView>, position: int, typed: char)
    requires
        well_formed(cells, position),
        position < cells.len(),
    ensures
        well_formed(after_character(cells, position, typed), position + 1),
        passage_text(after_character(cells, position, typed)) == passage_text(cells),
        forall|i: int|
            0 <= i < position ==> (#[trigger] after_character(cells, position, typed)[i])
                == cells[i],
        after_character(cells, position, typed)[position] == marked(
            cells[position],
            judge(cells[position].text[0], typed),
        ),
        forall|state: CellState|
            tally(after_character(cells, position, typed), position + 1, state) == tally(
                cells,
                position,
                state,
            ) + if judge(cells[position].text[0], typed) == state {
                1int
            } else {
                0int
            },
{
    let verdict = judge(cells[position].text[0], typed);
    let judged = cells.update(position, marked(cells[position], verdict));
    let after = after_character(cells, position, typed);
    let next = position + 1;
    lemma_text_ignores_states(judged, cells);
    lemma_cursor_keeps_text(judged, next);
    if next < judged.len() {
        let shift: int = if judged[next].text.len() > 1 {
            1
        } else {
            0
        };
        assert(cells[next].text.len() >= 1);
        assert forall|i: int| next < i < after.len() implies (#[trigger] after[i]).text.len() >= 1
            && after[i].state == CellState::Untouched by {
            if i > next + shift {
                assert(after[i] == cells[i - shift]);
            }
        }
    }
    assert forall|i: int| 0 <= i < next implies (#[trigger] after[i]).text.len() == 1 && is_judged(
        after[i].state,
    ) by {
        if i < position {
            assert(after[i] == cells[i]);
        }
    }
    assert forall|state: CellState|
        tally(after, position + 1, state) == tally(cells, position, state) + if verdict == state {
            1int
        } else {
            0int
        } by {
        lemma_tally_agrees(after, cells, position, state);
    }
}

/// A backspace keeps the passage well formed, moves the position back by
/// one, changes no character of the passage, and takes one from the tally of
/// the verdict withdrawn while the other tally stays.
pub proof fn lemma_backspace(cells: Seq<CellView>, position: int)
    requires
        well_formed(cells, position),
        position > 0,
    ensures
        well_formed(after_backspace(cells, position), position - 1),
        passage_text(after_backspace(cells, position)) == passage_text(cells),
        forall|state: CellState|
            tally(after_backspace(cells, position), position - 1, state) == tally(
                cells,
                position,
                state,
            ) - if cells[position - 1].state == state {
                1int
            } else {
                0int
            },
{
    let after = after_backspace(cells, position);
    lemma_text_ignores_states(after, cells);
    assert forall|i: int| 0 <= i < after.len() implies (#[trigger] after[i]).text.len() >= 1 by {
        assert(after[i].text == cells[i].text);
    }
    assert forall|i: int| 0 <= i < position - 1 implies (#[trigger] after[i]).text.len() == 1
        && is_judged(after[i].state) by {
        assert(after[i] == cells[i]);
    }
    assert forall|i: int| position - 1 < i < after.len() implies (#[trigger] after[i]).state
        == CellState::Untouched by {
        if i > position {
            assert(after[i] == cells[i]);
        }
    }
    assert forall|state: CellState|
        tally(after, position - 1, state) == tally(cells, position, state) - if cells[position
            - 1].state == state {
            1int
        } else {
            0int
        } by {
        lemma_tally_agrees(after, cells, position - 1, state);
    }
}

/// In a well-formed passage the position counts characters as well as cells:
/// the text before it is `position` characters long, the character to type
/// next is the one the passage has at `position`, and the position reaches
/// the end of the cells exactly when it reaches the end of the text.
pub proof fn lemma_position_in_text(cells: Seq<CellView>, position: int)
    requires
        well_formed(cells, position),
    ensures
        0 <= position <= passage_text(cells).len(),
        position < cells.len() ==> position < passage_text(cells).len() && passage_text(
            cells,
        )[position] == cells[position].text[0],
        position == cells.len() <==> position == passage_text(cells).len(),
{
    let front = cells.take(position);
    let back = cells.skip(position);
    assert(cells =~= front + back);
    lemma_text_of_concat(front, back);
    lemma_single_characters(front);
    lemma_text_starts(back);
}

/// Cells of one character each spell as many characters as there are cells.
proof fn lemma_single_characters(cells: Seq<CellView>)
    requires
        forall|i: int| 0 <= i < cells.len() ==> (#[trigger] cells[i]).text.len() == 1,
    ensures
        passage_text(cells).len() == cells.len(),
    decreases cells.len(),
{
    if cells.len() > 0 {
        assert(cells.last().text.len() == 1);
        lemma_single_characters(cells.drop_last());
    }
}

/// The text of cells that are not empty begins with the first cell's first
/// character, and is empty only if there are no cells.
proof fn lemma_text_starts(cells: Seq<CellView>)
    requires
        forall|i: int| 0 <= i < cells.len() ==> (#[trigger] cells[i]).text.len() >= 1,
    ensures
        passage_text(cells).len() >= cells.len(),
        cells.len() > 0 ==> passage_text(cells)[0] == cells[0].text[0],
    decreases cells.len(),
{
    if cells.len() > 0 {
        assert(cells.last().text.len() >= 1);
        lemma_text_starts(cells.drop_last());
        if cells.len() == 1 {
            lemma_text_of_one(cells[0]);
            assert(cells =~= seq![cells[0]]);
        } else {
            assert(cells.drop_last()[0] == cells[0]);
        }
    }
}

/// Puts the cursor on the first character of cell `at`, splitting the cell
/// if it holds more than that character.
pub fn place_cursor(cells: &mut Vec<Cell>, at: usize)
    ensures
        cell_views(final(cells)@) == with_cursor(cell_views(old(cells)@), at as int),
{
    let ghost before = cell_views(cells@);
    if at < cells.len() {
        let length = cells[at].text.as_str().unicode_len();
        if length <= 1 {
            cells[at].state = CellState::Cursor;
            assert(cell_views(cells@) =~= with_cursor(before, at as int));
        } else {
            let first = String::from_str(cells[at].text.as_str().substring_char(0, 1));
            let rest = String::from_str(cells[at].text.as_str().substring_char(1, length));
            cells[at] = Cell { text: rest, state: CellState::Untouched };
            cells.insert(at, Cell { text: first, state: CellState::Cursor });
            assert(cell_views(cells@) =~= with_cursor(before, at as int));
        }
    }
}

} // verus!
