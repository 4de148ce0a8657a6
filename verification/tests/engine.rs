use bananatype::engine::place_cursor;
use bananatype::passage::{build_passage, Cell, CellState};

fn shape(cells: &[Cell]) -> Vec<(String, CellState)> {
    cells.iter().map(|c| (c.text.clone(), c.state)).collect()
}

fn cell(text: &str, state: CellState) -> (String, CellState) {
    (text.to_string(), state)
}

#[test]
fn cursor_splits_a_word_into_first_character_and_rest() {
    let words = vec!["cat".to_string()];
    let mut cells = build_passage(&words, &vec![0]);
    place_cursor(&mut cells, 0);
    assert_eq!(
        shape(&cells),
        vec![
            cell("c", CellState::Cursor),
            cell("at", CellState::Untouched),
            cell(" ", CellState::Untouched),
        ]
    );
}

#[test]
fn cursor_marks_a_single_character_in_place() {
    let words = vec!["cat".to_string()];
    let mut cells = build_passage(&words, &vec![0]);
    place_cursor(&mut cells, 1);
    assert_eq!(
        shape(&cells),
        vec![cell("cat", CellState::Untouched), cell(" ", CellState::Cursor)]
    );
}

#[test]
fn cursor_past_the_end_changes_nothing() {
    let words = vec!["cat".to_string()];
    let mut cells = build_passage(&words, &vec![0]);
    place_cursor(&mut cells, 2);
    place_cursor(&mut cells, 200);
    assert_eq!(
        shape(&cells),
        vec![cell("cat", CellState::Untouched), cell(" ", CellState::Untouched)]
    );
}

#[test]
fn cursor_splits_by_characters_not_bytes() {
    let words = vec!["über".to_string()];
    let mut cells = build_passage(&words, &vec![0]);
    place_cursor(&mut cells, 0);
    assert_eq!(
        shape(&cells),
        vec![
            cell("ü", CellState::Cursor),
            cell("ber", CellState::Untouched),
            cell(" ", CellState::Untouched),
        ]
    );
}

#[test]
fn cursor_on_a_word_of_two_leaves_one_character_behind() {
    let words = vec!["ox".to_string()];
    let mut cells = build_passage(&words, &vec![0]);
    place_cursor(&mut cells, 0);
    assert_eq!(
        shape(&cells),
        vec![
            cell("o", CellState::Cursor),
            cell("x", CellState::Untouched),
            cell(" ", CellState::Untouched),
        ]
    );
}
