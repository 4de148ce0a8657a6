use bananatype::passage::{
    build_passage, generate_text, sample_indices, Cell, CellState, ConfigError, NUMBER_OF_WORDS,
};

fn corpus(words: &[&str]) -> Vec<String> {
    words.iter().map(|w| w.to_string()).collect()
}

fn texts(cells: &[Cell]) -> Vec<String> {
    cells.iter().map(|c| c.text.clone()).collect()
}

#[test]
fn passage_lays_out_words_and_spaces() {
    let words = corpus(&["cat", "dog", "emu"]);
    let cells = build_passage(&words, &vec![0, 1]);
    assert_eq!(texts(&cells), vec!["cat", " ", "dog", " "]);
    assert!(cells.iter().all(|c| c.state == CellState::Untouched));
}

#[test]
fn passage_follows_the_order_of_the_picks() {
    let words = corpus(&["cat", "dog", "emu"]);
    let cells = build_passage(&words, &vec![2, 0, 2, 1]);
    assert_eq!(texts(&cells), vec!["emu", " ", "cat", " ", "emu", " ", "dog", " "]);
}

#[test]
fn passage_of_no_picks_is_empty() {
    let words = corpus(&["cat"]);
    assert!(build_passage(&words, &vec![]).is_empty());
}

#[test]
fn empty_word_leaves_only_its_space() {
    let words = corpus(&["", "ox"]);
    let cells = build_passage(&words, &vec![0, 1, 0]);
    assert_eq!(texts(&cells), vec![" ", "ox", " ", " "]);
}

#[test]
fn passage_length_is_letters_plus_one_space_a_word() {
    let words = corpus(&["a", "be", "sea", "deed"]);
    let picks = vec![3, 3, 0, 2, 1, 1];
    let cells = build_passage(&words, &picks);
    let characters: usize = cells.iter().map(|c| c.text.chars().count()).sum();
    let letters: usize = picks.iter().map(|&p| words[p].chars().count()).sum();
    assert_eq!(characters, letters + picks.len());
}

#[test]
fn passage_keeps_words_beyond_ascii() {
    let words = corpus(&["über", "naïve"]);
    let cells = build_passage(&words, &vec![1, 0]);
    assert_eq!(texts(&cells), vec!["naïve", " ", "über", " "]);
}

#[test]
fn empty_corpus_is_refused() {
    let refused = generate_text(&Vec::new());
    assert_eq!(refused.err(), Some(ConfigError::EmptyCorpus));
}

#[test]
fn config_error_has_a_message() {
    assert_eq!(ConfigError::EmptyCorpus.message(), "the word list is empty");
}

#[test]
fn generated_text_holds_one_hundred_words_of_the_corpus() {
    let words = corpus(&["alpha", "beta", "gamma", "delta"]);
    let cells = generate_text(&words).unwrap();
    assert_eq!(NUMBER_OF_WORDS, 100);
    assert_eq!(cells.len(), 2 * NUMBER_OF_WORDS);
    for pair in cells.chunks(2) {
        assert!(words.contains(&pair[0].text));
        assert_eq!(pair[1].text, " ");
        assert_eq!(pair[0].state, CellState::Untouched);
        assert_eq!(pair[1].state, CellState::Untouched);
    }
}

#[test]
fn generated_text_from_a_single_word_repeats_it() {
    let words = corpus(&["only"]);
    let cells = generate_text(&words).unwrap();
    assert_eq!(cells.len(), 200);
    for pair in cells.chunks(2) {
        assert_eq!(pair[0].text, "only");
        assert_eq!(pair[1].text, " ");
    }
}

#[test]
fn sampled_indices_stay_below_the_number_of_choices() {
    for choices in [1usize, 2, 3, 10, 1000] {
        let picks = sample_indices(choices, 500);
        assert_eq!(picks.len(), 500);
        assert!(picks.iter().all(|&p| p < choices));
    }
}

#[test]
fn sampling_from_one_choice_always_picks_it() {
    assert_eq!(sample_indices(1, 64), vec![0usize; 64]);
}

#[test]
fn sampling_nothing_gives_nothing() {
    assert!(sample_indices(5, 0).is_empty());
}

#[test]
fn sampling_reaches_every_choice() {
    let picks = sample_indices(4, 4000);
    for choice in 0..4usize {
        assert!(picks.contains(&choice));
    }
}

#[test]
fn missed_space_is_an_incorrect_space_only() {
    let cell = |text: &str, state| Cell { text: text.to_string(), state };
    assert!(cell(" ", CellState::Incorrect).is_missed_space());
    assert!(!cell(" ", CellState::Correct).is_missed_space());
    assert!(!cell(" ", CellState::Untouched).is_missed_space());
    assert!(!cell(" ", CellState::Cursor).is_missed_space());
    assert!(!cell("a", CellState::Incorrect).is_missed_space());
    assert!(!cell("  ", CellState::Incorrect).is_missed_space());
}

#[test]
fn cloned_cell_is_the_same_cell() {
    let cell = Cell { text: "word".to_string(), state: CellState::Cursor };
    let copy = cell.clone();
    assert_eq!(copy.text, "word");
    assert_eq!(copy.state, CellState::Cursor);
}

#[test]
fn untouched_cell_keeps_its_text() {
    let cell = Cell::untouched("word".to_string());
    assert_eq!(cell.text, "word");
    assert_eq!(cell.state, CellState::Untouched);
}
