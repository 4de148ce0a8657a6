//! The passage to be typed: an ordered run of cells, each a piece of text
//! with the verdict on it, built from words drawn at random from a corpus.

use rand::distributions::Uniform;
use rand::Rng;
use vstd::prelude::*;
use vstd::string::StringExecFns;

verus! {

/// How many words a generated passage holds.
pub const NUMBER_OF_WORDS: usize = 100;

/// The verdict on one cell.
#[derive(Clone, Copy, Debug, PartialEq, Eq, Structural)]
pub enum CellState {
    /// Not yet reached.
    Untouched,
    /// Typed as the passage has it.
    Correct,
    /// Typed otherwise.
    Incorrect,
    /// The next character to type.
    Cursor,
}

/// One unit of the passage: its text and the verdict on it. A cell that has
/// been reached holds a single character; one further on may hold a whole word.
#[derive(Debug)]
pub struct Cell {
    pub text: String,
    pub state: CellState,
}

/// A cell as plain values.
pub struct CellView {
    pub text: Seq<char>,
    pub state: CellState,
}

impl View for Cell {
    type V = CellView;

    open spec fn view(&self) -> CellView {
        CellView { text: self.text@, state: self.state }
    }
}

/// Why a passage could not be built.
#[derive(Clone, Copy, Debug, PartialEq, Eq, Structural)]
pub enum ConfigError {
    /// The corpus holds no word to draw from.
    EmptyCorpus,
}

impl ConfigError {
    pub fn message(&self) -> (text: String)
        ensures
            text@ == "the word list is empty"@,
    {
        String::from_str("the word list is empty")
    }
}

/// The cells of a passage as plain values.
pub open spec fn cell_views(cells: Seq<Cell>) -> Seq<CellView> {
    cells.map_values(|c: Cell| c@)
}

/// The words of a corpus as sequences of characters.
pub open spec fn word_views(words: Seq<String>) -> Seq<Seq<char>> {
    words.map_values(|w: String| w@)
}

/// The single space that follows every word.
pub open spec fn separator() -> CellView {
    CellView { text: seq![' '], state: CellState::Untouched }
}

/// The cells one word contributes: the word itself, unless it is empty, and
/// the separator after it.
pub open spec fn word_cells(word: Seq<char>) -> Seq<CellView> {
    if word.len() == 0 {
        seq![separator()]
    } else {
        seq![CellView { text: word, state: CellState::Untouched }, separator()]
    }
}

/// Every pick names a word of a corpus of `choices` words.
pub open spec fn valid_picks(picks: Seq<usize>, choices: int) -> bool {
    forall|i: int| 0 <= i < picks.len() ==> 0 <= #[trigger] picks[i] < choices
}

/// `picks` is what a draw for a whole passage gives: `NUMBER_OF_WORDS`
/// picks, each naming a word of a corpus of `choices` words.
pub open spec fn is_draw(picks: Seq<usize>, choices: int) -> bool {
    picks.len() == NUMBER_OF_WORDS && valid_picks(picks, choices)
}

/// The passage that the picked words make, in the order picked.
pub open spec fn passage_of(words: Seq<Seq<char>>, picks: Seq<usize>) -> Seq<CellView>
    decreases picks.len(),
{
    if picks.len() == 0 {
        Seq::empty()
    } else {
        passage_of(words, picks.drop_last()) + word_cells(words[picks.last() as int])
    }
}

/// The characters of a passage, cell after cell.
pub open spec fn passage_text(cells: Seq<CellView>) -> Seq<char>
    decreases cells.len(),
{
    if cells.len() == 0 {
        Seq::empty()
    } else {
        passage_text(cells.drop_last()) + cells.last().text
    }
}

/// The lengths of the picked words, added up.
pub open spec fn picked_letters(words: Seq<Seq<char>>, picks: Seq<usize>) -> nat
    decreases picks.len(),
{
    if picks.len() == 0 {
        0
    } else {
        picked_letters(words, picks.drop_last()) + words[picks.last() as int].len()
    }
}

/// No cell is empty and none has been reached yet.
pub open spec fn is_fresh(cells: Seq<CellView>) -> bool {
    forall|i: int|
        0 <= i < cells.len() ==> (#[trigger] cells[i]).text.len() >= 1 && cells[i].state
            == CellState::Untouched
}

/// The text of two runs of cells laid end to end is the two texts laid end to end.
pub proof fn lemma_text_of_concat(a: Seq<CellView>, b: Seq<CellView>)
    ensures
        passage_text(a + b) == passage_text(a) + passage_text(b),
    decreases b.len(),
{
    if b.len() == 0 {
        assert(a + b =~= a);
        assert(passage_text(a) + passage_text(b) =~= passage_text(a));
    } else {
        lemma_text_of_concat(a, b.drop_last());
        assert((a + b).drop_last() =~= a + b.drop_last());
        assert((a + b).last() == b.last());
        assert(passage_text(a + b) =~= passage_text(a) + passage_text(b));
    }
}

/// The text of a single cell is that cell's text.
pub proof fn lemma_text_of_one(cell: CellView)
    ensures
        passage_text(seq![cell]) == cell.text,
{
    let s = seq![cell];
    assert(s.drop_last() =~= Seq::<CellView>::empty());
    assert(passage_text(s.drop_last()) =~= Seq::<char>::empty());
    assert(passage_text(s) =~= cell.text);
}

/// A generated passage is fresh, and it holds every picked word in full with
/// one separator after each: its length is the letters picked plus one per pick.
pub proof fn lemma_passage_of(words: Seq<Seq<char>>, picks: Seq<usize>)
    ensures
        is_fresh(passage_of(words, picks)),
        passage_text(passage_of(words, picks)).len() == picked_letters(words, picks) + picks.len(),
        picks.len() <= passage_of(words, picks).len() <= 2 * picks.len(),
    decreases picks.len(),
{
    if picks.len() > 0 {
        let word = words[picks.last() as int];
        let before = passage_of(words, picks.drop_last());
        lemma_passage_of(words, picks.drop_last());
        lemma_text_of_concat(before, word_cells(word));
        lemma_text_of_one(separator());
        if word.len() > 0 {
            let w = CellView { text: word, state: CellState::Untouched };
            lemma_text_of_concat(seq![w], seq![separator()]);
            lemma_text_of_one(w);
            assert(word_cells(word) =~= seq![w] + seq![separator()]);
        }
    }
}

impl Clone for Cell {
    fn clone(&self) -> (cell: Cell)
        ensures
            cell@ == self@,
    {
        Cell { text: self.text.clone(), state: self.state }
    }
}

impl Cell {
    /// A cell that has not been reached.
    pub fn untouched(text: String) -> (cell: Cell)
        ensures
            cell@ == (CellView { text: text@, state: CellState::Untouched }),
    {
        Cell { text, state: CellState::Untouched }
    }

    /// Whether this cell is a space for which another character was typed.
    /// Such a cell shows nothing of its own, so a display has to mark its
    /// background instead.
    pub fn is_missed_space(&self) -> (missed: bool)
        ensures
            missed == (self@.state == CellState::Incorrect && self@.text == seq![' ']),
    {
        if self.state == CellState::Incorrect && self.text.as_str().unicode_len() == 1 {
            let only = self.text.as_str().get_char(0);
            assert(only == ' ' ==> self@.text =~= seq![' ']);
            only == ' '
        } else {
            false
        }
    }
}

/// Draws one index below `choices` from rand's thread-local generator, by
/// `Rng::sample` on the distribution `Uniform::from(0..choices)`. That
/// distribution covers the half-open range, so the draw is below `choices`;
/// which index comes is left open. `Uniform::from` panics on an empty range,
/// hence the demand that there is something to choose from.
#[verifier::external_body]
fn sample_index(choices: usize) -> (pick: usize)
    requires
        choices > 0,
    ensures
        pick < choices,
{
    rand::thread_rng().sample(Uniform::from(0..choices))
}

/// Draws `count` indices below `choices`, each on its own and with
/// replacement.
pub fn sample_indices(choices: usize, count: usize) -> (picks: Vec<usize>)
    requires
        choices > 0,
    ensures
        picks@.len() == count,
        valid_picks(picks@, choices as int),
{
    let mut picks: Vec<usize> = Vec::new();
    while picks.len() < count
        invariant
            choices > 0,
            picks@.len() <= count,
            valid_picks(picks@, choices as int),
        decreases count - picks@.len(),
    {
        let pick = sample_index(choices);
        picks.push(pick);
    }
    picks
}

/// Lays out the picked words as a passage: each word as one untouched cell,
/// and a single space after it as another. An empty word leaves only its space.
pub fn build_passage(words: &Vec<String>, picks: &Vec<usize>) -> (cells: Vec<Cell>)
    requires
        valid_picks(picks@, words@.len() as int),
    ensures
        cell_views(cells@) == passage_of(word_views(words@), picks@),
{
    let mut cells: Vec<Cell> = Vec::new();
    let mut i: usize = 0;
    assert(cell_views(cells@) =~= passage_of(word_views(words@), picks@.take(0)));
    while i < picks.len()
        invariant
            0 <= i <= picks@.len(),
            valid_picks(picks@, words@.len() as int),
            cell_views(cells@) == passage_of(word_views(words@), picks@.take(i as int)),
        decreases picks@.len() - i,
    {
        let word = &words[picks[i]];
        let ghost before = cell_views(cells@);
        let ghost taken = picks@.take(i as int + 1);
        proof {
            assert(taken.drop_last() =~= picks@.take(i as int));
            assert(taken.last() == picks@[i as int]);
            assert(word_views(words@)[picks@[i as int] as int] == word@);
            reveal_strlit(" ");
        }
        if !word.as_str().is_empty() {
            cells.push(Cell::untouched(word.clone()));
        }
        cells.push(Cell::untouched(String::from_str(" ")));
        proof {
            assert(" "@ =~= seq![' ']);
            assert(cell_views(cells@) =~= before + word_cells(word@));
        }
        i += 1;
    }
    assert(picks@.take(i as int) =~= picks@);
    cells
}

/// Builds a passage of `NUMBER_OF_WORDS` words drawn at random from `words`.
/// An empty corpus is refused, since there is nothing to draw from.
pub fn generate_text(words: &Vec<String>) -> (passage: Result<Vec<Cell>, ConfigError>)
    ensures
        words@.len() == 0 <==> passage is Err,
        passage matches Ok(cells) ==> exists|picks: Seq<usize>|
            #[trigger] is_draw(picks, words@.len() as int) && cell_views(cells@) == passage_of(
                word_views(words@),
                picks,
            ),
{
    if words.len() == 0 {
        Err(ConfigError::EmptyCorpus)
    } else {
        let picks = sample_indices(words.len(), NUMBER_OF_WORDS);
        assert(is_draw(picks@, words@.len() as int));
        Ok(build_passage(words, &picks))
    }
}

} // verus!
