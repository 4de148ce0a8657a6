//! A timed typing session: one passage, its cursor, the score, the history
//! and the elapsed time, driven by keys and by the ticks of a clock.
//!
//! The session decides; it neither waits nor draws. Every key and every tick
//! is handed in, and what comes back says what to show and whether a clock
//! has to be started.

use crate::clock::{interval_millis, notifications, ClockView, SessionClock, Tick};
use crate::engine::{
    after_backspace, after_character, judge, lemma_backspace, lemma_character, lemma_cursor_opens,
    lemma_tallies_cover, marked, place_cursor, tally, well_formed, with_cursor,
};
use crate::log::{highest_gross, record, times_increase, Log, Sample, SampleView};
use crate::passage::{
    build_passage, cell_views, is_draw, lemma_passage_of, passage_of, sample_indices, valid_picks,
    word_views, Cell, CellState, CellView, ConfigError, NUMBER_OF_WORDS,
};
use crate::score::{Rational, Score, ScoreView};
use vstd::prelude::*;

verus! {

/// How long a run lasts, in seconds.
pub const TEST_DURATION: u32 = 30;

/// How many ticks the clock of a run gives each second.
pub const TIMER_REFRESH_RATE: u32 = 2;

/// The time one tick stands for, in milliseconds.
pub const TICK_MILLIS: u64 = 500;

/// How long a run lasts, in milliseconds.
pub const TEST_DURATION_MILLIS: u64 = 30000;

/// The history takes a sample at every second tick.
pub const SAMPLE_MILLIS: u64 = 1000;

/// The constants agree with each other: a tick is the interval of the clock,
/// the ticks of a whole run add up to its duration, and the history samples
/// at every second tick.
pub proof fn lemma_constants_agree()
    ensures
        TICK_MILLIS == interval_millis(TIMER_REFRESH_RATE as int),
        TEST_DURATION_MILLIS == 1000 * TEST_DURATION,
        notifications(TEST_DURATION as int, TIMER_REFRESH_RATE as int) * TICK_MILLIS
            == TEST_DURATION_MILLIS,
        SAMPLE_MILLIS == 2 * TICK_MILLIS,
{
    assert(TIMER_REFRESH_RATE == 2 && TEST_DURATION == 30);
    assert(interval_millis(2) == 2002int / 4int);
    assert(notifications(30, 2) == 60);
}

/// Where a session stands.
#[derive(Clone, Copy, Debug, PartialEq, Eq, Structural)]
pub enum Phase {
    /// Nothing has been typed and no time is running.
    Idle,
    /// The clock is running and keystrokes count.
    Running,
    /// The time is up or the passage is typed out; the results are shown.
    Finished,
    /// The user has quit.
    Closed,
}

/// A key as the keyboard reports it.
#[derive(Clone, Copy, Debug, PartialEq, Eq, Structural)]
pub enum Key {
    Char(char),
    Backspace,
    Tab,
    Esc,
    Other,
}

/// What a key means to the session.
#[derive(Clone, Copy, Debug, PartialEq, Eq, Structural)]
pub enum Input {
    /// A character typed into the passage.
    Character(char),
    /// The last character taken back.
    Backspace,
    /// A fresh run asked for.
    Restart,
    /// The end of the program asked for.
    Quit,
    /// A key that means nothing here.
    Other,
}

/// What a key means in a given phase. While typing, every character goes
/// into the passage, tab restarts and escape quits. On the results, `r`
/// restarts, `q` and escape quit. Once closed, no key means anything.
pub open spec fn meaning(phase: Phase, key: Key) -> Input {
    match phase {
        Phase::Closed => Input::Other,
        Phase::Finished => match key {
            Key::Char(c) => if c == 'r' {
                Input::Restart
            } else if c == 'q' {
                Input::Quit
            } else {
                Input::Other
            },
            Key::Esc => Input::Quit,
            _ => Input::Other,
        },
        _ => match key {
            Key::Char(c) => Input::Character(c),
            Key::Backspace => Input::Backspace,
            Key::Tab => Input::Restart,
            Key::Esc => Input::Quit,
            Key::Other => Input::Other,
        },
    }
}

/// What a key means in a given phase.
pub fn interpret(phase: Phase, key: Key) -> (input: Input)
    ensures
        input == meaning(phase, key),
{
    match phase {
        Phase::Closed => Input::Other,
        Phase::Finished => match key {
            Key::Char(c) => if c == 'r' {
                Input::Restart
            } else if c == 'q' {
                Input::Quit
            } else {
                Input::Other
            },
            Key::Esc => Input::Quit,
            _ => Input::Other,
        },
        _ => match key {
            Key::Char(c) => Input::Character(c),
            Key::Backspace => Input::Backspace,
            Key::Tab => Input::Restart,
            Key::Esc => Input::Quit,
            Key::Other => Input::Other,
        },
    }
}

/// The figures shown while a run is on.
#[derive(Clone, Copy, Debug)]
pub struct Frame {
    /// The part of the run that has passed, from zero to one.
    pub progress: Rational,
    /// Whole seconds left, the elapsed time rounded to the nearest second
    /// and halves upward.
    pub seconds_left: u64,
    pub gross_wpm: Rational,
    pub net_wpm: Rational,
    pub accuracy: Rational,
}

/// A frame as numbers.
pub struct FrameView {
    pub progress: real,
    pub seconds_left: int,
    pub gross_wpm: real,
    pub net_wpm: real,
    pub accuracy: real,
}

impl View for Frame {
    type V = FrameView;

    open spec fn view(&self) -> FrameView {
        FrameView {
            progress: self.progress@,
            seconds_left: self.seconds_left as int,
            gross_wpm: self.gross_wpm@,
            net_wpm: self.net_wpm@,
            accuracy: self.accuracy@,
        }
    }
}

/// What a finished run has to show.
#[derive(Debug)]
pub struct Results {
    pub gross_wpm: Rational,
    pub net_wpm: Rational,
    pub accuracy: Rational,
    /// The sampled rates, earliest first.
    pub history: Vec<Sample>,
    /// The highest gross rate among the samples, if there is any sample.
    pub highest_gross_wpm: Option<Rational>,
}

/// Results as numbers.
pub struct ResultsView {
    pub gross_wpm: real,
    pub net_wpm: real,
    pub accuracy: real,
    pub history: Seq<SampleView>,
    pub highest_gross_wpm: Option<real>,
}

impl View for Results {
    type V = ResultsView;

    open spec fn view(&self) -> ResultsView {
        ResultsView {
            gross_wpm: self.gross_wpm@,
            net_wpm: self.net_wpm@,
            accuracy: self.accuracy@,
            history: self.history@.map_values(|s: Sample| s@),
            highest_gross_wpm: match self.highest_gross_wpm {
                Some(top) => Some(top@),
                None => None,
            },
        }
    }
}

/// What the caller has to show after an event.
#[derive(Debug)]
pub enum Action {
    /// Nothing has changed.
    Nothing,
    /// Draw the passage with these figures.
    Redraw(Frame),
    /// The run is over: draw its results.
    ShowResults(Results),
    /// Leave the program.
    Exit,
}

/// An action as numbers.
pub enum ActionView {
    Nothing,
    Redraw(FrameView),
    ShowResults(ResultsView),
    Exit,
}

impl View for Action {
    type V = ActionView;

    open spec fn view(&self) -> ActionView {
        match self {
            Action::Nothing => ActionView::Nothing,
            Action::Redraw(frame) => ActionView::Redraw(frame@),
            Action::ShowResults(results) => ActionView::ShowResults(results@),
            Action::Exit => ActionView::Exit,
        }
    }
}

/// The session's answer to an event.
#[derive(Debug)]
pub struct Reaction {
    /// A clock to set going, on the first keystroke of a run.
    pub start_clock: Option<SessionClock>,
    pub action: Action,
}

/// A reaction as numbers.
pub struct ReactionView {
    pub start_clock: Option<ClockView>,
    pub action: ActionView,
}

impl View for Reaction {
    type V = ReactionView;

    open spec fn view(&self) -> ReactionView {
        ReactionView {
            start_clock: match self.start_clock {
                Some(clock) => Some(clock@),
                None => None,
            },
            action: self.action@,
        }
    }
}

/// The generation after `generation`; the count starts over past the largest.
pub open spec fn next_generation(generation: int) -> int {
    if generation >= u64::MAX {
        0
    } else {
        generation + 1
    }
}

/// A session as plain values.
pub struct TypingTestView {
    /// The corpus that passages are drawn from.
    pub words: Seq<Seq<char>>,
    pub cells: Seq<CellView>,
    /// How many characters of the passage have been typed.
    pub position: int,
    pub elapsed_millis: int,
    pub score: ScoreView,
    pub log: Seq<SampleView>,
    pub phase: Phase,
    /// Which clock this run listens to.
    pub generation: int,
}

impl TypingTestView {
    /// What holds of every session.
    ///
    /// The passage is well formed at the position. The score counts exactly
    /// the verdicts that stand before the cursor, and its lifetime count of
    /// mistakes covers those that stand. The elapsed time is a whole number
    /// of ticks within the duration: none before the first keystroke, and
    /// short of the duration while the run is on. The history is in order of
    /// time.
    pub open spec fn wf(self) -> bool {
        &&& self.words.len() > 0
        &&& well_formed(self.cells, self.position)
        &&& self.score.correct == tally(self.cells, self.position, CellState::Correct)
        &&& self.score.incorrect == tally(self.cells, self.position, CellState::Incorrect)
        &&& self.score.incorrect <= self.score.total_incorrect
        &&& 0 <= self.elapsed_millis <= TEST_DURATION_MILLIS
        &&& self.elapsed_millis % (TICK_MILLIS as int) == 0
        &&& self.phase == Phase::Idle ==> self.elapsed_millis == 0
        &&& self.phase == Phase::Running ==> self.elapsed_millis < TEST_DURATION_MILLIS
        &&& times_increase(self.log)
        &&& 0 <= self.generation <= u64::MAX
    }

    /// A session about to begin on the passage that `picks` draw from `words`:
    /// the cursor on the first character, nothing typed, no time passed.
    pub open spec fn fresh(words: Seq<Seq<char>>, picks: Seq<usize>, generation: int) -> Self {
        TypingTestView {
            words,
            cells: with_cursor(passage_of(words, picks), 0),
            position: 0,
            elapsed_millis: 0,
            score: ScoreView::zero(),
            log: Seq::empty(),
            phase: Phase::Idle,
            generation,
        }
    }

    /// The whole passage has been typed.
    pub open spec fn exhausted(self) -> bool {
        self.position >= self.cells.len()
    }

    /// The rates at this moment.
    pub open spec fn sample(self) -> SampleView {
        SampleView {
            time: self.elapsed_millis,
            net_wpm: self.score.net_wpm(self.elapsed_millis),
            gross_wpm: self.score.gross_wpm(self.elapsed_millis),
        }
    }

    /// The session after its figures are brought up to date: at a sampling
    /// moment the rates are offered to the history.
    pub open spec fn refreshed(self) -> Self {
        if self.elapsed_millis % (SAMPLE_MILLIS as int) == 0 {
            TypingTestView { log: record(self.log, self.sample()), ..self }
        } else {
            self
        }
    }

    /// The figures to show while the run is on.
    pub open spec fn frame(self) -> FrameView {
        FrameView {
            progress: self.elapsed_millis as real / (TEST_DURATION_MILLIS as int) as real,
            seconds_left: TEST_DURATION - (self.elapsed_millis + 500) / 1000,
            gross_wpm: self.score.gross_wpm(self.elapsed_millis),
            net_wpm: self.score.net_wpm(self.elapsed_millis),
            accuracy: self.score.accuracy(),
        }
    }

    /// What to show when the run is over.
    pub open spec fn results(self) -> ResultsView {
        ResultsView {
            gross_wpm: self.score.gross_wpm(self.elapsed_millis),
            net_wpm: self.score.net_wpm(self.elapsed_millis),
            accuracy: self.score.accuracy(),
            history: self.log,
            highest_gross_wpm: highest_gross(self.log),
        }
    }

    /// The clock of this run.
    pub open spec fn clock(self) -> ClockView {
        ClockView {
            generation: self.generation,
            remaining: notifications(TEST_DURATION as int, TIMER_REFRESH_RATE as int) as nat,
            interval_millis: interval_millis(TIMER_REFRESH_RATE as int),
        }
    }

    /// The session after `typed` is entered at the cursor: the cell takes
    /// its verdict, the score counts it, the cursor moves on.
    pub open spec fn typed(self, typed: char) -> Self {
        TypingTestView {
            cells: after_character(self.cells, self.position, typed),
            position: self.position + 1,
            score: if judge(self.cells[self.position].text[0], typed) == CellState::Correct {
                self.score.record_correct()
            } else {
                self.score.record_incorrect()
            },
            ..self
        }
    }

    /// The session after the last character is taken back; unchanged if
    /// nothing has been typed.
    pub open spec fn erased(self) -> Self {
        if self.position <= 0 {
            self
        } else {
            TypingTestView {
                cells: after_backspace(self.cells, self.position),
                position: self.position - 1,
                score: if self.cells[self.position - 1].state == CellState::Correct {
                    self.score.record_correct_backspace()
                } else {
                    self.score.record_incorrect_backspace()
                },
                ..self
            }
        }
    }

    /// The session once the clock of the run is going.
    pub open spec fn started(self) -> Self {
        if self.phase == Phase::Idle {
            TypingTestView { phase: Phase::Running, ..self }
        } else {
            self
        }
    }

    /// The session with the run over.
    pub open spec fn finished(self) -> Self {
        TypingTestView { phase: Phase::Finished, ..self }
    }

    /// The session on a new passage, drawn by `picks`, with the opening
    /// sample taken. Ticks of the clocks before it no longer count.
    pub open spec fn restarted(self, picks: Seq<usize>) -> Self {
        Self::fresh(self.words, picks, next_generation(self.generation)).refreshed()
    }

    /// Whether `input` enters a character into the passage.
    pub open spec fn types_on(self, input: Input) -> bool {
        &&& self.phase == Phase::Idle || self.phase == Phase::Running
        &&& input is Character
        &&& !self.exhausted()
    }

    /// Whether `input` puts the session on a fresh passage.
    pub open spec fn restarts_on(self, input: Input) -> bool {
        self.phase != Phase::Closed && input == Input::Restart
    }

    /// The session after `input`. Where the input asks for a fresh run,
    /// `picks` are the words drawn for it; otherwise they play no part.
    ///
    /// While typing, the first keystroke sets the run going. A character is
    /// entered at the cursor, and the run is over once the passage is typed
    /// out. A backspace takes the last character back. After either, the
    /// figures are brought up to date. On the results only restart and quit
    /// mean anything, and once closed nothing does.
    pub open spec fn after_input(self, input: Input, picks: Seq<usize>) -> Self {
        match self.phase {
            Phase::Closed => self,
            Phase::Finished => match input {
                Input::Restart => self.restarted(picks),
                Input::Quit => TypingTestView { phase: Phase::Closed, ..self },
                _ => self,
            },
            _ => match input {
                Input::Restart => self.restarted(picks),
                Input::Quit => TypingTestView { phase: Phase::Closed, ..self },
                Input::Character(c) => if self.exhausted() {
                    self.finished()
                } else if self.started().typed(c).exhausted() {
                    self.started().typed(c).refreshed().finished()
                } else {
                    self.started().typed(c).refreshed()
                },
                Input::Backspace => self.started().erased().refreshed(),
                Input::Other => self.started(),
            },
        }
    }

    /// The session after a tick of the clock of `generation`. A tick counts
    /// only while the run is on and only from the clock of this run; it adds
    /// its share to the elapsed time, and the run is over once the duration
    /// is reached.
    pub open spec fn after_tick(self, generation: int) -> Self {
        if self.phase == Phase::Running && generation == self.generation {
            let later = TypingTestView {
                elapsed_millis: self.elapsed_millis + TICK_MILLIS,
                ..self
            };
            if later.elapsed_millis >= TEST_DURATION_MILLIS {
                later.finished()
            } else {
                later.refreshed()
            }
        } else {
            self
        }
    }

    /// What to show once an event has led from this session to `after`.
    pub open spec fn display(self, after: Self) -> ActionView {
        if after.phase == Phase::Finished {
            ActionView::ShowResults(after.results())
        } else {
            ActionView::Redraw(after.frame())
        }
    }

    /// The answer to `input`, which has led from this session to `after`.
    /// A clock is handed out exactly when the input has set the run going.
    pub open spec fn reaction(self, input: Input, after: Self) -> ReactionView {
        ReactionView {
            start_clock: if self.phase == Phase::Idle && after.phase == Phase::Running {
                Some(after.clock())
            } else {
                None
            },
            action: match self.phase {
                Phase::Closed => ActionView::Exit,
                Phase::Finished => match input {
                    Input::Restart => ActionView::Redraw(after.frame()),
                    Input::Quit => ActionView::Exit,
                    _ => ActionView::Nothing,
                },
                _ => match input {
                    Input::Restart => ActionView::Redraw(after.frame()),
                    Input::Quit => ActionView::Exit,
                    Input::Other => ActionView::Nothing,
                    _ => self.display(after),
                },
            },
        }
    }

    /// The answer to a tick of the clock of `generation`, which has led from
    /// this session to `after`.
    pub open spec fn tick_reaction(self, generation: int, after: Self) -> ReactionView {
        ReactionView {
            start_clock: None,
            action: if self.phase == Phase::Running && generation == self.generation {
                self.display(after)
            } else {
                ActionView::Nothing
            },
        }
    }
}

/// A typing session.
pub struct TypingTest {
    words: Vec<String>,
    text: Vec<Cell>,
    position: usize,
    elapsed_millis: u64,
    score: Score,
    log: Log,
    phase: Phase,
    generation: u64,
}

impl View for TypingTest {
    type V = TypingTestView;

    closed spec fn view(&self) -> TypingTestView {
        TypingTestView {
            words: word_views(self.words@),
            cells: cell_views(self.text@),
            position: self.position as int,
            elapsed_millis: self.elapsed_millis as int,
            score: self.score@,
            log: self.log@,
            phase: self.phase,
            generation: self.generation as int,
        }
    }
}

impl TypingTest {
    /// What holds of every session; see [`TypingTestView::wf`].
    pub open spec fn wf(&self) -> bool {
        self@.wf()
    }

    /// A session on the passage that `picks` draw from `words`, about to
    /// begin. An empty corpus is refused.
    pub fn with_picks(words: Vec<String>, picks: &Vec<usize>) -> (made: Result<TypingTest, ConfigError>)
        requires
            valid_picks(picks@, words@.len() as int),
        ensures
            words@.len() == 0 <==> made is Err,
            made matches Ok(test) ==> test.wf() && test@ == TypingTestView::fresh(
                word_views(words@),
                picks@,
                0,
            ),
    {
        if words.len() == 0 {
            return Err(ConfigError::EmptyCorpus);
        }
        let mut text = build_passage(&words, picks);
        place_cursor(&mut text, 0);
        proof {
            lemma_passage_of(word_views(words@), picks@);
            lemma_cursor_opens(passage_of(word_views(words@), picks@));
        }
        Ok(
            TypingTest {
                words,
                text,
                position: 0,
                elapsed_millis: 0,
                score: Score::new(),
                log: Log::new(),
                phase: Phase::Idle,
                generation: 0,
            },
        )
    }

    /// A session on a passage of `NUMBER_OF_WORDS` words drawn at random
    /// from `words`, about to begin. An empty corpus is refused.
    pub fn new(words: Vec<String>) -> (made: Result<TypingTest, ConfigError>)
        ensures
            words@.len() == 0 <==> made is Err,
            made matches Ok(test) ==> test.wf() && exists|picks: Seq<usize>|
                #[trigger] is_draw(picks, words@.len() as int) && test@ == TypingTestView::fresh(
                    word_views(words@),
                    picks,
                    0,
                ),
    {
        if words.len() == 0 {
            return Err(ConfigError::EmptyCorpus);
        }
        let picks = sample_indices(words.len(), NUMBER_OF_WORDS);
        assert(is_draw(picks@, words@.len() as int));
        TypingTest::with_picks(words, &picks)
    }

    /// The cells of the passage, in order.
    pub fn text(&self) -> (cells: &Vec<Cell>)
        ensures
            cell_views(cells@) == self@.cells,
    {
        &self.text
    }

    /// How many characters of the passage have been typed.
    pub fn position(&self) -> (position: usize)
        ensures
            position == self@.position,
    {
        self.position
    }

    /// The time the run has been on, in milliseconds.
    pub fn elapsed_millis(&self) -> (millis: u64)
        ensures
            millis == self@.elapsed_millis,
    {
        self.elapsed_millis
    }

    pub fn score(&self) -> (score: Score)
        ensures
            score@ == self@.score,
    {
        self.score
    }

    pub fn log(&self) -> (log: &Log)
        ensures
            log@ == self@.log,
    {
        &self.log
    }

    pub fn phase(&self) -> (phase: Phase)
        ensures
            phase == self@.phase,
    {
        self.phase
    }

    /// Which clock this run listens to.
    pub fn generation(&self) -> (generation: u64)
        ensures
            generation == self@.generation,
    {
        self.generation
    }

    /// Whether the whole passage has been typed.
    pub fn is_exhausted(&self) -> (exhausted: bool)
        ensures
            exhausted == self@.exhausted(),
    {
        self.position >= self.text.len()
    }

    /// Whether the score can count what `key` would enter. It can unless
    /// the key types a character and a tally stands at its largest value.
    pub fn has_room_for(&self, key: Key) -> (ready: bool)
        ensures
            ready == (self@.types_on(meaning(self@.phase, key)) ==> self@.score.has_room()),
    {
        match interpret(self.phase, key) {
            Input::Character(_) => {
                self.phase == Phase::Finished || self.phase == Phase::Closed
                    || self.is_exhausted() || self.score.can_record()
            },
            _ => true,
        }
    }

    /// Brings the figures up to date and hands them out. At a sampling
    /// moment the rates are offered to the history, which keeps them unless
    /// it has that moment already.
    pub fn refresh(&mut self) -> (frame: Frame)
        requires
            old(self).wf(),
        ensures
            final(self).wf(),
            final(self)@ == old(self)@.refreshed(),
            frame@ == final(self)@.frame(),
    {
        let net_wpm = self.score.calculate_net_wpm(self.elapsed_millis);
        let gross_wpm = self.score.calculate_gross_wpm(self.elapsed_millis);
        if self.elapsed_millis % SAMPLE_MILLIS == 0 {
            self.log.update(self.elapsed_millis, net_wpm, gross_wpm);
        }
        let progress = Rational::new(self.elapsed_millis as i64, TEST_DURATION_MILLIS).unwrap();
        let seconds_left: u64 = TEST_DURATION as u64 - (self.elapsed_millis + 500) / 1000;
        Frame { progress, seconds_left, gross_wpm, net_wpm, accuracy: self.score.calculate_accuracy() }
    }

    /// Enters `character` at the cursor. The cell there is judged against it
    /// and the score counts the verdict; the cursor moves on to the next
    /// character, which is split off its cell if it shares one. Then the
    /// figures are brought up to date.
    pub fn update_char(&mut self, character: char) -> (frame: Frame)
        requires
            old(self).wf(),
            !old(self)@.exhausted(),
            old(self)@.score.has_room(),
        ensures
            final(self).wf(),
            final(self)@ == old(self)@.typed(character).refreshed(),
            frame@ == final(self)@.frame(),
    {
        let at = self.position;
        let ghost before = self@;
        assert(at < self.text.len()) by {
            assert(before.cells.len() == self.text@.len());
        }
        let next = at + 1;
        let expected = self.text[at].text.as_str().get_char(0);
        let verdict = if expected == character {
            self.score.calculate_correct();
            CellState::Correct
        } else {
            self.score.calculate_incorrect();
            CellState::Incorrect
        };
        self.text[at].state = verdict;
        proof {
            assert(cell_views(self.text@) =~= before.cells.update(
                at as int,
                marked(before.cells[at as int], verdict),
            ));
        }
        place_cursor(&mut self.text, next);
        self.position = next;
        proof {
            lemma_character(before.cells, before.position, character);
            assert(self@ == before.typed(character));
        }
        self.refresh()
    }

    /// Takes the last character back, if any has been typed: the score
    /// withdraws its verdict, the cell that held the cursor is untouched
    /// again and the cursor sits on the character taken back. Then the
    /// figures are brought up to date.
    pub fn backspace(&mut self) -> (frame: Frame)
        requires
            old(self).wf(),
        ensures
            final(self).wf(),
            final(self)@ == old(self)@.erased().refreshed(),
            frame@ == final(self)@.frame(),
    {
        let ghost before = self@;
        if self.position > 0 {
            let at = self.position;
            proof {
                lemma_tallies_cover(before.cells, before.position);
                lemma_backspace(before.cells, before.position);
            }
            if self.text[at - 1].state == CellState::Correct {
                self.score.calculate_correct_backspace();
            } else {
                self.score.calculate_incorrect_backspace();
            }
            if at < self.text.len() {
                self.text[at].state = CellState::Untouched;
            }
            self.text[at - 1].state = CellState::Cursor;
            self.position = at - 1;
            proof {
                assert(cell_views(self.text@) =~= after_backspace(before.cells, before.position));
                assert(self@ == before.erased());
            }
        }
        self.refresh()
    }

    /// What to show now that the run is over: the final figures, the
    /// sampled history, and the highest gross rate in it.
    pub fn show_results(&self) -> (results: Results)
        ensures
            results@ == self@.results(),
    {
        Results {
            gross_wpm: self.score.calculate_gross_wpm(self.elapsed_millis),
            net_wpm: self.score.calculate_net_wpm(self.elapsed_millis),
            accuracy: self.score.calculate_accuracy(),
            history: self.log.samples(),
            highest_gross_wpm: self.log.max_gross_wpm(),
        }
    }

    /// The clock for this run: it covers the duration of a run at the
    /// refresh rate, and its ticks carry this run's generation.
    pub fn start_timer(&self) -> (clock: SessionClock)
        ensures
            clock@ == self@.clock(),
    {
        SessionClock::start(TEST_DURATION, TIMER_REFRESH_RATE, self.generation)
    }

    /// Puts the session on the new passage that `picks` draw, with a clear
    /// score and history and no time passed. Ticks still under way from an
    /// earlier clock will no longer count.
    pub fn reset_with(&mut self, picks: &Vec<usize>)
        requires
            old(self).wf(),
            valid_picks(picks@, old(self)@.words.len() as int),
        ensures
            final(self).wf(),
            final(self)@ == TypingTestView::fresh(
                old(self)@.words,
                picks@,
                next_generation(old(self)@.generation),
            ),
    {
        let mut text = build_passage(&self.words, picks);
        place_cursor(&mut text, 0);
        proof {
            lemma_passage_of(word_views(self.words@), picks@);
            lemma_cursor_opens(passage_of(word_views(self.words@), picks@));
        }
        self.text = text;
        self.score = Score::new();
        self.log = Log::new();
        self.position = 0;
        self.elapsed_millis = 0;
        self.phase = Phase::Idle;
        self.generation = if self.generation == u64::MAX {
            0
        } else {
            self.generation + 1
        };
    }

    /// Puts the session on a new passage of `NUMBER_OF_WORDS` words drawn at
    /// random, with a clear score and history and no time passed.
    pub fn reset(&mut self)
        requires
            old(self).wf(),
        ensures
            final(self).wf(),
            exists|picks: Seq<usize>|
                #[trigger] is_draw(picks, old(self)@.words.len() as int) && final(self)@
                    == TypingTestView::fresh(
                    old(self)@.words,
                    picks,
                    next_generation(old(self)@.generation),
                ),
    {
        let picks = sample_indices(self.words.len(), NUMBER_OF_WORDS);
        assert(is_draw(picks@, old(self)@.words.len() as int));
        self.reset_with(&picks);
    }

    /// Opens the run: takes the opening sample and hands out the first
    /// figures to draw.
    pub fn start_test(&mut self) -> (action: Action)
        requires
            old(self).wf(),
        ensures
            final(self).wf(),
            final(self)@ == old(self)@.refreshed(),
            action@ == ActionView::Redraw(final(self)@.frame()),
    {
        Action::Redraw(self.refresh())
    }

    /// Sets the run going if this is its first keystroke, and says whether
    /// it was.
    fn begin(&mut self) -> (first: bool)
        requires
            old(self).wf(),
        ensures
            final(self).wf(),
            final(self)@ == old(self)@.started(),
            first == (old(self)@.phase == Phase::Idle),
    {
        if self.phase == Phase::Idle {
            self.phase = Phase::Running;
            true
        } else {
            false
        }
    }

    /// Ends the run and hands out its results.
    fn finish(&mut self) -> (reaction: Reaction)
        requires
            old(self).wf(),
        ensures
            final(self).wf(),
            final(self)@ == old(self)@.finished(),
            reaction@ == (ReactionView {
                start_clock: None,
                action: ActionView::ShowResults(final(self)@.results()),
            }),
    {
        self.phase = Phase::Finished;
        Reaction { start_clock: None, action: Action::ShowResults(self.show_results()) }
    }

    /// Puts the session on a fresh passage and opens the new run.
    fn restart(&mut self) -> (reaction: Reaction)
        requires
            old(self).wf(),
        ensures
            final(self).wf(),
            exists|picks: Seq<usize>|
                #[trigger] is_draw(picks, old(self)@.words.len() as int) && final(self)@ == old(
                    self,
                )@.restarted(picks),
            reaction@ == (ReactionView {
                start_clock: None,
                action: ActionView::Redraw(final(self)@.frame()),
            }),
    {
        self.reset();
        let frame = self.refresh();
        Reaction { start_clock: None, action: Action::Redraw(frame) }
    }

    /// Takes one input and says what to show for it.
    ///
    /// While typing, the first keystroke sets the run going and a clock is
    /// handed out for it. A character is entered at the cursor, and the run
    /// is over once the passage is typed out; a backspace takes the last
    /// character back. A restart puts the session on a fresh passage, drawn
    /// at random, in any phase but the last. A quit closes the session.
    pub fn handle_input(&mut self, input: Input) -> (reaction: Reaction)
        requires
            old(self).wf(),
            old(self)@.types_on(input) ==> old(self)@.score.has_room(),
        ensures
            final(self).wf(),
            !old(self)@.restarts_on(input) ==> final(self)@ == old(self)@.after_input(
                input,
                Seq::empty(),
            ),
            old(self)@.restarts_on(input) ==> exists|picks: Seq<usize>|
                #[trigger] is_draw(picks, old(self)@.words.len() as int) && final(self)@ == old(
                    self,
                )@.after_input(input, picks),
            reaction@ == old(self)@.reaction(input, final(self)@),
    {
        match self.phase {
            Phase::Closed => Reaction { start_clock: None, action: Action::Exit },
            Phase::Finished => match input {
                Input::Restart => self.restart(),
                Input::Quit => {
                    self.phase = Phase::Closed;
                    Reaction { start_clock: None, action: Action::Exit }
                },
                _ => Reaction { start_clock: None, action: Action::Nothing },
            },
            _ => match input {
                Input::Restart => self.restart(),
                Input::Quit => {
                    self.phase = Phase::Closed;
                    Reaction { start_clock: None, action: Action::Exit }
                },
                Input::Character(c) => {
                    if self.is_exhausted() {
                        self.finish()
                    } else {
                        let first = self.begin();
                        let frame = self.update_char(c);
                        if self.is_exhausted() {
                            self.finish()
                        } else {
                            let start_clock = if first {
                                Some(self.start_timer())
                            } else {
                                None
                            };
                            Reaction { start_clock, action: Action::Redraw(frame) }
                        }
                    }
                },
                Input::Backspace => {
                    let first = self.begin();
                    let frame = self.backspace();
                    let start_clock = if first {
                        Some(self.start_timer())
                    } else {
                        None
                    };
                    Reaction { start_clock, action: Action::Redraw(frame) }
                },
                Input::Other => {
                    let first = self.begin();
                    let start_clock = if first {
                        Some(self.start_timer())
                    } else {
                        None
                    };
                    Reaction { start_clock, action: Action::Nothing }
                },
            },
        }
    }

    /// Takes one key, read by what it means in the present phase.
    pub fn handle_key(&mut self, key: Key) -> (reaction: Reaction)
        requires
            old(self).wf(),
            old(self)@.types_on(meaning(old(self)@.phase, key)) ==> old(self)@.score.has_room(),
        ensures
            final(self).wf(),
            !old(self)@.restarts_on(meaning(old(self)@.phase, key)) ==> final(self)@ == old(
                self,
            )@.after_input(meaning(old(self)@.phase, key), Seq::empty()),
            old(self)@.restarts_on(meaning(old(self)@.phase, key)) ==> exists|picks: Seq<usize>|
                #[trigger] is_draw(picks, old(self)@.words.len() as int) && final(self)@ == old(
                    self,
                )@.after_input(meaning(old(self)@.phase, key), picks),
            reaction@ == old(self)@.reaction(meaning(old(self)@.phase, key), final(self)@),
    {
        let input = interpret(self.phase, key);
        self.handle_input(input)
    }

    /// Takes one tick. It counts only while the run is on and only if it
    /// comes from the clock of this run; then it adds its share to the
    /// elapsed time, and the run is over once the duration is reached.
    pub fn handle_tick(&mut self, tick: Tick) -> (reaction: Reaction)
        requires
            old(self).wf(),
        ensures
            final(self).wf(),
            final(self)@ == old(self)@.after_tick(tick.generation as int),
            reaction@ == old(self)@.tick_reaction(tick.generation as int, final(self)@),
    {
        if self.phase == Phase::Running && tick.generation == self.generation {
            let later = self.elapsed_millis + TICK_MILLIS;
            if later >= TEST_DURATION_MILLIS {
                self.phase = Phase::Finished;
                self.elapsed_millis = later;
                Reaction { start_clock: None, action: Action::ShowResults(self.show_results()) }
            } else {
                self.elapsed_millis = later;
                let frame = self.refresh();
                Reaction { start_clock: None, action: Action::Redraw(frame) }
            }
        } else {
            Reaction { start_clock: None, action: Action::Nothing }
        }
    }
}

} // verus!
