//! What holds of a session whatever happens to it.
//!
//! The laws are stated over the plain values of a session and the functions
//! that say what an input or a tick does to it; the executable session is
//! proved to follow those functions step by step.

use crate::engine::{
    lemma_backspace, lemma_character, lemma_cursor_keeps_text, lemma_cursor_opens,
    lemma_position_in_text, lemma_tallies_cover,
};
use crate::log::lemma_record_keeps_order;
use crate::passage::{lemma_passage_of, passage_of, passage_text};
use crate::clock::notifications;
use crate::session::{
    next_generation, Input, Phase, TypingTestView, TEST_DURATION, TEST_DURATION_MILLIS,
    TICK_MILLIS, TIMER_REFRESH_RATE,
};
use vstd::prelude::*;

verus! {

/// One thing that can happen to a session.
pub enum Event {
    /// An input from the keyboard.
    Input(Input),
    /// A tick of the clock of the given generation.
    Tick(int),
}

/// Whether an event asks for a fresh run.
pub open spec fn is_restart(event: Event) -> bool {
    event == Event::Input(Input::Restart)
}

impl TypingTestView {
    /// The session after one event; `picks` are the words drawn if the
    /// event asks for a fresh run.
    pub open spec fn after_event(self, event: Event, picks: Seq<usize>) -> Self {
        match event {
            Event::Input(input) => self.after_input(input, picks),
            Event::Tick(generation) => self.after_tick(generation),
        }
    }

    /// The session after a run of events, of which the one at index `k`
    /// has `picks[k]` to draw a fresh passage from.
    pub open spec fn after_events(self, events: Seq<Event>, picks: Seq<Seq<usize>>) -> Self
        decreases events.len(),
    {
        if events.len() == 0 {
            self
        } else {
            self.after_events(events.drop_last(), picks).after_event(
                events.last(),
                picks[events.len() - 1],
            )
        }
    }

    /// The session after each of `typed` is entered in turn.
    pub open spec fn typed_all(self, typed: Seq<char>) -> Self
        decreases typed.len(),
    {
        if typed.len() == 0 {
            self
        } else {
            self.typed_all(typed.drop_last()).typed(typed.last())
        }
    }

    /// The session after `ticks` ticks of the clock of this run.
    pub open spec fn after_ticks(self, ticks: nat) -> Self
        decreases ticks,
    {
        if ticks == 0 {
            self
        } else {
            self.after_ticks((ticks - 1) as nat).after_tick(self.generation)
        }
    }

    /// In every session the tallies that stand are not negative and add up
    /// to the position, so the accuracy is a percentage.
    pub proof fn lemma_score_follows_passage(self)
        requires
            self.wf(),
        ensures
            self.score.is_consistent(),
            self.score.correct + self.score.incorrect == self.position,
            0real <= self.score.accuracy() <= 100real,
    {
        lemma_tallies_cover(self.cells, self.position);
        self.score.lemma_accuracy_range();
    }

    /// In every session the cursor is within the passage: the position is
    /// not negative and not beyond the length of the text, and the passage
    /// is exhausted exactly when the position has reached that length.
    pub proof fn lemma_cursor_within_passage(self)
        requires
            self.wf(),
        ensures
            0 <= self.position <= passage_text(self.cells).len(),
            self.exhausted() <==> self.position == passage_text(self.cells).len(),
    {
        lemma_position_in_text(self.cells, self.position);
    }

    /// Bringing the figures up to date keeps a session valid.
    pub proof fn lemma_refreshed(self)
        requires
            self.wf(),
        ensures
            self.refreshed().wf(),
    {
        lemma_record_keeps_order(self.log, self.sample());
    }

    /// A fresh session is valid, whatever is drawn for it.
    pub proof fn lemma_fresh(words: Seq<Seq<char>>, picks: Seq<usize>, generation: int)
        requires
            words.len() > 0,
            0 <= generation <= u64::MAX,
        ensures
            Self::fresh(words, picks, generation).wf(),
            passage_text(Self::fresh(words, picks, generation).cells) == passage_text(
                passage_of(words, picks),
            ),
    {
        lemma_passage_of(words, picks);
        lemma_cursor_opens(passage_of(words, picks));
        lemma_cursor_keeps_text(passage_of(words, picks), 0);
    }

    /// Typing a character keeps a session valid and changes no character of
    /// the passage.
    pub proof fn lemma_typed(self, typed: char)
        requires
            self.wf(),
            !self.exhausted(),
        ensures
            self.typed(typed).wf(),
            passage_text(self.typed(typed).cells) == passage_text(self.cells),
            self.typed(typed).score.total_incorrect >= self.score.total_incorrect,
    {
        lemma_character(self.cells, self.position, typed);
    }

    /// A backspace keeps a session valid and changes no character of the
    /// passage.
    pub proof fn lemma_erased(self)
        requires
            self.wf(),
        ensures
            self.erased().wf(),
            passage_text(self.erased().cells) == passage_text(self.cells),
            self.erased().score.total_incorrect == self.score.total_incorrect,
    {
        if self.position > 0 {
            lemma_backspace(self.cells, self.position);
            lemma_tallies_cover(self.cells, self.position);
        }
    }

    /// A character that is taken back at once leaves the cursor where it
    /// was, the passage as it read and the standing tallies as they were;
    /// if it was the right character, the whole score is as before.
    pub proof fn lemma_type_then_erase(self, typed: char)
        requires
            self.wf(),
            !self.exhausted(),
        ensures
            self.typed(typed).erased().position == self.position,
            passage_text(self.typed(typed).erased().cells) == passage_text(self.cells),
            self.typed(typed).erased().score.correct == self.score.correct,
            self.typed(typed).erased().score.incorrect == self.score.incorrect,
            typed == self.cells[self.position].text[0] ==> self.typed(typed).erased().score
                == self.score,
    {
        self.lemma_typed(typed);
        self.typed(typed).lemma_erased();
    }

    /// Whatever the input and whatever is drawn for a fresh run, a valid
    /// session stays valid and keeps its corpus.
    pub proof fn lemma_input_keeps_wf(self, input: Input, picks: Seq<usize>)
        requires
            self.wf(),
        ensures
            self.after_input(input, picks).wf(),
            self.after_input(input, picks).words == self.words,
    {
        let started = self.started();
        assert(started.wf());
        Self::lemma_fresh(self.words, picks, next_generation(self.generation));
        Self::fresh(
            self.words,
            picks,
            next_generation(self.generation),
        ).lemma_refreshed();
        match input {
            Input::Character(c) => {
                if !self.exhausted() {
                    started.lemma_typed(c);
                    started.typed(c).lemma_refreshed();
                }
            },
            Input::Backspace => {
                started.lemma_erased();
                started.erased().lemma_refreshed();
            },
            _ => {},
        }
    }

    /// Whatever the tick, a valid session stays valid, keeps its corpus and
    /// its passage, and moves neither cursor nor score.
    pub proof fn lemma_tick_keeps_wf(self, generation: int)
        requires
            self.wf(),
        ensures
            self.after_tick(generation).wf(),
            self.after_tick(generation).words == self.words,
            self.after_tick(generation).cells == self.cells,
            self.after_tick(generation).position == self.position,
            self.after_tick(generation).score == self.score,
    {
        if self.phase == Phase::Running && generation == self.generation {
            let later = TypingTestView {
                elapsed_millis: self.elapsed_millis + TICK_MILLIS,
                ..self
            };
            if later.elapsed_millis < TEST_DURATION_MILLIS {
                later.lemma_refreshed();
            }
        }
    }

    /// A tick of another clock than this run's changes nothing, and neither
    /// does any tick outside a run.
    pub proof fn lemma_stale_tick_ignored(self, generation: int)
        requires
            generation != self.generation || self.phase != Phase::Running,
        ensures
            self.after_tick(generation) == self,
    {
    }

    /// After a restart the ticks of the clock before it no longer count.
    pub proof fn lemma_restart_drops_old_clock(self, picks: Seq<usize>)
        requires
            self.wf(),
        ensures
            self.restarted(picks).generation != self.generation,
            self.restarted(picks).after_tick(self.generation) == self.restarted(picks),
    {
    }

    /// Across any interleaving of inputs and ticks a session stays valid.
    /// In particular the cursor never leaves the passage, at either end.
    pub proof fn lemma_events_keep_wf(self, events: Seq<Event>, picks: Seq<Seq<usize>>)
        requires
            self.wf(),
        ensures
            self.after_events(events, picks).wf(),
            self.after_events(events, picks).words == self.words,
            0 <= self.after_events(events, picks).position <= passage_text(
                self.after_events(events, picks).cells,
            ).len(),
        decreases events.len(),
    {
        if events.len() > 0 {
            let before = self.after_events(events.drop_last(), picks);
            self.lemma_events_keep_wf(events.drop_last(), picks);
            match events.last() {
                Event::Input(input) => {
                    before.lemma_input_keeps_wf(input, picks[events.len() - 1]);
                },
                Event::Tick(generation) => {
                    before.lemma_tick_keeps_wf(generation);
                },
            }
        }
        self.after_events(events, picks).lemma_cursor_within_passage();
    }

    /// Short of a restart, nothing changes a character of the passage, and
    /// the lifetime count of mistakes never falls.
    pub proof fn lemma_events_keep_text(self, events: Seq<Event>, picks: Seq<Seq<usize>>)
        requires
            self.wf(),
            forall|k: int| 0 <= k < events.len() ==> !is_restart(#[trigger] events[k]),
        ensures
            passage_text(self.after_events(events, picks).cells) == passage_text(self.cells),
            self.after_events(events, picks).score.total_incorrect >= self.score.total_incorrect,
            self.after_events(events, picks).generation == self.generation,
        decreases events.len(),
    {
        if events.len() > 0 {
            let before = self.after_events(events.drop_last(), picks);
            self.lemma_events_keep_wf(events.drop_last(), picks);
            self.lemma_events_keep_text(events.drop_last(), picks);
            assert(!is_restart(events[events.len() - 1]));
            match events.last() {
                Event::Input(input) => {
                    let started = before.started();
                    match input {
                        Input::Character(c) => {
                            if !before.exhausted() {
                                started.lemma_typed(c);
                            }
                        },
                        Input::Backspace => {
                            started.lemma_erased();
                        },
                        _ => {},
                    }
                },
                Event::Tick(generation) => {
                    before.lemma_tick_keeps_wf(generation);
                },
            }
        }
    }

    /// Typing the passage as it reads, from the cursor on, judges every
    /// character correct: the position and the tally of correct characters
    /// rise by the number typed, and no mistake is counted.
    pub proof fn lemma_typing_as_written(self, typed: Seq<char>)
        requires
            self.wf(),
            self.position + typed.len() <= passage_text(self.cells).len(),
            forall|i: int|
                0 <= i < typed.len() ==> typed[i] == passage_text(self.cells)[self.position + i],
        ensures
            self.typed_all(typed).wf(),
            passage_text(self.typed_all(typed).cells) == passage_text(self.cells),
            self.typed_all(typed).position == self.position + typed.len(),
            self.typed_all(typed).score.correct == self.score.correct + typed.len(),
            self.typed_all(typed).score.incorrect == self.score.incorrect,
            self.typed_all(typed).score.total_incorrect == self.score.total_incorrect,
        decreases typed.len(),
    {
        if typed.len() > 0 {
            let before = self.typed_all(typed.drop_last());
            self.lemma_typing_as_written(typed.drop_last());
            before.lemma_cursor_within_passage();
            lemma_position_in_text(before.cells, before.position);
            before.lemma_typed(typed.last());
            assert(typed.last() == typed[typed.len() - 1]);
        }
    }

    /// A fresh passage typed from end to end as it reads is exhausted with
    /// every character counted correct, none wrong, and an accuracy of one
    /// hundred.
    pub proof fn lemma_flawless_run(self)
        requires
            self.wf(),
            self.position == 0,
            self.score == crate::score::ScoreView::zero(),
        ensures
            self.typed_all(passage_text(self.cells)).exhausted(),
            self.typed_all(passage_text(self.cells)).score.correct == passage_text(
                self.cells,
            ).len(),
            self.typed_all(passage_text(self.cells)).score.incorrect == 0,
            self.typed_all(passage_text(self.cells)).score.accuracy() == 100real,
    {
        let text = passage_text(self.cells);
        let done = self.typed_all(text);
        self.lemma_typing_as_written(text);
        done.lemma_cursor_within_passage();
        let n = done.score.correct;
        if n != 0 {
            assert(n as real / (n + 0) as real * 100real == 100real) by (nonlinear_arith)
                requires
                    n != 0,
            ;
        }
    }

    /// A run lasts exactly as many ticks as its clock gives: while fewer
    /// have come the run is on, with their share of time elapsed, and the
    /// last of them ends it.
    pub proof fn lemma_run_lasts_its_clock(self, ticks: nat)
        requires
            self.wf(),
            self.phase == Phase::Running,
            self.elapsed_millis == 0,
        ensures
            ticks < self.clock().remaining ==> self.after_ticks(ticks).phase == Phase::Running
                && self.after_ticks(ticks).elapsed_millis == ticks * TICK_MILLIS,
            ticks >= self.clock().remaining ==> self.after_ticks(ticks).phase == Phase::Finished
                && self.after_ticks(ticks).elapsed_millis == TEST_DURATION_MILLIS,
            self.after_ticks(ticks).generation == self.generation,
            self.after_ticks(ticks).wf(),
        decreases ticks,
    {
        assert(self.clock().remaining == 60) by {
            assert(TEST_DURATION == 30 && TIMER_REFRESH_RATE == 2);
            assert(notifications(30, 2) == 60);
        }
        if ticks > 0 {
            let before = self.after_ticks((ticks - 1) as nat);
            self.lemma_run_lasts_its_clock((ticks - 1) as nat);
            before.lemma_tick_keeps_wf(self.generation);
            assert(self.after_ticks(ticks) == before.after_tick(self.generation));
        }
    }
}

} // verus!
