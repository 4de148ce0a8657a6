//! The sampled history of a run: the rates at chosen moments, kept in the
//! order of time for the chart drawn when the run is over.

use crate::score::Rational;
use vstd::prelude::*;

verus! {

/// The rates at one moment of a run.
#[derive(Clone, Copy, Debug)]
pub struct Sample {
    /// Milliseconds since the run began.
    pub time: u64,
    pub net_wpm: Rational,
    pub gross_wpm: Rational,
}

/// A sample as numbers.
pub struct SampleView {
    pub time: int,
    pub net_wpm: real,
    pub gross_wpm: real,
}

impl View for Sample {
    type V = SampleView;

    open spec fn view(&self) -> SampleView {
        SampleView { time: self.time as int, net_wpm: self.net_wpm@, gross_wpm: self.gross_wpm@ }
    }
}

/// The history after `sample` is offered: it is appended when the history is
/// empty or `sample` is later than the last entry, and dropped otherwise.
pub open spec fn record(history: Seq<SampleView>, sample: SampleView) -> Seq<SampleView> {
    if history.len() == 0 || history.last().time < sample.time {
        history.push(sample)
    } else {
        history
    }
}

/// Every entry is later than all entries before it.
pub open spec fn times_increase(history: Seq<SampleView>) -> bool {
    forall|i: int, j: int| 0 <= i < j < history.len() ==> history[i].time < history[j].time
}

/// The larger of two numbers, the second where they are equal.
pub open spec fn higher(a: real, b: real) -> real {
    if a <= b {
        b
    } else {
        a
    }
}

/// The highest gross rate in a history, or nothing if the history is empty.
pub open spec fn highest_gross(history: Seq<SampleView>) -> Option<real>
    decreases history.len(),
{
    if history.len() == 0 {
        None
    } else {
        match highest_gross(history.drop_last()) {
            None => Some(history.last().gross_wpm),
            Some(top) => Some(higher(top, history.last().gross_wpm)),
        }
    }
}

/// The highest gross rate of a history that is not empty is the rate of one
/// of its entries, and no entry has a higher one.
pub proof fn lemma_highest_gross(history: Seq<SampleView>)
    requires
        history.len() > 0,
    ensures
        highest_gross(history) is Some,
        exists|k: int|
            0 <= k < history.len() && #[trigger] history[k].gross_wpm == highest_gross(history)->0,
        forall|k: int|
            0 <= k < history.len() ==> #[trigger] history[k].gross_wpm <= highest_gross(history)->0,
    decreases history.len(),
{
    let front = history.drop_last();
    let top = highest_gross(history)->0;
    if front.len() == 0 {
        assert(history[0].gross_wpm == top);
    } else {
        lemma_highest_gross(front);
        let k = choose|k: int|
            0 <= k < front.len() && #[trigger] front[k].gross_wpm == highest_gross(front)->0;
        if highest_gross(front)->0 <= history.last().gross_wpm {
            assert(history[history.len() - 1].gross_wpm == top);
        } else {
            assert(history[k].gross_wpm == top);
        }
        assert forall|j: int| 0 <= j < history.len() implies #[trigger] history[j].gross_wpm
            <= top by {
            if j < front.len() {
                assert(front[j].gross_wpm <= highest_gross(front)->0);
            }
        }
    }
}

/// Offering a sample keeps the times strictly increasing.
pub proof fn lemma_record_keeps_order(history: Seq<SampleView>, sample: SampleView)
    requires
        times_increase(history),
    ensures
        times_increase(record(history, sample)),
{
    let after = record(history, sample);
    assert forall|i: int, j: int| 0 <= i < j < after.len() implies after[i].time < after[j].time by {
        if j == history.len() {
            assert(history[i].time <= history.last().time);
        }
    }
}

/// The history after each of `samples` is offered in turn.
pub open spec fn record_all(history: Seq<SampleView>, samples: Seq<SampleView>) -> Seq<SampleView>
    decreases samples.len(),
{
    if samples.len() == 0 {
        history
    } else {
        record(record_all(history, samples.drop_last()), samples.last())
    }
}

/// Whatever is offered to an empty history, and in whatever order, the times
/// on record are strictly increasing.
pub proof fn lemma_history_is_ordered(samples: Seq<SampleView>)
    ensures
        times_increase(record_all(Seq::empty(), samples)),
    decreases samples.len(),
{
    if samples.len() > 0 {
        lemma_history_is_ordered(samples.drop_last());
        lemma_record_keeps_order(record_all(Seq::empty(), samples.drop_last()), samples.last());
    }
}

/// Offering the same moment twice keeps only the first of the two samples.
pub proof fn lemma_record_keeps_first(history: Seq<SampleView>, first: SampleView, second: SampleView)
    requires
        first.time == second.time,
    ensures
        record(record(history, first), second) == record(history, first),
{
}

/// The history of one run.
pub struct Log {
    entries: Vec<Sample>,
}

impl View for Log {
    type V = Seq<SampleView>;

    closed spec fn view(&self) -> Seq<SampleView> {
        self.entries@.map_values(|s: Sample| s@)
    }
}

impl Log {
    pub fn new() -> (log: Log)
        ensures
            log@ == Seq::<SampleView>::empty(),
    {
        let log = Log { entries: Vec::new() };
        assert(log@ =~= Seq::<SampleView>::empty());
        log
    }

    /// Offers the rates at `time`. They are kept only if the history is empty
    /// or `time` is later than the last entry, so a caller may offer far more
    /// often than it wants samples.
    pub fn update(&mut self, time: u64, net_wpm: Rational, gross_wpm: Rational)
        ensures
            final(self)@ == record(
                old(self)@,
                SampleView { time: time as int, net_wpm: net_wpm@, gross_wpm: gross_wpm@ },
            ),
            times_increase(old(self)@) ==> times_increase(final(self)@),
    {
        let ghost before = self@;
        let ghost sample = SampleView { time: time as int, net_wpm: net_wpm@, gross_wpm: gross_wpm@ };
        let n = self.entries.len();
        if n == 0 || self.entries[n - 1].time < time {
            proof {
                if times_increase(before) {
                    lemma_record_keeps_order(before, sample);
                }
                assert(self.entries@.push(Sample { time, net_wpm, gross_wpm }).map_values(
                    |s: Sample| s@,
                ) =~= before.push(sample));
            }
            self.entries.push(Sample { time, net_wpm, gross_wpm });
        }
    }

    pub fn len(&self) -> (n: usize)
        ensures
            n == self@.len(),
    {
        self.entries.len()
    }

    /// The entry at `index`, counted from the earliest.
    pub fn get(&self, index: usize) -> (sample: Option<Sample>)
        ensures
            index < self@.len() <==> sample is Some,
            sample matches Some(s) ==> s@ == self@[index as int],
    {
        if index < self.entries.len() {
            Some(self.entries[index])
        } else {
            None
        }
    }

    /// The entries from the earliest to the latest.
    pub fn samples(&self) -> (samples: Vec<Sample>)
        ensures
            samples@.map_values(|s: Sample| s@) == self@,
    {
        let mut samples: Vec<Sample> = Vec::new();
        let mut i: usize = 0;
        while i < self.entries.len()
            invariant
                0 <= i <= self.entries@.len(),
                samples@ == self.entries@.take(i as int),
            decreases self.entries@.len() - i,
        {
            samples.push(self.entries[i]);
            assert(samples@ =~= self.entries@.take(i as int + 1));
            i += 1;
        }
        assert(samples@ =~= self.entries@);
        samples
    }

    /// The highest gross rate on record, or nothing while the history is empty.
    pub fn max_gross_wpm(&self) -> (top: Option<Rational>)
        ensures
            self@.len() == 0 <==> top is None,
            top matches Some(t) ==> highest_gross(self@) == Some(t@),
    {
        let n = self.entries.len();
        if n == 0 {
            return None;
        }
        let mut best: Rational = self.entries[0].gross_wpm;
        let mut i: usize = 1;
        proof {
            assert(self@.take(1).drop_last() =~= Seq::<SampleView>::empty());
            assert(highest_gross(self@.take(1).drop_last()) is None);
        }
        while i < n
            invariant
                n == self.entries@.len(),
                1 <= i <= n,
                highest_gross(self@.take(i as int)) == Some(best@),
            decreases n - i,
        {
            let candidate = self.entries[i].gross_wpm;
            proof {
                assert(self@.take(i as int + 1).drop_last() =~= self@.take(i as int));
            }
            if best.le(&candidate) {
                best = candidate;
            }
            i += 1;
        }
        assert(self@.take(n as int) =~= self@);
        Some(best)
    }
}

} // verus!
