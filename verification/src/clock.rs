//! The countdown behind a timed run: a fixed number of notifications at a
//! fixed pace, after which the clock is spent for good.
//!
//! The clock only counts. Whoever drives it waits the interval between two
//! notifications and hands each one on; a clock started later is a new one,
//! told apart from its predecessors by its generation.

use vstd::prelude::*;

verus! {

/// One notification of a clock, stamped with the generation of the clock
/// that gave it.
#[derive(Clone, Copy, Debug, PartialEq, Eq, Structural)]
pub struct Tick {
    pub generation: u64,
}

/// A clock as plain values.
pub struct ClockView {
    pub generation: int,
    /// Notifications still to come.
    pub remaining: nat,
    /// Milliseconds between two notifications.
    pub interval_millis: int,
}

/// The notifications a clock gives over `seconds` at `rate` a second.
pub open spec fn notifications(seconds: int, rate: int) -> int {
    seconds * rate
}

/// The whole number of milliseconds nearest to one `rate`-th of a second,
/// the upper one where two are equally near.
pub open spec fn interval_millis(rate: int) -> int {
    (2000 + rate) / (2 * rate)
}

impl ClockView {
    /// The clock after it has been asked `asks` times.
    pub open spec fn after(self, asks: nat) -> ClockView {
        ClockView {
            remaining: if asks <= self.remaining {
                (self.remaining - asks) as nat
            } else {
                0
            },
            ..self
        }
    }

    /// How many of `asks` requests are answered with a notification.
    pub open spec fn answered(self, asks: nat) -> nat {
        if asks <= self.remaining {
            asks
        } else {
            self.remaining
        }
    }
}

/// The pace is the nearest millisecond: it misses the exact interval by at
/// most half a millisecond.
pub proof fn lemma_interval_is_nearest(rate: int)
    requires
        rate > 0,
    ensures
        2 * interval_millis(rate) * rate - rate <= 2000 < 2 * interval_millis(rate) * rate + rate,
{
    let q = interval_millis(rate);
    let d = 2 * rate;
    assert(d * q <= 2000 + rate < d * q + d) by (nonlinear_arith)
        requires
            q == (2000 + rate) / d,
            d > 0,
    ;
    assert(d * q == 2 * q * rate) by (nonlinear_arith)
        requires
            d == 2 * rate,
    ;
}

/// A countdown of notifications.
#[derive(Debug)]
pub struct SessionClock {
    generation: u64,
    remaining: u64,
    interval_millis: u64,
}

impl View for SessionClock {
    type V = ClockView;

    closed spec fn view(&self) -> ClockView {
        ClockView {
            generation: self.generation as int,
            remaining: self.remaining as nat,
            interval_millis: self.interval_millis as int,
        }
    }
}

impl SessionClock {
    /// A clock that will give `seconds * rate` notifications, one every
    /// `rate`-th of a second.
    pub fn start(seconds: u32, rate: u32, generation: u64) -> (clock: SessionClock)
        requires
            rate > 0,
        ensures
            clock@ == (ClockView {
                generation: generation as int,
                remaining: notifications(seconds as int, rate as int) as nat,
                interval_millis: interval_millis(rate as int),
            }),
    {
        assert(0 <= seconds * rate <= u64::MAX) by (nonlinear_arith);
        let remaining: u64 = seconds as u64 * rate as u64;
        let interval_millis: u64 = (2000 + rate as u64) / (2 * rate as u64);
        SessionClock { generation, remaining, interval_millis }
    }

    /// The next notification, or nothing once the clock is spent. A spent
    /// clock stays spent.
    pub fn next_tick(&mut self) -> (tick: Option<Tick>)
        ensures
            final(self)@ == old(self)@.after(1),
            tick is Some <==> old(self)@.answered(1) == 1,
            tick matches Some(t) ==> t.generation == old(self)@.generation,
    {
        if self.remaining > 0 {
            self.remaining -= 1;
            Some(Tick { generation: self.generation })
        } else {
            None
        }
    }

    pub fn generation(&self) -> (generation: u64)
        ensures
            generation == self@.generation,
    {
        self.generation
    }

    /// How many notifications are still to come.
    pub fn remaining(&self) -> (remaining: u64)
        ensures
            remaining == self@.remaining,
    {
        self.remaining
    }

    /// How long to wait between two notifications, in milliseconds.
    pub fn interval_millis(&self) -> (millis: u64)
        ensures
            millis == self@.interval_millis,
    {
        self.interval_millis
    }
}

/// However often a clock is asked, it answers with exactly as many
/// notifications as it was started with and not one more: asking `first`
/// times and then `second` times is asking `first + second` times, and of
/// that many requests the clock answers all until it is spent.
pub proof fn lemma_clock_counts_down(clock: ClockView, first: nat, second: nat)
    ensures
        clock.after(first).after(second) == clock.after(first + second),
        clock.answered(first) + clock.after(first).answered(second) == clock.answered(
            first + second,
        ),
        clock.answered(first) <= clock.remaining,
        first >= clock.remaining ==> clock.answered(first) == clock.remaining && clock.after(
            first,
        ).remaining == 0,
{
}

} // verus!
