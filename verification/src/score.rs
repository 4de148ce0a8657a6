//! Keystroke tallies and the rates derived from them.
//!
//! Counters are whole numbers and every rate is an exact fraction, so the
//! contracts below can state the scoring formulas over the reals.

use vstd::prelude::*;

verus! {

/// An exact fraction with a positive denominator. It is not kept in lowest
/// terms: two fractions denote the same number when their values agree.
#[derive(Clone, Copy, Debug)]
pub struct Rational {
    num: i64,
    den: u64,
}

impl View for Rational {
    type V = real;

    open spec fn view(&self) -> real {
        self.numer() as real / self.denom() as real
    }
}

/// A fraction equals `x` exactly when its numerator is `x` times its denominator.
pub proof fn lemma_fraction_is(n: int, d: int, x: real)
    by (nonlinear_arith)
    requires
        d > 0,
        n as real == x * (d as real),
    ensures
        n as real / d as real == x,
{
}

/// Fractions with positive denominators are ordered as their cross products.
pub proof fn lemma_fraction_order(a: int, b: int, c: int, d: int)
    by (nonlinear_arith)
    requires
        b > 0,
        d > 0,
    ensures
        (a as real / b as real <= c as real / d as real) <==> (a * d <= c * b),
{
}

/// The product of a 64-bit signed and a 64-bit unsigned number fits in 128 bits.
proof fn lemma_cross_product_fits(a: i64, b: u64)
    by (nonlinear_arith)
    ensures
        i128::MIN <= a * b <= i128::MAX,
{
    assert(-0x8000_0000_0000_0000 <= a <= 0x7fff_ffff_ffff_ffff);
    assert(0 <= b <= 0xffff_ffff_ffff_ffff);
    assert(a * b <= 0x7fff_ffff_ffff_ffff * 0xffff_ffff_ffff_ffff);
    assert(a * b >= -0x8000_0000_0000_0000 * 0xffff_ffff_ffff_ffff);
}

impl Rational {
    #[verifier::type_invariant]
    spec fn positive_denominator(self) -> bool {
        self.den > 0
    }

    /// The numerator of this representation.
    pub closed spec fn numer(self) -> int {
        self.num as int
    }

    /// The denominator of this representation.
    pub closed spec fn denom(self) -> int {
        self.den as int
    }

    /// The fraction `num / den`, or nothing when `den` is zero.
    pub fn new(num: i64, den: u64) -> (r: Option<Rational>)
        ensures
            den == 0 <==> r is None,
            r matches Some(q) ==> q.numer() == num && q.denom() == den,
    {
        if den == 0 {
            None
        } else {
            Some(Rational { num, den })
        }
    }

    /// The whole number `n` as a fraction.
    pub fn from_integer(n: i64) -> (r: Rational)
        ensures
            r.numer() == n,
            r.denom() == 1,
            r@ == n as real,
    {
        proof {
            lemma_fraction_is(n as int, 1, n as real);
        }
        Rational { num: n, den: 1 }
    }

    pub fn numerator(&self) -> (n: i64)
        ensures
            n == self.numer(),
    {
        self.num
    }

    pub fn denominator(&self) -> (d: u64)
        ensures
            d == self.denom(),
            d > 0,
    {
        proof {
            use_type_invariant(self);
        }
        self.den
    }

    /// Whether this fraction is at most `other`, as numbers.
    pub fn le(&self, other: &Rational) -> (b: bool)
        ensures
            b == (self@ <= other@),
    {
        proof {
            use_type_invariant(self);
            use_type_invariant(other);
            lemma_fraction_order(self.num as int, self.den as int, other.num as int, other.den as int);
            lemma_cross_product_fits(self.num, other.den);
            lemma_cross_product_fits(other.num, self.den);
        }
        let left: i128 = (self.num as i128) * (other.den as i128);
        let right: i128 = (other.num as i128) * (self.den as i128);
        left <= right
    }
}

/// The three tallies of a run, as mathematical integers.
pub struct ScoreView {
    /// Characters currently standing as typed correctly.
    pub correct: int,
    /// Characters currently standing as typed wrongly.
    pub incorrect: int,
    /// Every wrong character ever typed, corrected later or not.
    pub total_incorrect: int,
}

impl ScoreView {
    pub open spec fn zero() -> ScoreView {
        ScoreView { correct: 0, incorrect: 0, total_incorrect: 0 }
    }

    pub open spec fn record_correct(self) -> ScoreView {
        ScoreView { correct: self.correct + 1, ..self }
    }

    pub open spec fn record_incorrect(self) -> ScoreView {
        ScoreView {
            incorrect: self.incorrect + 1,
            total_incorrect: self.total_incorrect + 1,
            ..self
        }
    }

    pub open spec fn record_correct_backspace(self) -> ScoreView {
        ScoreView { correct: self.correct - 1, ..self }
    }

    pub open spec fn record_incorrect_backspace(self) -> ScoreView {
        ScoreView { incorrect: self.incorrect - 1, ..self }
    }

    /// The state after `rounds` repetitions of a correct character that is
    /// erased at once.
    pub open spec fn type_and_erase(self, rounds: nat) -> ScoreView
        decreases rounds,
    {
        if rounds == 0 {
            self
        } else {
            self.record_correct().record_correct_backspace().type_and_erase((rounds - 1) as nat)
        }
    }

    /// No tally is negative, and the lifetime count of wrong characters covers
    /// those that still stand.
    pub open spec fn is_consistent(self) -> bool {
        &&& 0 <= self.correct
        &&& 0 <= self.incorrect <= self.total_incorrect
    }

    /// Whether each tally can still be raised by one within 32 bits.
    pub open spec fn has_room(self) -> bool {
        &&& self.correct < i32::MAX
        &&& self.incorrect < i32::MAX
        &&& self.total_incorrect < i32::MAX
    }

    /// Elapsed time in minutes.
    pub open spec fn minutes(elapsed_millis: int) -> real {
        elapsed_millis as real / 1000real / 60real
    }

    /// Words per minute over every character that stands, a word being five
    /// characters; zero before any time has passed.
    pub open spec fn gross_wpm(self, elapsed_millis: int) -> real {
        if elapsed_millis == 0 {
            0real
        } else {
            ((self.correct + self.incorrect) as real / 5real) / Self::minutes(elapsed_millis)
        }
    }

    /// Gross words per minute less the wrong characters per minute; zero
    /// before any time has passed. It is negative when mistakes dominate.
    pub open spec fn net_wpm(self, elapsed_millis: int) -> real {
        if elapsed_millis == 0 {
            0real
        } else {
            self.gross_wpm(elapsed_millis) - self.incorrect as real / Self::minutes(elapsed_millis)
        }
    }

    /// The percentage of judged characters that were correct, counting every
    /// mistake ever made; one hundred while nothing has been judged.
    pub open spec fn accuracy(self) -> real {
        if self.correct + self.total_incorrect == 0 {
            100real
        } else {
            self.correct as real / (self.correct + self.total_incorrect) as real * 100real
        }
    }

    /// Typing a correct character and erasing it at once, any number of
    /// times, leaves every tally as it was.
    pub proof fn lemma_type_and_erase_round_trip(self, rounds: nat)
        ensures
            self.record_correct().record_correct_backspace() == self,
            self.type_and_erase(rounds) == self,
        decreases rounds,
    {
        if rounds > 0 {
            self.lemma_type_and_erase_round_trip((rounds - 1) as nat);
        }
    }

    /// With consistent tallies the accuracy is a percentage, and it is
    /// exactly one hundred while nothing has been judged.
    pub proof fn lemma_accuracy_range(self)
        requires
            self.is_consistent(),
        ensures
            0real <= self.accuracy() <= 100real,
            self.correct + self.total_incorrect == 0 ==> self.accuracy() == 100real,
    {
        if self.correct + self.total_incorrect != 0 {
            let c = self.correct;
            let t = self.total_incorrect;
            assert(0real <= c as real / (c + t) as real * 100real <= 100real) by (nonlinear_arith)
                requires
                    0 <= c,
                    0 <= t,
                    c + t != 0,
            ;
        }
    }

    /// Before any time has passed both rates are zero, whatever the tallies.
    pub proof fn lemma_rates_start_at_zero(self)
        ensures
            self.gross_wpm(0) == 0real,
            self.net_wpm(0) == 0real,
    {
    }

    /// Net never exceeds gross while the standing mistakes are not negative.
    pub proof fn lemma_net_at_most_gross(self, elapsed_millis: int)
        requires
            0 <= self.incorrect,
            0 <= elapsed_millis,
        ensures
            self.net_wpm(elapsed_millis) <= self.gross_wpm(elapsed_millis),
    {
        if elapsed_millis != 0 {
            let i = self.incorrect;
            assert(0real <= i as real / Self::minutes(elapsed_millis)) by (nonlinear_arith)
                requires
                    0 <= i,
                    0 < elapsed_millis,
                    Self::minutes(elapsed_millis) == elapsed_millis as real / 1000real / 60real,
            ;
        }
    }
}

/// The running tallies of a typing run.
#[derive(Clone, Copy, Debug)]
pub struct Score {
    correct_characters: i32,
    incorrect_characters: i32,
    total_incorrect_characters: i32,
}

impl View for Score {
    type V = ScoreView;

    closed spec fn view(&self) -> ScoreView {
        ScoreView {
            correct: self.correct_characters as int,
            incorrect: self.incorrect_characters as int,
            total_incorrect: self.total_incorrect_characters as int,
        }
    }
}

impl Score {
    pub fn new() -> (score: Score)
        ensures
            score@ == ScoreView::zero(),
    {
        Score { correct_characters: 0, incorrect_characters: 0, total_incorrect_characters: 0 }
    }

    pub fn correct_count(&self) -> (n: i32)
        ensures
            n == self@.correct,
    {
        self.correct_characters
    }

    pub fn incorrect_count(&self) -> (n: i32)
        ensures
            n == self@.incorrect,
    {
        self.incorrect_characters
    }

    pub fn total_incorrect_count(&self) -> (n: i32)
        ensures
            n == self@.total_incorrect,
    {
        self.total_incorrect_characters
    }

    /// Whether each tally can still be raised by one.
    pub fn can_record(&self) -> (b: bool)
        ensures
            b == self@.has_room(),
    {
        self.correct_characters < i32::MAX && self.incorrect_characters < i32::MAX
            && self.total_incorrect_characters < i32::MAX
    }

    pub fn calculate_gross_wpm(&self, elapsed_millis: u64) -> (wpm: Rational)
        ensures
            wpm@ == self@.gross_wpm(elapsed_millis as int),
    {
        if elapsed_millis == 0 {
            Rational::from_integer(0)
        } else {
            let typed: i64 = self.correct_characters as i64 + self.incorrect_characters as i64;
            let num: i64 = 12000 * typed;
            proof {
                let x = self@.gross_wpm(elapsed_millis as int);
                assert(num as real == x * (elapsed_millis as real)) by (nonlinear_arith)
                    requires
                        elapsed_millis > 0,
                        num == 12000 * typed,
                        x == (typed as real / 5real) / (elapsed_millis as real / 1000real / 60real),
                ;
                lemma_fraction_is(num as int, elapsed_millis as int, x);
            }
            Rational { num, den: elapsed_millis }
        }
    }

    pub fn calculate_net_wpm(&self, elapsed_millis: u64) -> (wpm: Rational)
        ensures
            wpm@ == self@.net_wpm(elapsed_millis as int),
    {
        if elapsed_millis == 0 {
            Rational::from_integer(0)
        } else {
            let correct: i64 = self.correct_characters as i64;
            let incorrect: i64 = self.incorrect_characters as i64;
            let num: i64 = 12000 * correct - 48000 * incorrect;
            proof {
                let x = self@.net_wpm(elapsed_millis as int);
                assert(num as real == x * (elapsed_millis as real)) by (nonlinear_arith)
                    requires
                        elapsed_millis > 0,
                        num == 12000 * correct - 48000 * incorrect,
                        x == ((correct + incorrect) as real / 5real) / (elapsed_millis as real
                            / 1000real / 60real) - incorrect as real / (elapsed_millis as real
                            / 1000real / 60real),
                ;
                lemma_fraction_is(num as int, elapsed_millis as int, x);
            }
            Rational { num, den: elapsed_millis }
        }
    }

    pub fn calculate_accuracy(&self) -> (accuracy: Rational)
        ensures
            accuracy@ == self@.accuracy(),
    {
        let correct: i64 = self.correct_characters as i64;
        let judged: i64 = correct + self.total_incorrect_characters as i64;
        if judged == 0 {
            Rational::from_integer(100)
        } else if judged > 0 {
            let num: i64 = 100 * correct;
            proof {
                let x = self@.accuracy();
                assert(num as real == x * (judged as real)) by (nonlinear_arith)
                    requires
                        judged > 0,
                        num == 100 * correct,
                        x == correct as real / judged as real * 100real,
                ;
                lemma_fraction_is(num as int, judged as int, x);
            }
            Rational { num, den: judged as u64 }
        } else {
            let num: i64 = -100 * correct;
            let den: i64 = -judged;
            proof {
                let x = self@.accuracy();
                assert(num as real == x * (den as real)) by (nonlinear_arith)
                    requires
                        judged < 0,
                        den == -judged,
                        num == -100 * correct,
                        x == correct as real / judged as real * 100real,
                ;
                lemma_fraction_is(num as int, den as int, x);
            }
            Rational { num, den: den as u64 }
        }
    }

    /// Counts one character typed correctly.
    pub fn calculate_correct(&mut self)
        requires
            old(self)@.correct < i32::MAX,
        ensures
            final(self)@ == old(self)@.record_correct(),
    {
        self.correct_characters += 1;
    }

    /// Takes back one character that had been typed correctly.
    pub fn calculate_correct_backspace(&mut self)
        requires
            old(self)@.correct > i32::MIN,
        ensures
            final(self)@ == old(self)@.record_correct_backspace(),
    {
        self.correct_characters -= 1;
    }

    /// Counts one character typed wrongly, both as standing and for good.
    pub fn calculate_incorrect(&mut self)
        requires
            old(self)@.incorrect < i32::MAX,
            old(self)@.total_incorrect < i32::MAX,
        ensures
            final(self)@ == old(self)@.record_incorrect(),
    {
        self.incorrect_characters += 1;
        self.total_incorrect_characters += 1;
    }

    /// Takes back one character that had been typed wrongly; the lifetime
    /// count of mistakes stays.
    pub fn calculate_incorrect_backspace(&mut self)
        requires
            old(self)@.incorrect > i32::MIN,
        ensures
            final(self)@ == old(self)@.record_incorrect_backspace(),
    {
        self.incorrect_characters -= 1;
    }
}

} // verus!
