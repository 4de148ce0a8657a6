use bananatype::score::{Rational, Score};

fn value(r: Rational) -> f64 {
    r.numerator() as f64 / r.denominator() as f64
}

fn score_of(correct: u32, incorrect: u32) -> Score {
    let mut score = Score::new();
    for _ in 0..correct {
        score.calculate_correct();
    }
    for _ in 0..incorrect {
        score.calculate_incorrect();
    }
    score
}

#[test]
fn new_score_counts_nothing() {
    let score = Score::new();
    assert_eq!(score.correct_count(), 0);
    assert_eq!(score.incorrect_count(), 0);
    assert_eq!(score.total_incorrect_count(), 0);
    assert!(score.can_record());
}

#[test]
fn correct_raises_only_the_correct_tally() {
    let mut score = Score::new();
    score.calculate_correct();
    score.calculate_correct();
    assert_eq!(score.correct_count(), 2);
    assert_eq!(score.incorrect_count(), 0);
    assert_eq!(score.total_incorrect_count(), 0);
}

#[test]
fn incorrect_raises_both_mistake_tallies() {
    let mut score = Score::new();
    score.calculate_incorrect();
    assert_eq!(score.correct_count(), 0);
    assert_eq!(score.incorrect_count(), 1);
    assert_eq!(score.total_incorrect_count(), 1);
}

#[test]
fn incorrect_backspace_keeps_the_lifetime_tally() {
    let mut score = Score::new();
    score.calculate_incorrect();
    score.calculate_incorrect();
    score.calculate_incorrect_backspace();
    assert_eq!(score.incorrect_count(), 1);
    assert_eq!(score.total_incorrect_count(), 2);
}

#[test]
fn correct_then_backspace_round_trip() {
    let mut score = score_of(7, 3);
    for _ in 0..25 {
        score.calculate_correct();
        score.calculate_correct_backspace();
        assert_eq!(score.correct_count(), 7);
        assert_eq!(score.incorrect_count(), 3);
        assert_eq!(score.total_incorrect_count(), 3);
    }
}

#[test]
fn correct_backspace_may_go_below_zero() {
    let mut score = Score::new();
    score.calculate_correct_backspace();
    assert_eq!(score.correct_count(), -1);
}

#[test]
fn accuracy_is_one_hundred_before_any_judgement() {
    let score = Score::new();
    assert_eq!(value(score.calculate_accuracy()), 100.0);
}

#[test]
fn accuracy_counts_corrected_mistakes() {
    let mut score = score_of(3, 1);
    score.calculate_incorrect_backspace();
    assert_eq!(value(score.calculate_accuracy()), 75.0);
}

#[test]
fn accuracy_is_zero_when_all_is_wrong() {
    let score = score_of(0, 4);
    assert_eq!(value(score.calculate_accuracy()), 0.0);
}

#[test]
fn accuracy_stays_a_percentage() {
    for correct in 0..12u32 {
        for incorrect in 0..12u32 {
            let accuracy = value(score_of(correct, incorrect).calculate_accuracy());
            assert!((0.0..=100.0).contains(&accuracy));
        }
    }
}

#[test]
fn accuracy_with_a_negative_sum_keeps_a_positive_denominator() {
    let mut score = Score::new();
    score.calculate_correct_backspace();
    score.calculate_correct_backspace();
    let accuracy = score.calculate_accuracy();
    assert!(accuracy.denominator() > 0);
    assert_eq!(value(accuracy), 100.0);
}

#[test]
fn rates_are_zero_at_time_zero() {
    let score = score_of(40, 5);
    assert_eq!(value(score.calculate_gross_wpm(0)), 0.0);
    assert_eq!(value(score.calculate_net_wpm(0)), 0.0);
    let empty = Score::new();
    assert_eq!(value(empty.calculate_gross_wpm(0)), 0.0);
    assert_eq!(value(empty.calculate_net_wpm(0)), 0.0);
}

#[test]
fn gross_wpm_counts_five_characters_a_word() {
    let score = score_of(50, 10);
    assert_eq!(value(score.calculate_gross_wpm(30_000)), 24.0);
    assert_eq!(value(score.calculate_gross_wpm(60_000)), 12.0);
    assert_eq!(value(score.calculate_gross_wpm(500)), 1440.0);
}

#[test]
fn net_wpm_takes_off_the_mistakes_per_minute() {
    let score = score_of(50, 10);
    assert_eq!(value(score.calculate_net_wpm(30_000)), 4.0);
    assert_eq!(value(score.calculate_net_wpm(60_000)), 2.0);
}

#[test]
fn net_wpm_is_negative_when_mistakes_dominate() {
    let score = score_of(5, 10);
    assert_eq!(value(score.calculate_gross_wpm(60_000)), 3.0);
    assert_eq!(value(score.calculate_net_wpm(60_000)), -7.0);
}

#[test]
fn net_wpm_ignores_corrected_mistakes() {
    let mut score = score_of(10, 5);
    for _ in 0..5 {
        score.calculate_incorrect_backspace();
    }
    assert_eq!(value(score.calculate_net_wpm(60_000)), 2.0);
    assert_eq!(value(score.calculate_gross_wpm(60_000)), 2.0);
}

#[test]
fn rational_refuses_a_zero_denominator() {
    assert!(Rational::new(1, 0).is_none());
    let half = Rational::new(1, 2).unwrap();
    assert_eq!(half.numerator(), 1);
    assert_eq!(half.denominator(), 2);
}

#[test]
fn rational_from_integer_has_denominator_one() {
    let forty = Rational::from_integer(40);
    assert_eq!(forty.numerator(), 40);
    assert_eq!(forty.denominator(), 1);
}

#[test]
fn rational_order_is_by_value() {
    let half = Rational::new(1, 2).unwrap();
    let two_quarters = Rational::new(2, 4).unwrap();
    let third = Rational::new(1, 3).unwrap();
    let minus = Rational::new(-5, 7).unwrap();
    assert!(half.le(&two_quarters));
    assert!(two_quarters.le(&half));
    assert!(third.le(&half));
    assert!(!half.le(&third));
    assert!(minus.le(&third));
    assert!(!third.le(&minus));
}

#[test]
fn rational_order_holds_at_the_limits() {
    let low = Rational::new(i64::MIN, u64::MAX).unwrap();
    let high = Rational::new(i64::MAX, u64::MAX).unwrap();
    let top = Rational::new(i64::MAX, 1).unwrap();
    assert!(low.le(&high));
    assert!(!high.le(&low));
    assert!(high.le(&top));
    assert!(!top.le(&high));
}
