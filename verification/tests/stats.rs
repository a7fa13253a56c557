use typocode::stats::{Keystroke, Stats};

#[test]
fn fresh_stats_report_full_accuracy() {
    let s = Stats::new();
    assert_eq!(s.total(), 0);
    assert_eq!(s.accuracy_percent(), 100);
}

#[test]
fn record_correct_increments_correct_only() {
    let mut s = Stats::new();
    s.record(Keystroke::Correct);
    assert_eq!(s.correct(), 1);
    assert_eq!(s.incorrect(), 0);
    assert_eq!(s.total(), 1);
}

#[test]
fn record_incorrect_increments_incorrect_only() {
    let mut s = Stats::new();
    s.record(Keystroke::Incorrect);
    assert_eq!(s.correct(), 0);
    assert_eq!(s.incorrect(), 1);
    assert_eq!(s.total(), 1);
}

#[test]
fn accuracy_reports_rounded_percent() {
    let mut s = Stats::new();
    for _ in 0..97 {
        s.record(Keystroke::Correct);
    }
    for _ in 0..3 {
        s.record(Keystroke::Incorrect);
    }
    assert_eq!(s.accuracy_percent(), 97);
}

#[test]
fn accuracy_rounds_half_up() {
    // 1 correct / 3 total = 33.33% rounds to 33.
    let mut s = Stats::new();
    s.record(Keystroke::Correct);
    s.record(Keystroke::Incorrect);
    s.record(Keystroke::Incorrect);
    assert_eq!(s.accuracy_percent(), 33);

    // 2 correct / 3 total = 66.66% rounds to 67.
    let mut s = Stats::new();
    s.record(Keystroke::Correct);
    s.record(Keystroke::Correct);
    s.record(Keystroke::Incorrect);
    assert_eq!(s.accuracy_percent(), 67);
}

#[test]
fn reset_clears_counters() {
    let mut s = Stats::new();
    s.record(Keystroke::Correct);
    s.record(Keystroke::Incorrect);
    s.reset();
    assert_eq!(s.total(), 0);
    assert_eq!(s.accuracy_percent(), 100);
}

#[test]
fn wpm_is_zero_when_elapsed_is_zero() {
    let mut s = Stats::new();
    for _ in 0..100 {
        s.record(Keystroke::Correct);
    }
    assert_eq!(s.wpm(0), 0);
}

#[test]
fn wpm_is_zero_with_no_correct_keystrokes() {
    let mut s = Stats::new();
    for _ in 0..50 {
        s.record(Keystroke::Incorrect);
    }
    assert_eq!(s.wpm(60_000_000_000), 0);
}

#[test]
fn wpm_uses_correct_chars_only_speedtyper_formula() {
    // 100 correct + 50 wrong over 60s: (100/5) / 1min = 20 wpm.
    let mut s = Stats::new();
    for _ in 0..100 {
        s.record(Keystroke::Correct);
    }
    for _ in 0..50 {
        s.record(Keystroke::Incorrect);
    }
    assert_eq!(s.wpm(60_000_000_000), 20);
}

#[test]
fn wpm_scales_with_short_elapsed_windows() {
    // 50 correct chars in 10s: (50/5) / (10/60) = 60 wpm.
    let mut s = Stats::new();
    for _ in 0..50 {
        s.record(Keystroke::Correct);
    }
    assert_eq!(s.wpm(10_000_000_000), 60);
}

#[test]
fn wpm_rounds_to_nearest_whole() {
    // 17 correct / 5 / (30/60) = 6.8 rounds to 7.
    let mut s = Stats::new();
    for _ in 0..17 {
        s.record(Keystroke::Correct);
    }
    assert_eq!(s.wpm(30_000_000_000), 7);
}

#[test]
fn wpm_rounds_exact_half_up() {
    // 1 correct in 24s: 12000 / 24000 = 0.5 rounds to 1.
    let mut s = Stats::new();
    s.record(Keystroke::Correct);
    assert_eq!(s.wpm(24_000_000_000), 1);
}

#[test]
fn accuracy_at_zero_correct_is_zero() {
    let mut s = Stats::new();
    s.record(Keystroke::Incorrect);
    assert_eq!(s.accuracy_percent(), 0);
}

#[test]
fn wpm_keeps_sub_millisecond_precision() {
    let mut s = Stats::new();
    s.record(Keystroke::Correct);
    assert_eq!(s.wpm(1_500_000), 8000);
}
