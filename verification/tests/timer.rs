use typocode::timer::{format_mm_ss, Stopwatch};

const T0: u64 = 1_000_000;

#[test]
fn idle_stopwatch_reports_zero() {
    let sw = Stopwatch::new();
    assert_eq!(sw.elapsed(T0), 0);
    assert!(!sw.is_running());
}

#[test]
fn start_sets_running_and_elapsed_tracks_delta() {
    let mut sw = Stopwatch::new();
    sw.start(T0);
    assert!(sw.is_running());
    assert_eq!(sw.elapsed(T0 + 3_000), 3_000);
}

#[test]
fn second_start_is_ignored() {
    let mut sw = Stopwatch::new();
    sw.start(T0);
    sw.start(T0 + 5_000);
    assert_eq!(sw.elapsed(T0 + 10_000), 10_000);
}

#[test]
fn reset_returns_to_idle() {
    let mut sw = Stopwatch::new();
    sw.start(T0);
    sw.reset();
    assert!(!sw.is_running());
    assert_eq!(sw.elapsed(T0 + 5_000), 0);
}

#[test]
fn reset_then_start_picks_up_new_origin() {
    let mut sw = Stopwatch::new();
    sw.start(T0);
    sw.reset();
    let t1 = T0 + 10_000;
    sw.start(t1);
    assert_eq!(sw.elapsed(t1 + 2_000), 2_000);
}

#[test]
fn stop_freezes_elapsed_and_marks_not_running() {
    let mut sw = Stopwatch::new();
    sw.start(T0);
    sw.stop(T0 + 5_000);
    assert!(!sw.is_running());
    assert_eq!(sw.elapsed(T0 + 10_000), 5_000);
}

#[test]
fn stop_before_start_is_a_noop() {
    let mut sw = Stopwatch::new();
    sw.stop(T0 + 3_000);
    assert_eq!(sw.elapsed(T0 + 5_000), 0);
    // Starting afterwards still works normally.
    sw.start(T0 + 10_000);
    assert_eq!(sw.elapsed(T0 + 14_000), 4_000);
}

#[test]
fn second_stop_is_ignored() {
    let mut sw = Stopwatch::new();
    sw.start(T0);
    sw.stop(T0 + 5_000);
    sw.stop(T0 + 20_000);
    assert_eq!(sw.elapsed(T0 + 30_000), 5_000);
}

#[test]
fn reset_clears_frozen_total() {
    let mut sw = Stopwatch::new();
    sw.start(T0);
    sw.stop(T0 + 5_000);
    sw.reset();
    assert_eq!(sw.elapsed(T0 + 10_000), 0);
}

#[test]
fn format_mm_ss_pads_both_fields() {
    assert_eq!(format_mm_ss(0), "00:00");
    assert_eq!(format_mm_ss(7_000_000_000), "00:07");
    assert_eq!(format_mm_ss(65_000_000_000), "01:05");
    assert_eq!(format_mm_ss((60 * 12 + 34) * 1_000_000_000), "12:34");
}

#[test]
fn format_mm_ss_grows_minutes_past_100() {
    assert_eq!(format_mm_ss(60 * 120 * 1_000_000_000), "120:00");
}

#[test]
fn format_mm_ss_drops_sub_second_remainder() {
    assert_eq!(format_mm_ss(59_999_999_999), "00:59");
}

#[test]
fn elapsed_before_start_instant_reads_zero() {
    let mut sw = Stopwatch::new();
    sw.start(T0);
    assert_eq!(sw.elapsed(T0 - 1), 0);
}
