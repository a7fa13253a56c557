//! Keystroke accuracy tracking.
//!
//! [`Stats`] counts every typing keystroke exactly once: the update
//! layer classifies a key as [`Keystroke::Correct`] or
//! [`Keystroke::Incorrect`] and the matching counter ticks up.
//! Backspace, Tab and Escape are not keystrokes for accuracy purposes.
//!
//! Accuracy is a rounded percentage; words-per-minute follows the
//! SpeedTyper.dev convention: gross WPM = (correct chars / 5) / minutes,
//! rounded to the nearest whole number.

use vstd::prelude::*;
use vstd::arithmetic::div_mod::lemma_div_is_ordered;

verus! {

/// Classification of a single typing keystroke.
#[derive(Debug, Clone, Copy, PartialEq, Eq, Structural)]
pub enum Keystroke {
    /// The key matched the expected cell and advanced the cursor.
    Correct,
    /// The key was rejected; it either stacked as an extra or was
    /// swallowed at the line-tail cap.
    Incorrect,
}

/// Running totals of correct vs incorrect keystrokes for the current run.
#[derive(Debug, Clone, Copy)]
pub struct Stats {
    correct: u64,
    incorrect: u64,
}

/// Rounded accuracy percentage for `correct` out of `total` keystrokes;
/// 100 when nothing has been typed yet.
pub open spec fn accuracy_of(correct: nat, total: nat) -> nat {
    if total == 0 {
        100
    } else {
        (correct * 100 + total / 2) / total
    }
}

/// Gross words per minute for `correct` characters typed in
/// `elapsed_ns` nanoseconds, rounded half up: `(correct / 5) / minutes`.
/// Zero while nothing has been timed or typed.
pub open spec fn wpm_of(correct: nat, elapsed_ns: nat) -> nat {
    if elapsed_ns == 0 || correct == 0 {
        0
    } else {
        (24_000_000_000 * correct + elapsed_ns) / (2 * elapsed_ns)
    }
}

impl Stats {
    /// Number of correct keystrokes recorded.
    pub closed spec fn correct_count(&self) -> nat {
        self.correct as nat
    }

    /// Number of incorrect keystrokes recorded.
    pub closed spec fn incorrect_count(&self) -> nat {
        self.incorrect as nat
    }

    /// The two counters never sum past `u64::MAX`.
    pub closed spec fn wf(&self) -> bool {
        self.correct + self.incorrect <= u64::MAX
    }

    /// A fresh stats counter with zero keystrokes recorded.
    pub fn new() -> (s: Self)
        ensures
            s.wf(),
            s.correct_count() == 0,
            s.incorrect_count() == 0,
    {
        Stats { correct: 0, incorrect: 0 }
    }

    /// Records one keystroke of the given classification.
    pub fn record(&mut self, kind: Keystroke)
        requires
            old(self).wf(),
            old(self).correct_count() + old(self).incorrect_count() < u64::MAX,
        ensures
            final(self).wf(),
            final(self).correct_count() == old(self).correct_count() + (if kind == Keystroke::Correct { 1int } else { 0int }),
            final(self).incorrect_count() == old(self).incorrect_count() + (if kind == Keystroke::Incorrect { 1int } else { 0int }),
    {
        match kind {
            Keystroke::Correct => self.correct = self.correct + 1,
            Keystroke::Incorrect => self.incorrect = self.incorrect + 1,
        }
    }

    /// Total keystrokes recorded across both classifications.
    pub fn total(&self) -> (t: u64)
        requires
            self.wf(),
        ensures
            t == self.correct_count() + self.incorrect_count(),
    {
        self.correct + self.incorrect
    }

    /// Correct keystrokes only.
    pub fn correct(&self) -> (c: u64)
        ensures
            c == self.correct_count(),
    {
        self.correct
    }

    /// Incorrect keystrokes only.
    pub fn incorrect(&self) -> (c: u64)
        ensures
            c == self.incorrect_count(),
    {
        self.incorrect
    }

    /// Accuracy as a rounded 0..=100 percentage; 100 when no keystrokes
    /// have been recorded yet.
    pub fn accuracy_percent(&self) -> (p: u8)
        requires
            self.wf(),
        ensures
            p == accuracy_of(self.correct_count(), self.correct_count() + self.incorrect_count()),
            p <= 100,
    {
        let total = self.correct + self.incorrect;
        if total == 0 {
            return 100;
        }
        let c = self.correct as u128;
        let t = total as u128;
        let numerator = c * 100 + t / 2;
        let q = numerator / t;
        proof {
            lemma_accuracy_bounded(c as nat, t as nat);
        }
        q as u8
    }

    /// Gross WPM for `elapsed_ns` nanoseconds of typing, rounded to the
    /// nearest whole number and saturating at `u32::MAX`. Zero while the
    /// stopwatch is idle or no correct keystroke has landed yet.
    pub fn wpm(&self, elapsed_ns: u64) -> (w: u32)
        ensures
            w == if wpm_of(self.correct_count(), elapsed_ns as nat) <= u32::MAX {
                wpm_of(self.correct_count(), elapsed_ns as nat)
            } else {
                u32::MAX as nat
            },
    {
        if elapsed_ns == 0 || self.correct == 0 {
            return 0;
        }
        let c = self.correct as u128;
        let ns = elapsed_ns as u128;
        proof {
            assert(24_000_000_000 * c <= 24_000_000_000 * 0xffff_ffff_ffff_ffffu128) by (nonlinear_arith)
                requires c <= 0xffff_ffff_ffff_ffffu128;
        }
        let q = (24_000_000_000 * c + ns) / (2 * ns);
        if q > u32::MAX as u128 {
            u32::MAX
        } else {
            q as u32
        }
    }

    /// Clears both counters.
    pub fn reset(&mut self)
        ensures
            final(self).wf(),
            final(self).correct_count() == 0,
            final(self).incorrect_count() == 0,
    {
        self.correct = 0;
        self.incorrect = 0;
    }
}

impl Default for Stats {
    fn default() -> (s: Self)
        ensures
            s.wf(),
            s.correct_count() == 0,
            s.incorrect_count() == 0,
    {
        Stats::new()
    }
}

proof fn lemma_accuracy_bounded(c: nat, t: nat)
    requires
        c <= t,
        t > 0,
    ensures
        (c * 100 + t / 2) / t <= 100,
{
    assert((c * 100 + t / 2) / t <= 100) by (nonlinear_arith)
        requires c <= t, t > 0;
}

/// Accuracy never leaves the 0..=100 range, a run with no keystrokes
/// reads as perfect accuracy, and so does a run with no wrong one.
pub proof fn law_accuracy_in_range(correct: nat, incorrect: nat)
    ensures
        accuracy_of(correct, correct + incorrect) <= 100,
        accuracy_of(0, 0) == 100,
        accuracy_of(correct, correct) == 100,
{
    if correct + incorrect > 0 {
        lemma_accuracy_bounded(correct, correct + incorrect);
    }
    if correct > 0 {
        assert((correct * 100 + correct / 2) / correct == 100) by (nonlinear_arith)
            requires correct > 0;
    }
}

/// Only correct keystrokes count towards WPM, so spamming wrong keys
/// never inflates it: WPM is a function of the correct count alone, more
/// correct characters in the same time never lower it, and with no
/// correct characters, or no elapsed time, it is 0.
pub proof fn law_wpm_counts_only_correct(c1: nat, c2: nat, elapsed_ns: nat)
    requires
        c1 <= c2,
    ensures
        wpm_of(c1, elapsed_ns) <= wpm_of(c2, elapsed_ns),
        wpm_of(0, elapsed_ns) == 0,
        wpm_of(c1, 0) == 0,
{
    if elapsed_ns > 0 && c1 > 0 {
        lemma_div_is_ordered((24_000_000_000 * c1 + elapsed_ns) as int, (24_000_000_000 * c2 + elapsed_ns) as int, (2 * elapsed_ns) as int);
    }
}

} // verus!
