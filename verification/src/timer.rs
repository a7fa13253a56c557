//! Elapsed-time tracking for the active typing run.
//!
//! [`Stopwatch`] holds an optional start instant and reports the time
//! between it and a caller-supplied "now". Instants and durations are
//! whole nanoseconds on the caller's monotonic clock; passing the clock
//! in keeps the type deterministic.
//!
//! The stopwatch is idle until the first keystroke of a run; Tab restart
//! resets it back to idle.

use vstd::prelude::*;

use crate::chars::string_of;

verus! {

/// Tracks the elapsed time of the current typing run. Once stopped, the
/// elapsed reading freezes.
#[derive(Debug, Clone, Copy)]
pub struct Stopwatch {
    started_at: Option<u64>,
    frozen: Option<u64>,
}

/// Abstract state of a [`Stopwatch`]: when it started and, once
/// stopped, the frozen reading.
pub struct StopwatchView {
    pub started_at: Option<u64>,
    pub frozen: Option<u64>,
}

impl View for Stopwatch {
    type V = StopwatchView;

    closed spec fn view(&self) -> StopwatchView {
        StopwatchView { started_at: self.started_at, frozen: self.frozen }
    }
}

/// `now - then`, or 0 when `now` is earlier.
pub open spec fn since(now: u64, then: u64) -> u64 {
    if now >= then {
        (now - then) as u64
    } else {
        0
    }
}

/// The idle stopwatch.
pub open spec fn idle() -> StopwatchView {
    StopwatchView { started_at: None, frozen: None }
}

/// Starting records `now` unless the stopwatch already started.
pub open spec fn started(v: StopwatchView, now: u64) -> StopwatchView {
    if v.started_at is None {
        StopwatchView { started_at: Some(now), frozen: v.frozen }
    } else {
        v
    }
}

/// Stopping freezes the reading at `now`, unless already frozen or
/// never started.
pub open spec fn stopped(v: StopwatchView, now: u64) -> StopwatchView {
    match (v.frozen, v.started_at) {
        (None, Some(s)) => StopwatchView { started_at: v.started_at, frozen: Some(since(now, s)) },
        _ => v,
    }
}

/// The reading at `now`: the frozen total, else the time since the
/// start, else zero.
pub open spec fn elapsed_at(v: StopwatchView, now: u64) -> u64 {
    match v.frozen {
        Some(f) => f,
        None => match v.started_at {
            Some(s) => since(now, s),
            None => 0,
        },
    }
}

impl Stopwatch {
    /// A fresh, idle stopwatch.
    pub fn new() -> (s: Self)
        ensures
            s@ == idle(),
    {
        Stopwatch { started_at: None, frozen: None }
    }

    /// Starts the stopwatch if it isn't already running; later calls
    /// are no-ops.
    pub fn start(&mut self, now: u64)
        ensures
            final(self)@ == started(old(self)@, now),
    {
        if self.started_at.is_none() {
            self.started_at = Some(now);
        }
    }

    /// Freezes the elapsed reading at its value at `now`. A no-op if
    /// already frozen or never started.
    pub fn stop(&mut self, now: u64)
        ensures
            final(self)@ == stopped(old(self)@, now),
    {
        if self.frozen.is_some() {
            return;
        }
        match self.started_at {
            Some(s) => {
                let d = if now >= s { now - s } else { 0 };
                self.frozen = Some(d);
            },
            None => {},
        }
    }

    /// Milliseconds elapsed since the start, the frozen total once
    /// stopped, or zero while idle. A `now` earlier than the start reads
    /// as zero.
    pub fn elapsed(&self, now: u64) -> (d: u64)
        ensures
            d == elapsed_at(self@, now),
    {
        match self.frozen {
            Some(f) => f,
            None => match self.started_at {
                Some(s) => if now >= s { now - s } else { 0 },
                None => 0,
            },
        }
    }

    /// Returns the stopwatch to its idle state.
    pub fn reset(&mut self)
        ensures
            final(self)@ == idle(),
    {
        self.started_at = None;
        self.frozen = None;
    }

    /// Whether the stopwatch has been started and hasn't been frozen.
    pub fn is_running(&self) -> (b: bool)
        ensures
            b == (self@.started_at is Some && self@.frozen is None),
    {
        self.started_at.is_some() && self.frozen.is_none()
    }
}

impl Default for Stopwatch {
    fn default() -> (s: Self)
        ensures
            s@ == idle(),
    {
        Stopwatch::new()
    }
}

/// Once stopped, a started stopwatch reads the same at every later
/// `now`: the value it had when it was stopped.
pub proof fn law_stop_freezes(v: StopwatchView, t: u64, now: u64)
    requires
        v.started_at is Some,
        v.frozen is None,
    ensures
        elapsed_at(stopped(v, t), now) == elapsed_at(v, t),
        elapsed_at(stopped(stopped(v, t), now), now) == elapsed_at(v, t),
{
}

/// Starting an already started stopwatch changes nothing.
pub proof fn law_start_idempotent(v: StopwatchView, t1: u64, t2: u64)
    ensures
        started(started(v, t1), t2) == started(v, t1),
{
}

/// A reset stopwatch reads zero until started again, and a restart
/// measures from the new origin.
pub proof fn law_reset_then_start(t: u64, now: u64)
    ensures
        elapsed_at(idle(), now) == 0,
        elapsed_at(started(idle(), t), now) == since(now, t),
{
}

/// One call on a stopwatch, with the time it is given.
pub enum StopwatchCall {
    Start(u64),
    Stop(u64),
    Reset,
}

/// The state after `call`.
pub open spec fn after_call(v: StopwatchView, call: StopwatchCall) -> StopwatchView {
    match call {
        StopwatchCall::Start(t) => started(v, t),
        StopwatchCall::Stop(t) => stopped(v, t),
        StopwatchCall::Reset => idle(),
    }
}

/// The state of a fresh stopwatch after `calls`, in order.
pub open spec fn after_calls(calls: Seq<StopwatchCall>) -> StopwatchView
    decreases calls.len(),
{
    if calls.len() == 0 {
        idle()
    } else {
        after_call(after_calls(calls.drop_last()), calls.last())
    }
}

/// The calls after the last reset (all of them when there is none).
pub open spec fn since_last_reset(calls: Seq<StopwatchCall>) -> Seq<StopwatchCall>
    decreases calls.len(),
{
    if calls.len() == 0 {
        calls
    } else if calls.last() is Reset {
        Seq::empty()
    } else {
        since_last_reset(calls.drop_last()).push(calls.last())
    }
}

/// The time given to the first start among `calls`.
pub open spec fn first_start(calls: Seq<StopwatchCall>) -> Option<u64>
    decreases calls.len(),
{
    if calls.len() == 0 {
        None
    } else {
        match first_start(calls.drop_last()) {
            Some(t) => Some(t),
            None => match calls.last() {
                StopwatchCall::Start(t) => Some(t),
                _ => None,
            },
        }
    }
}

/// The time given to the first stop that follows the first start among
/// `calls`.
pub open spec fn first_stop_after_start(calls: Seq<StopwatchCall>) -> Option<u64>
    decreases calls.len(),
{
    if calls.len() == 0 {
        None
    } else {
        match first_stop_after_start(calls.drop_last()) {
            Some(t) => Some(t),
            None => match calls.last() {
                StopwatchCall::Stop(t) => if first_start(calls.drop_last()) is Some {
                    Some(t)
                } else {
                    None
                },
                _ => None,
            },
        }
    }
}

/// The reading at `now` after `calls`: from the first start after the
/// last reset up to the first stop after that start, or up to `now`
/// while there is no such stop; zero when there was no start. A time
/// earlier than the start reads as zero.
pub open spec fn reading_after(calls: Seq<StopwatchCall>, now: u64) -> u64 {
    let r = since_last_reset(calls);
    match (first_start(r), first_stop_after_start(r)) {
        (Some(s), Some(t)) => since(t, s),
        (Some(s), None) => since(now, s),
        (None, _) => 0,
    }
}

/// The state that the calls since the last reset, `r`, lead to.
spec fn state_after_reset(r: Seq<StopwatchCall>) -> StopwatchView {
    StopwatchView {
        started_at: first_start(r),
        frozen: match (first_start(r), first_stop_after_start(r)) {
            (Some(s), Some(t)) => Some(since(t, s)),
            _ => None,
        },
    }
}

/// A stop only counts once a start came before it.
proof fn lemma_stop_needs_start(calls: Seq<StopwatchCall>)
    ensures
        first_stop_after_start(calls) is Some ==> first_start(calls) is Some,
    decreases calls.len(),
{
    if calls.len() > 0 {
        lemma_stop_needs_start(calls.drop_last());
    }
}

proof fn lemma_after_calls_state(calls: Seq<StopwatchCall>)
    ensures
        after_calls(calls) == state_after_reset(since_last_reset(calls)),
    decreases calls.len(),
{
    if calls.len() == 0 {
    } else {
        let prefix = calls.drop_last();
        lemma_after_calls_state(prefix);
        if !(calls.last() is Reset) {
            let r0 = since_last_reset(prefix);
            let r = r0.push(calls.last());
            assert(r.drop_last() =~= r0);
            lemma_stop_needs_start(r0);
        } else {
            assert(since_last_reset(calls) =~= Seq::<StopwatchCall>::empty());
        }
    }
}

/// After any sequence of start, stop and reset calls on a fresh
/// stopwatch, the reading at `now` runs from the first start after the
/// last reset to the first stop after that start (or to `now` while
/// there is none), and is zero when nothing has started since the last
/// reset.
pub proof fn law_reading_after_calls(calls: Seq<StopwatchCall>, now: u64)
    ensures
        elapsed_at(after_calls(calls), now) == reading_after(calls, now),
{
    lemma_after_calls_state(calls);
}

/// The character for the decimal digit `d`.
pub open spec fn digit_char(d: int) -> char {
    if d == 0 { '0' }
    else if d == 1 { '1' }
    else if d == 2 { '2' }
    else if d == 3 { '3' }
    else if d == 4 { '4' }
    else if d == 5 { '5' }
    else if d == 6 { '6' }
    else if d == 7 { '7' }
    else if d == 8 { '8' }
    else { '9' }
}

/// Decimal digits of `n`, most significant first, without leading zeros.
pub open spec fn decimal(n: nat) -> Seq<char>
    decreases n,
{
    if n < 10 {
        seq![digit_char(n as int)]
    } else {
        decimal(n / 10).push(digit_char((n % 10) as int))
    }
}

/// Decimal digits of `n`, zero-padded to at least two.
pub open spec fn two_digits(n: nat) -> Seq<char> {
    if n < 10 {
        seq!['0'] + decimal(n)
    } else {
        decimal(n)
    }
}

/// `mm:ss` for `ns` nanoseconds: whole minutes and the remaining whole
/// seconds, each padded to two digits; minutes keep growing past 99.
pub open spec fn mm_ss(ns: nat) -> Seq<char> {
    let total = ns / 1_000_000_000;
    two_digits(total / 60) + seq![':'] + two_digits(total % 60)
}

fn digit(d: u64) -> (c: char)
    requires
        d < 10,
    ensures
        c == digit_char(d as int),
{
    if d == 0 { '0' }
    else if d == 1 { '1' }
    else if d == 2 { '2' }
    else if d == 3 { '3' }
    else if d == 4 { '4' }
    else if d == 5 { '5' }
    else if d == 6 { '6' }
    else if d == 7 { '7' }
    else if d == 8 { '8' }
    else { '9' }
}

/// Appends the decimal digits of `n` to `out`.
pub(crate) fn push_decimal(n: u64, out: &mut Vec<char>)
    ensures
        final(out)@ == old(out)@ + decimal(n as nat),
    decreases n,
{
    if n >= 10 {
        push_decimal(n / 10, out);
    }
    out.push(digit(n % 10));
    assert(out@ =~= old(out)@ + decimal(n as nat));
}

fn push_two_digits(n: u64, out: &mut Vec<char>)
    ensures
        final(out)@ == old(out)@ + two_digits(n as nat),
{
    if n < 10 {
        out.push('0');
    }
    push_decimal(n, out);
    assert(out@ =~= old(out)@ + two_digits(n as nat));
}

/// Formats a duration of `ns` nanoseconds as `mm:ss`. Runs longer than
/// 99 minutes keep growing the minutes field rather than wrapping.
pub fn format_mm_ss(ns: u64) -> (s: String)
    ensures
        s@ == mm_ss(ns as nat),
{
    let total = ns / 1_000_000_000;
    let mut out: Vec<char> = Vec::new();
    push_two_digits(total / 60, &mut out);
    out.push(':');
    push_two_digits(total % 60, &mut out);
    assert(out@ =~= mm_ss(ns as nat));
    string_of(out.as_slice())
}

} // verus!
