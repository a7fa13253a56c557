//! Top-level application state.
//!
//! TEA-inspired: the run loop (outside this library) polls input, hands
//! each event to [`App::handle_event`], and renders from the accessors.
//! Pagination is deferred until the viewport size is known so pages are
//! sized against the actual body area, and recomputed on resize.

use vstd::prelude::*;

use crate::file::SourceFile;
use crate::stats::{Keystroke, Stats};
use crate::text::pagination::paginated;
use crate::text::{cur_cells, lemma_same_text_lens, paginate, pages_nonempty, same_text, typed_prefix, Pages};
use crate::timer::{elapsed_at, idle, started, stopped, Stopwatch, StopwatchView};
use crate::update::{self, cursor_in_page, keystroke_of, msg_of, update_step, InputEvent, Msg};

verus! {

/// Player's position within the current page's cells plus any wrong
/// characters typed past the expected position.
///
/// `cu_ptr` is the index of the next cell the player is expected to
/// type. `extras` holds wrong characters typed past `cu_ptr`; they must
/// be cleared via backspace before typing can advance again.
#[derive(Debug)]
pub struct Cursor {
    pub cu_ptr: usize,
    pub extras: Vec<char>,
}

impl Cursor {
    /// Back to the first cell with no pending extras.
    pub fn reset(&mut self)
        ensures
            final(self).cu_ptr == 0,
            final(self).extras@ == Seq::<char>::empty(),
    {
        self.cu_ptr = 0;
        self.extras.clear();
    }
}

impl Default for Cursor {
    fn default() -> (c: Self)
        ensures
            c.cu_ptr == 0,
            c.extras@ == Seq::<char>::empty(),
    {
        Cursor { cu_ptr: 0, extras: Vec::new() }
    }
}

/// Lifecycle of the current typing run: `Playing` until the player
/// reaches the end of the final page with no pending extras, then
/// `Finished`. Tab in either phase restarts.
#[derive(Debug, Clone, Copy, PartialEq, Eq, Structural)]
pub enum Phase {
    Playing,
    Finished,
}

/// Top-level application state.
#[derive(Debug)]
pub struct App {
    source: SourceFile,
    pages: Option<Pages>,
    cursor: Cursor,
    stopwatch: Stopwatch,
    stats: Stats,
    phase: Phase,
    last_viewport_rows: u16,
    last_viewport_cols: u16,
    should_quit: bool,
}

/// The run is complete when the player sits past the last cell of the
/// final page with no pending extras.
pub open spec fn run_complete(pages: Option<Pages>, cursor: Cursor) -> bool {
    match pages {
        Some(p) => p@.current + 1 == p@.pages.len() && cursor.cu_ptr >= cur_cells(p@).len()
            && cursor.extras@.len() == 0,
        None => false,
    }
}

/// A key that counts for accuracy: a character, space or enter. Only
/// these can push the keystroke counters up.
pub open spec fn is_typing_key(msg: Msg) -> bool {
    msg is Char || msg is Space || msg is Enter
}

/// Whether `msg` is a typing key, one that counts for accuracy.
pub fn counts_for_accuracy(msg: Msg) -> (b: bool)
    ensures
        b == is_typing_key(msg),
{
    match msg {
        Msg::Char(_) | Msg::Space | Msg::Enter => true,
        _ => false,
    }
}

/// Stats counters after `kind` (if any) is recorded on `(correct, incorrect)`.
pub open spec fn counted(correct: nat, incorrect: nat, kind: Option<Keystroke>) -> (nat, nat) {
    match kind {
        Some(Keystroke::Correct) => (correct + 1, incorrect),
        Some(Keystroke::Incorrect) => (correct, incorrect + 1),
        None => (correct, incorrect),
    }
}

impl App {
    /// The loaded source.
    pub closed spec fn source_of(&self) -> SourceFile {
        self.source
    }

    /// The pages, once paginated.
    pub closed spec fn pages_of(&self) -> Option<Pages> {
        self.pages
    }

    /// The player's cursor.
    pub closed spec fn cursor_of(&self) -> Cursor {
        self.cursor
    }

    /// The run's stopwatch.
    pub closed spec fn stopwatch_of(&self) -> StopwatchView {
        self.stopwatch@
    }

    /// The run's keystroke counters.
    pub closed spec fn stats_of(&self) -> Stats {
        self.stats
    }

    /// The current phase.
    pub closed spec fn phase_of(&self) -> Phase {
        self.phase
    }

    /// The viewport the pages were last sized for.
    pub closed spec fn viewport_of(&self) -> (u16, u16) {
        (self.last_viewport_rows, self.last_viewport_cols)
    }

    /// Whether the player asked to quit.
    pub closed spec fn quit_of(&self) -> bool {
        self.should_quit
    }

    /// The state is consistent: the cursor sits within the current page
    /// and the counters are in range.
    pub open spec fn wf(&self) -> bool {
        &&& self.source_of().content@.len() < usize::MAX
        &&& self.stats_of().wf()
        &&& (self.pages_of() matches Some(p) ==> cursor_in_page(&p, &self.cursor_of()))
    }

    /// Builds an `App` for `source`, not yet paginated.
    pub fn new(source: SourceFile) -> (app: Self)
        requires
            source.content@.len() < usize::MAX,
        ensures
            app.wf(),
            app.source_of() == source,
            app.pages_of() is None,
            app.cursor_of().cu_ptr == 0,
            app.cursor_of().extras@.len() == 0,
            app.stopwatch_of() == idle(),
            app.stats_of().correct_count() == 0,
            app.stats_of().incorrect_count() == 0,
            app.phase_of() == Phase::Playing,
            app.viewport_of() == (0u16, 0u16),
            !app.quit_of(),
    {
        App {
            source,
            pages: None,
            cursor: Cursor::default(),
            stopwatch: Stopwatch::new(),
            stats: Stats::new(),
            phase: Phase::Playing,
            last_viewport_rows: 0,
            last_viewport_cols: 0,
            should_quit: false,
        }
    }

    /// The loaded source.
    pub fn source(&self) -> (s: &SourceFile)
        ensures
            *s == self.source_of(),
    {
        &self.source
    }

    /// The pages, once paginated.
    pub fn pages(&self) -> (p: &Option<Pages>)
        ensures
            *p == self.pages_of(),
    {
        &self.pages
    }

    /// The player's cursor.
    pub fn cursor(&self) -> (c: &Cursor)
        ensures
            *c == self.cursor_of(),
    {
        &self.cursor
    }

    /// The run's stopwatch.
    pub fn stopwatch(&self) -> (s: &Stopwatch)
        ensures
            s@ == self.stopwatch_of(),
    {
        &self.stopwatch
    }

    /// The run's keystroke counters.
    pub fn stats(&self) -> (s: &Stats)
        ensures
            *s == self.stats_of(),
    {
        &self.stats
    }

    /// The current phase.
    pub fn phase(&self) -> (p: Phase)
        ensures
            p == self.phase_of(),
    {
        self.phase
    }

    /// Whether the player asked to quit.
    pub fn should_quit(&self) -> (b: bool)
        ensures
            b == self.quit_of(),
    {
        self.should_quit
    }

    /// Builds or rebuilds the pages whenever the viewport dimensions
    /// change. Page boundaries shift under a new budget, so the cursor
    /// goes back to the start of the first page.
    pub fn ensure_paginated(&mut self, viewport_rows: u16, viewport_cols: u16)
        requires
            old(self).wf(),
        ensures
            final(self).wf(),
            final(self).source_of() == old(self).source_of(),
            final(self).stopwatch_of() == old(self).stopwatch_of(),
            final(self).stats_of() == old(self).stats_of(),
            final(self).phase_of() == old(self).phase_of(),
            final(self).quit_of() == old(self).quit_of(),
            final(self).viewport_of() == (viewport_rows, viewport_cols),
            old(self).pages_of() is Some && old(self).viewport_of() == (viewport_rows, viewport_cols) ==> *final(self) == *old(self),
            !(old(self).pages_of() is Some && old(self).viewport_of() == (viewport_rows, viewport_cols)) ==> {
                &&& final(self).cursor_of().cu_ptr == 0
                &&& final(self).cursor_of().extras@.len() == 0
                &&& (final(self).pages_of() is None <==> old(self).source_of().content@.len() == 0)
                &&& (final(self).pages_of() matches Some(p) ==> p@.current == 0
                    && paginated(p@.pages, old(self).source_of().content@, viewport_rows as int, viewport_cols as int))
            },
    {
        if self.pages.is_some() && self.last_viewport_rows == viewport_rows && self.last_viewport_cols == viewport_cols {
            return;
        }
        let pages = paginate(self.source.content.as_slice(), viewport_rows as usize, viewport_cols as usize);
        self.pages = Pages::new(pages);
        self.cursor.reset();
        self.last_viewport_rows = viewport_rows;
        self.last_viewport_cols = viewport_cols;
    }

    /// Whether the player sits past the last cell of the final page with
    /// no pending extras.
    fn is_run_complete(&self) -> (b: bool)
        requires
            self.wf(),
        ensures
            b == run_complete(self.pages, self.cursor),
    {
        match &self.pages {
            Some(pages) => pages.is_last() && self.cursor.cu_ptr >= pages.current().cells.len()
                && self.cursor.extras.len() == 0,
            None => false,
        }
    }

    /// Translates an input event into a message and dispatches it;
    /// events the typing loop ignores change nothing. `now` is the
    /// current time in nanoseconds.
    pub fn handle_event(&mut self, event: &InputEvent, now: u64)
        requires
            old(self).wf(),
            msg_of(*event) matches Some(msg) && is_typing_key(msg) ==> old(self).stats_of().correct_count()
                + old(self).stats_of().incorrect_count() < u64::MAX,
        ensures
            final(self).wf(),
            msg_of(*event) is None ==> *final(self) == *old(self),
            msg_of(*event) matches Some(msg) ==> dispatched(old(self), final(self), msg, now),
    {
        match update::from_key_event(event) {
            Some(msg) => self.dispatch(msg, now),
            None => {},
        }
    }

    /// Applies one message at time `now` (nanoseconds): Esc quits; on
    /// the finish screen only Tab is heard; otherwise the typing state
    /// is updated, the stopwatch starts on the first keystroke (Tab
    /// resets it and the counters instead), the keystroke is counted,
    /// and reaching the end of the text finishes the run and freezes the
    /// stopwatch.
    pub fn dispatch(&mut self, msg: Msg, now: u64)
        requires
            old(self).wf(),
            is_typing_key(msg) ==> old(self).stats_of().correct_count() + old(self).stats_of().incorrect_count() < u64::MAX,
        ensures
            final(self).wf(),
            dispatched(old(self), final(self), msg, now),
    {
        if let Msg::Quit = msg {
            self.should_quit = true;
            return;
        }
        if self.phase == Phase::Finished {
            if let Msg::Tab = msg {
            } else {
                return;
            }
        }
        let Some(pages) = self.pages.as_mut() else {
            return;
        };
        let outcome = update::update(pages, &mut self.cursor, msg);
        if let Msg::Tab = msg {
            self.stopwatch.reset();
            self.stats.reset();
            self.phase = Phase::Playing;
        } else {
            self.stopwatch.start(now);
        }
        match outcome.keystroke {
            Some(kind) => self.stats.record(kind),
            None => {},
        }
        if outcome.should_quit {
            self.should_quit = true;
        }
        if self.phase == Phase::Playing && self.is_run_complete() {
            self.phase = Phase::Finished;
            self.stopwatch.stop(now);
        }
    }
}

/// What one message does to the application: `old` becomes `new` when
/// `msg` arrives at time `now`.
pub open spec fn dispatched(old: &App, new: &App, msg: Msg, now: u64) -> bool {
    if msg == Msg::Quit {
        &&& new.quit_of()
        &&& new.pages_of() == old.pages_of()
        &&& new.cursor_of() == old.cursor_of()
        &&& new.stopwatch_of() == old.stopwatch_of()
        &&& new.stats_of() == old.stats_of()
        &&& new.phase_of() == old.phase_of()
        &&& new.source_of() == old.source_of()
        &&& new.viewport_of() == old.viewport_of()
    } else if (old.phase_of() == Phase::Finished && msg != Msg::Tab) || old.pages_of() is None {
        *new == *old
    } else {
        let p0 = old.pages_of()->0;
        let c0 = old.cursor_of();
        let kind = keystroke_of(p0@, c0.cu_ptr as int, c0.extras@, msg);
        let (correct, incorrect) = if msg == Msg::Tab {
            counted(0, 0, kind)
        } else {
            counted(old.stats_of().correct_count(), old.stats_of().incorrect_count(), kind)
        };
        let sw = if msg == Msg::Tab { idle() } else { started(old.stopwatch_of(), now) };
        let phase = if msg == Msg::Tab { Phase::Playing } else { old.phase_of() };
        let finishing = phase == Phase::Playing && run_complete(new.pages_of(), new.cursor_of());
        &&& new.pages_of() matches Some(p1) && update_step(p0@, c0.cu_ptr as int, c0.extras@, msg,
            p1@, new.cursor_of().cu_ptr as int, new.cursor_of().extras@)
        &&& new.stats_of().correct_count() == correct
        &&& new.stats_of().incorrect_count() == incorrect
        &&& new.phase_of() == if finishing { Phase::Finished } else { phase }
        &&& new.stopwatch_of() == if finishing { stopped(sw, now) } else { sw }
        &&& new.quit_of() == old.quit_of()
        &&& new.source_of() == old.source_of()
        &&& new.viewport_of() == old.viewport_of()
    }
}

/// Tab restarts from the top with a clean slate, in either phase: the
/// same text with every cell untyped, the first page, the cursor at its
/// start with no extras, zeroed counters, an idle stopwatch, and the run
/// playing again.
pub proof fn law_tab_restarts_cleanly(old: &App, new: &App, now: u64)
    requires
        old.wf(),
        old.pages_of() matches Some(p) && pages_nonempty(p@.pages),
        dispatched(old, new, Msg::Tab, now),
    ensures
        new.pages_of() matches Some(p) && ({
            &&& p@.current == 0
            &&& same_text(old.pages_of()->0@.pages, p@.pages)
            &&& typed_prefix(p@.pages, 0)
        }),
        new.cursor_of().cu_ptr == 0,
        new.cursor_of().extras@.len() == 0,
        new.stats_of().correct_count() == 0,
        new.stats_of().incorrect_count() == 0,
        new.stopwatch_of() == idle(),
        new.phase_of() == Phase::Playing,
{
    let p0 = old.pages_of()->0;
    let p1 = new.pages_of()->0;
    assert(p0.wf());
    lemma_same_text_lens(p0@.pages, p1@.pages);
    assert(p0@.pages[0].cells@.len() > 0);
    assert(p1@.pages[0].cells@.len() > 0);
    assert(cur_cells(p1@).len() > 0);
}

/// While the run is playing, a typing or backspace message finishes it
/// exactly when it leaves the player past the last cell of the final
/// page with no pending extras. A finished run's stopwatch is frozen and
/// reads the same at every time; an unfinished run's stopwatch is
/// running.
pub proof fn law_run_finishes_when_text_is_done(old: &App, new: &App, msg: Msg, now: u64)
    requires
        old.wf(),
        old.phase_of() == Phase::Playing,
        old.pages_of() is Some,
        msg != Msg::Quit,
        msg != Msg::Tab,
        old.stopwatch_of().frozen is None,
        dispatched(old, new, msg, now),
    ensures
        (new.phase_of() == Phase::Finished) <==> run_complete(new.pages_of(), new.cursor_of()),
        new.phase_of() == Phase::Finished ==> new.stopwatch_of().frozen is Some && forall|t1: u64, t2: u64|
            #![trigger elapsed_at(new.stopwatch_of(), t1), elapsed_at(new.stopwatch_of(), t2)]
            elapsed_at(new.stopwatch_of(), t1) == elapsed_at(new.stopwatch_of(), t2),
        new.phase_of() == Phase::Playing ==> new.stopwatch_of().started_at is Some && new.stopwatch_of().frozen is None,
{
}

} // verus!
