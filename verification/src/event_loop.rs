//! The polling loop as a state machine. The caller draws, waits for keys and
//! fetches statistics; the machine says which of these comes next and takes
//! in what came of it.

use vstd::prelude::*;
use crate::app::{App, AppView, KeyInput, Operation};
use crate::container::{ContainerStats, StatsView};

verus! {

/// The default time between two refreshes, in nanoseconds (two seconds).
pub const DEFAULT_TICK_RATE: u64 = 2_000_000_000;

/// What went wrong inside the loop. Either kind ends it.
#[derive(Debug, Clone, Copy, PartialEq, Eq)]
pub enum Failure {
    /// Listing the containers or fetching the statistics of one failed.
    Collection,
    /// Drawing the screen or reading input failed.
    Terminal,
}

/// How the loop ended.
#[derive(Debug, Clone, Copy, PartialEq, Eq)]
pub enum Exit {
    /// The user asked to leave.
    Clean,
    /// A failure stopped the loop.
    Failed(Failure),
}

/// Where the loop stands.
#[derive(Debug, Clone, Copy, PartialEq, Eq)]
pub enum Phase {
    /// The screen is being drawn.
    Rendering,
    /// A key press is awaited.
    Polling,
    /// Statistics are being collected.
    Collecting,
    /// The user has left; the loop is over.
    Quitting,
    /// Drawing, input or collection failed; the loop is over.
    Failed(Failure),
}

/// What the caller is to do next.
#[derive(Debug, Clone, Copy, PartialEq, Eq)]
pub enum Action {
    /// Draw the current state.
    Draw,
    /// Wait for a key press, at most this many nanoseconds.
    Poll(u64),
    /// List the containers and fetch their statistics.
    Collect,
    /// Restore the terminal and end the process, reporting how the loop ended.
    Leave(Exit),
}

/// What came of the last action.
#[derive(Debug, PartialEq, Eq)]
pub enum Event {
    /// The screen was drawn.
    Drawn,
    /// The wait ended, with a key press or without.
    Input(Option<KeyInput>),
    /// The collection round delivered these rows.
    Collected(Vec<ContainerStats>),
    /// The action failed.
    Failure(Failure),
}

/// The mathematical content of an [`Event`].
pub enum EventView {
    Drawn,
    Input(Option<KeyInput>),
    Collected(Seq<StatsView>),
    Failure(Failure),
}

impl View for Event {
    type V = EventView;

    open spec fn view(&self) -> EventView {
        match self {
            Event::Drawn => EventView::Drawn,
            Event::Input(key) => EventView::Input(*key),
            Event::Collected(rows) => EventView::Collected(rows.deep_view()),
            Event::Failure(kind) => EventView::Failure(*kind),
        }
    }
}

/// The mathematical content of an [`EventLoop`].
pub struct LoopView {
    /// The dashboard state.
    pub app: AppView,
    /// Where the loop stands.
    pub phase: Phase,
    /// The time between two refreshes, in nanoseconds.
    pub tick_rate: nat,
    /// The time of the last refresh, in nanoseconds on the caller's clock.
    pub last_tick: nat,
}

/// The time from `last_tick` to `now`; zero if the clock stood still or ran
/// backwards.
pub open spec fn elapsed(last_tick: nat, now: nat) -> nat {
    if now >= last_tick {
        (now - last_tick) as nat
    } else {
        0
    }
}

/// The time left until the next refresh is due; zero if it is overdue.
pub open spec fn time_to_tick(tick_rate: nat, last_tick: nat, now: nat) -> nat {
    if elapsed(last_tick, now) <= tick_rate {
        (tick_rate - elapsed(last_tick, now)) as nat
    } else {
        0
    }
}

/// Whether a refresh is due.
pub open spec fn tick_due(tick_rate: nat, last_tick: nat, now: nat) -> bool {
    elapsed(last_tick, now) >= tick_rate
}

impl LoopView {
    /// Whether the loop is over.
    pub open spec fn over(self) -> bool {
        self.phase is Quitting || self.phase is Failed
    }

    /// The end of a cycle: the loop leaves if the user asked for it, and
    /// draws again otherwise.
    pub open spec fn end_cycle(self) -> (LoopView, Action) {
        if self.app.should_quit {
            (LoopView { phase: Phase::Quitting, ..self }, Action::Leave(Exit::Clean))
        } else {
            (LoopView { phase: Phase::Rendering, ..self }, Action::Draw)
        }
    }

    /// What the loop asks for while it stands in its phase at the time `now`.
    pub open spec fn awaited(self, now: nat) -> Action {
        match self.phase {
            Phase::Rendering => Action::Draw,
            Phase::Polling => Action::Poll(
                time_to_tick(self.tick_rate, self.last_tick, now) as u64,
            ),
            Phase::Collecting => Action::Collect,
            Phase::Quitting => Action::Leave(Exit::Clean),
            Phase::Failed(kind) => Action::Leave(Exit::Failed(kind)),
        }
    }

    /// The state after `event` arrived at the time `now`, and the next action.
    ///
    /// After drawing, the loop waits for a key until the next refresh is due.
    /// A key press is applied first; then, if a refresh is due, the loop
    /// collects, and the rows replace the list and restart the tick clock.
    /// At the end of the cycle the loop leaves if the user asked for it. A
    /// failure ends the loop at once. An event that the phase does not await
    /// changes nothing.
    pub open spec fn step(self, event: EventView, now: nat) -> (LoopView, Action) {
        if self.over() {
            (self, self.awaited(now))
        } else {
            match (self.phase, event) {
                (_, EventView::Failure(kind)) => (
                    LoopView { phase: Phase::Failed(kind), ..self },
                    Action::Leave(Exit::Failed(kind)),
                ),
                (Phase::Rendering, EventView::Drawn) => {
                    let next = LoopView { phase: Phase::Polling, ..self };
                    (next, next.awaited(now))
                },
                (Phase::Polling, EventView::Input(key)) => {
                    let pressed = match key {
                        Some(k) => self.app.press(k),
                        None => self.app,
                    };
                    if tick_due(self.tick_rate, self.last_tick, now) {
                        (
                            LoopView { app: pressed, phase: Phase::Collecting, ..self },
                            Action::Collect,
                        )
                    } else {
                        (LoopView { app: pressed, ..self }).end_cycle()
                    }
                },
                (Phase::Collecting, EventView::Collected(rows)) => (LoopView {
                    app: self.app.apply(Operation::Refresh(rows)),
                    last_tick: now,
                    ..self
                }).end_cycle(),
                _ => (self, self.awaited(now)),
            }
        }
    }
}

/// A loop that is over stays over, whatever arrives.
pub proof fn lemma_over_is_final(state: LoopView, event: EventView, now: nat)
    requires
        state.over(),
    ensures
        state.step(event, now).0 == state,
        state.step(event, now).1 is Leave,
{
}

/// The quit flag survives every step.
pub proof fn lemma_step_keeps_quit_flag(state: LoopView, event: EventView, now: nat)
    requires
        state.app.should_quit,
    ensures
        state.step(event, now).0.app.should_quit,
{
}

/// A cycle that ends with the quit flag set ends the loop: after the key
/// press when no refresh is due, and after the refresh otherwise.
pub proof fn lemma_quit_ends_the_loop(state: LoopView, event: EventView, now: nat)
    requires
        !state.over(),
        state.step(event, now).0.app.should_quit,
        (state.phase is Polling && event is Input && !tick_due(
            state.tick_rate,
            state.last_tick,
            now,
        )) || (state.phase is Collecting && event is Collected),
    ensures
        state.step(event, now).0.phase is Quitting,
        state.step(event, now).1 == Action::Leave(Exit::Clean),
{
}

/// A failure ends the loop at once, whatever the phase.
pub proof fn lemma_failure_ends_the_loop(state: LoopView, kind: Failure, now: nat)
    requires
        !state.over(),
    ensures
        state.step(EventView::Failure(kind), now).0.phase == Phase::Failed(kind),
        state.step(EventView::Failure(kind), now).0.app == state.app,
        state.step(EventView::Failure(kind), now).1 == Action::Leave(Exit::Failed(kind)),
{
}

/// While no refresh is due the loop does not collect, and once one is due
/// the next input makes it collect.
pub proof fn lemma_collects_exactly_when_due(state: LoopView, key: Option<KeyInput>, now: nat)
    requires
        state.phase is Polling,
    ensures
        state.step(EventView::Input(key), now).1 is Collect <==> tick_due(
            state.tick_rate,
            state.last_tick,
            now,
        ),
{
}

/// Every step keeps the selection inside the list.
pub proof fn lemma_step_keeps_valid(state: LoopView, event: EventView, now: nat)
    requires
        state.app.valid(),
    ensures
        state.step(event, now).0.app.valid(),
{
}

/// The polling loop of the dashboard.
pub struct EventLoop {
    app: App,
    phase: Phase,
    tick_rate: u64,
    last_tick: u64,
}

impl View for EventLoop {
    type V = LoopView;

    closed spec fn view(&self) -> LoopView {
        LoopView {
            app: self.app@,
            phase: self.phase,
            tick_rate: self.tick_rate as nat,
            last_tick: self.last_tick as nat,
        }
    }
}

impl EventLoop {
    /// A loop about to draw its first screen, with the tick clock started at
    /// `now`.
    pub fn new(tick_rate: u64, now: u64) -> (event_loop: EventLoop)
        ensures
            event_loop@ == (LoopView {
                app: AppView::initial(),
                phase: Phase::Rendering,
                tick_rate: tick_rate as nat,
                last_tick: now as nat,
            }),
    {
        EventLoop { app: App::new(), phase: Phase::Rendering, tick_rate, last_tick: now }
    }

    /// The dashboard state.
    pub fn app(&self) -> (app: &App)
        ensures
            app@ == self@.app,
    {
        &self.app
    }

    /// Where the loop stands.
    pub fn phase(&self) -> (phase: Phase)
        ensures
            phase == self@.phase,
    {
        self.phase
    }

    /// What the loop asks for at the time `now`.
    pub fn awaited(&self, now: u64) -> (action: Action)
        ensures
            action == self@.awaited(now as nat),
    {
        match self.phase {
            Phase::Rendering => Action::Draw,
            Phase::Polling => Action::Poll(poll_timeout(self.tick_rate, self.last_tick, now)),
            Phase::Collecting => Action::Collect,
            Phase::Quitting => Action::Leave(Exit::Clean),
            Phase::Failed(kind) => Action::Leave(Exit::Failed(kind)),
        }
    }

    /// Ends the cycle: leaves if the user asked for it, draws again otherwise.
    fn end_cycle(&mut self) -> (action: Action)
        ensures
            (final(self)@, action) == old(self)@.end_cycle(),
    {
        if self.app.should_quit() {
            self.phase = Phase::Quitting;
            Action::Leave(Exit::Clean)
        } else {
            self.phase = Phase::Rendering;
            Action::Draw
        }
    }

    /// Takes in what came of the last action at the time `now` and says what
    /// to do next.
    pub fn step(&mut self, event: Event, now: u64) -> (action: Action)
        ensures
            (final(self)@, action) == old(self)@.step(event@, now as nat),
    {
        match self.phase {
            Phase::Quitting | Phase::Failed(_) => {
                return self.awaited(now);
            },
            _ => {},
        }
        match event {
            Event::Failure(kind) => {
                self.phase = Phase::Failed(kind);
                Action::Leave(Exit::Failed(kind))
            },
            Event::Drawn => {
                match self.phase {
                    Phase::Rendering => {
                        self.phase = Phase::Polling;
                    },
                    _ => {},
                }
                self.awaited(now)
            },
            Event::Input(key) => {
                match self.phase {
                    Phase::Polling => {
                        if let Some(k) = key {
                            self.app.handle_key(k);
                        }
                        if is_tick_due(self.tick_rate, self.last_tick, now) {
                            self.phase = Phase::Collecting;
                            Action::Collect
                        } else {
                            self.end_cycle()
                        }
                    },
                    _ => self.awaited(now),
                }
            },
            Event::Collected(rows) => {
                match self.phase {
                    Phase::Collecting => {
                        self.app.refresh(rows);
                        self.last_tick = now;
                        self.end_cycle()
                    },
                    _ => self.awaited(now),
                }
            },
        }
    }
}

/// The time from `last_tick` to `now`, zero if the clock ran backwards.
fn elapsed_since(last_tick: u64, now: u64) -> (time: u64)
    ensures
        time == elapsed(last_tick as nat, now as nat),
{
    if now >= last_tick {
        now - last_tick
    } else {
        0
    }
}

/// How long to wait for a key: the time left until the next refresh is due,
/// zero if it is overdue.
pub fn poll_timeout(tick_rate: u64, last_tick: u64, now: u64) -> (timeout: u64)
    ensures
        timeout == time_to_tick(tick_rate as nat, last_tick as nat, now as nat),
{
    let passed: u64 = elapsed_since(last_tick, now);
    if passed <= tick_rate {
        tick_rate - passed
    } else {
        0
    }
}

/// Whether the time since the last refresh has reached the tick rate.
pub fn is_tick_due(tick_rate: u64, last_tick: u64, now: u64) -> (due: bool)
    ensures
        due == tick_due(tick_rate as nat, last_tick as nat, now as nat),
{
    elapsed_since(last_tick, now) >= tick_rate
}

} // verus!
