use container_monitor::app::KeyInput;
use container_monitor::container::ContainerStats;
use container_monitor::double::Double;
use container_monitor::event_loop::{
    is_tick_due, poll_timeout, Action, Event, EventLoop, Exit, Failure, Phase, DEFAULT_TICK_RATE,
};

const SECOND: u64 = 1_000_000_000;

fn rows(count: usize) -> Vec<ContainerStats> {
    (0..count)
        .map(|i| ContainerStats {
            id: format!("id{}", i),
            name: format!("c{}", i),
            cpu_usage: Double::zero(),
            memory_usage: 0,
            memory_limit: 1,
            status: "running".to_string(),
            created: String::new(),
        })
        .collect()
}

#[test]
fn default_tick_rate_is_two_seconds() {
    assert_eq!(DEFAULT_TICK_RATE, 2_000 * 1_000_000);
}

#[test]
fn poll_timeout_is_the_time_left() {
    assert_eq!(poll_timeout(2 * SECOND, 0, 0), 2 * SECOND);
    assert_eq!(poll_timeout(2 * SECOND, 0, SECOND / 2), 3 * SECOND / 2);
    assert_eq!(poll_timeout(2 * SECOND, 5 * SECOND, 6 * SECOND), SECOND);
    assert_eq!(poll_timeout(2 * SECOND, 0, 2 * SECOND), 0);
    assert_eq!(poll_timeout(2 * SECOND, 0, 9 * SECOND), 0);
    assert_eq!(poll_timeout(2 * SECOND, 5 * SECOND, 4 * SECOND), 2 * SECOND);
    assert_eq!(poll_timeout(0, 0, 0), 0);
    assert_eq!(poll_timeout(u64::MAX, 0, u64::MAX), 0);
}

#[test]
fn tick_is_due_when_the_rate_has_passed() {
    assert!(!is_tick_due(2 * SECOND, 0, 0));
    assert!(!is_tick_due(2 * SECOND, 0, 2 * SECOND - 1));
    assert!(is_tick_due(2 * SECOND, 0, 2 * SECOND));
    assert!(is_tick_due(2 * SECOND, 0, 3 * SECOND));
    assert!(!is_tick_due(2 * SECOND, 5 * SECOND, 4 * SECOND));
    assert!(is_tick_due(0, 7, 7));
}

#[test]
fn loop_starts_by_drawing() {
    let machine = EventLoop::new(DEFAULT_TICK_RATE, 0);
    assert_eq!(machine.phase(), Phase::Rendering);
    assert_eq!(machine.awaited(0), Action::Draw);
    assert!(machine.app().containers().is_empty());
    assert!(!machine.app().should_quit());
}

#[test]
fn cycle_without_tick_draws_again() {
    let mut machine = EventLoop::new(2 * SECOND, 0);
    assert_eq!(machine.step(Event::Drawn, SECOND / 4), Action::Poll(2 * SECOND - SECOND / 4));
    assert_eq!(machine.phase(), Phase::Polling);
    assert_eq!(machine.step(Event::Input(None), SECOND), Action::Draw);
    assert_eq!(machine.phase(), Phase::Rendering);
}

#[test]
fn cycle_with_tick_collects_and_restarts_the_clock() {
    let mut machine = EventLoop::new(2 * SECOND, 0);
    assert_eq!(machine.step(Event::Drawn, SECOND), Action::Poll(SECOND));
    assert_eq!(machine.step(Event::Input(None), 2 * SECOND), Action::Collect);
    assert_eq!(machine.phase(), Phase::Collecting);
    assert_eq!(machine.step(Event::Collected(rows(3)), 5 * SECOND / 2), Action::Draw);
    assert_eq!(machine.phase(), Phase::Rendering);
    assert_eq!(machine.app().containers().len(), 3);
    // The tick clock now runs from the end of the collection.
    assert_eq!(machine.step(Event::Drawn, 3 * SECOND), Action::Poll(3 * SECOND / 2));
    assert_eq!(machine.step(Event::Input(None), 4 * SECOND), Action::Draw);
    assert_eq!(machine.step(Event::Drawn, 4 * SECOND), Action::Poll(SECOND / 2));
    assert_eq!(machine.step(Event::Input(None), 9 * SECOND / 2), Action::Collect);
}

#[test]
fn keys_move_the_selection() {
    let mut machine = EventLoop::new(2 * SECOND, 0);
    machine.step(Event::Drawn, 0);
    machine.step(Event::Input(None), 2 * SECOND);
    machine.step(Event::Collected(rows(3)), 2 * SECOND);
    machine.step(Event::Drawn, 2 * SECOND);
    assert_eq!(machine.step(Event::Input(Some(KeyInput::Down)), 2 * SECOND + 1), Action::Draw);
    assert_eq!(machine.app().selected_index(), 1);
    machine.step(Event::Drawn, 2 * SECOND + 2);
    assert_eq!(machine.step(Event::Input(Some(KeyInput::Up)), 2 * SECOND + 3), Action::Draw);
    assert_eq!(machine.app().selected_index(), 0);
    machine.step(Event::Drawn, 2 * SECOND + 4);
    assert_eq!(machine.step(Event::Input(Some(KeyInput::Enter)), 2 * SECOND + 5), Action::Draw);
    assert_eq!(machine.app().selected_index(), 0);
}

#[test]
fn quit_key_ends_the_loop() {
    let mut machine = EventLoop::new(2 * SECOND, 0);
    machine.step(Event::Drawn, 0);
    assert_eq!(machine.step(Event::Input(Some(KeyInput::Char('q'))), 1), Action::Leave(Exit::Clean));
    assert_eq!(machine.phase(), Phase::Quitting);
    assert!(machine.app().should_quit());
    assert_eq!(machine.step(Event::Drawn, 2), Action::Leave(Exit::Clean));
    assert_eq!(machine.step(Event::Collected(rows(2)), 3), Action::Leave(Exit::Clean));
    assert_eq!(machine.step(Event::Failure(Failure::Terminal), 4), Action::Leave(Exit::Clean));
    assert_eq!(machine.phase(), Phase::Quitting);
    assert!(machine.app().containers().is_empty());
}

#[test]
fn key_and_tick_in_the_same_cycle() {
    let mut machine = EventLoop::new(2 * SECOND, 0);
    machine.step(Event::Drawn, 0);
    machine.step(Event::Input(None), 2 * SECOND);
    machine.step(Event::Collected(rows(5)), 2 * SECOND);
    machine.step(Event::Drawn, 2 * SECOND);
    // The key is applied first, then the refresh runs on the moved selection.
    assert_eq!(machine.step(Event::Input(Some(KeyInput::Down)), 4 * SECOND), Action::Collect);
    assert_eq!(machine.app().selected_index(), 1);
    assert_eq!(machine.step(Event::Collected(rows(1)), 4 * SECOND), Action::Draw);
    assert_eq!(machine.app().selected_index(), 0);
    assert_eq!(machine.app().containers().len(), 1);
}

#[test]
fn quit_during_a_tick_cycle_still_refreshes_first() {
    let mut machine = EventLoop::new(2 * SECOND, 0);
    machine.step(Event::Drawn, 0);
    assert_eq!(machine.step(Event::Input(Some(KeyInput::Char('q'))), 2 * SECOND), Action::Collect);
    assert_eq!(machine.phase(), Phase::Collecting);
    assert_eq!(machine.step(Event::Collected(rows(2)), 2 * SECOND), Action::Leave(Exit::Clean));
    assert_eq!(machine.phase(), Phase::Quitting);
    assert_eq!(machine.app().containers().len(), 2);
}

#[test]
fn failure_ends_the_loop_with_an_error() {
    let mut machine = EventLoop::new(2 * SECOND, 0);
    machine.step(Event::Drawn, 0);
    machine.step(Event::Input(None), 2 * SECOND);
    let failed = Action::Leave(Exit::Failed(Failure::Collection));
    assert_eq!(machine.step(Event::Failure(Failure::Collection), 2 * SECOND), failed);
    assert_eq!(machine.phase(), Phase::Failed(Failure::Collection));
    assert_eq!(machine.step(Event::Drawn, 3 * SECOND), failed);
    assert_eq!(machine.step(Event::Failure(Failure::Terminal), 3 * SECOND), failed);
    assert_eq!(machine.awaited(3 * SECOND), failed);
}

#[test]
fn terminal_failure_ends_the_loop_in_any_phase() {
    let failed = Action::Leave(Exit::Failed(Failure::Terminal));
    let mut machine = EventLoop::new(2 * SECOND, 0);
    assert_eq!(machine.step(Event::Failure(Failure::Terminal), 0), failed);
    assert_eq!(machine.phase(), Phase::Failed(Failure::Terminal));
    let mut machine = EventLoop::new(2 * SECOND, 0);
    machine.step(Event::Drawn, 0);
    assert_eq!(machine.step(Event::Failure(Failure::Terminal), 1), failed);
    assert_eq!(machine.phase(), Phase::Failed(Failure::Terminal));
}

#[test]
fn unexpected_events_change_nothing() {
    let mut machine = EventLoop::new(2 * SECOND, 0);
    assert_eq!(machine.step(Event::Input(Some(KeyInput::Char('q'))), 0), Action::Draw);
    assert_eq!(machine.phase(), Phase::Rendering);
    assert!(!machine.app().should_quit());
    assert_eq!(machine.step(Event::Collected(rows(2)), 0), Action::Draw);
    assert!(machine.app().containers().is_empty());
    machine.step(Event::Drawn, 0);
    assert_eq!(machine.step(Event::Drawn, SECOND), Action::Poll(SECOND));
    assert_eq!(machine.step(Event::Collected(rows(2)), SECOND), Action::Poll(SECOND));
    assert!(machine.app().containers().is_empty());
    assert_eq!(machine.phase(), Phase::Polling);
}
