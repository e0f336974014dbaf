use container_monitor::app::{App, KeyInput};
use container_monitor::collector::Collector;
use container_monitor::container::{ContainerStats, ContainerSummary};
use container_monitor::double::Double;
use container_monitor::metrics::StatsSnapshot;

fn row(name: &str, status: &str) -> ContainerStats {
    ContainerStats {
        id: format!("id-{}", name),
        name: name.to_string(),
        cpu_usage: Double::percent_of(1, 8),
        memory_usage: 512,
        memory_limit: 1024,
        status: status.to_string(),
        created: "1700000000".to_string(),
    }
}

fn rows(count: usize) -> Vec<ContainerStats> {
    (0..count).map(|i| row(&format!("c{}", i), "running")).collect()
}

#[test]
fn new_app_is_empty() {
    let app = App::new();
    assert!(app.containers().is_empty());
    assert_eq!(app.selected_index(), 0);
    assert!(!app.should_quit());
    assert!(app.selected().is_none());
}

#[test]
fn refresh_replaces_the_list() {
    let mut app = App::new();
    app.refresh(rows(3));
    assert_eq!(app.containers().len(), 3);
    assert_eq!(app.containers()[1].name, "c1");
    app.refresh(vec![row("only", "exited")]);
    assert_eq!(app.containers().len(), 1);
    assert_eq!(app.containers()[0].name, "only");
    assert_eq!(app.containers()[0].status, "exited");
}

#[test]
fn refresh_clamps_selection_to_shorter_list() {
    let mut app = App::new();
    app.refresh(rows(5));
    for _ in 0..4 {
        app.move_selection_down();
    }
    assert_eq!(app.selected_index(), 4);
    app.refresh(rows(2));
    assert_eq!(app.selected_index(), 1);
}

#[test]
fn refresh_to_empty_list_resets_selection() {
    let mut app = App::new();
    app.refresh(rows(5));
    for _ in 0..4 {
        app.move_selection_down();
    }
    app.refresh(Vec::new());
    assert_eq!(app.selected_index(), 0);
    assert!(app.selected().is_none());
}

#[test]
fn refresh_keeps_selection_that_is_in_bounds() {
    let mut app = App::new();
    app.refresh(rows(5));
    app.move_selection_down();
    app.move_selection_down();
    app.refresh(rows(3));
    assert_eq!(app.selected_index(), 2);
    app.refresh(rows(9));
    assert_eq!(app.selected_index(), 2);
}

#[test]
fn move_up_at_top_is_a_no_op() {
    let mut app = App::new();
    app.refresh(rows(3));
    for _ in 0..5 {
        app.move_selection_up();
        assert_eq!(app.selected_index(), 0);
    }
}

#[test]
fn move_down_at_bottom_is_a_no_op() {
    let mut app = App::new();
    app.refresh(rows(3));
    app.move_selection_down();
    app.move_selection_down();
    assert_eq!(app.selected_index(), 2);
    for _ in 0..5 {
        app.move_selection_down();
        assert_eq!(app.selected_index(), 2);
    }
}

#[test]
fn moves_on_empty_list_stay_at_zero() {
    let mut app = App::new();
    app.move_selection_down();
    assert_eq!(app.selected_index(), 0);
    app.move_selection_up();
    assert_eq!(app.selected_index(), 0);
}

#[test]
fn move_up_and_down_step_by_one() {
    let mut app = App::new();
    app.refresh(rows(4));
    app.move_selection_down();
    assert_eq!(app.selected_index(), 1);
    app.move_selection_down();
    assert_eq!(app.selected_index(), 2);
    app.move_selection_up();
    assert_eq!(app.selected_index(), 1);
    assert_eq!(app.selected().unwrap().name, "c1");
}

#[test]
fn request_quit_is_never_reset() {
    let mut app = App::new();
    assert!(!app.should_quit());
    app.request_quit();
    assert!(app.should_quit());
    app.refresh(rows(3));
    assert!(app.should_quit());
    app.move_selection_down();
    assert!(app.should_quit());
    app.move_selection_up();
    assert!(app.should_quit());
    app.handle_key(KeyInput::Char('x'));
    assert!(app.should_quit());
    app.request_quit();
    assert!(app.should_quit());
    app.refresh(Vec::new());
    assert!(app.should_quit());
}

#[test]
fn three_containers_scenario() {
    let mut app = App::new();
    app.refresh(vec![row("A", "running"), row("B", "exited"), row("C", "running")]);
    assert_eq!(app.selected_index(), 0);
    app.move_selection_down();
    app.move_selection_down();
    app.move_selection_down();
    assert_eq!(app.selected_index(), 2);
    assert_eq!(app.selected().unwrap().name, "C");
    app.refresh(vec![row("A", "running")]);
    assert_eq!(app.selected_index(), 0);
    assert_eq!(app.selected().unwrap().name, "A");
}

#[test]
fn keys_are_bound_to_operations() {
    let mut app = App::new();
    app.refresh(rows(3));
    app.handle_key(KeyInput::Down);
    assert_eq!(app.selected_index(), 1);
    app.handle_key(KeyInput::Up);
    assert_eq!(app.selected_index(), 0);
    app.handle_key(KeyInput::Enter);
    app.handle_key(KeyInput::Other);
    app.handle_key(KeyInput::Char('Q'));
    app.handle_key(KeyInput::Char('j'));
    assert_eq!(app.selected_index(), 0);
    assert!(!app.should_quit());
    app.handle_key(KeyInput::Char('q'));
    assert!(app.should_quit());
    assert_eq!(app.selected_index(), 0);
}

fn summary(id: Option<&str>, name: &str) -> ContainerSummary {
    ContainerSummary {
        id: id.map(|s| s.to_string()),
        names: Some(vec![format!("/{}", name)]),
        status: Some("running".to_string()),
        created: Some(1),
    }
}

fn snapshot() -> StatsSnapshot {
    StatsSnapshot {
        cpu_total_usage: 150,
        precpu_total_usage: 100,
        system_cpu_usage: Some(1500),
        precpu_system_cpu_usage: Some(1000),
        memory_usage: Some(10),
        memory_limit: Some(20),
    }
}

#[test]
fn update_stats_takes_a_complete_round() {
    let mut app = App::new();
    app.refresh(rows(4));
    for _ in 0..3 {
        app.move_selection_down();
    }
    let mut round = Collector::new(vec![summary(Some("1"), "a"), summary(Some("2"), "b")]);
    assert_eq!(round.next_request(), Some("1".to_string()));
    assert!(round.supply(snapshot()));
    assert_eq!(round.next_request(), Some("2".to_string()));
    assert!(round.supply(snapshot()));
    assert!(app.update_stats(round));
    assert_eq!(app.containers().len(), 2);
    assert_eq!(app.containers()[0].name, "a");
    assert_eq!(app.containers()[1].name, "b");
    assert_eq!(app.selected_index(), 1);
}

#[test]
fn update_stats_refuses_an_incomplete_round() {
    let mut app = App::new();
    app.refresh(rows(4));
    app.move_selection_down();
    let mut round = Collector::new(vec![summary(Some("1"), "a"), summary(Some("2"), "b")]);
    assert_eq!(round.next_request(), Some("1".to_string()));
    assert!(round.supply(snapshot()));
    assert!(!app.update_stats(round));
    assert_eq!(app.containers().len(), 4);
    assert_eq!(app.containers()[0].name, "c0");
    assert_eq!(app.selected_index(), 1);
}
