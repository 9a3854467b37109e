use sysmon::capacity::{FAST_REFRESH_MS, FAST_SCROLLBACK_SECS};
use sysmon::cpu_app::App;

const WIDTH: usize = 200;

fn test_app() -> App<f64> {
    App::with_capacity(100, 4)
}

#[test]
fn app_test_with_capacity_initial_state() {
    let app = test_app();
    assert!(!app.fast_mode);
    assert!(!app.should_quit);
    assert!(app.total_history.is_empty());
    assert_eq!(app.core_histories.len(), 4);
    assert!(app.core_histories.iter().all(|h| h.is_empty()));
    assert!(app.prev_snapshot.is_none());
}

#[test]
fn test_chart_capacity_matches_constructor() {
    let app = test_app();
    assert_eq!(app.chart_capacity(), 100);
}

#[test]
fn test_toggle_fast_mode_activates() {
    let mut app = test_app();
    app.toggle_fast_mode(WIDTH);
    assert!(app.fast_mode);
    assert_eq!(app.refresh_ms, FAST_REFRESH_MS);
    assert_eq!(app.scrollback_secs, FAST_SCROLLBACK_SECS);
}

#[test]
fn test_toggle_fast_mode_clears_histories() {
    let mut app = test_app();
    app.total_history.push(42.0);
    app.core_histories[0].push(42.0);

    app.toggle_fast_mode(WIDTH);

    assert!(app.total_history.is_empty());
    assert!(app.core_histories[0].is_empty());
    assert_ne!(app.total_history.capacity(), 100);
    assert!(app.prev_snapshot.is_none());
}

#[test]
fn test_toggle_fast_mode_twice_restores() {
    let mut app = test_app();
    app.toggle_fast_mode(WIDTH);
    app.toggle_fast_mode(WIDTH);
    assert!(!app.fast_mode);
    assert_eq!(app.refresh_ms, 500);
    assert_eq!(app.scrollback_secs, 60);
}

#[test]
fn cpu_new_sizes_every_history_alike() {
    let app: App<f64> = App::new(500, 60, 8, 80);
    assert_eq!(app.chart_capacity(), 120);
    assert_eq!(app.core_histories.len(), 8);
    assert!(app.core_histories.iter().all(|h| h.capacity() == 120));
    let mut app = app;
    app.toggle_fast_mode(80);
    assert_eq!(app.chart_capacity(), 120);
    app.toggle_fast_mode(300);
    assert_eq!(app.chart_capacity(), 300);
    assert!(app.core_histories.iter().all(|h| h.capacity() == 300));
}
