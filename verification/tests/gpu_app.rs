use sysmon::capacity::{FAST_REFRESH_MS, FAST_SCROLLBACK_SECS};
use sysmon::gpu_app::App;

const WIDTH: usize = 200;

fn test_app() -> App<f64> {
    App::with_capacity(100)
}

#[test]
fn gpu_with_capacity_initial_state() {
    let app = test_app();
    assert!(!app.fast_mode);
    assert!(!app.should_quit);
    assert!(app.gpu_util_history.is_empty());
    assert!(app.mem_util_history.is_empty());
    assert!(app.vram_pct_history.is_empty());
    assert!(app.temp_history.is_empty());
    assert!(app.power_history.is_empty());
}

#[test]
fn app_test_chart_capacity_matches_constructor() {
    let app = test_app();
    assert_eq!(app.chart_capacity(), 100);
}

#[test]
fn app_test_toggle_fast_mode_activates() {
    let mut app = test_app();
    app.toggle_fast_mode(WIDTH);
    assert!(app.fast_mode);
    assert_eq!(app.refresh_ms, FAST_REFRESH_MS);
    assert_eq!(app.scrollback_secs, FAST_SCROLLBACK_SECS);
}

#[test]
fn app_test_toggle_fast_mode_clears_histories() {
    let mut app = test_app();
    app.gpu_util_history.push(42.0);
    app.power_history.push(42.0);
    app.toggle_fast_mode(WIDTH);
    assert!(app.gpu_util_history.is_empty());
    assert!(app.power_history.is_empty());
    assert_ne!(app.gpu_util_history.capacity(), 100);
}

#[test]
fn app_test_toggle_fast_mode_twice_restores() {
    let mut app = test_app();
    app.toggle_fast_mode(WIDTH);
    app.toggle_fast_mode(WIDTH);
    assert!(!app.fast_mode);
    assert_eq!(app.refresh_ms, 500);
    assert_eq!(app.scrollback_secs, 60);
}

#[test]
fn gpu_new_uses_terminal_width_when_wider() {
    let app: App<f64> = App::new(1000, 60, 200);
    assert_eq!(app.chart_capacity(), 200);
    assert_eq!(app.temp_history.capacity(), 200);
}
