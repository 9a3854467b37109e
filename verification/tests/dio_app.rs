use sysmon::dio::{AppAction, SortColumn, ViewMode};
use sysmon::capacity::FAST_REFRESH_MS;
use sysmon::dio_app::App;
use sysmon::process_table::ProcessIoEntry;

// Device histories are the caller's; a name stands for each one here.
fn device(name: &str) -> String {
    name.to_string()
}

const WIDTH: usize = 200;

#[test]
fn test_with_capacity_initial_state() {
    let app: App<String> = App::with_capacity(100);

    assert_eq!(app.view_mode, ViewMode::AllDevices);
    assert_eq!(app.selected_device, 0);
    assert!(!app.should_quit);
    assert!(!app.fast_mode);
    assert!(!app.show_help);
}

#[test]
fn test_handle_action_quit() {
    let mut app: App<String> = App::with_capacity(100);
    app.handle_action(AppAction::Quit, WIDTH);

    assert!(app.should_quit);
}

#[test]
fn test_handle_action_cycle_view_full_cycle() {
    let mut app: App<String> = App::with_capacity(100);

    assert_eq!(app.view_mode, ViewMode::AllDevices);

    app.handle_action(AppAction::CycleView, WIDTH);
    assert_eq!(app.view_mode, ViewMode::SingleDevice);

    app.handle_action(AppAction::CycleView, WIDTH);
    assert_eq!(app.view_mode, ViewMode::ProcessTable);

    app.handle_action(AppAction::CycleView, WIDTH);
    assert_eq!(app.view_mode, ViewMode::AllDevices);
}

#[test]
fn test_handle_action_toggle_process_view_on() {
    let mut app: App<String> = App::with_capacity(100);
    app.handle_action(AppAction::ToggleProcessView, WIDTH);

    assert_eq!(app.view_mode, ViewMode::ProcessTable);
}

#[test]
fn test_handle_action_toggle_process_view_off() {
    let mut app: App<String> = App::with_capacity(100);
    app.view_mode = ViewMode::ProcessTable;

    app.handle_action(AppAction::ToggleProcessView, WIDTH);

    assert_eq!(app.view_mode, ViewMode::AllDevices);
}

#[test]
fn test_handle_action_next_device() {
    let mut app: App<String> = App::with_capacity(100);
    app.devices.push(device("sda"));
    app.devices.push(device("sdb"));
    app.devices.push(device("sdc"));

    assert_eq!(app.selected_device, 0);

    app.handle_action(AppAction::NextDevice, WIDTH);
    assert_eq!(app.selected_device, 1);

    app.handle_action(AppAction::NextDevice, WIDTH);
    assert_eq!(app.selected_device, 2);

    app.handle_action(AppAction::NextDevice, WIDTH);
    assert_eq!(app.selected_device, 0);
}

#[test]
fn test_handle_action_prev_device() {
    let mut app: App<String> = App::with_capacity(100);
    app.devices.push(device("sda"));
    app.devices.push(device("sdb"));
    app.devices.push(device("sdc"));

    assert_eq!(app.selected_device, 0);

    app.handle_action(AppAction::PrevDevice, WIDTH);
    assert_eq!(app.selected_device, 2);

    app.handle_action(AppAction::PrevDevice, WIDTH);
    assert_eq!(app.selected_device, 1);

    app.handle_action(AppAction::PrevDevice, WIDTH);
    assert_eq!(app.selected_device, 0);
}

#[test]
fn test_handle_action_next_device_empty() {
    let mut app: App<String> = App::with_capacity(100);

    app.handle_action(AppAction::NextDevice, WIDTH);

    assert_eq!(app.selected_device, 0);
}

#[test]
fn test_handle_action_toggle_help() {
    let mut app: App<String> = App::with_capacity(100);

    assert!(!app.show_help);

    app.handle_action(AppAction::ToggleHelp, WIDTH);
    assert!(app.show_help);

    app.handle_action(AppAction::ToggleHelp, WIDTH);
    assert!(!app.show_help);
}

#[test]
fn test_handle_action_increase_refresh() {
    let mut app: App<String> = App::with_capacity(100);
    app.handle_action(AppAction::IncreaseRefresh, WIDTH);

    assert_eq!(app.refresh_ms, 250);
}

#[test]
fn test_handle_action_increase_refresh_min() {
    let mut app: App<String> = App::with_capacity(100);
    app.refresh_ms = 100;

    app.handle_action(AppAction::IncreaseRefresh, WIDTH);

    assert_eq!(app.refresh_ms, 100);
}

#[test]
fn test_handle_action_decrease_refresh() {
    let mut app: App<String> = App::with_capacity(100);
    app.handle_action(AppAction::DecreaseRefresh, WIDTH);

    assert_eq!(app.refresh_ms, 1000);
}

#[test]
fn test_handle_action_decrease_refresh_max() {
    let mut app: App<String> = App::with_capacity(100);
    app.refresh_ms = 5000;

    app.handle_action(AppAction::DecreaseRefresh, WIDTH);

    assert_eq!(app.refresh_ms, 5000);
}

#[test]
fn test_handle_action_toggle_fast_mode() {
    let mut app: App<String> = App::with_capacity(100);
    app.devices.push(device("sda"));

    app.handle_action(AppAction::ToggleFastMode, WIDTH);

    assert!(app.fast_mode);
    assert_eq!(app.refresh_ms, FAST_REFRESH_MS);
    assert!(app.devices.is_empty());
}

#[test]
fn test_handle_action_none() {
    let mut app: App<String> = App::with_capacity(100);
    let view_mode_before = app.view_mode;
    let selected_before = app.selected_device;
    let should_quit_before = app.should_quit;
    let fast_mode_before = app.fast_mode;
    let show_help_before = app.show_help;

    app.handle_action(AppAction::NoAction, WIDTH);

    assert_eq!(app.view_mode, view_mode_before);
    assert_eq!(app.selected_device, selected_before);
    assert_eq!(app.should_quit, should_quit_before);
    assert_eq!(app.fast_mode, fast_mode_before);
    assert_eq!(app.show_help, show_help_before);
}

#[test]
fn new_sizes_history_by_scrollback_or_terminal_width() {
    let app: App<String> = App::new(500, 60, true, 80);
    assert_eq!(app.ring_capacity, 120);
    assert!(app.show_all);
    assert_eq!(app.refresh_ms, 500);
    let narrow: App<String> = App::new(1000, 10, false, 200);
    assert_eq!(narrow.ring_capacity, 200);
}

#[test]
fn fast_mode_resizes_history_and_twice_restores() {
    let mut app: App<String> = App::new(500, 60, false, 80);
    app.handle_action(AppAction::ToggleFastMode, 80);
    assert_eq!(app.ring_capacity, 120);
    assert_eq!(app.refresh_ms, 25);
    app.handle_action(AppAction::ToggleFastMode, 300);
    assert!(!app.fast_mode);
    assert_eq!(app.refresh_ms, 500);
    assert_eq!(app.ring_capacity, 300);
}

fn entry(pid: i32, read: u64, write: u64) -> ProcessIoEntry {
    ProcessIoEntry { pid, comm: format!("p{pid}"), read_bytes: read, write_bytes: write, elapsed_nanos: 1_000_000_000 }
}

#[test]
fn sort_keys_reorder_the_process_table() {
    let mut app: App<String> = App::with_capacity(10);
    app.process_table.update(vec![entry(1, 10, 500), entry(2, 300, 0), entry(3, 100, 100)], false);
    let pids: Vec<i32> = app.process_table.entries.iter().map(|e| e.pid).collect();
    assert_eq!(pids, vec![1, 2, 3]);
    app.handle_action(AppAction::CycleSortColumn, WIDTH);
    assert_eq!(app.process_table.sort_column, SortColumn::ReadBytes);
    let pids: Vec<i32> = app.process_table.entries.iter().map(|e| e.pid).collect();
    assert_eq!(pids, vec![2, 3, 1]);
    app.handle_action(AppAction::ReverseSortDirection, WIDTH);
    assert!(!app.process_table.sort_descending);
    let pids: Vec<i32> = app.process_table.entries.iter().map(|e| e.pid).collect();
    assert_eq!(pids, vec![1, 3, 2]);
}

#[test]
fn refresh_keys_halve_and_double_within_bounds() {
    let mut app: App<String> = App::with_capacity(10);
    app.refresh_ms = 4000;
    app.handle_action(AppAction::DecreaseRefresh, WIDTH);
    assert_eq!(app.refresh_ms, 5000);
    app.refresh_ms = 150;
    app.handle_action(AppAction::IncreaseRefresh, WIDTH);
    assert_eq!(app.refresh_ms, 100);
}

#[test]
fn clamp_selection_moves_past_the_end_to_the_last_device() {
    let mut app: App<String> = App::with_capacity(10);
    app.selected_device = 5;
    app.clamp_selection();
    assert_eq!(app.selected_device, 5);
    app.devices.push(device("sda"));
    app.devices.push(device("sdb"));
    app.clamp_selection();
    assert_eq!(app.selected_device, 1);
    app.clamp_selection();
    assert_eq!(app.selected_device, 1);
}
