use sysmon::dio::AppAction;
use sysmon::input::{map_key, Key, KeyPress};

fn key(code: Key) -> KeyPress {
    KeyPress { key: code, ctrl: false }
}

fn key_with_ctrl(code: Key) -> KeyPress {
    KeyPress { key: code, ctrl: true }
}

#[test]
fn test_q_maps_to_quit() {
    assert!(matches!(map_key(key(Key::Char('q'))), AppAction::Quit));
}

#[test]
fn test_esc_maps_to_quit() {
    assert!(matches!(map_key(key(Key::Esc)), AppAction::Quit));
}

#[test]
fn test_ctrl_c_maps_to_quit() {
    let ctrl_c = key_with_ctrl(Key::Char('c'));
    assert!(matches!(map_key(ctrl_c), AppAction::Quit));
}

#[test]
fn test_tab_maps_to_cycle_view() {
    assert!(matches!(map_key(key(Key::Tab)), AppAction::CycleView));
}

#[test]
fn test_p_maps_to_toggle_process_view() {
    assert!(matches!(map_key(key(Key::Char('p'))), AppAction::ToggleProcessView));
}

#[test]
fn test_d_maps_to_next_device() {
    assert!(matches!(map_key(key(Key::Char('d'))), AppAction::NextDevice));
}

#[test]
fn test_right_arrow_maps_to_next_device() {
    assert!(matches!(map_key(key(Key::Right)), AppAction::NextDevice));
}

#[test]
fn test_uppercase_d_maps_to_prev_device() {
    assert!(matches!(map_key(key(Key::Char('D'))), AppAction::PrevDevice));
}

#[test]
fn test_left_arrow_maps_to_prev_device() {
    assert!(matches!(map_key(key(Key::Left)), AppAction::PrevDevice));
}

#[test]
fn test_question_mark_maps_to_toggle_help() {
    assert!(matches!(map_key(key(Key::Char('?'))), AppAction::ToggleHelp));
}

#[test]
fn test_s_maps_to_cycle_sort_column() {
    assert!(matches!(map_key(key(Key::Char('s'))), AppAction::CycleSortColumn));
}

#[test]
fn test_r_maps_to_reverse_sort_direction() {
    assert!(matches!(map_key(key(Key::Char('r'))), AppAction::ReverseSortDirection));
}

#[test]
fn test_plus_maps_to_increase_refresh() {
    assert!(matches!(map_key(key(Key::Char('+'))), AppAction::IncreaseRefresh));
}

#[test]
fn test_equals_maps_to_increase_refresh() {
    assert!(matches!(map_key(key(Key::Char('='))), AppAction::IncreaseRefresh));
}

#[test]
fn test_minus_maps_to_decrease_refresh() {
    assert!(matches!(map_key(key(Key::Char('-'))), AppAction::DecreaseRefresh));
}

#[test]
fn test_f_maps_to_toggle_fast_mode() {
    assert!(matches!(map_key(key(Key::Char('f'))), AppAction::ToggleFastMode));
}

#[test]
fn test_unbound_key_maps_to_none() {
    assert!(matches!(map_key(key(Key::Char('z'))), AppAction::NoAction));
}

#[test]
fn plain_c_and_control_letters_follow_the_map() {
    assert_eq!(map_key(key(Key::Char('c'))), AppAction::NoAction);
    assert_eq!(map_key(key_with_ctrl(Key::Char('q'))), AppAction::Quit);
    assert_eq!(map_key(key(Key::BackTab)), AppAction::NoAction);
}
