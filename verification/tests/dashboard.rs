use sysmon::dashboard::{
    chosen_panels, initial_focus, panel_command, panel_name, refresh_due, wait_nanos, Dashboard,
    DashboardAction, PanelCommand, PanelFlags, PanelKind,
};
use sysmon::dio::AppAction;
use sysmon::input::{Key, KeyPress};
use sysmon::layout::row_sizes;

fn key(k: Key) -> KeyPress {
    KeyPress { key: k, ctrl: false }
}

fn ctrl(k: Key) -> KeyPress {
    KeyPress { key: k, ctrl: true }
}

#[test]
fn no_flags_shows_cpu_ram_and_network() {
    let kinds = chosen_panels(PanelFlags::default());
    assert_eq!(kinds, vec![PanelKind::Cpu, PanelKind::Ram, PanelKind::Net]);
}

#[test]
fn flags_choose_panels_in_screen_order() {
    let flags = PanelFlags { poly: true, gpu: true, audio: true, ..PanelFlags::default() };
    assert_eq!(chosen_panels(flags), vec![PanelKind::Gpu, PanelKind::Poly, PanelKind::Audio]);
    let all = PanelFlags {
        cpu: true,
        gpu: true,
        ram: true,
        dio: true,
        net: true,
        poly: true,
        astro: true,
        audio: true,
    };
    assert_eq!(chosen_panels(all).len(), 8);
}

#[test]
fn focus_starts_on_the_market_panel() {
    assert_eq!(initial_focus(&vec![PanelKind::Cpu, PanelKind::Net, PanelKind::Poly]), 2);
    assert_eq!(initial_focus(&vec![PanelKind::Cpu, PanelKind::Ram]), 0);
    let d = Dashboard::new(&vec![PanelKind::Gpu, PanelKind::Poly, PanelKind::Poly]);
    assert_eq!(d.focused, 1);
    assert_eq!(d.count, 3);
}

#[test]
fn global_keys_quit_and_switch_fast_mode() {
    let mut d = Dashboard { focused: 0, count: 3 };
    assert_eq!(d.handle_key(key(Key::Char('q'))), DashboardAction::Quit);
    assert_eq!(d.handle_key(key(Key::Esc)), DashboardAction::Quit);
    assert_eq!(d.handle_key(ctrl(Key::Char('c'))), DashboardAction::Quit);
    assert_eq!(d.handle_key(key(Key::Char('f'))), DashboardAction::ToggleFastMode);
    assert_eq!(d.handle_key(key(Key::Char('c'))), DashboardAction::Forward(0));
}

#[test]
fn tab_and_back_tab_move_the_keyboard_around() {
    let mut d = Dashboard { focused: 0, count: 3 };
    assert_eq!(d.handle_key(key(Key::Tab)), DashboardAction::Refocused);
    assert_eq!(d.focused, 1);
    d.handle_key(key(Key::Tab));
    d.handle_key(key(Key::Tab));
    assert_eq!(d.focused, 0);
    d.handle_key(key(Key::BackTab));
    assert_eq!(d.focused, 2);
}

#[test]
fn control_arrows_swap_with_the_neighbour() {
    // Four panels: a 2x2 grid.
    let mut d = Dashboard { focused: 0, count: 4 };
    assert_eq!(d.handle_key(ctrl(Key::Right)), DashboardAction::Swap(0, 1));
    assert_eq!(d.focused, 1);
    assert_eq!(d.handle_key(ctrl(Key::Down)), DashboardAction::Swap(1, 3));
    assert_eq!(d.focused, 3);
    assert_eq!(d.handle_key(ctrl(Key::Down)), DashboardAction::Ignore);
    assert_eq!(d.focused, 3);
    // A plain arrow goes to the panel.
    assert_eq!(d.handle_key(key(Key::Up)), DashboardAction::Forward(3));
}

#[test]
fn panels_take_their_own_keys() {
    assert_eq!(panel_command(PanelKind::Dio, key(Key::Char('s'))), PanelCommand::Dio(AppAction::CycleSortColumn));
    assert_eq!(panel_command(PanelKind::Net, key(Key::Char('v'))), PanelCommand::NetToggleView);
    assert_eq!(panel_command(PanelKind::Net, key(Key::Left)), PanelCommand::NetPrevInterface);
    assert_eq!(panel_command(PanelKind::Poly, key(Key::Down)), PanelCommand::PolySelectNext);
    assert_eq!(panel_command(PanelKind::Poly, key(Key::Char('T'))), PanelCommand::PolyPrevTopic);
    assert_eq!(panel_command(PanelKind::Poly, key(Key::Char('s'))), PanelCommand::PolyCycleSort);
    assert_eq!(panel_command(PanelKind::Cpu, key(Key::Char('s'))), PanelCommand::Ignore);
}

#[test]
fn panel_names_label_the_borders() {
    assert_eq!(panel_name(PanelKind::Dio), "DIO");
    assert_eq!(panel_name(PanelKind::Poly), "POLY");
}

#[test]
fn the_wait_ends_when_the_first_panel_is_due() {
    let ms = 1_000_000u128;
    assert_eq!(wait_nanos(&vec![500 * ms, 25 * ms], &vec![100 * ms, 10 * ms]), 15 * ms);
    assert_eq!(wait_nanos(&vec![500 * ms], &vec![600 * ms]), 0);
    assert_eq!(wait_nanos(&vec![500 * ms], &vec![0]), 80 * ms);
    assert_eq!(wait_nanos(&Vec::new(), &Vec::new()), 0);
    assert!(refresh_due(500, 500));
    assert!(!refresh_due(500, 499));
}

#[test]
fn rows_hold_every_panel() {
    assert_eq!(row_sizes(0), Vec::<usize>::new());
    assert_eq!(row_sizes(3), vec![1, 1, 1]);
    assert_eq!(row_sizes(4), vec![2, 2]);
    assert_eq!(row_sizes(5), vec![2, 2, 1]);
}
