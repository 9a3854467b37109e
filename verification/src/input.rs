//! Key presses as the monitors see them, and the disk monitor's key map.
use vstd::prelude::*;
use crate::dio::AppAction;

verus! {

/// The key of a key press.
#[derive(Debug, Clone, Copy, PartialEq, Eq, Structural)]
pub enum Key {
    Char(char),
    Esc,
    Tab,
    BackTab,
    Enter,
    Up,
    Down,
    Left,
    Right,
    Other,
}

/// A key press: the key and whether Control was held.
#[derive(Debug, Clone, Copy, PartialEq, Eq, Structural)]
pub struct KeyPress {
    pub key: Key,
    pub ctrl: bool,
}

/// The disk monitor's key map: Ctrl-C, `q` and Esc quit; Tab cycles the
/// views; `p` toggles the process table; `d`/Right and `D`/Left step
/// through the devices; `?` toggles help; `s` and `r` change the process
/// table's sort column and direction; `+`/`=` and `-` speed up and slow
/// down the refresh; `f` toggles fast mode; other keys do nothing.
pub open spec fn dio_action_for(k: KeyPress) -> AppAction {
    if k.key == Key::Char('c') && k.ctrl {
        AppAction::Quit
    } else {
        match k.key {
            Key::Char('q') | Key::Esc => AppAction::Quit,
            Key::Tab => AppAction::CycleView,
            Key::Char('p') => AppAction::ToggleProcessView,
            Key::Char('d') | Key::Right => AppAction::NextDevice,
            Key::Char('D') | Key::Left => AppAction::PrevDevice,
            Key::Char('?') => AppAction::ToggleHelp,
            Key::Char('s') => AppAction::CycleSortColumn,
            Key::Char('r') => AppAction::ReverseSortDirection,
            Key::Char('+') | Key::Char('=') => AppAction::IncreaseRefresh,
            Key::Char('-') => AppAction::DecreaseRefresh,
            Key::Char('f') => AppAction::ToggleFastMode,
            _ => AppAction::NoAction,
        }
    }
}

/// The disk monitor's action for a key press.
pub fn map_key(k: KeyPress) -> (a: AppAction)
    ensures
        a == dio_action_for(k),
{
    if k.key == Key::Char('c') && k.ctrl {
        return AppAction::Quit;
    }
    match k.key {
        Key::Char('q') | Key::Esc => AppAction::Quit,
        Key::Tab => AppAction::CycleView,
        Key::Char('p') => AppAction::ToggleProcessView,
        Key::Char('d') | Key::Right => AppAction::NextDevice,
        Key::Char('D') | Key::Left => AppAction::PrevDevice,
        Key::Char('?') => AppAction::ToggleHelp,
        Key::Char('s') => AppAction::CycleSortColumn,
        Key::Char('r') => AppAction::ReverseSortDirection,
        Key::Char('+') | Key::Char('=') => AppAction::IncreaseRefresh,
        Key::Char('-') => AppAction::DecreaseRefresh,
        Key::Char('f') => AppAction::ToggleFastMode,
        _ => AppAction::NoAction,
    }
}

} // verus!
