//! The disk I/O monitor's interactive state: which view is shown, which
//! device is selected, how fast the screen refreshes and how the process
//! table is ordered, and how each key action changes them.
use vstd::prelude::*;
use crate::capacity::{
    capacity_inputs_ok, capacity_spec, compute_capacity, FAST_REFRESH_MS, FAST_SCROLLBACK_SECS,
};
use crate::dio::{sort_column_next, AppAction, SortColumn, ViewMode};
use crate::process_table::{sorted_entries, ProcessIoTable};
use crate::selection::{next_index, prev_index, step_selection};

verus! {

/// Shortest refresh interval the refresh keys reach, in milliseconds.
pub const MIN_REFRESH_MS: u64 = 100;

/// Longest refresh interval the refresh keys reach, in milliseconds.
pub const MAX_REFRESH_MS: u64 = 5000;

/// The application state. `devices` holds one history per block device;
/// its contents are the caller's, only their number and order matter here.
pub struct App<D> {
    pub devices: Vec<D>,
    pub selected_device: usize,
    pub view_mode: ViewMode,
    pub should_quit: bool,
    pub show_help: bool,
    pub refresh_ms: u64,
    pub show_all: bool,
    pub ring_capacity: usize,
    pub process_table: ProcessIoTable,
    pub fast_mode: bool,
    pub normal_refresh_ms: u64,
    pub normal_scrollback_secs: u64,
}

pub open spec fn view_after(v: ViewMode, action: AppAction) -> ViewMode {
    match action {
        AppAction::CycleView => match v {
            ViewMode::AllDevices => ViewMode::SingleDevice,
            ViewMode::SingleDevice => ViewMode::ProcessTable,
            ViewMode::ProcessTable => ViewMode::AllDevices,
        },
        AppAction::ToggleProcessView => if v == ViewMode::ProcessTable {
            ViewMode::AllDevices
        } else {
            ViewMode::ProcessTable
        },
        _ => v,
    }
}

/// The selected device after an action, with `n` devices: the device keys
/// step through the devices cyclically and do nothing when there are none.
pub open spec fn selected_after(sel: usize, n: nat, action: AppAction) -> int {
    match action {
        AppAction::NextDevice => step_selection(sel, n, true),
        AppAction::PrevDevice => step_selection(sel, n, false),
        _ => sel as int,
    }
}

/// The refresh interval after an action: the refresh keys halve it down to
/// 100 ms and double it up to 5000 ms; fast mode switches between 25 ms and
/// the interval the application was started with.
pub open spec fn refresh_after(ms: u64, fast_mode: bool, normal_ms: u64, action: AppAction) -> int {
    match action {
        AppAction::IncreaseRefresh => if ms / 2 >= MIN_REFRESH_MS {
            (ms / 2) as int
        } else {
            MIN_REFRESH_MS as int
        },
        AppAction::DecreaseRefresh => if ms * 2 <= MAX_REFRESH_MS {
            ms * 2
        } else {
            MAX_REFRESH_MS as int
        },
        AppAction::ToggleFastMode => if !fast_mode {
            FAST_REFRESH_MS as int
        } else {
            normal_ms as int
        },
        _ => ms as int,
    }
}

/// What an action asks of the arithmetic: the device keys and the slower
/// refresh key must not overflow.
pub open spec fn action_fits(sel: usize, refresh_ms: u64, action: AppAction) -> bool {
    &&& action == AppAction::NextDevice ==> sel < usize::MAX
    &&& action == AppAction::DecreaseRefresh ==> refresh_ms * 2 <= u64::MAX
}

/// Three view-cycle presses return to the view they started from, and a
/// press always changes the view.
pub proof fn cycle_view_returns_after_three(v: ViewMode)
    ensures
        view_after(view_after(view_after(v, AppAction::CycleView), AppAction::CycleView), AppAction::CycleView) == v,
        view_after(v, AppAction::CycleView) != v,
{
}

/// The process-view key twice returns to the device list or the process
/// table it started from, unless it started on the single-device view,
/// which it leaves for the device list.
pub proof fn toggle_process_view_twice(v: ViewMode)
    ensures
        view_after(view_after(v, AppAction::ToggleProcessView), AppAction::ToggleProcessView) == (
        if v == ViewMode::SingleDevice {
            ViewMode::AllDevices
        } else {
            v
        }),
{
}

/// A refresh interval between 100 ms and 5000 ms stays there under the
/// refresh keys.
pub proof fn refresh_keys_stay_in_bounds(ms: u64, fast_mode: bool, normal_ms: u64)
    requires
        MIN_REFRESH_MS <= ms <= MAX_REFRESH_MS,
    ensures
        MIN_REFRESH_MS <= refresh_after(ms, fast_mode, normal_ms, AppAction::IncreaseRefresh) <= ms,
        ms <= refresh_after(ms, fast_mode, normal_ms, AppAction::DecreaseRefresh) <= MAX_REFRESH_MS,
{
}

/// Fast mode toggled on and off again comes back to the refresh interval
/// the application was started with, whatever interval it had before.
pub proof fn fast_mode_twice_restores_normal_refresh(ms: u64, normal_ms: u64)
    ensures
        refresh_after(
            refresh_after(ms, false, normal_ms, AppAction::ToggleFastMode) as u64,
            true,
            normal_ms,
            AppAction::ToggleFastMode,
        ) == normal_ms,
{
}

impl<D> App<D> {
    /// The refresh interval and scrollback window the application was
    /// started with, to which fast mode returns, give a history capacity.
    pub open spec fn wf(&self) -> bool {
        capacity_inputs_ok(self.normal_refresh_ms, self.normal_scrollback_secs)
    }

    /// A fresh state with no devices, showing all devices, at the given
    /// refresh interval; the history capacity covers the scrollback window
    /// and at least the terminal's width.
    pub fn new(refresh_ms: u64, scrollback_secs: u64, show_all: bool, term_width: usize) -> (app: Self)
        requires
            capacity_inputs_ok(refresh_ms, scrollback_secs),
        ensures
            app.wf(),
            app.devices@ == Seq::<D>::empty(),
            app.selected_device == 0,
            app.view_mode == ViewMode::AllDevices,
            !app.should_quit,
            !app.show_help,
            app.refresh_ms == refresh_ms,
            app.show_all == show_all,
            app.ring_capacity == capacity_spec(refresh_ms, scrollback_secs, term_width),
            app.process_table.entries@.len() == 0,
            app.process_table.sort_column == SortColumn::TotalBytes,
            app.process_table.sort_descending,
            !app.process_table.permission_degraded,
            !app.fast_mode,
            app.normal_refresh_ms == refresh_ms,
            app.normal_scrollback_secs == scrollback_secs,
    {
        let ring_capacity = compute_capacity(refresh_ms, scrollback_secs, term_width);
        App {
            devices: Vec::new(),
            selected_device: 0,
            view_mode: ViewMode::AllDevices,
            should_quit: false,
            show_help: false,
            refresh_ms,
            show_all,
            ring_capacity,
            process_table: ProcessIoTable::new(),
            fast_mode: false,
            normal_refresh_ms: refresh_ms,
            normal_scrollback_secs: scrollback_secs,
        }
    }

    /// A fresh state with a given history capacity, refreshing every 500 ms
    /// with a 60 s scrollback, hiding idle devices.
    pub fn with_capacity(capacity: usize) -> (app: Self)
        ensures
            app.wf(),
            app.devices@ == Seq::<D>::empty(),
            app.selected_device == 0,
            app.view_mode == ViewMode::AllDevices,
            !app.should_quit,
            !app.show_help,
            app.refresh_ms == 500,
            !app.show_all,
            app.ring_capacity == capacity,
            app.process_table.entries@.len() == 0,
            app.process_table.sort_column == SortColumn::TotalBytes,
            app.process_table.sort_descending,
            !app.process_table.permission_degraded,
            !app.fast_mode,
            app.normal_refresh_ms == 500,
            app.normal_scrollback_secs == 60,
    {
        App {
            devices: Vec::new(),
            selected_device: 0,
            view_mode: ViewMode::AllDevices,
            should_quit: false,
            show_help: false,
            refresh_ms: 500,
            show_all: false,
            ring_capacity: capacity,
            process_table: ProcessIoTable::new(),
            fast_mode: false,
            normal_refresh_ms: 500,
            normal_scrollback_secs: 60,
        }
    }

    /// Keeps the selection on a device after the device list was refreshed:
    /// a selection past the end moves to the last device.
    pub fn clamp_selection(&mut self)
        ensures
            final(self).selected_device == (if old(self).selected_device >= old(self).devices.len()
                && old(self).devices.len() > 0 {
                old(self).devices.len() - 1
            } else {
                old(self).selected_device as int
            }),
            final(self).devices@ == old(self).devices@,
            final(self).view_mode == old(self).view_mode,
            final(self).should_quit == old(self).should_quit,
            final(self).show_help == old(self).show_help,
            final(self).refresh_ms == old(self).refresh_ms,
            final(self).show_all == old(self).show_all,
            final(self).ring_capacity == old(self).ring_capacity,
            final(self).process_table == old(self).process_table,
            final(self).fast_mode == old(self).fast_mode,
            final(self).normal_refresh_ms == old(self).normal_refresh_ms,
            final(self).normal_scrollback_secs == old(self).normal_scrollback_secs,
            final(self).wf() == old(self).wf(),
    {
        if self.selected_device >= self.devices.len() && !self.devices.is_empty() {
            self.selected_device = self.devices.len() - 1;
        }
    }

    /// Applies one key action. Fast mode drops every device history, since
    /// their capacity changes.
    pub fn handle_action(&mut self, action: AppAction, term_width: usize)
        requires
            old(self).wf(),
            action_fits(old(self).selected_device, old(self).refresh_ms, action),
        ensures
            final(self).wf(),
            final(self).normal_refresh_ms == old(self).normal_refresh_ms,
            final(self).normal_scrollback_secs == old(self).normal_scrollback_secs,
            final(self).should_quit == (old(self).should_quit || action == AppAction::Quit),
            final(self).view_mode == view_after(old(self).view_mode, action),
            final(self).selected_device == selected_after(
                old(self).selected_device,
                old(self).devices.len() as nat,
                action,
            ),
            final(self).show_help == (old(self).show_help != (action == AppAction::ToggleHelp)),
            action == AppAction::CycleSortColumn ==> {
                &&& final(self).process_table.sort_column == sort_column_next(old(self).process_table.sort_column)
                &&& final(self).process_table.sort_descending == old(self).process_table.sort_descending
                &&& final(self).process_table.entries@ == sorted_entries(
                    old(self).process_table.entries@,
                    final(self).process_table.sort_column,
                    old(self).process_table.sort_descending,
                )
            },
            action == AppAction::ReverseSortDirection ==> {
                &&& final(self).process_table.sort_column == old(self).process_table.sort_column
                &&& final(self).process_table.sort_descending == !old(self).process_table.sort_descending
                &&& final(self).process_table.entries@ == old(self).process_table.entries@.reverse()
            },
            action != AppAction::CycleSortColumn && action != AppAction::ReverseSortDirection
                ==> final(self).process_table == old(self).process_table,
            final(self).process_table.permission_degraded == old(self).process_table.permission_degraded,
            final(self).fast_mode == (old(self).fast_mode != (action == AppAction::ToggleFastMode)),
            final(self).refresh_ms == refresh_after(
                old(self).refresh_ms,
                old(self).fast_mode,
                old(self).normal_refresh_ms,
                action,
            ),
            final(self).ring_capacity == (if action != AppAction::ToggleFastMode {
                old(self).ring_capacity as int
            } else if !old(self).fast_mode {
                capacity_spec(FAST_REFRESH_MS, FAST_SCROLLBACK_SECS, term_width)
            } else {
                capacity_spec(old(self).normal_refresh_ms, old(self).normal_scrollback_secs, term_width)
            }),
            final(self).devices@ == (if action == AppAction::ToggleFastMode {
                Seq::<D>::empty()
            } else {
                old(self).devices@
            }),
            final(self).show_all == old(self).show_all,
    {
        match action {
            AppAction::Quit => {
                self.should_quit = true;
            },
            AppAction::CycleView => {
                self.view_mode =
                    match self.view_mode {
                        ViewMode::AllDevices => ViewMode::SingleDevice,
                        ViewMode::SingleDevice => ViewMode::ProcessTable,
                        ViewMode::ProcessTable => ViewMode::AllDevices,
                    };
            },
            AppAction::ToggleProcessView => {
                self.view_mode =
                    if self.view_mode == ViewMode::ProcessTable {
                        ViewMode::AllDevices
                    } else {
                        ViewMode::ProcessTable
                    };
            },
            AppAction::NextDevice => {
                self.selected_device = next_index(self.selected_device, self.devices.len());
            },
            AppAction::PrevDevice => {
                self.selected_device = prev_index(self.selected_device, self.devices.len());
            },
            AppAction::ToggleHelp => {
                self.show_help = !self.show_help;
            },
            AppAction::CycleSortColumn => {
                self.process_table.cycle_sort();
            },
            AppAction::ReverseSortDirection => {
                self.process_table.toggle_sort_direction();
            },
            AppAction::IncreaseRefresh => {
                let half = self.refresh_ms / 2;
                self.refresh_ms = if half >= MIN_REFRESH_MS {
                    half
                } else {
                    MIN_REFRESH_MS
                };
            },
            AppAction::DecreaseRefresh => {
                let double = self.refresh_ms * 2;
                self.refresh_ms = if double <= MAX_REFRESH_MS {
                    double
                } else {
                    MAX_REFRESH_MS
                };
            },
            AppAction::ToggleFastMode => {
                self.fast_mode = !self.fast_mode;
                if self.fast_mode {
                    self.refresh_ms = FAST_REFRESH_MS;
                    self.ring_capacity =
                        compute_capacity(FAST_REFRESH_MS, FAST_SCROLLBACK_SECS, term_width);
                } else {
                    self.refresh_ms = self.normal_refresh_ms;
                    self.ring_capacity =
                        compute_capacity(
                            self.normal_refresh_ms,
                            self.normal_scrollback_secs,
                            term_width,
                        );
                }
                self.devices = Vec::new();
            },
            AppAction::NoAction => {},
        }
    }
}

} // verus!
