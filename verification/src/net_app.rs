//! The network monitor's state: the interfaces and the selected one, the
//! throughput histories, the previous counter snapshot, the view (charts or
//! rain) and fast mode.
use vstd::prelude::*;
use crate::capacity::{capacity_inputs_ok, capacity_spec, compute_capacity, pacing, FAST_REFRESH_MS, FAST_SCROLLBACK_SECS};
use crate::net::{InterfaceInfo, NetSnapshot, ViewMode};
use crate::ring_buffer::RingBuffer;
use crate::selection::{next_index, prev_index, step_selection};

verus! {

/// Refresh interval of the rain view outside fast mode, in milliseconds.
pub const RAIN_REFRESH_MS: u64 = 50;

/// The network monitor's state. Its histories hold samples of type `S`, the
/// receive and transmit rates the caller computes.
pub struct App<S> {
    pub rx_history: RingBuffer<S>,
    pub tx_history: RingBuffer<S>,
    pub interfaces: Vec<InterfaceInfo>,
    pub selected_interface: usize,
    pub should_quit: bool,
    pub scrollback_secs: u64,
    pub fast_mode: bool,
    pub refresh_ms: u64,
    pub view_mode: ViewMode,
    pub normal_refresh_ms: u64,
    pub normal_scrollback_secs: u64,
    pub prev_snapshot: Option<NetSnapshot>,
}

/// The refresh interval after switching the view: the rain view refreshes
/// every 50 ms and the charts at the monitor's own rate, except in fast
/// mode, which keeps its own.
pub open spec fn refresh_after_view_switch(v: ViewMode, refresh_ms: u64, fast_mode: bool, normal_refresh_ms: u64) -> u64 {
    if fast_mode {
        refresh_ms
    } else if v == ViewMode::Charts {
        RAIN_REFRESH_MS
    } else {
        normal_refresh_ms
    }
}

pub open spec fn other_view(v: ViewMode) -> ViewMode {
    if v == ViewMode::Charts {
        ViewMode::Rain
    } else {
        ViewMode::Charts
    }
}

impl<S: Copy> App<S> {
    /// Both histories are empty with capacity `cap`.
    pub open spec fn all_fresh(&self, cap: nat) -> bool {
        &&& self.rx_history.fresh_with(cap)
        &&& self.tx_history.fresh_with(cap)
    }

    /// The histories are well-formed and equally large, and every pacing
    /// the monitor can be in gives a capacity: outside fast mode the
    /// scrollback window is the one it was started with.
    pub open spec fn wf(&self) -> bool {
        &&& self.rx_history.wf()
        &&& self.tx_history.wf()
        &&& self.tx_history.spec_capacity() == self.rx_history.spec_capacity()
        &&& capacity_inputs_ok(self.normal_refresh_ms, self.normal_scrollback_secs)
        &&& capacity_inputs_ok(RAIN_REFRESH_MS, self.normal_scrollback_secs)
        &&& capacity_inputs_ok(self.refresh_ms, self.scrollback_secs)
        &&& !self.fast_mode ==> self.scrollback_secs == self.normal_scrollback_secs
        &&& self.selected_interface < usize::MAX
    }

    /// A monitor over the given interfaces, starting on the rain view at
    /// its 50 ms pace; the histories cover the scrollback window at the
    /// given refresh rate, and at least the terminal's width.
    pub fn new(refresh_ms: u64, scrollback_secs: u64, interfaces: Vec<InterfaceInfo>, term_width: usize) -> (app: Self)
        requires
            capacity_inputs_ok(refresh_ms, scrollback_secs),
            capacity_inputs_ok(RAIN_REFRESH_MS, scrollback_secs),
        ensures
            app.wf(),
            app.all_fresh(capacity_spec(refresh_ms, scrollback_secs, term_width) as nat),
            app.interfaces@ == interfaces@,
            app.selected_interface == 0,
            !app.should_quit,
            !app.fast_mode,
            app.refresh_ms == RAIN_REFRESH_MS,
            app.scrollback_secs == scrollback_secs,
            app.view_mode == ViewMode::Rain,
            app.normal_refresh_ms == refresh_ms,
            app.normal_scrollback_secs == scrollback_secs,
            app.prev_snapshot is None,
    {
        let capacity = compute_capacity(refresh_ms, scrollback_secs, term_width);
        App {
            rx_history: RingBuffer::new(capacity),
            tx_history: RingBuffer::new(capacity),
            interfaces,
            selected_interface: 0,
            should_quit: false,
            scrollback_secs,
            fast_mode: false,
            refresh_ms: RAIN_REFRESH_MS,
            view_mode: ViewMode::Rain,
            normal_refresh_ms: refresh_ms,
            normal_scrollback_secs: scrollback_secs,
            prev_snapshot: None,
        }
    }

    /// A monitor over the given interfaces on the chart view, with
    /// histories of a given capacity, refreshing every 500 ms with a 60 s
    /// scrollback.
    pub fn with_capacity(capacity: usize, interfaces: Vec<InterfaceInfo>) -> (app: Self)
        ensures
            app.wf(),
            app.all_fresh(capacity as nat),
            app.interfaces@ == interfaces@,
            app.selected_interface == 0,
            !app.should_quit,
            !app.fast_mode,
            app.refresh_ms == 500,
            app.scrollback_secs == 60,
            app.view_mode == ViewMode::Charts,
            app.normal_refresh_ms == 500,
            app.normal_scrollback_secs == 60,
            app.prev_snapshot is None,
    {
        App {
            rx_history: RingBuffer::new(capacity),
            tx_history: RingBuffer::new(capacity),
            interfaces,
            selected_interface: 0,
            should_quit: false,
            scrollback_secs: 60,
            fast_mode: false,
            refresh_ms: 500,
            view_mode: ViewMode::Charts,
            normal_refresh_ms: 500,
            normal_scrollback_secs: 60,
            prev_snapshot: None,
        }
    }

    /// The selected interface's name, or `?` when the selection is on none.
    pub fn selected_name(&self) -> (s: &str)
        ensures
            s@ == (if self.selected_interface < self.interfaces@.len() {
                self.interfaces@[self.selected_interface as int].name@
            } else {
                "?"@
            }),
    {
        if self.selected_interface < self.interfaces.len() {
            self.interfaces[self.selected_interface].name.as_str()
        } else {
            "?"
        }
    }

    /// The selected interface, if the selection is on one.
    pub fn selected_info(&self) -> (i: Option<&InterfaceInfo>)
        ensures
            i == (if self.selected_interface < self.interfaces@.len() {
                Some(&self.interfaces@[self.selected_interface as int])
            } else {
                None
            }),
    {
        if self.selected_interface < self.interfaces.len() {
            Some(&self.interfaces[self.selected_interface])
        } else {
            None
        }
    }

    /// How many samples each history keeps.
    pub fn chart_capacity(&self) -> (n: usize)
        ensures
            n == self.rx_history.spec_capacity(),
    {
        self.rx_history.capacity()
    }

    /// Starts the histories over, sized for the current pacing, and drops
    /// the previous snapshot.
    fn reset_data(&mut self, term_width: usize)
        requires
            old(self).wf(),
        ensures
            final(self).wf(),
            final(self).all_fresh(
                capacity_spec(old(self).refresh_ms, old(self).scrollback_secs, term_width) as nat,
            ),
            final(self).prev_snapshot is None,
            final(self).interfaces@ == old(self).interfaces@,
            final(self).selected_interface == old(self).selected_interface,
            final(self).should_quit == old(self).should_quit,
            final(self).scrollback_secs == old(self).scrollback_secs,
            final(self).fast_mode == old(self).fast_mode,
            final(self).refresh_ms == old(self).refresh_ms,
            final(self).view_mode == old(self).view_mode,
            final(self).normal_refresh_ms == old(self).normal_refresh_ms,
            final(self).normal_scrollback_secs == old(self).normal_scrollback_secs,
    {
        let capacity = compute_capacity(self.refresh_ms, self.scrollback_secs, term_width);
        self.rx_history = RingBuffer::new(capacity);
        self.tx_history = RingBuffer::new(capacity);
        self.prev_snapshot = None;
    }

    /// Selects the next interface, wrapping to the first, and starts the
    /// data over; returns whether it did (it does nothing without
    /// interfaces).
    pub fn next_interface(&mut self, term_width: usize) -> (reset: bool)
        requires
            old(self).wf(),
        ensures
            final(self).wf(),
            reset == (old(self).interfaces@.len() > 0),
            final(self).selected_interface == step_selection(
                old(self).selected_interface,
                old(self).interfaces@.len(),
                true,
            ),
            reset ==> final(self).all_fresh(
                capacity_spec(old(self).refresh_ms, old(self).scrollback_secs, term_width) as nat,
            ) && final(self).prev_snapshot is None,
            !reset ==> *final(self) == *old(self),
            final(self).interfaces@ == old(self).interfaces@,
            final(self).refresh_ms == old(self).refresh_ms,
            final(self).scrollback_secs == old(self).scrollback_secs,
            final(self).fast_mode == old(self).fast_mode,
            final(self).view_mode == old(self).view_mode,
    {
        if self.interfaces.len() == 0 {
            return false;
        }
        self.selected_interface = next_index(self.selected_interface, self.interfaces.len());
        self.reset_data(term_width);
        true
    }

    /// Selects the previous interface, wrapping to the last, and starts the
    /// data over; returns whether it did (it does nothing without
    /// interfaces).
    pub fn prev_interface(&mut self, term_width: usize) -> (reset: bool)
        requires
            old(self).wf(),
        ensures
            final(self).wf(),
            reset == (old(self).interfaces@.len() > 0),
            final(self).selected_interface == step_selection(
                old(self).selected_interface,
                old(self).interfaces@.len(),
                false,
            ),
            reset ==> final(self).all_fresh(
                capacity_spec(old(self).refresh_ms, old(self).scrollback_secs, term_width) as nat,
            ) && final(self).prev_snapshot is None,
            !reset ==> *final(self) == *old(self),
            final(self).interfaces@ == old(self).interfaces@,
            final(self).refresh_ms == old(self).refresh_ms,
            final(self).scrollback_secs == old(self).scrollback_secs,
            final(self).fast_mode == old(self).fast_mode,
            final(self).view_mode == old(self).view_mode,
    {
        if self.interfaces.len() == 0 {
            return false;
        }
        self.selected_interface = prev_index(self.selected_interface, self.interfaces.len());
        self.reset_data(term_width);
        true
    }

    /// Switches fast mode: the pacing becomes fast mode's or the one the
    /// monitor was started with, and the data starts over, sized for it.
    pub fn toggle_fast_mode(&mut self, term_width: usize)
        requires
            old(self).wf(),
        ensures
            final(self).wf(),
            final(self).fast_mode == !old(self).fast_mode,
            (final(self).refresh_ms, final(self).scrollback_secs) == pacing(
                final(self).fast_mode,
                old(self).normal_refresh_ms,
                old(self).normal_scrollback_secs,
            ),
            final(self).all_fresh(
                capacity_spec(final(self).refresh_ms, final(self).scrollback_secs, term_width) as nat,
            ),
            final(self).prev_snapshot is None,
            final(self).interfaces@ == old(self).interfaces@,
            final(self).selected_interface == old(self).selected_interface,
            final(self).view_mode == old(self).view_mode,
            final(self).should_quit == old(self).should_quit,
            final(self).normal_refresh_ms == old(self).normal_refresh_ms,
            final(self).normal_scrollback_secs == old(self).normal_scrollback_secs,
    {
        self.fast_mode = !self.fast_mode;
        if self.fast_mode {
            self.refresh_ms = FAST_REFRESH_MS;
            self.scrollback_secs = FAST_SCROLLBACK_SECS;
        } else {
            self.refresh_ms = self.normal_refresh_ms;
            self.scrollback_secs = self.normal_scrollback_secs;
        }
        self.reset_data(term_width);
    }

    /// Switches between the charts and the rain; outside fast mode the
    /// refresh follows the view.
    pub fn toggle_view(&mut self)
        requires
            old(self).wf(),
        ensures
            final(self).wf(),
            final(self).view_mode == other_view(old(self).view_mode),
            final(self).refresh_ms == refresh_after_view_switch(
                old(self).view_mode,
                old(self).refresh_ms,
                old(self).fast_mode,
                old(self).normal_refresh_ms,
            ),
            final(self).rx_history == old(self).rx_history,
            final(self).tx_history == old(self).tx_history,
            final(self).interfaces@ == old(self).interfaces@,
            final(self).selected_interface == old(self).selected_interface,
            final(self).scrollback_secs == old(self).scrollback_secs,
            final(self).fast_mode == old(self).fast_mode,
            final(self).prev_snapshot == old(self).prev_snapshot,
    {
        if self.view_mode == ViewMode::Charts {
            if !self.fast_mode {
                self.refresh_ms = RAIN_REFRESH_MS;
            }
            self.view_mode = ViewMode::Rain;
        } else {
            if !self.fast_mode {
                self.refresh_ms = self.normal_refresh_ms;
            }
            self.view_mode = ViewMode::Charts;
        }
    }
}

/// Outside fast mode, switching the view twice comes back to the chart
/// view's own pace when it started on the charts, and to the rain's when
/// it started on the rain; fast mode keeps its pace throughout.
pub proof fn view_switch_twice(v: ViewMode, refresh_ms: u64, fast_mode: bool, normal_refresh_ms: u64)
    ensures
        other_view(other_view(v)) == v,
        refresh_after_view_switch(
            other_view(v),
            refresh_after_view_switch(v, refresh_ms, fast_mode, normal_refresh_ms),
            fast_mode,
            normal_refresh_ms,
        ) == (if fast_mode {
            refresh_ms
        } else if v == ViewMode::Charts {
            normal_refresh_ms
        } else {
            RAIN_REFRESH_MS
        }),
{
}

} // verus!
