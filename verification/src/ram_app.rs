//! The memory monitor's state: the histories of page traffic, swap, faults
//! and pressure, the latest memory figures, the previous counter snapshot,
//! and fast mode.
use vstd::prelude::*;
use crate::capacity::{capacity_inputs_ok, capacity_spec, compute_capacity, pacing, FAST_REFRESH_MS, FAST_SCROLLBACK_SECS};
use crate::memory::{MemInfo, VmStatSnapshot};
use crate::ring_buffer::RingBuffer;

verus! {

/// The memory monitor's state. Its histories hold samples of type `S`, the
/// rates and pressure averages the caller computes.
pub struct App<S> {
    pub alloc_history: RingBuffer<S>,
    pub free_history: RingBuffer<S>,
    pub swapin_history: RingBuffer<S>,
    pub swapout_history: RingBuffer<S>,
    pub fault_history: RingBuffer<S>,
    pub major_fault_history: RingBuffer<S>,
    pub psi_some_history: RingBuffer<S>,
    pub psi_full_history: RingBuffer<S>,
    pub latest_info: Option<MemInfo>,
    pub should_quit: bool,
    pub scrollback_secs: u64,
    pub fast_mode: bool,
    pub refresh_ms: u64,
    pub normal_refresh_ms: u64,
    pub normal_scrollback_secs: u64,
    pub prev_vmstat: Option<VmStatSnapshot>,
}

impl<S: Copy> App<S> {
    /// Every history is fresh with capacity `cap`.
    pub open spec fn all_fresh(&self, cap: nat) -> bool {
        &&& self.alloc_history.fresh_with(cap)
        &&& self.free_history.fresh_with(cap)
        &&& self.swapin_history.fresh_with(cap)
        &&& self.swapout_history.fresh_with(cap)
        &&& self.fault_history.fresh_with(cap)
        &&& self.major_fault_history.fresh_with(cap)
        &&& self.psi_some_history.fresh_with(cap)
        &&& self.psi_full_history.fresh_with(cap)
    }

    /// Every history is well-formed and as large as the first, and the
    /// pacing the monitor was started with gives a capacity.
    pub open spec fn wf(&self) -> bool {
        let cap = self.alloc_history.spec_capacity();
        &&& self.alloc_history.wf()
        &&& self.free_history.wf() && self.free_history.spec_capacity() == cap
        &&& self.swapin_history.wf() && self.swapin_history.spec_capacity() == cap
        &&& self.swapout_history.wf() && self.swapout_history.spec_capacity() == cap
        &&& self.fault_history.wf() && self.fault_history.spec_capacity() == cap
        &&& self.major_fault_history.wf() && self.major_fault_history.spec_capacity() == cap
        &&& self.psi_some_history.wf() && self.psi_some_history.spec_capacity() == cap
        &&& self.psi_full_history.wf() && self.psi_full_history.spec_capacity() == cap
        &&& capacity_inputs_ok(self.normal_refresh_ms, self.normal_scrollback_secs)
    }

    /// A monitor whose histories cover the scrollback window at the refresh
    /// rate, and at least the terminal's width.
    pub fn new(refresh_ms: u64, scrollback_secs: u64, term_width: usize) -> (app: Self)
        requires
            capacity_inputs_ok(refresh_ms, scrollback_secs),
        ensures
            app.wf(),
            app.all_fresh(capacity_spec(refresh_ms, scrollback_secs, term_width) as nat),
            app.latest_info is None,
            !app.should_quit,
            !app.fast_mode,
            app.refresh_ms == refresh_ms,
            app.scrollback_secs == scrollback_secs,
            app.normal_refresh_ms == refresh_ms,
            app.normal_scrollback_secs == scrollback_secs,
            app.prev_vmstat is None,
    {
        let capacity = compute_capacity(refresh_ms, scrollback_secs, term_width);
        App::with_pacing(capacity, refresh_ms, scrollback_secs)
    }

    /// A monitor with histories of a given capacity, refreshing every
    /// 500 ms with a 60 s scrollback.
    pub fn with_capacity(capacity: usize) -> (app: Self)
        ensures
            app.wf(),
            app.all_fresh(capacity as nat),
            app.latest_info is None,
            !app.should_quit,
            !app.fast_mode,
            app.refresh_ms == 500,
            app.scrollback_secs == 60,
            app.normal_refresh_ms == 500,
            app.normal_scrollback_secs == 60,
            app.prev_vmstat is None,
    {
        App::with_pacing(capacity, 500, 60)
    }

    fn with_pacing(capacity: usize, refresh_ms: u64, scrollback_secs: u64) -> (app: Self)
        requires
            capacity_inputs_ok(refresh_ms, scrollback_secs),
        ensures
            app.wf(),
            app.all_fresh(capacity as nat),
            app.latest_info is None,
            !app.should_quit,
            !app.fast_mode,
            app.refresh_ms == refresh_ms,
            app.scrollback_secs == scrollback_secs,
            app.normal_refresh_ms == refresh_ms,
            app.normal_scrollback_secs == scrollback_secs,
            app.prev_vmstat is None,
    {
        App {
            alloc_history: RingBuffer::new(capacity),
            free_history: RingBuffer::new(capacity),
            swapin_history: RingBuffer::new(capacity),
            swapout_history: RingBuffer::new(capacity),
            fault_history: RingBuffer::new(capacity),
            major_fault_history: RingBuffer::new(capacity),
            psi_some_history: RingBuffer::new(capacity),
            psi_full_history: RingBuffer::new(capacity),
            latest_info: None,
            should_quit: false,
            scrollback_secs,
            fast_mode: false,
            refresh_ms,
            normal_refresh_ms: refresh_ms,
            normal_scrollback_secs: scrollback_secs,
            prev_vmstat: None,
        }
    }

    /// How many samples each history keeps.
    pub fn chart_capacity(&self) -> (n: usize)
        ensures
            n == self.alloc_history.spec_capacity(),
    {
        self.alloc_history.capacity()
    }

    /// Switches fast mode: the pacing becomes fast mode's or the one the
    /// monitor was started with, every history starts over, sized for the
    /// new pacing, and the previous counter snapshot is dropped.
    pub fn toggle_fast_mode(&mut self, term_width: usize)
        requires
            old(self).wf(),
        ensures
            final(self).wf(),
            final(self).fast_mode == !old(self).fast_mode,
            (final(self).refresh_ms, final(self).scrollback_secs) == pacing(
                final(self).fast_mode,
                old(self).normal_refresh_ms,
                old(self).normal_scrollback_secs,
            ),
            final(self).all_fresh(
                capacity_spec(final(self).refresh_ms, final(self).scrollback_secs, term_width) as nat,
            ),
            final(self).prev_vmstat is None,
            final(self).latest_info == old(self).latest_info,
            final(self).should_quit == old(self).should_quit,
            final(self).normal_refresh_ms == old(self).normal_refresh_ms,
            final(self).normal_scrollback_secs == old(self).normal_scrollback_secs,
    {
        self.fast_mode = !self.fast_mode;
        if self.fast_mode {
            self.refresh_ms = FAST_REFRESH_MS;
            self.scrollback_secs = FAST_SCROLLBACK_SECS;
        } else {
            self.refresh_ms = self.normal_refresh_ms;
            self.scrollback_secs = self.normal_scrollback_secs;
        }
        let capacity = compute_capacity(self.refresh_ms, self.scrollback_secs, term_width);
        self.alloc_history = RingBuffer::new(capacity);
        self.free_history = RingBuffer::new(capacity);
        self.swapin_history = RingBuffer::new(capacity);
        self.swapout_history = RingBuffer::new(capacity);
        self.fault_history = RingBuffer::new(capacity);
        self.major_fault_history = RingBuffer::new(capacity);
        self.psi_some_history = RingBuffer::new(capacity);
        self.psi_full_history = RingBuffer::new(capacity);
        self.prev_vmstat = None;
    }
}

} // verus!
