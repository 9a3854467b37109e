//! The GPU monitor's state: the histories of utilisation, memory,
//! temperature and power, and fast mode.
use vstd::prelude::*;
use crate::capacity::{capacity_inputs_ok, capacity_spec, compute_capacity, pacing, FAST_REFRESH_MS, FAST_SCROLLBACK_SECS};
use crate::ring_buffer::RingBuffer;

verus! {

/// The GPU monitor's state. Its histories hold samples of type `S`, the
/// readings the caller takes from the device.
pub struct App<S> {
    pub gpu_util_history: RingBuffer<S>,
    pub mem_util_history: RingBuffer<S>,
    pub vram_pct_history: RingBuffer<S>,
    pub temp_history: RingBuffer<S>,
    pub power_history: RingBuffer<S>,
    pub should_quit: bool,
    pub scrollback_secs: u64,
    pub fast_mode: bool,
    pub refresh_ms: u64,
    pub normal_refresh_ms: u64,
    pub normal_scrollback_secs: u64,
}

impl<S: Copy> App<S> {
    /// Every history is fresh with capacity `cap`.
    pub open spec fn all_fresh(&self, cap: nat) -> bool {
        &&& self.gpu_util_history.fresh_with(cap)
        &&& self.mem_util_history.fresh_with(cap)
        &&& self.vram_pct_history.fresh_with(cap)
        &&& self.temp_history.fresh_with(cap)
        &&& self.power_history.fresh_with(cap)
    }

    /// Every history is well-formed and as large as the first, and the
    /// pacing the monitor was started with gives a capacity.
    pub open spec fn wf(&self) -> bool {
        let cap = self.gpu_util_history.spec_capacity();
        &&& self.gpu_util_history.wf()
        &&& self.mem_util_history.wf() && self.mem_util_history.spec_capacity() == cap
        &&& self.vram_pct_history.wf() && self.vram_pct_history.spec_capacity() == cap
        &&& self.temp_history.wf() && self.temp_history.spec_capacity() == cap
        &&& self.power_history.wf() && self.power_history.spec_capacity() == cap
        &&& capacity_inputs_ok(self.normal_refresh_ms, self.normal_scrollback_secs)
    }

    /// A monitor whose histories cover the scrollback window at the refresh
    /// rate, and at least the terminal's width.
    pub fn new(refresh_ms: u64, scrollback_secs: u64, term_width: usize) -> (app: Self)
        requires
            capacity_inputs_ok(refresh_ms, scrollback_secs),
        ensures
            app.wf(),
            app.all_fresh(capacity_spec(refresh_ms, scrollback_secs, term_width) as nat),
            !app.should_quit,
            !app.fast_mode,
            app.refresh_ms == refresh_ms,
            app.scrollback_secs == scrollback_secs,
            app.normal_refresh_ms == refresh_ms,
            app.normal_scrollback_secs == scrollback_secs,
    {
        let capacity = compute_capacity(refresh_ms, scrollback_secs, term_width);
        App::with_pacing(capacity, refresh_ms, scrollback_secs)
    }

    /// A monitor with histories of a given capacity, refreshing every
    /// 500 ms with a 60 s scrollback.
    pub fn with_capacity(capacity: usize) -> (app: Self)
        ensures
            app.wf(),
            app.all_fresh(capacity as nat),
            !app.should_quit,
            !app.fast_mode,
            app.refresh_ms == 500,
            app.scrollback_secs == 60,
            app.normal_refresh_ms == 500,
            app.normal_scrollback_secs == 60,
    {
        App::with_pacing(capacity, 500, 60)
    }

    fn with_pacing(capacity: usize, refresh_ms: u64, scrollback_secs: u64) -> (app: Self)
        requires
            capacity_inputs_ok(refresh_ms, scrollback_secs),
        ensures
            app.wf(),
            app.all_fresh(capacity as nat),
            !app.should_quit,
            !app.fast_mode,
            app.refresh_ms == refresh_ms,
            app.scrollback_secs == scrollback_secs,
            app.normal_refresh_ms == refresh_ms,
            app.normal_scrollback_secs == scrollback_secs,
    {
        App {
            gpu_util_history: RingBuffer::new(capacity),
            mem_util_history: RingBuffer::new(capacity),
            vram_pct_history: RingBuffer::new(capacity),
            temp_history: RingBuffer::new(capacity),
            power_history: RingBuffer::new(capacity),
            should_quit: false,
            scrollback_secs,
            fast_mode: false,
            refresh_ms,
            normal_refresh_ms: refresh_ms,
            normal_scrollback_secs: scrollback_secs,
        }
    }

    /// How many samples each history keeps.
    pub fn chart_capacity(&self) -> (n: usize)
        ensures
            n == self.gpu_util_history.spec_capacity(),
    {
        self.gpu_util_history.capacity()
    }

    /// Switches fast mode: the pacing becomes fast mode's or the one the
    /// monitor was started with, and every history starts over, sized for
    /// the new pacing.
    pub fn toggle_fast_mode(&mut self, term_width: usize)
        requires
            old(self).wf(),
        ensures
            final(self).wf(),
            final(self).fast_mode == !old(self).fast_mode,
            (final(self).refresh_ms, final(self).scrollback_secs) == pacing(
                final(self).fast_mode,
                old(self).normal_refresh_ms,
                old(self).normal_scrollback_secs,
            ),
            final(self).all_fresh(
                capacity_spec(final(self).refresh_ms, final(self).scrollback_secs, term_width) as nat,
            ),
            final(self).should_quit == old(self).should_quit,
            final(self).normal_refresh_ms == old(self).normal_refresh_ms,
            final(self).normal_scrollback_secs == old(self).normal_scrollback_secs,
    {
        self.fast_mode = !self.fast_mode;
        if self.fast_mode {
            self.refresh_ms = FAST_REFRESH_MS;
            self.scrollback_secs = FAST_SCROLLBACK_SECS;
        } else {
            self.refresh_ms = self.normal_refresh_ms;
            self.scrollback_secs = self.normal_scrollback_secs;
        }
        let capacity = compute_capacity(self.refresh_ms, self.scrollback_secs, term_width);
        self.gpu_util_history = RingBuffer::new(capacity);
        self.mem_util_history = RingBuffer::new(capacity);
        self.vram_pct_history = RingBuffer::new(capacity);
        self.temp_history = RingBuffer::new(capacity);
        self.power_history = RingBuffer::new(capacity);
    }
}

} // verus!
