//! The CPU monitor's state: the usage histories of the whole CPU and of
//! each core, the previous counter snapshot, and fast mode.
use vstd::prelude::*;
use crate::capacity::{capacity_inputs_ok, capacity_spec, compute_capacity, pacing, FAST_REFRESH_MS, FAST_SCROLLBACK_SECS};
use crate::cpu::CpuSnapshot;
use crate::ring_buffer::RingBuffer;

verus! {

/// The CPU monitor's state. Its histories hold samples of type `S`, the
/// usage percentages the caller computes.
pub struct App<S> {
    pub total_history: RingBuffer<S>,
    pub core_histories: Vec<RingBuffer<S>>,
    pub should_quit: bool,
    pub scrollback_secs: u64,
    pub fast_mode: bool,
    pub refresh_ms: u64,
    pub normal_refresh_ms: u64,
    pub normal_scrollback_secs: u64,
    pub prev_snapshot: Option<CpuSnapshot>,
}

/// `n` empty, well-formed histories of capacity `cap`.
pub open spec fn empty_histories<S: Copy>(hs: Seq<RingBuffer<S>>, n: nat, cap: nat) -> bool {
    &&& hs.len() == n
    &&& forall|i: int|
        0 <= i < n ==> {
            &&& (#[trigger] hs[i]).wf()
            &&& hs[i].view() == Seq::<S>::empty()
            &&& hs[i].spec_capacity() == cap
        }
}

/// `n` fresh histories of capacity `cap`.
pub fn fresh_histories<S: Copy>(n: usize, cap: usize) -> (hs: Vec<RingBuffer<S>>)
    ensures
        empty_histories(hs@, n as nat, cap as nat),
{
    let mut hs: Vec<RingBuffer<S>> = Vec::new();
    let mut i: usize = 0;
    while i < n
        invariant
            i <= n,
            empty_histories(hs@, i as nat, cap as nat),
        decreases n - i,
    {
        hs.push(RingBuffer::new(cap));
        i = i + 1;
    }
    hs
}

impl<S: Copy> App<S> {
    /// Every history is well-formed and as large as the total's, and the
    /// pacing the monitor was started with gives a capacity.
    pub open spec fn wf(&self) -> bool {
        &&& self.total_history.wf()
        &&& forall|i: int|
            0 <= i < self.core_histories@.len() ==> {
                &&& (#[trigger] self.core_histories@[i]).wf()
                &&& self.core_histories@[i].spec_capacity() == self.total_history.spec_capacity()
            }
        &&& capacity_inputs_ok(self.normal_refresh_ms, self.normal_scrollback_secs)
    }

    /// A monitor for `threads` cores whose histories cover the scrollback
    /// window at the refresh rate, and at least the terminal's width.
    pub fn new(refresh_ms: u64, scrollback_secs: u64, threads: usize, term_width: usize) -> (app: Self)
        requires
            capacity_inputs_ok(refresh_ms, scrollback_secs),
        ensures
            app.wf(),
            app.total_history.view() == Seq::<S>::empty(),
            app.total_history.spec_capacity() == capacity_spec(refresh_ms, scrollback_secs, term_width),
            empty_histories(app.core_histories@, threads as nat, app.total_history.spec_capacity()),
            !app.should_quit,
            !app.fast_mode,
            app.refresh_ms == refresh_ms,
            app.scrollback_secs == scrollback_secs,
            app.normal_refresh_ms == refresh_ms,
            app.normal_scrollback_secs == scrollback_secs,
            app.prev_snapshot is None,
    {
        let capacity = compute_capacity(refresh_ms, scrollback_secs, term_width);
        App::with_pacing(capacity, threads, refresh_ms, scrollback_secs)
    }

    /// A monitor for `threads` cores with histories of a given capacity,
    /// refreshing every 500 ms with a 60 s scrollback.
    pub fn with_capacity(capacity: usize, threads: usize) -> (app: Self)
        ensures
            app.wf(),
            app.total_history.view() == Seq::<S>::empty(),
            app.total_history.spec_capacity() == capacity,
            empty_histories(app.core_histories@, threads as nat, capacity as nat),
            !app.should_quit,
            !app.fast_mode,
            app.refresh_ms == 500,
            app.scrollback_secs == 60,
            app.normal_refresh_ms == 500,
            app.normal_scrollback_secs == 60,
            app.prev_snapshot is None,
    {
        App::with_pacing(capacity, threads, 500, 60)
    }

    fn with_pacing(capacity: usize, threads: usize, refresh_ms: u64, scrollback_secs: u64) -> (app: Self)
        requires
            capacity_inputs_ok(refresh_ms, scrollback_secs),
        ensures
            app.wf(),
            app.total_history.view() == Seq::<S>::empty(),
            app.total_history.spec_capacity() == capacity,
            empty_histories(app.core_histories@, threads as nat, capacity as nat),
            !app.should_quit,
            !app.fast_mode,
            app.refresh_ms == refresh_ms,
            app.scrollback_secs == scrollback_secs,
            app.normal_refresh_ms == refresh_ms,
            app.normal_scrollback_secs == scrollback_secs,
            app.prev_snapshot is None,
    {
        App {
            total_history: RingBuffer::new(capacity),
            core_histories: fresh_histories(threads, capacity),
            should_quit: false,
            scrollback_secs,
            fast_mode: false,
            refresh_ms,
            normal_refresh_ms: refresh_ms,
            normal_scrollback_secs: scrollback_secs,
            prev_snapshot: None,
        }
    }

    /// How many samples each history keeps.
    pub fn chart_capacity(&self) -> (n: usize)
        ensures
            n == self.total_history.spec_capacity(),
    {
        self.total_history.capacity()
    }

    /// Switches fast mode: the pacing becomes fast mode's or the one the
    /// monitor was started with, and every history starts over, sized for
    /// the new pacing; the previous snapshot is dropped.
    pub fn toggle_fast_mode(&mut self, term_width: usize)
        requires
            old(self).wf(),
        ensures
            final(self).wf(),
            final(self).fast_mode == !old(self).fast_mode,
            (final(self).refresh_ms, final(self).scrollback_secs) == pacing(
                final(self).fast_mode,
                old(self).normal_refresh_ms,
                old(self).normal_scrollback_secs,
            ),
            final(self).total_history.view() == Seq::<S>::empty(),
            final(self).total_history.spec_capacity() == capacity_spec(
                final(self).refresh_ms,
                final(self).scrollback_secs,
                term_width,
            ),
            empty_histories(
                final(self).core_histories@,
                old(self).core_histories@.len(),
                final(self).total_history.spec_capacity(),
            ),
            final(self).prev_snapshot is None,
            final(self).should_quit == old(self).should_quit,
            final(self).normal_refresh_ms == old(self).normal_refresh_ms,
            final(self).normal_scrollback_secs == old(self).normal_scrollback_secs,
    {
        self.fast_mode = !self.fast_mode;
        if self.fast_mode {
            self.refresh_ms = FAST_REFRESH_MS;
            self.scrollback_secs = FAST_SCROLLBACK_SECS;
        } else {
            self.refresh_ms = self.normal_refresh_ms;
            self.scrollback_secs = self.normal_scrollback_secs;
        }
        let capacity = compute_capacity(self.refresh_ms, self.scrollback_secs, term_width);
        self.total_history = RingBuffer::new(capacity);
        self.core_histories = fresh_histories(self.core_histories.len(), capacity);
        self.prev_snapshot = None;
    }
}

} // verus!
