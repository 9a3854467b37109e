//! How many samples a chart history keeps, and the refresh pacing of fast
//! mode that every monitor shares.
use vstd::prelude::*;

verus! {

/// Refresh interval of fast mode, in milliseconds.
pub const FAST_REFRESH_MS: u64 = 25;

/// Scrollback window of fast mode, in seconds.
pub const FAST_SCROLLBACK_SECS: u64 = 3;

/// A refresh interval and scrollback window whose history capacity can be
/// computed without dividing by zero or overflowing.
pub open spec fn capacity_inputs_ok(refresh_ms: u64, scrollback_secs: u64) -> bool {
    &&& refresh_ms > 0
    &&& scrollback_secs * 1000 <= u64::MAX
    &&& (scrollback_secs * 1000) / refresh_ms as int <= usize::MAX
}

/// The refresh interval and scrollback window in force: fast mode's, or
/// the ones the monitor was started with.
pub open spec fn pacing(fast_mode: bool, normal_refresh_ms: u64, normal_scrollback_secs: u64) -> (u64, u64) {
    if fast_mode {
        (FAST_REFRESH_MS, FAST_SCROLLBACK_SECS)
    } else {
        (normal_refresh_ms, normal_scrollback_secs)
    }
}

/// Fast mode's pacing always gives a history capacity, and turning fast
/// mode on and off again comes back to the pacing the monitor was started
/// with.
pub proof fn fast_pacing_is_sound_and_reverts(normal_refresh_ms: u64, normal_scrollback_secs: u64)
    ensures
        capacity_inputs_ok(FAST_REFRESH_MS, FAST_SCROLLBACK_SECS),
        pacing(false, normal_refresh_ms, normal_scrollback_secs) == (normal_refresh_ms, normal_scrollback_secs),
        pacing(!!true, normal_refresh_ms, normal_scrollback_secs) == (FAST_REFRESH_MS, FAST_SCROLLBACK_SECS),
{
}

/// Enough samples for the scrollback window at the refresh rate, and at
/// least one per terminal column.
pub open spec fn capacity_spec(refresh_ms: u64, scrollback_secs: u64, term_width: usize) -> int {
    let time_based = (scrollback_secs * 1000) / refresh_ms as int;
    if time_based >= term_width {
        time_based
    } else {
        term_width as int
    }
}

pub fn compute_capacity(refresh_ms: u64, scrollback_secs: u64, term_width: usize) -> (c: usize)
    requires
        refresh_ms > 0,
        scrollback_secs * 1000 <= u64::MAX,
        (scrollback_secs * 1000) / refresh_ms as int <= usize::MAX,
    ensures
        c == capacity_spec(refresh_ms, scrollback_secs, term_width),
{
    let time_based = ((scrollback_secs * 1000) / refresh_ms) as usize;
    if time_based >= term_width {
        time_based
    } else {
        term_width
    }
}

} // verus!
