//! Audio capture bookkeeping: which bytes of a captured chunk hold
//! samples, how many frames they make, how much of the sample buffer is
//! kept, which samples the analyser takes, and the stream's state label.
use vstd::prelude::*;

verus! {

/// The most samples the capture buffer keeps: about a second of audio.
pub const MAX_BUFFERED_SAMPLES: usize = 48000;

/// The bytes of a captured chunk that hold samples: from its offset to its
/// end, cut at the end of the data; none when that is empty.
pub open spec fn chunk_range_spec(offset: int, size: int, data_len: int) -> Option<(int, int)> {
    let end = if offset + size <= data_len {
        offset + size
    } else {
        data_len
    };
    if offset >= end {
        None
    } else {
        Some((offset, end))
    }
}

pub fn chunk_range(offset: usize, size: usize, data_len: usize) -> (r: Option<(usize, usize)>)
    requires
        offset + size <= usize::MAX,
    ensures
        match chunk_range_spec(offset as int, size as int, data_len as int) {
            Some((a, b)) => r == Some((a as usize, b as usize)),
            None => r is None,
        },
{
    let sum = offset + size;
    let end = if sum <= data_len {
        sum
    } else {
        data_len
    };
    if offset >= end {
        None
    } else {
        Some((offset, end))
    }
}

/// The number of whole frames of 32-bit samples, one per channel, in
/// `byte_len` bytes; none without channels.
pub fn frame_count(byte_len: usize, channels: usize) -> (r: Option<usize>)
    requires
        channels * 4 <= usize::MAX,
    ensures
        channels == 0 ==> r is None,
        channels > 0 ==> (r matches Some(f) && f == byte_len as int / (channels * 4)),
{
    let bytes_per_frame = channels * 4;
    if bytes_per_frame == 0 {
        None
    } else {
        Some(byte_len / bytes_per_frame)
    }
}

/// The last `count` elements of `s`, or all of them when it has fewer.
pub open spec fn latest<T>(s: Seq<T>, count: nat) -> Seq<T> {
    if s.len() >= count {
        s.skip(s.len() - count)
    } else {
        s
    }
}

/// The samples the analyser takes: the last `count`, or all when fewer
/// were captured.
pub fn last_samples<T: Copy>(buf: &Vec<T>, count: usize) -> (r: Vec<T>)
    ensures
        r@ == latest(buf@, count as nat),
{
    let n = buf.len();
    let start = if n >= count {
        n - count
    } else {
        0
    };
    let mut out: Vec<T> = Vec::new();
    let mut i: usize = start;
    while i < n
        invariant
            start <= i <= n,
            n == buf@.len(),
            out@ == buf@.subrange(start as int, i as int),
        decreases n - i,
    {
        out.push(buf[i]);
        i = i + 1;
        assert(out@ =~= buf@.subrange(start as int, i as int));
    }
    assert(out@ =~= latest(buf@, count as nat));
    out
}

/// Drops the oldest samples so that at most `cap` remain.
pub fn keep_latest<T: Copy>(buf: &mut Vec<T>, cap: usize)
    ensures
        final(buf)@ == latest(old(buf)@, cap as nat),
{
    if buf.len() > cap {
        let kept = last_samples(buf, cap);
        *buf = kept;
    } else {
        assert(latest(buf@, cap as nat) == buf@);
    }
}

/// The state of the capture stream.
#[derive(Debug, Clone, Copy, PartialEq, Eq, Structural)]
pub enum StreamPhase {
    Unconnected,
    Connecting,
    Paused,
    Streaming,
    Error,
}

pub open spec fn phase_label_spec(p: StreamPhase) -> Seq<char> {
    match p {
        StreamPhase::Unconnected => "unconnected"@,
        StreamPhase::Connecting => "connecting"@,
        StreamPhase::Paused => "paused"@,
        StreamPhase::Streaming => "streaming"@,
        StreamPhase::Error => "error"@,
    }
}

/// The label shown for the stream's state in place of a device name.
pub fn phase_label(p: StreamPhase) -> (s: &'static str)
    ensures
        s@ == phase_label_spec(p),
{
    proof {
        reveal_strlit("unconnected");
        reveal_strlit("connecting");
        reveal_strlit("paused");
        reveal_strlit("streaming");
        reveal_strlit("error");
    }
    match p {
        StreamPhase::Unconnected => "unconnected",
        StreamPhase::Connecting => "connecting",
        StreamPhase::Paused => "paused",
        StreamPhase::Streaming => "streaming",
        StreamPhase::Error => "error",
    }
}

/// Trimming the buffer keeps as many samples as fit under the bound, and
/// trimming it again changes nothing.
pub proof fn keep_latest_bounds<T>(s: Seq<T>, cap: nat)
    ensures
        latest(s, cap).len() == (if s.len() >= cap {
            cap as int
        } else {
            s.len() as int
        }),
        latest(latest(s, cap), cap) == latest(s, cap),
{
}

} // verus!
