//! Disk I/O monitor: which block devices to track, device naming and
//! transport labels, the key actions and the view cycle, and the
//! process-table sort column.
use std::collections::HashMap;
use vstd::prelude::*;
use crate::text::{
    chars_of, eq_str, push_all, push_str, slice, starts_with, string_of, trim, trim_vec,
    vec_has_prefix,
};

verus! {

/// `std::time::Instant`, declared so that the library's records can carry
/// the instants they were taken at; nothing is claimed of their values.
#[verifier::external_type_specification]
#[verifier::external_body]
pub struct ExInstant(std::time::Instant);

/// Returns true if this device should be shown by default: loop devices
/// and ram disks are hidden, as are devices that have never seen I/O; with
/// `show_all`, every device that has seen I/O is shown.
pub open spec fn should_track_spec(name: Seq<char>, reads: u64, writes: u64, show_all: bool) -> bool {
    if show_all {
        reads > 0 || writes > 0
    } else {
        !starts_with(name, "loop"@) && !starts_with(name, "ram"@) && !(reads == 0 && writes == 0)
    }
}

pub fn should_track(name: &str, reads: u64, writes: u64, show_all: bool) -> (b: bool)
    ensures
        b == should_track_spec(name@, reads, writes, show_all),
{
    if show_all {
        return reads > 0 || writes > 0;
    }
    let v = chars_of(name);
    if crate::text::has_prefix(&v, "loop") || crate::text::has_prefix(&v, "ram") {
        return false;
    }
    if reads == 0 && writes == 0 {
        return false;
    }
    true
}

/// The transport label of a block device: NVMe devices by their fabric
/// (`pcie`, `tcp`, `rdma`, another name, or none), `sd*` devices as SATA
/// SSD or HDD by the rotational flag, anything else as `block`.
pub open spec fn transport_spec(device: Seq<char>, nvme_transport: Seq<char>, rotational: Seq<char>) -> Seq<char> {
    if starts_with(device, "nvme"@) {
        let t = trim(nvme_transport);
        if t == "pcie"@ {
            "NVMe PCIe"@
        } else if t == "tcp"@ {
            "NVMe/TCP"@
        } else if t == "rdma"@ {
            "NVMe/RDMA"@
        } else if t.len() > 0 {
            "NVMe/"@ + t
        } else {
            "NVMe"@
        }
    } else if starts_with(device, "sd"@) {
        if trim(rotational) == "1"@ {
            "SATA HDD"@
        } else {
            "SATA SSD"@
        }
    } else {
        "block"@
    }
}

pub fn parse_transport(device_name: &str, nvme_transport: &str, rotational: &str) -> (s: String)
    ensures
        s@ == transport_spec(device_name@, nvme_transport@, rotational@),
{
    let dev = chars_of(device_name);
    let mut out: Vec<char> = Vec::new();
    if crate::text::has_prefix(&dev, "nvme") {
        let t = trim_vec(&chars_of(nvme_transport));
        if eq_str(&t, "pcie") {
            push_str(&mut out, "NVMe PCIe");
        } else if eq_str(&t, "tcp") {
            push_str(&mut out, "NVMe/TCP");
        } else if eq_str(&t, "rdma") {
            push_str(&mut out, "NVMe/RDMA");
        } else if t.len() > 0 {
            push_str(&mut out, "NVMe/");
            push_all(&mut out, &t);
        } else {
            push_str(&mut out, "NVMe");
        }
    } else if crate::text::has_prefix(&dev, "sd") {
        let r = trim_vec(&chars_of(rotational));
        if eq_str(&r, "1") {
            push_str(&mut out, "SATA HDD");
        } else {
            push_str(&mut out, "SATA SSD");
        }
    } else {
        push_str(&mut out, "block");
    }
    assert(out@ =~= transport_spec(device_name@, nvme_transport@, rotational@));
    string_of(&out)
}

/// Digits 1 to 9, the ones the NVMe base name strips from the end.
pub open spec fn is_nonzero_digit(c: char) -> bool {
    '1' <= c && c <= '9'
}

/// `s` without its trailing non-zero digits.
pub open spec fn trim_end_nonzero_digits(s: Seq<char>) -> Seq<char>
    decreases s.len(),
{
    if s.len() > 0 && is_nonzero_digit(s.last()) {
        trim_end_nonzero_digits(s.drop_last())
    } else {
        s
    }
}

/// `s` without its trailing `'n'`s.
pub open spec fn trim_end_n(s: Seq<char>) -> Seq<char>
    decreases s.len(),
{
    if s.len() > 0 && s.last() == 'n' {
        trim_end_n(s.drop_last())
    } else {
        s
    }
}

/// The NVMe controller name of a namespace device: trailing digits 1-9,
/// then trailing `n`s, removed (`nvme0n1` becomes `nvme0`).
pub open spec fn nvme_base_spec(device: Seq<char>) -> Seq<char> {
    trim_end_n(trim_end_nonzero_digits(device))
}

pub fn nvme_base_name(device_name: &str) -> (s: String)
    ensures
        s@ == nvme_base_spec(device_name@),
{
    let v = chars_of(device_name);
    let mut j: usize = v.len();
    assert(v@.take(v.len() as int) =~= v@);
    while j > 0 && '1' <= v[j - 1] && v[j - 1] <= '9'
        invariant
            j <= v.len(),
            trim_end_nonzero_digits(v@) == trim_end_nonzero_digits(v@.take(j as int)),
        decreases j,
    {
        assert(v@.take(j as int).drop_last() =~= v@.take(j - 1));
        j = j - 1;
    }
    let ghost a = v@.take(j as int);
    assert(trim_end_nonzero_digits(v@) == a);
    let mut k: usize = j;
    assert(a.take(j as int) =~= a);
    while k > 0 && v[k - 1] == 'n'
        invariant
            k <= j <= v.len(),
            a == v@.take(j as int),
            trim_end_n(a) == trim_end_n(a.take(k as int)),
        decreases k,
    {
        assert(a.take(k as int).drop_last() =~= a.take(k - 1));
        k = k - 1;
    }
    let r = slice(&v, 0, k);
    assert(r@ =~= a.take(k as int));
    string_of(&r)
}

#[derive(Debug, Clone, Copy, PartialEq, Eq, Structural)]
pub enum SortColumn {
    TotalBytes,
    ReadBytes,
    WriteBytes,
    Pid,
}

pub open spec fn sort_column_next(c: SortColumn) -> SortColumn {
    match c {
        SortColumn::TotalBytes => SortColumn::ReadBytes,
        SortColumn::ReadBytes => SortColumn::WriteBytes,
        SortColumn::WriteBytes => SortColumn::Pid,
        SortColumn::Pid => SortColumn::TotalBytes,
    }
}

impl SortColumn {
    /// The next column in the cycle total, read, write, pid.
    pub fn next(self) -> (r: Self)
        ensures
            r == sort_column_next(self),
    {
        match self {
            Self::TotalBytes => Self::ReadBytes,
            Self::ReadBytes => Self::WriteBytes,
            Self::WriteBytes => Self::Pid,
            Self::Pid => Self::TotalBytes,
        }
    }
}

/// Four steps through the sort columns return to the start.
pub proof fn sort_column_cycle(c: SortColumn)
    ensures
        sort_column_next(sort_column_next(sort_column_next(sort_column_next(c)))) == c,
        sort_column_next(c) != c,
{
}

#[derive(Debug, Clone, Copy, PartialEq, Eq, Structural)]
pub enum ViewMode {
    AllDevices,
    SingleDevice,
    ProcessTable,
}

#[derive(Debug, Clone, Copy, PartialEq, Eq, Structural)]
pub enum AppAction {
    Quit,
    CycleView,
    ToggleProcessView,
    NextDevice,
    PrevDevice,
    ToggleHelp,
    CycleSortColumn,
    ReverseSortDirection,
    IncreaseRefresh,
    DecreaseRefresh,
    ToggleFastMode,
    NoAction,
}

/// Raw cumulative counters from a single read of /proc/diskstats for one device.
pub struct DiskStatSnapshot {
    pub timestamp: std::time::Instant,
    pub reads_completed: u64,
    pub writes_completed: u64,
    pub sectors_read: u64,
    pub sectors_written: u64,
    pub time_reading_ms: u64,
    pub time_writing_ms: u64,
    pub in_progress: u64,
    pub io_time_ms: u64,
}

/// The counters of a process at the last reading.
#[derive(Clone, Copy)]
pub struct PrevIo {
    pub timestamp: std::time::Instant,
    pub read_bytes: u64,
    pub write_bytes: u64,
}

/// One process seen in a sweep: its pid and, when they could be read, its
/// cumulative read and write byte counters.
#[derive(Clone, Copy, Debug, PartialEq, Eq)]
pub struct IoReading {
    pub pid: i32,
    pub io: Option<(u64, u64)>,
}

/// Bytes read and written by a process since the reading taken at `since`.
#[derive(Clone, Copy)]
pub struct IoDelta {
    pub pid: i32,
    pub since: std::time::Instant,
    pub read_delta: u64,
    pub write_delta: u64,
}

/// Tracks previous I/O counters for delta computation, keyed by PID.
pub struct ProcessIoTracker {
    prev: HashMap<i32, PrevIo>,
}

/// The tracked counters after recording a sweep's readable processes in
/// order, before pruning.
pub open spec fn recorded(m: Map<i32, PrevIo>, now: std::time::Instant, rs: Seq<IoReading>) -> Map<i32, PrevIo>
    decreases rs.len(),
{
    if rs.len() == 0 {
        m
    } else {
        let m1 = recorded(m, now, rs.drop_last());
        let r = rs.last();
        match r.io {
            Some((rd, wr)) => m1.insert(r.pid, PrevIo { timestamp: now, read_bytes: rd, write_bytes: wr }),
            None => m1,
        }
    }
}

/// The deltas of a sweep: one for each readable process that was tracked,
/// from its tracked counters (floored at zero), in sweep order.
pub open spec fn deltas(m: Map<i32, PrevIo>, now: std::time::Instant, rs: Seq<IoReading>) -> Seq<IoDelta>
    decreases rs.len(),
{
    if rs.len() == 0 {
        seq![]
    } else {
        let d = deltas(m, now, rs.drop_last());
        let m1 = recorded(m, now, rs.drop_last());
        let r = rs.last();
        match r.io {
            Some((rd, wr)) => if m1.contains_key(r.pid) {
                let p = m1[r.pid];
                d.push(
                    IoDelta {
                        pid: r.pid,
                        since: p.timestamp,
                        read_delta: if rd >= p.read_bytes { (rd - p.read_bytes) as u64 } else { 0 },
                        write_delta: if wr >= p.write_bytes { (wr - p.write_bytes) as u64 } else { 0 },
                    },
                )
            } else {
                d
            },
            None => d,
        }
    }
}

/// The pids seen in a sweep.
pub open spec fn seen(rs: Seq<IoReading>) -> Set<i32> {
    Set::new(|pid: i32| exists|k: int| 0 <= k < rs.len() && #[trigger] rs[k].pid == pid)
}

/// A sweep's delta for a tracked process is the difference of its
/// counters: with `(r0, w0)` recorded for `pid` at `t0`, a reading `(r1, w1)`
/// reports `r1 - r0` bytes read and `w1 - w0` written since `t0` (each zero
/// where its counter went down); a process not tracked yet reports nothing.
pub proof fn deltas_are_counter_differences(
    m: Map<i32, PrevIo>,
    t0: std::time::Instant,
    t1: std::time::Instant,
    pid: i32,
    r0: u64,
    w0: u64,
    r1: u64,
    w1: u64,
)
    ensures
        ({
            let d = deltas(
                m.insert(pid, PrevIo { timestamp: t0, read_bytes: r0, write_bytes: w0 }),
                t1,
                seq![IoReading { pid, io: Some((r1, w1)) }],
            );
            &&& d.len() == 1
            &&& d[0].pid == pid
            &&& d[0].since == t0
            &&& (r0 <= r1 ==> d[0].read_delta == r1 - r0)
            &&& (r1 < r0 ==> d[0].read_delta == 0)
            &&& (w0 <= w1 ==> d[0].write_delta == w1 - w0)
            &&& (w1 < w0 ==> d[0].write_delta == 0)
        }),
        deltas(m.remove(pid), t1, seq![IoReading { pid, io: Some((r1, w1)) }]).len() == 0,
{
    let rs = seq![IoReading { pid, io: Some((r1, w1)) }];
    let e = Seq::<IoReading>::empty();
    assert(rs.drop_last() =~= e);
    assert(rs.last() == IoReading { pid, io: Some((r1, w1)) });
    let ma = m.insert(pid, PrevIo { timestamp: t0, read_bytes: r0, write_bytes: w0 });
    assert(deltas(ma, t1, e) =~= Seq::<IoDelta>::empty());
    assert(recorded(ma, t1, e) == ma);
    assert(deltas(m.remove(pid), t1, e) =~= Seq::<IoDelta>::empty());
    assert(recorded(m.remove(pid), t1, e) == m.remove(pid));
}

/// Two sweeps in a row: the second reports, for a process read in both,
/// the bytes read and written between the two readings.
pub proof fn second_sweep_reports_bytes_since_first(
    m: Map<i32, PrevIo>,
    t0: std::time::Instant,
    t1: std::time::Instant,
    pid: i32,
    r0: u64,
    w0: u64,
    r1: u64,
    w1: u64,
)
    requires
        r0 <= r1,
        w0 <= w1,
    ensures
        ({
            let first = seq![IoReading { pid, io: Some((r0, w0)) }];
            let kept = recorded(m, t0, first).restrict(seen(first));
            let d = deltas(kept, t1, seq![IoReading { pid, io: Some((r1, w1)) }]);
            &&& d.len() == 1
            &&& d[0].pid == pid
            &&& d[0].since == t0
            &&& d[0].read_delta == r1 - r0
            &&& d[0].write_delta == w1 - w0
        }),
{
    let first = seq![IoReading { pid, io: Some((r0, w0)) }];
    let e = Seq::<IoReading>::empty();
    assert(first.drop_last() =~= e);
    assert(first.last() == IoReading { pid, io: Some((r0, w0)) });
    assert(recorded(m, t0, e) == m);
    assert(first[0].pid == pid);
    assert(seen(first).contains(pid));
    let kept = recorded(m, t0, first).restrict(seen(first));
    assert(kept.contains_key(pid));
    assert(kept[pid] == PrevIo { timestamp: t0, read_bytes: r0, write_bytes: w0 });
    let rs = seq![IoReading { pid, io: Some((r1, w1)) }];
    assert(rs.drop_last() =~= e);
    assert(rs.last() == IoReading { pid, io: Some((r1, w1)) });
    assert(deltas(kept, t1, e) =~= Seq::<IoDelta>::empty());
    assert(recorded(kept, t1, e) == kept);
}

impl ProcessIoTracker {
    pub closed spec fn known(&self) -> Map<i32, PrevIo> {
        self.prev@
    }

    pub fn new() -> (t: Self)
        ensures
            t.known() == Map::<i32, PrevIo>::empty(),
    {
        ProcessIoTracker { prev: HashMap::new() }
    }

    /// Records one sweep over the processes taken at `now`: returns the
    /// byte deltas of the processes it tracked and could read, records the
    /// counters it could read, and forgets processes that were not seen.
    pub fn update(&mut self, now: std::time::Instant, readings: &Vec<IoReading>) -> (d: Vec<IoDelta>)
        ensures
            d@ == deltas(old(self).known(), now, readings@),
            final(self).known() == recorded(old(self).known(), now, readings@).restrict(
                seen(readings@),
            ),
    {
        broadcast use vstd::std_specs::hash::group_hash_axioms;
        let ghost m0 = self.prev@;
        let mut out: Vec<IoDelta> = Vec::new();
        let mut i: usize = 0;
        while i < readings.len()
            invariant
                i <= readings.len(),
                self.prev@ == recorded(m0, now, readings@.take(i as int)),
                out@ == deltas(m0, now, readings@.take(i as int)),
            decreases readings.len() - i,
        {
            let r = readings[i];
            proof {
                assert(readings@.take(i + 1).drop_last() =~= readings@.take(i as int));
                assert(readings@.take(i + 1).last() == r);
            }
            if let Some((rd, wr)) = r.io {
                if let Some(p) = self.prev.get(&r.pid) {
                    let p = *p;
                    out.push(
                        IoDelta {
                            pid: r.pid,
                            since: p.timestamp,
                            read_delta: rd.saturating_sub(p.read_bytes),
                            write_delta: wr.saturating_sub(p.write_bytes),
                        },
                    );
                }
                self.prev.insert(r.pid, PrevIo { timestamp: now, read_bytes: rd, write_bytes: wr });
            }
            i = i + 1;
        }
        assert(readings@.take(readings.len() as int) =~= readings@);
        let ghost full = self.prev@;
        let mut kept: HashMap<i32, PrevIo> = HashMap::new();
        let mut j: usize = 0;
        while j < readings.len()
            invariant
                j <= readings.len(),
                self.prev@ == full,
                kept@ == full.restrict(seen(readings@.take(j as int))),
            decreases readings.len() - j,
        {
            let pid = readings[j].pid;
            proof {
                assert(seen(readings@.take(j + 1)) =~= seen(readings@.take(j as int)).insert(pid)) by {
                    assert forall|q: i32| seen(readings@.take(j + 1)).contains(q) implies seen(
                        readings@.take(j as int),
                    ).insert(pid).contains(q) by {
                        let k = choose|k: int| 0 <= k < j + 1 && #[trigger] readings@.take(j + 1)[k].pid == q;
                        if k < j {
                            assert(readings@.take(j as int)[k].pid == q);
                        }
                    }
                    assert forall|q: i32| seen(readings@.take(j as int)).insert(pid).contains(q) implies seen(
                        readings@.take(j + 1),
                    ).contains(q) by {
                        if q == pid {
                            assert(readings@.take(j + 1)[j as int].pid == q);
                        } else {
                            let k = choose|k: int| 0 <= k < j && #[trigger] readings@.take(j as int)[k].pid == q;
                            assert(readings@.take(j + 1)[k].pid == q);
                        }
                    }
                }
            }
            if let Some(p) = self.prev.get(&pid) {
                let p = *p;
                kept.insert(pid, p);
            }
            proof {
                assert(kept@ =~= full.restrict(seen(readings@.take(j + 1))));
            }
            j = j + 1;
        }
        assert(readings@.take(readings.len() as int) =~= readings@);
        self.prev = kept;
        out
    }
}

} // verus!
