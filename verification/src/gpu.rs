//! GPU readings: the device snapshot as the driver reports it, its header
//! and memory labels, and the list of processes using the device.
use vstd::prelude::*;
use crate::memory::{pct_rounded, pct_rounded_exec, push_dec_u128};
use crate::num::{dec_chars, push_dec, round_div, round_half_even};
use crate::text::{push_str, string_of};

verus! {

/// One reading of the device, in the driver's units: memory in bytes,
/// power in milliwatts, clocks in MHz, temperature in degrees Celsius,
/// utilisation and fan speed in percent.
#[derive(Debug, Clone)]
pub struct GpuSnapshot {
    pub name: String,
    pub driver: String,
    pub pcie_gen: String,
    pub pcie_width: String,
    pub vram_total_bytes: u64,
    pub vram_used_bytes: u64,
    pub gpu_util_pct: u32,
    pub mem_util_pct: u32,
    pub temp_celsius: u32,
    pub power_milliwatts: u32,
    pub power_limit_milliwatts: u32,
    pub clock_gpu_mhz: u32,
    pub clock_mem_mhz: u32,
    pub fan_pct: u32,
}

/// Bytes in whole MiB, rounded to nearest with ties to even.
pub open spec fn whole_mib(bytes: nat) -> nat {
    round_half_even(bytes, 1048576)
}

/// Milliwatts in whole watts, rounded to nearest with ties to even.
pub open spec fn whole_watts(mw: nat) -> nat {
    round_half_even(mw, 1000)
}

pub open spec fn header_spec(s: GpuSnapshot) -> Seq<char> {
    s.name@ + " | PCIe Gen"@ + s.pcie_gen@ + "x"@ + s.pcie_width@ + " | GPU "@ + dec_chars(
        s.clock_gpu_mhz as nat,
    ) + "MHz | MEM "@ + dec_chars(s.clock_mem_mhz as nat) + "MHz | "@ + dec_chars(s.temp_celsius as nat)
        + "°C | "@ + dec_chars(whole_watts(s.power_milliwatts as nat)) + "W/"@ + dec_chars(
        whole_watts(s.power_limit_milliwatts as nat),
    ) + "W | Fan "@ + dec_chars(s.fan_pct as nat) + "%"@
}

pub open spec fn vram_label_spec(s: GpuSnapshot) -> Seq<char> {
    "VRAM: "@ + dec_chars(whole_mib(s.vram_used_bytes as nat)) + "/"@ + dec_chars(
        whole_mib(s.vram_total_bytes as nat),
    ) + " MiB ("@ + dec_chars(pct_rounded(s.vram_used_bytes as nat, s.vram_total_bytes as nat)) + "%)"@
}

impl GpuSnapshot {
    /// The header line: name, PCIe link, clocks, temperature, power draw
    /// against its limit in whole watts, and fan speed.
    pub fn header_line(&self) -> (r: String)
        ensures
            r@ == header_spec(*self),
    {
        let mut out: Vec<char> = Vec::new();
        push_str(&mut out, self.name.as_str());
        push_str(&mut out, " | PCIe Gen");
        push_str(&mut out, self.pcie_gen.as_str());
        push_str(&mut out, "x");
        push_str(&mut out, self.pcie_width.as_str());
        push_str(&mut out, " | GPU ");
        push_dec(&mut out, self.clock_gpu_mhz as u64);
        push_str(&mut out, "MHz | MEM ");
        push_dec(&mut out, self.clock_mem_mhz as u64);
        push_str(&mut out, "MHz | ");
        push_dec(&mut out, self.temp_celsius as u64);
        push_str(&mut out, "°C | ");
        let p = round_div(self.power_milliwatts as u128, 1000);
        let l = round_div(self.power_limit_milliwatts as u128, 1000);
        assert(p <= u64::MAX && l <= u64::MAX) by {
            assert(round_half_even(self.power_milliwatts as nat, 1000) <= self.power_milliwatts as nat / 1000 + 1);
            assert(round_half_even(self.power_limit_milliwatts as nat, 1000) <= self.power_limit_milliwatts as nat / 1000 + 1);
        }
        push_dec(&mut out, p as u64);
        push_str(&mut out, "W/");
        push_dec(&mut out, l as u64);
        push_str(&mut out, "W | Fan ");
        push_dec(&mut out, self.fan_pct as u64);
        push_str(&mut out, "%");
        assert(out@ =~= header_spec(*self));
        string_of(&out)
    }

    /// The memory label: used and total memory in whole MiB and the share
    /// used in whole percent (zero without memory).
    pub fn vram_label(&self) -> (r: String)
        ensures
            r@ == vram_label_spec(*self),
    {
        let mut out: Vec<char> = Vec::new();
        push_str(&mut out, "VRAM: ");
        let used = round_div(self.vram_used_bytes as u128, 1048576);
        let total = round_div(self.vram_total_bytes as u128, 1048576);
        assert(used <= u64::MAX && total <= u64::MAX) by {
            assert(round_half_even(self.vram_used_bytes as nat, 1048576) <= self.vram_used_bytes as nat / 1048576 + 1);
            assert(round_half_even(self.vram_total_bytes as nat, 1048576) <= self.vram_total_bytes as nat / 1048576 + 1);
        }
        push_dec(&mut out, used as u64);
        push_str(&mut out, "/");
        push_dec(&mut out, total as u64);
        push_str(&mut out, " MiB (");
        let pct = pct_rounded_exec(self.vram_used_bytes, self.vram_total_bytes);
        push_dec_u128(&mut out, pct);
        push_str(&mut out, "%)");
        assert(out@ =~= vram_label_spec(*self));
        string_of(&out)
    }
}

/// A process's use of the device memory, as the driver reports it: bytes,
/// or unknown.
#[derive(Debug, Clone, Copy, PartialEq, Eq, Structural)]
pub struct GpuUsage {
    pub pid: u32,
    pub used_bytes: Option<u64>,
}

/// Device memory in whole MiB, rounded down; zero when unknown.
pub fn used_memory_to_mib(used: Option<u64>) -> (r: u64)
    ensures
        r == (match used {
            Some(b) => b / 1048576,
            None => 0,
        }),
{
    match used {
        Some(bytes) => bytes / (1024 * 1024),
        None => 0,
    }
}

/// How a process uses the device: compute, graphics, or both.
#[derive(Debug, Clone, Copy, PartialEq, Eq, Structural)]
pub enum ProcKind {
    Compute,
    Graphics,
    Both,
}

pub open spec fn proc_kind_label_spec(k: ProcKind) -> Seq<char> {
    match k {
        ProcKind::Compute => "C"@,
        ProcKind::Graphics => "G"@,
        ProcKind::Both => "C+G"@,
    }
}

/// The label of a process kind: `C`, `G` or `C+G`.
pub fn proc_kind_label(k: ProcKind) -> (s: &'static str)
    ensures
        s@ == proc_kind_label_spec(k),
{
    proof {
        reveal_strlit("C");
        reveal_strlit("G");
        reveal_strlit("C+G");
    }
    match k {
        ProcKind::Compute => "C",
        ProcKind::Graphics => "G",
        ProcKind::Both => "C+G",
    }
}

/// A process in the merged list: its pid, how it uses the device, and its
/// device memory in MiB.
#[derive(Debug, Clone, Copy, PartialEq, Eq, Structural)]
pub struct MergedProcess {
    pub pid: u32,
    pub kind: ProcKind,
    pub vram_mib: u64,
}

pub open spec fn mib_of(u: GpuUsage) -> u64 {
    match u.used_bytes {
        Some(b) => (b / 1048576) as u64,
        None => 0,
    }
}

/// The first position of a pid in the list, or the list's length.
pub open spec fn find_pid(m: Seq<MergedProcess>, pid: u32) -> nat
    decreases m.len(),
{
    if m.len() == 0 {
        0
    } else if m[0].pid == pid {
        0
    } else {
        1 + find_pid(m.drop_first(), pid)
    }
}

/// Adds the graphics processes, in order, to a list: a pid already in the
/// list is marked as both compute and graphics (its memory stays), a new
/// one is added as graphics.
pub open spec fn add_graphics(m: Seq<MergedProcess>, g: Seq<GpuUsage>) -> Seq<MergedProcess>
    decreases g.len(),
{
    if g.len() == 0 {
        m
    } else {
        let prev = add_graphics(m, g.drop_last());
        let u = g.last();
        let i = find_pid(prev, u.pid);
        if i < prev.len() {
            prev.update(i as int, MergedProcess { kind: ProcKind::Both, ..prev[i as int] })
        } else {
            prev.push(MergedProcess { pid: u.pid, kind: ProcKind::Graphics, vram_mib: mib_of(u) })
        }
    }
}

/// The merged process list: every compute process in order, then the
/// graphics processes added to it.
pub open spec fn merged_spec(compute: Seq<GpuUsage>, graphics: Seq<GpuUsage>) -> Seq<MergedProcess> {
    add_graphics(
        compute.map_values(|u: GpuUsage| MergedProcess { pid: u.pid, kind: ProcKind::Compute, vram_mib: mib_of(u) }),
        graphics,
    )
}

proof fn lemma_find_pid(m: Seq<MergedProcess>, pid: u32, k: int)
    requires
        0 <= k <= m.len(),
        forall|j: int| 0 <= j < k ==> (#[trigger] m[j]).pid != pid,
        k == m.len() || m[k].pid == pid,
    ensures
        find_pid(m, pid) == k,
    decreases k,
{
    if k > 0 {
        assert forall|j: int| 0 <= j < k - 1 implies (#[trigger] m.drop_first()[j]).pid != pid by {
            assert(m.drop_first()[j] == m[j + 1]);
        }
        if k < m.len() {
            assert(m.drop_first()[k - 1] == m[k]);
        }
        lemma_find_pid(m.drop_first(), pid, k - 1);
    }
}

/// Merges the compute and graphics process lists the driver reports into
/// one list, a process in both marked as such.
pub fn merge_gpu_processes(compute: &Vec<GpuUsage>, graphics: &Vec<GpuUsage>) -> (r: Vec<MergedProcess>)
    ensures
        r@ == merged_spec(compute@, graphics@),
{
    let mut out: Vec<MergedProcess> = Vec::new();
    let mut i: usize = 0;
    while i < compute.len()
        invariant
            i <= compute@.len(),
            out@ == compute@.take(i as int).map_values(
                |u: GpuUsage| MergedProcess { pid: u.pid, kind: ProcKind::Compute, vram_mib: mib_of(u) },
            ),
        decreases compute.len() - i,
    {
        let u = compute[i];
        out.push(MergedProcess { pid: u.pid, kind: ProcKind::Compute, vram_mib: used_memory_to_mib(u.used_bytes) });
        i = i + 1;
        assert(out@ =~= compute@.take(i as int).map_values(
            |u: GpuUsage| MergedProcess { pid: u.pid, kind: ProcKind::Compute, vram_mib: mib_of(u) },
        ));
    }
    let ghost base = out@;
    assert(compute@.take(compute@.len() as int) =~= compute@);
    let mut j: usize = 0;
    assert(graphics@.take(0) =~= Seq::<GpuUsage>::empty());
    while j < graphics.len()
        invariant
            j <= graphics@.len(),
            base == merged_spec(compute@, Seq::<GpuUsage>::empty()),
            out@ == add_graphics(base, graphics@.take(j as int)),
        decreases graphics.len() - j,
    {
        let u = graphics[j];
        proof {
            assert(graphics@.take(j + 1).drop_last() =~= graphics@.take(j as int));
            assert(graphics@.take(j + 1).last() == u);
        }
        let mut k: usize = 0;
        while k < out.len() && out[k].pid != u.pid
            invariant
                k <= out@.len(),
                forall|q: int| 0 <= q < k ==> (#[trigger] out@[q]).pid != u.pid,
            decreases out.len() - k,
        {
            k = k + 1;
        }
        proof {
            lemma_find_pid(out@, u.pid, k as int);
        }
        if k < out.len() {
            let e = out[k];
            out.set(k, MergedProcess { kind: ProcKind::Both, ..e });
        } else {
            out.push(MergedProcess { pid: u.pid, kind: ProcKind::Graphics, vram_mib: used_memory_to_mib(u.used_bytes) });
        }
        j = j + 1;
    }
    assert(graphics@.take(graphics@.len() as int) =~= graphics@);
    out
}

} // verus!
