//! Memory statistics: `/proc/meminfo` and `/proc/vmstat` parsing and the
//! human-readable labels of the memory monitor.
use vstd::prelude::*;
use crate::keyval::{key_value, line_key, line_value, text_lines};
use crate::num::{
    dec_chars, digit_char, pad_left, push_dec, push_padded, push_tenths, round_div,
    round_half_even, tenths_chars,
};
use crate::text::{eq_str, lines, push_str, string_of, views};
use crate::error::CollectError;
use crate::binary64::{
    b64_nearest_int, b64_nearest_int_exec, bit_len, lemma_mantissa_bits, lemma_bit_len_at_most, lemma_bit_len_bounds,
    lemma_two_pow_add, lemma_two_pow_mono, lemma_two_pow_values, round_ratio, round_ratio_exec,
    two_pow,
};

verus! {

/// Snapshot of memory usage parsed from /proc/meminfo.
#[derive(Debug, Clone, Copy, PartialEq, Eq, Structural)]
pub struct MemInfo {
    pub ram_total_kb: u64,
    pub ram_used_kb: u64,
    pub swap_total_kb: u64,
    pub swap_used_kb: u64,
    pub dirty_kb: u64,
    pub writeback_kb: u64,
}

/// Raw counters from /proc/vmstat used to compute rates.
#[derive(Debug, Clone, Copy, PartialEq, Eq, Structural, Default)]
pub struct VmStatSnapshot {
    pub pgalloc_total: u64,
    pub pgfree: u64,
    pub pgfault: u64,
    pub pgmajfault: u64,
    pub pswpin: u64,
    pub pswpout: u64,
}

/// The six meminfo counters the monitor reads, in the order MemTotal,
/// MemAvailable, SwapTotal, SwapFree, Dirty, Writeback.
pub type MemCounters = (u64, u64, u64, u64, u64, u64);

/// One meminfo line applied to the counters: a line whose key is one of the
/// six names sets that counter to the line's value; other lines change nothing.
pub open spec fn meminfo_step(t: MemCounters, l: Seq<char>) -> MemCounters {
    let k = line_key(l);
    let v = line_value(l);
    if k == "MemTotal:"@ {
        (v, t.1, t.2, t.3, t.4, t.5)
    } else if k == "MemAvailable:"@ {
        (t.0, v, t.2, t.3, t.4, t.5)
    } else if k == "SwapTotal:"@ {
        (t.0, t.1, v, t.3, t.4, t.5)
    } else if k == "SwapFree:"@ {
        (t.0, t.1, t.2, v, t.4, t.5)
    } else if k == "Dirty:"@ {
        (t.0, t.1, t.2, t.3, v, t.5)
    } else if k == "Writeback:"@ {
        (t.0, t.1, t.2, t.3, t.4, v)
    } else {
        t
    }
}

/// The counters after reading the lines in order, starting from zeros.
pub open spec fn meminfo_scan(ls: Seq<Seq<char>>) -> MemCounters
    decreases ls.len(),
{
    if ls.len() == 0 {
        (0, 0, 0, 0, 0, 0)
    } else {
        meminfo_step(meminfo_scan(ls.drop_last()), ls.last())
    }
}

pub open spec fn sat_sub(a: u64, b: u64) -> u64 {
    if a >= b {
        (a - b) as u64
    } else {
        0
    }
}

/// The memory snapshot that a meminfo text describes: used RAM is total
/// minus available, used swap is total minus free, both floored at zero.
pub open spec fn meminfo_of(content: Seq<char>) -> MemInfo {
    let t = meminfo_scan(lines(content));
    MemInfo {
        ram_total_kb: t.0,
        ram_used_kb: sat_sub(t.0, t.1),
        swap_total_kb: t.2,
        swap_used_kb: sat_sub(t.2, t.3),
        dirty_kb: t.4,
        writeback_kb: t.5,
    }
}

/// Parses the text of /proc/meminfo. Never fails: missing keys read as zero.
pub fn parse_meminfo(content: &str) -> (r: Result<MemInfo, CollectError>)
    ensures
        r == Ok::<MemInfo, CollectError>(meminfo_of(content@)),
{
    let ls = text_lines(content);
    let mut t: MemCounters = (0, 0, 0, 0, 0, 0);
    let mut i: usize = 0;
    while i < ls.len()
        invariant
            i <= ls.len(),
            views(ls@) == lines(content@),
            t == meminfo_scan(views(ls@).take(i as int)),
        decreases ls.len() - i,
    {
        let (key, v) = key_value(&ls[i]);
        if eq_str(&key, "MemTotal:") {
            t.0 = v;
        } else if eq_str(&key, "MemAvailable:") {
            t.1 = v;
        } else if eq_str(&key, "SwapTotal:") {
            t.2 = v;
        } else if eq_str(&key, "SwapFree:") {
            t.3 = v;
        } else if eq_str(&key, "Dirty:") {
            t.4 = v;
        } else if eq_str(&key, "Writeback:") {
            t.5 = v;
        }
        proof {
            let ghost ls_v = views(ls@);
            assert(ls_v.take(i + 1).drop_last() =~= ls_v.take(i as int));
            assert(ls_v.take(i + 1).last() == ls@[i as int]@);
        }
        i = i + 1;
    }
    proof {
        assert(views(ls@).take(ls.len() as int) =~= views(ls@));
    }
    Ok(MemInfo {
        ram_total_kb: t.0,
        ram_used_kb: t.0.saturating_sub(t.1),
        swap_total_kb: t.2,
        swap_used_kb: t.2.saturating_sub(t.3),
        dirty_kb: t.4,
        writeback_kb: t.5,
    })
}

/// Whether a vmstat line's key names one of the page-allocation zones whose
/// counters add up to `pgalloc_total`.
pub open spec fn is_pgalloc_key(k: Seq<char>) -> bool {
    k == "pgalloc_normal"@ || k == "pgalloc_dma"@ || k == "pgalloc_dma32"@ || k
        == "pgalloc_movable"@
}

/// The sum, over all lines, of the pgalloc zone counters.
pub open spec fn pgalloc_sum(ls: Seq<Seq<char>>) -> int
    decreases ls.len(),
{
    if ls.len() == 0 {
        0
    } else {
        pgalloc_sum(ls.drop_last()) + if is_pgalloc_key(line_key(ls.last())) {
            line_value(ls.last()) as int
        } else {
            0
        }
    }
}

/// One vmstat line applied to the snapshot.
pub open spec fn vmstat_step(s: VmStatSnapshot, l: Seq<char>) -> VmStatSnapshot {
    let k = line_key(l);
    let v = line_value(l);
    if is_pgalloc_key(k) {
        VmStatSnapshot { pgalloc_total: (s.pgalloc_total + v) as u64, ..s }
    } else if k == "pgfree"@ {
        VmStatSnapshot { pgfree: v, ..s }
    } else if k == "pgfault"@ {
        VmStatSnapshot { pgfault: v, ..s }
    } else if k == "pgmajfault"@ {
        VmStatSnapshot { pgmajfault: v, ..s }
    } else if k == "pswpin"@ {
        VmStatSnapshot { pswpin: v, ..s }
    } else if k == "pswpout"@ {
        VmStatSnapshot { pswpout: v, ..s }
    } else {
        s
    }
}

pub open spec fn zero_vmstat() -> VmStatSnapshot {
    VmStatSnapshot { pgalloc_total: 0, pgfree: 0, pgfault: 0, pgmajfault: 0, pswpin: 0, pswpout: 0 }
}

pub open spec fn vmstat_scan(ls: Seq<Seq<char>>) -> VmStatSnapshot
    decreases ls.len(),
{
    if ls.len() == 0 {
        zero_vmstat()
    } else {
        vmstat_step(vmstat_scan(ls.drop_last()), ls.last())
    }
}

proof fn lemma_pgalloc_sum_prefix(ls: Seq<Seq<char>>, i: int)
    requires
        0 <= i <= ls.len(),
    ensures
        0 <= pgalloc_sum(ls.take(i)) <= pgalloc_sum(ls),
        vmstat_scan(ls.take(i)).pgalloc_total == pgalloc_sum(ls.take(i)) || pgalloc_sum(
            ls.take(i),
        ) > u64::MAX,
    decreases ls.len() - i,
{
    if i < ls.len() {
        lemma_pgalloc_sum_prefix(ls, i + 1);
        assert(ls.take(i + 1).drop_last() =~= ls.take(i));
    } else {
        assert(ls.take(i) =~= ls);
    }
    lemma_pgalloc_sum_nonneg_scan(ls.take(i));
}

proof fn lemma_pgalloc_sum_nonneg_scan(ls: Seq<Seq<char>>)
    ensures
        pgalloc_sum(ls) >= 0,
        pgalloc_sum(ls) <= u64::MAX ==> vmstat_scan(ls).pgalloc_total == pgalloc_sum(ls),
    decreases ls.len(),
{
    if ls.len() > 0 {
        lemma_pgalloc_sum_nonneg_scan(ls.drop_last());
    }
}

/// Whether the pgalloc zone counters of a vmstat text add up to a `u64`;
/// `parse_vmstat` needs this (the sum is taken with unchecked `+=`).
pub open spec fn vmstat_fits(content: Seq<char>) -> bool {
    pgalloc_sum(lines(content)) <= u64::MAX
}

/// Parses the text of /proc/vmstat: the pgalloc zone counters are summed,
/// the other five counters keep the value of their last line.
pub fn parse_vmstat(content: &str) -> (r: Result<VmStatSnapshot, CollectError>)
    requires
        vmstat_fits(content@),
    ensures
        r == Ok::<VmStatSnapshot, CollectError>(vmstat_scan(lines(content@))),
{
    let ls = text_lines(content);
    let mut snap = VmStatSnapshot {
        pgalloc_total: 0,
        pgfree: 0,
        pgfault: 0,
        pgmajfault: 0,
        pswpin: 0,
        pswpout: 0,
    };
    let mut i: usize = 0;
    let ghost ls_v = views(ls@);
    while i < ls.len()
        invariant
            i <= ls.len(),
            ls_v == views(ls@),
            ls_v == lines(content@),
            pgalloc_sum(ls_v) <= u64::MAX,
            snap == vmstat_scan(ls_v.take(i as int)),
        decreases ls.len() - i,
    {
        let (key, v) = key_value(&ls[i]);
        proof {
            assert(ls_v.take(i + 1).drop_last() =~= ls_v.take(i as int));
            assert(ls_v.take(i + 1).last() == ls@[i as int]@);
            lemma_pgalloc_sum_prefix(ls_v, i + 1);
            lemma_pgalloc_sum_nonneg_scan(ls_v.take(i as int));
            lemma_pgalloc_sum_nonneg_scan(ls_v.take(i + 1));
        }
        if eq_str(&key, "pgalloc_normal") || eq_str(&key, "pgalloc_dma") || eq_str(
            &key,
            "pgalloc_dma32",
        ) || eq_str(&key, "pgalloc_movable") {
            snap.pgalloc_total = snap.pgalloc_total + v;
        } else if eq_str(&key, "pgfree") {
            snap.pgfree = v;
        } else if eq_str(&key, "pgfault") {
            snap.pgfault = v;
        } else if eq_str(&key, "pgmajfault") {
            snap.pgmajfault = v;
        } else if eq_str(&key, "pswpin") {
            snap.pswpin = v;
        } else if eq_str(&key, "pswpout") {
            snap.pswpout = v;
        }
        i = i + 1;
    }
    proof {
        assert(ls_v.take(ls.len() as int) =~= ls_v);
    }
    Ok(snap)
}

/// Executable check of `vmstat_fits`.
pub fn vmstat_counters_fit(content: &str) -> (b: bool)
    ensures
        b == vmstat_fits(content@),
{
    let ls = text_lines(content);
    let ghost ls_v = views(ls@);
    let mut sum: u64 = 0;
    let mut i: usize = 0;
    while i < ls.len()
        invariant
            i <= ls.len(),
            ls_v == views(ls@),
            ls_v == lines(content@),
            sum == pgalloc_sum(ls_v.take(i as int)),
        decreases ls.len() - i,
    {
        let (key, v) = key_value(&ls[i]);
        proof {
            assert(ls_v.take(i + 1).drop_last() =~= ls_v.take(i as int));
            assert(ls_v.take(i + 1).last() == ls@[i as int]@);
        }
        if eq_str(&key, "pgalloc_normal") || eq_str(&key, "pgalloc_dma") || eq_str(
            &key,
            "pgalloc_dma32",
        ) || eq_str(&key, "pgalloc_movable") {
            match sum.checked_add(v) {
                Some(s) => {
                    sum = s;
                },
                None => {
                    proof {
                        lemma_pgalloc_sum_prefix(ls_v, i + 1);
                    }
                    return false;
                },
            }
        }
        i = i + 1;
    }
    proof {
        assert(ls_v.take(ls.len() as int) =~= ls_v);
    }
    true
}

/// `kb` as "{:.1}GiB" when at least one GiB, else as "{:.0}MiB".
pub open spec fn human_bytes_gib_chars(kb: nat) -> Seq<char> {
    if kb >= 1048576 {
        tenths_chars(round_half_even(kb * 10, 1048576)) + "GiB"@
    } else {
        dec_chars(round_half_even(kb, 1024)) + "MiB"@
    }
}

/// `kb` as "{:.1}GiB" when at least 1024 MiB, else as "{:.1}MiB".
pub open spec fn human_bytes_mib_chars(kb: nat) -> Seq<char> {
    if kb >= 1048576 {
        tenths_chars(round_half_even(kb * 10, 1048576)) + "GiB"@
    } else {
        tenths_chars(round_half_even(kb * 10, 1024)) + "MiB"@
    }
}

/// `used` as a percentage of `total` computed in binary64 and printed as
/// `{:.0}` prints it: both converted to binary64, divided, multiplied by
/// 100, then rounded to the nearest integer (a tie to even); zero when
/// `total` (or `used`) is zero.
pub open spec fn pct_rounded(used: nat, total: nat) -> nat {
    if total == 0 || used == 0 {
        0
    } else {
        let u = round_ratio(used, 1, 0);
        let t = round_ratio(total, 1, 0);
        let q = round_ratio(u.0, t.0, u.1 - t.1);
        let p = round_ratio(100 * q.0, 1, q.1);
        b64_nearest_int(p)
    }
}

/// `pct_rounded(used, total)`, computed.
pub fn pct_rounded_exec(used: u64, total: u64) -> (r: u128)
    ensures
        r == pct_rounded(used as nat, total as nat),
{
    if total == 0 || used == 0 {
        return 0;
    }
    proof {
        lemma_two_pow_values();
        lemma_bit_len_at_most(used as nat, 64);
        lemma_bit_len_at_most(total as nat, 64);
        lemma_bit_len_bounds(used as nat);
        lemma_bit_len_bounds(total as nat);
        assert(bit_len(1) == 1 + bit_len(0));
    }
    let u = round_ratio_exec(used as u128, 1, 0);
    let t = round_ratio_exec(total as u128, 1, 0);
    proof {
        lemma_mantissa_bits(u.0 as nat);
        lemma_mantissa_bits(t.0 as nat);
    }
    let q = round_ratio_exec(u.0, t.0, u.1 - t.1);
    let n = 100 * q.0;
    proof {
        lemma_mantissa_bits(q.0 as nat);
        lemma_two_pow_add(53, 7);
        assert(two_pow(7) == 128) by {
            reveal_with_fuel(two_pow, 8);
        }
        lemma_bit_len_at_most(n as nat, 60);
        lemma_bit_len_bounds(n as nat);
    }
    let p = round_ratio_exec(n, 1, q.1);
    b64_nearest_int_exec(p.0, p.1)
}

fn push_human_bytes_gib(out: &mut Vec<char>, kb: u64)
    ensures
        final(out)@ == old(out)@ + human_bytes_gib_chars(kb as nat),
{
    if kb >= 1048576 {
        let q = round_div(kb as u128 * 10, 1048576);
        assert(q <= u64::MAX) by {
            assert(kb as nat * 10 / 1048576 <= u64::MAX);
        }
        push_tenths(out, q as u64);
        push_str(out, "GiB");
    } else {
        let q = round_div(kb as u128, 1024);
        push_dec(out, q as u64);
        push_str(out, "MiB");
    }
    assert(out@ =~= old(out)@ + human_bytes_gib_chars(kb as nat));
}

fn push_human_bytes_mib(out: &mut Vec<char>, kb: u64)
    ensures
        final(out)@ == old(out)@ + human_bytes_mib_chars(kb as nat),
{
    if kb >= 1048576 {
        let q = round_div(kb as u128 * 10, 1048576);
        assert(q <= u64::MAX) by {
            assert(kb as nat * 10 / 1048576 <= u64::MAX);
        }
        push_tenths(out, q as u64);
        push_str(out, "GiB");
    } else {
        let q = round_div(kb as u128 * 10, 1024);
        push_tenths(out, q as u64);
        push_str(out, "MiB");
    }
    assert(out@ =~= old(out)@ + human_bytes_mib_chars(kb as nat));
}

/// Kibibytes rendered in GiB with one decimal, or in whole MiB below one GiB.
pub fn human_bytes_gib(kb: u64) -> (s: String)
    ensures
        s@ == human_bytes_gib_chars(kb as nat),
{
    let mut out: Vec<char> = Vec::new();
    push_human_bytes_gib(&mut out, kb);
    assert(out@ =~= human_bytes_gib_chars(kb as nat));
    string_of(&out)
}

/// Kibibytes rendered in MiB with one decimal, or in GiB from 1024 MiB on.
pub fn human_bytes_mib(kb: u64) -> (s: String)
    ensures
        s@ == human_bytes_mib_chars(kb as nat),
{
    let mut out: Vec<char> = Vec::new();
    push_human_bytes_mib(&mut out, kb);
    assert(out@ =~= human_bytes_mib_chars(kb as nat));
    string_of(&out)
}

fn push_pct_label(out: &mut Vec<char>, prefix: &str, used: u64, total: u64)
    ensures
        final(out)@ == old(out)@ + prefix@ + pad_left(
            dec_chars(pct_rounded(used as nat, total as nat)),
            3,
        ) + "%  "@ + human_bytes_gib_chars(used as nat) + "/"@ + human_bytes_gib_chars(
            total as nat,
        ),
{
    push_str(out, prefix);
    let p = pct_rounded_exec(used, total);
    let mut digits: Vec<char> = Vec::new();
    push_dec_u128(&mut digits, p);
    push_padded(out, &digits, 3);
    push_str(out, "%  ");
    push_human_bytes_gib(out, used);
    push_str(out, "/");
    push_human_bytes_gib(out, total);
}

/// Appends the decimal rendering of a `u128`.
pub fn push_dec_u128(out: &mut Vec<char>, n: u128)
    ensures
        final(out)@ == old(out)@ + dec_chars(n as nat),
    decreases n,
{
    if n >= 10 {
        push_dec_u128(out, n / 10);
    }
    push_dec(out, (n % 10) as u64);
    proof {
        assert(dec_chars((n % 10) as nat) == seq![digit_char((n % 10) as nat)]);
        if n >= 10 {
            assert(dec_chars(n as nat) == dec_chars((n / 10) as nat).push(
                digit_char((n % 10) as nat),
            ));
        }
    }
    assert(out@ =~= old(out)@ + dec_chars(n as nat));
}

impl MemInfo {
    /// Dirty plus writeback kibibytes.
    pub fn dirty_writeback_kb(&self) -> (r: u64)
        requires
            self.dirty_kb + self.writeback_kb <= u64::MAX,
        ensures
            r == self.dirty_kb + self.writeback_kb,
    {
        self.dirty_kb + self.writeback_kb
    }

    /// "RAM: {pct:>3}%  {used}/{total}", sizes as `human_bytes_gib` renders them.
    pub fn ram_label(&self) -> (s: String)
        ensures
            s@ == "RAM: "@ + pad_left(
                dec_chars(pct_rounded(self.ram_used_kb as nat, self.ram_total_kb as nat)),
                3,
            ) + "%  "@ + human_bytes_gib_chars(self.ram_used_kb as nat) + "/"@
                + human_bytes_gib_chars(self.ram_total_kb as nat),
    {
        let mut out: Vec<char> = Vec::new();
        push_pct_label(&mut out, "RAM: ", self.ram_used_kb, self.ram_total_kb);
        assert(out@ =~= "RAM: "@ + pad_left(
            dec_chars(pct_rounded(self.ram_used_kb as nat, self.ram_total_kb as nat)),
            3,
        ) + "%  "@ + human_bytes_gib_chars(self.ram_used_kb as nat) + "/"@
            + human_bytes_gib_chars(self.ram_total_kb as nat));
        string_of(&out)
    }

    /// "SWP: {pct:>3}%  {used}/{total}", sizes as `human_bytes_gib` renders them.
    pub fn swap_label(&self) -> (s: String)
        ensures
            s@ == "SWP: "@ + pad_left(
                dec_chars(pct_rounded(self.swap_used_kb as nat, self.swap_total_kb as nat)),
                3,
            ) + "%  "@ + human_bytes_gib_chars(self.swap_used_kb as nat) + "/"@
                + human_bytes_gib_chars(self.swap_total_kb as nat),
    {
        let mut out: Vec<char> = Vec::new();
        push_pct_label(&mut out, "SWP: ", self.swap_used_kb, self.swap_total_kb);
        assert(out@ =~= "SWP: "@ + pad_left(
            dec_chars(pct_rounded(self.swap_used_kb as nat, self.swap_total_kb as nat)),
            3,
        ) + "%  "@ + human_bytes_gib_chars(self.swap_used_kb as nat) + "/"@
            + human_bytes_gib_chars(self.swap_total_kb as nat));
        string_of(&out)
    }

    /// "Dirty+WB: {size}", the sum rendered as `human_bytes_mib` renders it.
    pub fn dirty_label(&self) -> (s: String)
        requires
            self.dirty_kb + self.writeback_kb <= u64::MAX,
        ensures
            s@ == "Dirty+WB: "@ + human_bytes_mib_chars((self.dirty_kb + self.writeback_kb) as nat),
    {
        let mut out: Vec<char> = Vec::new();
        push_str(&mut out, "Dirty+WB: ");
        push_human_bytes_mib(&mut out, self.dirty_writeback_kb());
        assert(out@ =~= "Dirty+WB: "@ + human_bytes_mib_chars(
            (self.dirty_kb + self.writeback_kb) as nat,
        ));
        string_of(&out)
    }
}

} // verus!
