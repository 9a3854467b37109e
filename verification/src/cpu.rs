//! CPU statistics: `/proc/stat` parsing and the busy/total tick counts that
//! usage percentages are computed from.
use vstd::prelude::*;
use crate::error::CollectError;
use crate::keyval::text_lines;
use crate::num::{
    all_digits, dec_chars, dec_val, digit_char, digit_val, is_digit, parse_nat, parse_u64, parse_u64_spec,
    round_div, round_half_even, unsigned_body,
};
use crate::text::{
    chars_of, lines, split_char, split_char_vec, starts_with, string_of, trim, trim_vec, vec_has_prefix,
    views, words, words_vec,
};

verus! {

/// Cumulative tick counters of one CPU line of /proc/stat.
#[derive(Debug, Clone, Copy, PartialEq, Eq, Structural, Default)]
pub struct CpuTimes {
    pub user: u64,
    pub nice: u64,
    pub system: u64,
    pub idle: u64,
    pub iowait: u64,
    pub irq: u64,
    pub softirq: u64,
    pub steal: u64,
}

#[derive(Debug, Clone)]
pub struct CpuSnapshot {
    pub total: CpuTimes,
    pub per_core: Vec<CpuTimes>,
}

pub open spec fn times_sum(t: CpuTimes) -> int {
    t.user + t.nice + t.system + t.idle + t.iowait + t.irq + t.softirq + t.steal
}

impl CpuTimes {
    /// All eight counters added up.
    pub fn total(&self) -> (r: u64)
        requires
            times_sum(*self) <= u64::MAX,
        ensures
            r == times_sum(*self),
    {
        self.user + self.nice + self.system + self.idle + self.iowait + self.irq + self.softirq
            + self.steal
    }

    /// Ticks spent neither idle nor waiting for I/O.
    pub fn busy(&self) -> (r: u64)
        requires
            times_sum(*self) <= u64::MAX,
        ensures
            r == times_sum(*self) - self.idle - self.iowait,
    {
        self.total() - self.idle - self.iowait
    }
}

/// The numeric fields of a CPU line: every word after the first that reads
/// as a `u64`, in order (words that do not are skipped).
pub open spec fn numeric_fields(ws: Seq<Seq<char>>) -> Seq<u64>
    decreases ws.len(),
{
    if ws.len() == 0 {
        seq![]
    } else {
        let prev = numeric_fields(ws.drop_last());
        match parse_u64_spec(ws.last()) {
            Some(v) => prev.push(v),
            None => prev,
        }
    }
}

pub open spec fn field_or_zero(f: Seq<u64>, i: int) -> u64 {
    if i < f.len() {
        f[i]
    } else {
        0
    }
}

/// The counters of a CPU line: its numeric fields in the order user, nice,
/// system, idle, iowait, irq, softirq, steal, missing ones zero.
pub open spec fn cpu_line_spec(line: Seq<char>) -> CpuTimes {
    let ws = words(line);
    let f = numeric_fields(if ws.len() > 0 { ws.drop_first() } else { ws });
    CpuTimes {
        user: field_or_zero(f, 0),
        nice: field_or_zero(f, 1),
        system: field_or_zero(f, 2),
        idle: field_or_zero(f, 3),
        iowait: field_or_zero(f, 4),
        irq: field_or_zero(f, 5),
        softirq: field_or_zero(f, 6),
        steal: field_or_zero(f, 7),
    }
}

proof fn lemma_dec_chars_reads_back(n: nat)
    ensures
        parse_nat(dec_chars(n)) == Some(n),
        dec_chars(n).len() > 0,
        is_digit(dec_chars(n)[0]),
    decreases n,
{
    let s = dec_chars(n);
    if n < 10 {
        assert(s.drop_last() =~= Seq::<char>::empty());
        assert(is_digit(digit_char(n)) && digit_val(digit_char(n)) == n);
        assert(dec_val(Seq::<char>::empty()) == 0);
        assert(dec_val(s) == n);
        assert(s[0] != '+');
        assert(unsigned_body(s) == s);
        assert(all_digits(s));
    } else {
        lemma_dec_chars_reads_back(n / 10);
        let p = dec_chars(n / 10);
        let c = digit_char(n % 10);
        assert(is_digit(c) && digit_val(c) == n % 10);
        assert(s == p.push(c));
        assert(s.drop_last() =~= p);
        assert(s[0] == p[0]);
        assert(all_digits(s)) by {
            assert forall|k: int| 0 <= k < s.len() implies is_digit(#[trigger] s[k]) by {
                if k < p.len() {
                    assert(s[k] == p[k]);
                }
            }
        }
        assert(p[0] != '+');
        assert(unsigned_body(p) == p);
        assert(dec_val(p) == n / 10);
        assert(dec_val(s) == dec_val(p) * 10 + digit_val(c));
        assert(dec_val(s) == n);
        assert(s[0] != '+');
        assert(unsigned_body(s) == s);
    }
}

proof fn lemma_numeric_fields_of_numerals(a: Seq<u64>)
    ensures
        numeric_fields(a.map_values(|v: u64| dec_chars(v as nat))) == a,
    decreases a.len(),
{
    let ws = a.map_values(|v: u64| dec_chars(v as nat));
    if a.len() > 0 {
        lemma_numeric_fields_of_numerals(a.drop_last());
        assert(ws.drop_last() =~= a.drop_last().map_values(|v: u64| dec_chars(v as nat)));
        lemma_dec_chars_reads_back(a.last() as nat);
        assert(ws.last() == dec_chars(a.last() as nat));
        assert(a.drop_last().push(a.last()) =~= a);
    } else {
        assert(ws =~= Seq::<Seq<char>>::empty());
        assert(a =~= Seq::<u64>::empty());
    }
}

/// The counters of a CPU line are its numbers in the kernel's column
/// order: for a line whose words are a label (such as `cpu` or `cpu3`)
/// followed by the decimal numerals of `a[0]` to `a[7]`, user is `a[0]`,
/// nice `a[1]`, system `a[2]`, idle `a[3]`, iowait `a[4]`, irq `a[5]`,
/// softirq `a[6]` and steal `a[7]`.
pub proof fn cpu_line_columns(line: Seq<char>, label: Seq<char>, a: Seq<u64>)
    requires
        a.len() == 8,
        words(line) == seq![label] + a.map_values(|v: u64| dec_chars(v as nat)),
    ensures
        cpu_line_spec(line).user == a[0],
        cpu_line_spec(line).nice == a[1],
        cpu_line_spec(line).system == a[2],
        cpu_line_spec(line).idle == a[3],
        cpu_line_spec(line).iowait == a[4],
        cpu_line_spec(line).irq == a[5],
        cpu_line_spec(line).softirq == a[6],
        cpu_line_spec(line).steal == a[7],
{
    let ws = words(line);
    let nums = a.map_values(|v: u64| dec_chars(v as nat));
    assert(ws.drop_first() =~= nums);
    lemma_numeric_fields_of_numerals(a);
}

fn field_at(f: &Vec<u64>, i: usize) -> (r: u64)
    ensures
        r == field_or_zero(f@, i as int),
{
    if i < f.len() {
        f[i]
    } else {
        0
    }
}

/// Reads the tick counters of one `cpu...` line of /proc/stat.
pub fn parse_cpu_line(line: &str) -> (t: CpuTimes)
    ensures
        t == cpu_line_spec(line@),
{
    let v = crate::text::chars_of(line);
    cpu_line_vec(&v)
}

fn cpu_line_vec(v: &Vec<char>) -> (t: CpuTimes)
    ensures
        t == cpu_line_spec(v@),
{
    let ws = words_vec(v);
    let ghost wv = views(ws@);
    let ghost rest = if wv.len() > 0 {
        wv.drop_first()
    } else {
        wv
    };
    let mut fields: Vec<u64> = Vec::new();
    let mut i: usize = 1;
    if ws.len() == 0 {
        i = 0;
    }
    let start = i;
    while i < ws.len()
        invariant
            start <= i <= ws.len(),
            start == (if ws.len() > 0 {
                1usize
            } else {
                0usize
            }),
            wv == views(ws@),
            rest == (if wv.len() > 0 {
                wv.drop_first()
            } else {
                wv
            }),
            fields@ == numeric_fields(rest.take(i - start)),
        decreases ws.len() - i,
    {
        let r = parse_u64(&ws[i]);
        proof {
            assert(rest.take(i - start + 1).drop_last() =~= rest.take(i - start));
            assert(rest.take(i - start + 1).last() == ws@[i as int]@);
        }
        if let Some(x) = r {
            fields.push(x);
        }
        i = i + 1;
    }
    proof {
        assert(rest.take(i - start) =~= rest);
    }
    CpuTimes {
        user: field_at(&fields, 0),
        nice: field_at(&fields, 1),
        system: field_at(&fields, 2),
        idle: field_at(&fields, 3),
        iowait: field_at(&fields, 4),
        irq: field_at(&fields, 5),
        softirq: field_at(&fields, 6),
        steal: field_at(&fields, 7),
    }
}

pub struct CpuSnapshotView {
    pub total: CpuTimes,
    pub per_core: Seq<CpuTimes>,
}

/// One /proc/stat line applied to the snapshot: the aggregate `cpu ` line
/// sets the total, every other line starting with `cpu` adds a core.
pub open spec fn stat_step(s: CpuSnapshotView, line: Seq<char>) -> CpuSnapshotView {
    if starts_with(line, "cpu "@) {
        CpuSnapshotView { total: cpu_line_spec(line), ..s }
    } else if starts_with(line, "cpu"@) {
        CpuSnapshotView { per_core: s.per_core.push(cpu_line_spec(line)), ..s }
    } else {
        s
    }
}

pub open spec fn zero_times() -> CpuTimes {
    CpuTimes { user: 0, nice: 0, system: 0, idle: 0, iowait: 0, irq: 0, softirq: 0, steal: 0 }
}

pub open spec fn stat_scan(ls: Seq<Seq<char>>) -> CpuSnapshotView
    decreases ls.len(),
{
    if ls.len() == 0 {
        CpuSnapshotView { total: zero_times(), per_core: seq![] }
    } else {
        stat_step(stat_scan(ls.drop_last()), ls.last())
    }
}

/// Parses the text of /proc/stat. Never fails.
pub fn parse_stat(content: &str) -> (r: Result<CpuSnapshot, CollectError>)
    ensures
        r matches Ok(s) && s.total == stat_scan(lines(content@)).total && s.per_core@ == stat_scan(
            lines(content@),
        ).per_core,
{
    let ls = text_lines(content);
    let ghost lv = views(ls@);
    let mut total = CpuTimes {
        user: 0,
        nice: 0,
        system: 0,
        idle: 0,
        iowait: 0,
        irq: 0,
        softirq: 0,
        steal: 0,
    };
    let mut per_core: Vec<CpuTimes> = Vec::new();
    let cpu_space = crate::text::chars_of("cpu ");
    let cpu = crate::text::chars_of("cpu");
    let mut i: usize = 0;
    while i < ls.len()
        invariant
            i <= ls.len(),
            lv == views(ls@),
            lv == lines(content@),
            cpu_space@ == "cpu "@,
            cpu@ == "cpu"@,
            total == stat_scan(lv.take(i as int)).total,
            per_core@ == stat_scan(lv.take(i as int)).per_core,
        decreases ls.len() - i,
    {
        if vec_has_prefix(&ls[i], &cpu_space) {
            total = cpu_line_vec(&ls[i]);
        } else if vec_has_prefix(&ls[i], &cpu) {
            let t = cpu_line_vec(&ls[i]);
            per_core.push(t);
        }
        proof {
            assert(lv.take(i + 1).drop_last() =~= lv.take(i as int));
            assert(lv.take(i + 1).last() == ls@[i as int]@);
        }
        i = i + 1;
    }
    proof {
        assert(lv.take(ls.len() as int) =~= lv);
    }
    Ok(CpuSnapshot { total, per_core })
}

/// The processor's model name, its core and thread counts, and its
/// highest clock in kHz (0 when unknown).
#[derive(Debug, Clone)]
pub struct CpuInfo {
    pub model: String,
    pub cores: usize,
    pub threads: usize,
    pub max_freq_khz: u64,
}

impl CpuInfo {
    /// The highest clock in MHz, rounded to the nearest with ties to even.
    pub fn max_freq_mhz(&self) -> (r: u64)
        ensures
            r == round_half_even(self.max_freq_khz as nat, 1000),
    {
        let q = round_div(self.max_freq_khz as u128, 1000);
        assert(q <= u64::MAX) by {
            assert(round_half_even(self.max_freq_khz as nat, 1000) <= self.max_freq_khz as nat / 1000 + 1);
        }
        q as u64
    }
}

/// The position of the first line that starts with `p`, or the number of
/// lines.
pub open spec fn first_line_with(ls: Seq<Seq<char>>, p: Seq<char>) -> nat
    decreases ls.len(),
{
    if ls.len() == 0 {
        0
    } else if starts_with(ls[0], p) {
        0
    } else {
        1 + first_line_with(ls.drop_first(), p)
    }
}

/// How many lines start with `p`.
pub open spec fn count_lines_with(ls: Seq<Seq<char>>, p: Seq<char>) -> nat
    decreases ls.len(),
{
    if ls.len() == 0 {
        0
    } else {
        count_lines_with(ls.drop_last(), p) + if starts_with(ls.last(), p) {
            1nat
        } else {
            0nat
        }
    }
}

/// The model name: what follows the first colon of the first
/// `model name` line (up to a second colon), trimmed; `Unknown CPU`
/// without such a line or colon.
pub open spec fn cpu_model_spec(content: Seq<char>) -> Seq<char> {
    let ls = lines(content);
    let i = first_line_with(ls, "model name"@);
    if i < ls.len() && split_char(ls[i as int], ':').len() > 1 {
        trim(split_char(ls[i as int], ':')[1])
    } else {
        "Unknown CPU"@
    }
}

proof fn lemma_first_line_with(ls: Seq<Seq<char>>, p: Seq<char>, k: int)
    requires
        0 <= k <= ls.len(),
        forall|j: int| 0 <= j < k ==> !starts_with(#[trigger] ls[j], p),
        k == ls.len() || starts_with(ls[k], p),
    ensures
        first_line_with(ls, p) == k,
    decreases k,
{
    if k > 0 {
        assert forall|j: int| 0 <= j < k - 1 implies !starts_with(#[trigger] ls.drop_first()[j], p) by {
            assert(ls.drop_first()[j] == ls[j + 1]);
        }
        if k < ls.len() {
            assert(ls.drop_first()[k - 1] == ls[k]);
        }
        lemma_first_line_with(ls.drop_first(), p, k - 1);
    }
}

/// Reads `/proc/cpuinfo`: the model name, one thread per `processor`
/// line, and half as many cores as threads with hyper-threading.
pub fn parse_cpuinfo(content: &str, has_hyperthreading: bool, max_freq_khz: Option<u64>) -> (info: CpuInfo)
    ensures
        info.max_freq_khz == (match max_freq_khz {
            Some(k) => k,
            None => 0,
        }),
        info.model@ == cpu_model_spec(content@),
        info.threads == count_lines_with(lines(content@), "processor"@),
        info.cores == (if has_hyperthreading {
            (info.threads / 2) as int
        } else {
            info.threads as int
        }),
{
    let ls = text_lines(content);
    let ghost lv = views(ls@);
    let mut model_line: Option<usize> = None;
    let mut threads: usize = 0;
    let mut i: usize = 0;
    assert(lv.take(0) =~= Seq::<Seq<char>>::empty());
    while i < ls.len()
        invariant
            i <= ls@.len(),
            lv == views(ls@),
            lv == lines(content@),
            threads == count_lines_with(lv.take(i as int), "processor"@),
            threads <= i,
            match model_line {
                Some(k) => k < i && first_line_with(lv, "model name"@) == k,
                None => forall|j: int| 0 <= j < i ==> !starts_with(#[trigger] lv[j], "model name"@),
            },
        decreases ls.len() - i,
    {
        proof {
            assert(lv.take(i + 1).drop_last() =~= lv.take(i as int));
            assert(lv.take(i + 1).last() == lv[i as int]);
        }
        if vec_has_prefix(&ls[i], &chars_of("processor")) {
            threads = threads + 1;
        }
        if model_line.is_none() && vec_has_prefix(&ls[i], &chars_of("model name")) {
            proof {
                lemma_first_line_with(lv, "model name"@, i as int);
            }
            model_line = Some(i);
        }
        i = i + 1;
    }
    assert(lv.take(ls@.len() as int) =~= lv);
    let model = match model_line {
        Some(k) => {
            let parts = split_char_vec(&ls[k], ':');
            if parts.len() > 1 {
                string_of(&trim_vec(&parts[1]))
            } else {
                string_of(&chars_of("Unknown CPU"))
            }
        },
        None => {
            proof {
                lemma_first_line_with(lv, "model name"@, lv.len() as int);
            }
            string_of(&chars_of("Unknown CPU"))
        },
    };
    let cores = if has_hyperthreading {
        threads / 2
    } else {
        threads
    };
    let max_freq_khz = match max_freq_khz {
        Some(k) => k,
        None => 0,
    };
    CpuInfo { model, cores, threads, max_freq_khz }
}

} // verus!
