//! The disk monitor's process table: per-process read and write traffic
//! over the last interval, ordered by a chosen column in either direction.
//!
//! A row keeps its byte counts and interval; its rates are the binary64
//! quotients bytes / seconds, and rows are ordered by those values.
use vstd::prelude::*;
use crate::binary64::{
    b64_add, b64_add_exec, bit_len, lemma_bit_len_at_most, lemma_bit_len_bounds,
    lemma_bit_len_exact, lemma_mantissa_bits, lemma_two_pow_values, round_ratio, round_ratio_exec,
    two_pow,
};
use crate::dio::{sort_column_next, IoDelta, SortColumn};

verus! {

/// One process's I/O over its last interval: bytes read and written, and
/// the interval's length; its rates are those bytes over that time.
#[derive(Debug, Clone)]
pub struct ProcessIoEntry {
    pub pid: i32,
    pub comm: String,
    pub read_bytes: u64,
    pub write_bytes: u64,
    pub elapsed_nanos: u64,
}

/// The entry for a process's byte deltas over an interval, named `comm`:
/// none for an empty interval or a process that moved no bytes.
pub fn entry_from_delta(d: &IoDelta, elapsed_nanos: u64, comm: String) -> (r: Option<ProcessIoEntry>)
    ensures
        (elapsed_nanos == 0 || (d.read_delta == 0 && d.write_delta == 0)) ==> r is None,
        !(elapsed_nanos == 0 || (d.read_delta == 0 && d.write_delta == 0)) ==> (r matches Some(e) && e
            == ProcessIoEntry {
            pid: d.pid,
            comm,
            read_bytes: d.read_delta,
            write_bytes: d.write_delta,
            elapsed_nanos,
        }),
{
    if elapsed_nanos == 0 || (d.read_delta == 0 && d.write_delta == 0) {
        None
    } else {
        Some(
            ProcessIoEntry {
                pid: d.pid,
                comm,
                read_bytes: d.read_delta,
                write_bytes: d.write_delta,
                elapsed_nanos,
            },
        )
    }
}

/// A copy of an entry.
pub fn copy_entry(e: &ProcessIoEntry) -> (r: ProcessIoEntry)
    ensures
        r == *e,
{
    ProcessIoEntry {
        pid: e.pid,
        comm: e.comm.clone(),
        read_bytes: e.read_bytes,
        write_bytes: e.write_bytes,
        elapsed_nanos: e.elapsed_nanos,
    }
}

/// The sign of `x - y`.
pub open spec fn sign(x: int, y: int) -> int {
    if x < y {
        -1
    } else if x > y {
        1
    } else {
        0
    }
}

/// A non-negative binary64 value: none for zero, else `(mant, exp)`.
pub open spec fn b64_of(n: nat) -> Option<(nat, int)> {
    if n == 0 {
        None
    } else {
        Some(round_ratio(n, 1, 0))
    }
}

/// The binary64 sum of two non-negative values.
pub open spec fn b64_sum(a: Option<(nat, int)>, b: Option<(nat, int)>) -> Option<(nat, int)> {
    match (a, b) {
        (Some(x), Some(y)) => Some(b64_add(x, y)),
        (Some(x), None) => Some(x),
        (None, y) => y,
    }
}

/// The binary64 quotient of two non-negative values (zero over zero taken
/// as zero; no row has a zero interval).
pub open spec fn b64_quot(a: Option<(nat, int)>, b: Option<(nat, int)>) -> Option<(nat, int)> {
    match (a, b) {
        (Some(x), Some(y)) => Some(round_ratio(x.0, y.0, x.1 - y.1)),
        _ => None,
    }
}

/// `Duration::as_secs_f64` of `ns` nanoseconds: the whole seconds plus the
/// remaining nanoseconds over 1e9, in binary64.
pub open spec fn secs_f64(ns: nat) -> Option<(nat, int)> {
    let frac = if ns % 1_000_000_000 == 0 {
        None
    } else {
        Some(round_ratio(ns % 1_000_000_000, 1_000_000_000, 0))
    };
    b64_sum(b64_of(ns / 1_000_000_000), frac)
}

/// The read rate of a row: bytes read over its interval in seconds.
pub open spec fn read_rate(e: ProcessIoEntry) -> Option<(nat, int)> {
    b64_quot(b64_of(e.read_bytes as nat), secs_f64(e.elapsed_nanos as nat))
}

/// The write rate of a row.
pub open spec fn write_rate(e: ProcessIoEntry) -> Option<(nat, int)> {
    b64_quot(b64_of(e.write_bytes as nat), secs_f64(e.elapsed_nanos as nat))
}

/// The total rate of a row: its read and write rates added.
pub open spec fn total_rate(e: ProcessIoEntry) -> Option<(nat, int)> {
    b64_sum(read_rate(e), write_rate(e))
}

/// A non-negative value as an integer in the same order: zero lowest,
/// then by exponent, then by mantissa.
pub open spec fn b64_rank(a: Option<(nat, int)>) -> int {
    match a {
        None => 0,
        Some(f) => (f.1 + 1000) * two_pow(53) + f.0,
    }
}

/// How two entries compare on a column: their rates, or their pids.
#[verifier::opaque]
pub open spec fn key_order(c: SortColumn, a: ProcessIoEntry, b: ProcessIoEntry) -> int {
    match c {
        SortColumn::TotalBytes => sign(b64_rank(total_rate(a)), b64_rank(total_rate(b))),
        SortColumn::ReadBytes => sign(b64_rank(read_rate(a)), b64_rank(read_rate(b))),
        SortColumn::WriteBytes => sign(b64_rank(write_rate(a)), b64_rank(write_rate(b))),
        SortColumn::Pid => sign(a.pid as int, b.pid as int),
    }
}

pub open spec fn opt_view(r: Option<(u128, i32)>) -> Option<(nat, int)> {
    match r {
        Some(f) => Some((f.0 as nat, f.1 as int)),
        None => None,
    }
}

pub open spec fn normal_in(r: Option<(u128, i32)>, lo: int, hi: int) -> bool {
    r matches Some(f) ==> 0x10_0000_0000_0000 <= f.0 < 0x20_0000_0000_0000 && lo <= f.1 <= hi
}

fn b64_of_exec(n: u64) -> (r: Option<(u128, i32)>)
    ensures
        opt_view(r) == b64_of(n as nat),
        normal_in(r, -53, 12),
        (r is None) == (n == 0),
{
    if n == 0 {
        return None;
    }
    proof {
        lemma_two_pow_values();
        lemma_bit_len_at_most(n as nat, 64);
        lemma_bit_len_bounds(n as nat);
        assert(bit_len(1) == 1 + bit_len(0));
    }
    Some(round_ratio_exec(n as u128, 1, 0))
}

fn b64_sum_exec(a: Option<(u128, i32)>, b: Option<(u128, i32)>) -> (r: Option<(u128, i32)>)
    requires
        normal_in(a, -180, 180),
        normal_in(b, -180, 180),
    ensures
        opt_view(r) == b64_sum(opt_view(a), opt_view(b)),
        r matches Some(f) ==> 0x10_0000_0000_0000 <= f.0 < 0x20_0000_0000_0000,
        r matches Some(f) ==> (forall|lo: int, hi: int|
            normal_in(a, lo, hi) && normal_in(b, lo, hi) ==> lo - 1 <= f.1 <= hi + 2),
{
    match (a, b) {
        (Some(x), Some(y)) => Some(b64_add_exec(x, y)),
        (Some(x), None) => Some(x),
        (None, y) => y,
    }
}

fn secs_f64_exec(ns: u64) -> (r: Option<(u128, i32)>)
    ensures
        opt_view(r) == secs_f64(ns as nat),
        normal_in(r, -83, -15),
        (r is None) == (ns == 0),
{
    let secs = ns / 1_000_000_000;
    let sub = ns % 1_000_000_000;
    proof {
        lemma_two_pow_values();
        assert(two_pow(35) == 0x8_0000_0000nat && two_pow(29) == 0x2000_0000nat && two_pow(30)
            == 0x4000_0000nat) by {
            reveal_with_fuel(two_pow, 36);
        }
        lemma_bit_len_exact(1_000_000_000, 30);
        lemma_bit_len_at_most(secs as nat, 35);
        lemma_bit_len_at_most(sub as nat, 30);
        if secs > 0 {
            lemma_bit_len_bounds(secs as nat);
        }
        if sub > 0 {
            lemma_bit_len_bounds(sub as nat);
        }
        assert(bit_len(1) == 1 + bit_len(0));
    }
    let whole = if secs == 0 {
        None
    } else {
        Some(round_ratio_exec(secs as u128, 1, 0))
    };
    let frac = if sub == 0 {
        None
    } else {
        Some(round_ratio_exec(sub as u128, 1_000_000_000, 0))
    };
    assert(normal_in(whole, -83, -15) && normal_in(frac, -83, -15));
    let r = b64_sum_exec(whole, frac);
    assert(normal_in(whole, -82, -17) && normal_in(frac, -82, -17));
    r
}

fn rate_exec(bytes: u64, ns: u64) -> (r: Option<(u128, i32)>)
    ensures
        opt_view(r) == b64_quot(b64_of(bytes as nat), secs_f64(ns as nat)),
        normal_in(r, -91, 44),
{
    let a = b64_of_exec(bytes);
    let d = secs_f64_exec(ns);
    match (a, d) {
        (Some(x), Some(y)) => {
            proof {
                lemma_two_pow_values();
                lemma_mantissa_bits(x.0 as nat);
                lemma_mantissa_bits(y.0 as nat);
            }
            Some(round_ratio_exec(x.0, y.0, x.1 - y.1))
        },
        _ => None,
    }
}

fn rank_exec(a: Option<(u128, i32)>) -> (r: u128)
    requires
        normal_in(a, -500, 500),
    ensures
        r == b64_rank(opt_view(a)),
{
    match a {
        None => 0,
        Some(f) => {
            proof {
                lemma_two_pow_values();
            }
            let k = (f.1 + 1000) as u128;
            assert(k * 0x20_0000_0000_0000 <= 1500 * 0x20_0000_0000_0000) by (nonlinear_arith)
                requires
                    k <= 1500,
            ;
            k * 0x20_0000_0000_0000 + f.0
        },
    }
}

fn sign_u128(x: u128, y: u128) -> (r: i8)
    ensures
        r == sign(x as int, y as int),
{
    if x < y {
        -1
    } else if x > y {
        1
    } else {
        0
    }
}

/// How two entries compare on a column.
pub fn compare_entries(c: SortColumn, a: &ProcessIoEntry, b: &ProcessIoEntry) -> (r: i8)
    ensures
        r == key_order(c, *a, *b),
{
    reveal(key_order);
    match c {
        SortColumn::TotalBytes => {
            let ta = b64_sum_exec(
                rate_exec(a.read_bytes, a.elapsed_nanos),
                rate_exec(a.write_bytes, a.elapsed_nanos),
            );
            let tb = b64_sum_exec(
                rate_exec(b.read_bytes, b.elapsed_nanos),
                rate_exec(b.write_bytes, b.elapsed_nanos),
            );
            sign_u128(rank_exec(ta), rank_exec(tb))
        },
        SortColumn::ReadBytes => sign_u128(
            rank_exec(rate_exec(a.read_bytes, a.elapsed_nanos)),
            rank_exec(rate_exec(b.read_bytes, b.elapsed_nanos)),
        ),
        SortColumn::WriteBytes => sign_u128(
            rank_exec(rate_exec(a.write_bytes, a.elapsed_nanos)),
            rank_exec(rate_exec(b.write_bytes, b.elapsed_nanos)),
        ),
        SortColumn::Pid => {
            if a.pid < b.pid {
                -1
            } else if a.pid > b.pid {
                1
            } else {
                0
            }
        },
    }
}

/// Whether `a` goes before `b`: a smaller key ascending, a larger one
/// descending; equal keys keep their order.
pub open spec fn goes_before(c: SortColumn, descending: bool, a: ProcessIoEntry, b: ProcessIoEntry) -> bool {
    if descending {
        key_order(c, a, b) > 0
    } else {
        key_order(c, a, b) < 0
    }
}

/// The first position in `s` whose entry `x` goes before, or the end.
pub open spec fn insert_pos(s: Seq<ProcessIoEntry>, x: ProcessIoEntry, c: SortColumn, descending: bool) -> nat
    decreases s.len(),
{
    if s.len() == 0 {
        0
    } else if goes_before(c, descending, x, s[0]) {
        0
    } else {
        1 + insert_pos(s.drop_first(), x, c, descending)
    }
}

/// The entries in table order: each one, in turn, placed before the first
/// entry it goes before, which sorts them and keeps entries with equal
/// keys in the order given.
pub open spec fn sorted_entries(s: Seq<ProcessIoEntry>, c: SortColumn, descending: bool) -> Seq<ProcessIoEntry>
    decreases s.len(),
{
    if s.len() == 0 {
        seq![]
    } else {
        let t = sorted_entries(s.drop_last(), c, descending);
        let i = insert_pos(t, s.last(), c, descending) as int;
        t.take(i).push(s.last()) + t.skip(i)
    }
}

proof fn lemma_insert_pos(s: Seq<ProcessIoEntry>, x: ProcessIoEntry, c: SortColumn, descending: bool, k: int)
    requires
        0 <= k <= s.len(),
        forall|j: int| 0 <= j < k ==> !goes_before(c, descending, x, #[trigger] s[j]),
        k == s.len() || goes_before(c, descending, x, s[k]),
    ensures
        insert_pos(s, x, c, descending) == k,
    decreases k,
{
    if k > 0 {
        assert(!goes_before(c, descending, x, s[0]));
        assert forall|j: int| 0 <= j < k - 1 implies !goes_before(c, descending, x, #[trigger] s.drop_first()[j]) by {
            assert(s.drop_first()[j] == s[j + 1]);
        }
        if k < s.len() {
            assert(s.drop_first()[k - 1] == s[k]);
        }
        lemma_insert_pos(s.drop_first(), x, c, descending, k - 1);
    }
}

/// Puts the entries in table order for a column and direction.
pub fn sort_entries(entries: Vec<ProcessIoEntry>, c: SortColumn, descending: bool) -> (r: Vec<ProcessIoEntry>)
    ensures
        r@ == sorted_entries(entries@, c, descending),
{
    let mut out: Vec<ProcessIoEntry> = Vec::new();
    let mut i: usize = 0;
    assert(entries@.take(0) =~= Seq::<ProcessIoEntry>::empty());
    while i < entries.len()
        invariant
            i <= entries@.len(),
            out@ == sorted_entries(entries@.take(i as int), c, descending),
        decreases entries.len() - i,
    {
        let x = copy_entry(&entries[i]);
        proof {
            assert(entries@.take(i + 1).drop_last() =~= entries@.take(i as int));
            assert(entries@.take(i + 1).last() == entries@[i as int]);
        }
        let mut k: usize = 0;
        let mut found = false;
        while k < out.len() && !found
            invariant
                k <= out@.len(),
                forall|j: int| 0 <= j < k ==> !goes_before(c, descending, x, #[trigger] out@[j]),
                found ==> k < out@.len() && goes_before(c, descending, x, out@[k as int]),
            decreases out@.len() - k + (if found { 0int } else { 1int }),
        {
            let ord = compare_entries(c, &x, &out[k]);
            let before = if descending {
                ord > 0
            } else {
                ord < 0
            };
            if before {
                found = true;
            } else {
                k = k + 1;
            }
        }
        proof {
            lemma_insert_pos(out@, x, c, descending, k as int);
        }
        let ghost prev = out@;
        out.insert(k, x);
        proof {
            assert(out@ =~= prev.take(k as int).push(x) + prev.skip(k as int));
        }
        i = i + 1;
    }
    assert(entries@.take(entries@.len() as int) =~= entries@);
    out
}

proof fn lemma_insert_pos_facts(s: Seq<ProcessIoEntry>, x: ProcessIoEntry, c: SortColumn, descending: bool)
    ensures
        insert_pos(s, x, c, descending) <= s.len(),
        forall|k: int|
            0 <= k < insert_pos(s, x, c, descending) ==> !goes_before(c, descending, x, #[trigger] s[k]),
        insert_pos(s, x, c, descending) < s.len() ==> goes_before(
            c,
            descending,
            x,
            s[insert_pos(s, x, c, descending) as int],
        ),
    decreases s.len(),
{
    if s.len() > 0 && !goes_before(c, descending, x, s[0]) {
        lemma_insert_pos_facts(s.drop_first(), x, c, descending);
        assert forall|k: int|
            0 <= k < insert_pos(s, x, c, descending) implies !goes_before(c, descending, x, #[trigger] s[k]) by {
            if k > 0 {
                assert(s[k] == s.drop_first()[k - 1]);
            }
        }
        if insert_pos(s, x, c, descending) < s.len() {
            let p = insert_pos(s, x, c, descending) as int;
            assert(s[p] == s.drop_first()[p - 1]);
        }
    }
}

/// Ordering the rows keeps every row, as often as it occurs.
pub proof fn sorting_keeps_the_rows(s: Seq<ProcessIoEntry>, c: SortColumn, descending: bool)
    ensures
        sorted_entries(s, c, descending).to_multiset() == s.to_multiset(),
    decreases s.len(),
{
    broadcast use vstd::seq_lib::group_to_multiset_ensures;

    if s.len() > 0 {
        sorting_keeps_the_rows(s.drop_last(), c, descending);
        let t = sorted_entries(s.drop_last(), c, descending);
        let x = s.last();
        lemma_insert_pos_facts(t, x, c, descending);
        let i = insert_pos(t, x, c, descending) as int;
        assert(t.take(i).push(x) + t.skip(i) =~= t.insert(i, x));
        assert(s =~= s.drop_last().push(x));
    }
}

/// No row goes before one that comes earlier.
pub open spec fn rows_in_order(t: Seq<ProcessIoEntry>, c: SortColumn, descending: bool) -> bool {
    forall|i: int, j: int| 0 <= i < j < t.len() ==> !goes_before(c, descending, #[trigger] t[j], #[trigger] t[i])
}

proof fn lemma_goes_before_strict(c: SortColumn, descending: bool, a: ProcessIoEntry, b: ProcessIoEntry, e: ProcessIoEntry)
    ensures
        !(goes_before(c, descending, a, b) && goes_before(c, descending, b, a)),
        goes_before(c, descending, a, b) && goes_before(c, descending, b, e) ==> goes_before(c, descending, a, e),
{
    reveal(key_order);
}

/// The table is in order: no row goes before one above it.
pub proof fn sorting_orders_the_rows(s: Seq<ProcessIoEntry>, c: SortColumn, descending: bool)
    ensures
        rows_in_order(sorted_entries(s, c, descending), c, descending),
    decreases s.len(),
{
    if s.len() > 0 {
        let init = s.drop_last();
        sorting_orders_the_rows(init, c, descending);
        let t = sorted_entries(init, c, descending);
        let x = s.last();
        lemma_insert_pos_facts(t, x, c, descending);
        let p = insert_pos(t, x, c, descending) as int;
        let r = t.take(p).push(x) + t.skip(p);
        assert(r.len() == t.len() + 1);
        assert forall|i: int, j: int| 0 <= i < j < r.len() implies !goes_before(c, descending, #[trigger] r[j], #[trigger] r[i]) by {
            if j < p {
                assert(r[i] == t[i] && r[j] == t[j]);
            } else if j == p {
                assert(r[j] == x && r[i] == t[i]);
            } else if i < p {
                assert(r[i] == t[i] && r[j] == t[j - 1]);
            } else if i == p {
                assert(r[i] == x && r[j] == t[j - 1]);
                lemma_goes_before_strict(c, descending, t[j - 1], x, t[p]);
                if j - 1 > p {
                    assert(!goes_before(c, descending, t[j - 1], t[p]));
                }
            } else {
                assert(r[i] == t[i - 1] && r[j] == t[j - 1]);
            }
        }
    }
}

/// The process table: its rows, in order, the column and direction they
/// are ordered by, and whether some processes could not be read.
pub struct ProcessIoTable {
    pub entries: Vec<ProcessIoEntry>,
    pub sort_column: SortColumn,
    pub sort_descending: bool,
    pub permission_degraded: bool,
}

impl ProcessIoTable {
    /// An empty table ordered by total traffic, largest first.
    pub fn new() -> (t: Self)
        ensures
            t.entries@ == Seq::<ProcessIoEntry>::empty(),
            t.sort_column == SortColumn::TotalBytes,
            t.sort_descending,
            !t.permission_degraded,
    {
        ProcessIoTable {
            entries: Vec::new(),
            sort_column: SortColumn::TotalBytes,
            sort_descending: true,
            permission_degraded: false,
        }
    }

    /// Replaces the rows with a sweep's entries, in table order.
    pub fn update(&mut self, entries: Vec<ProcessIoEntry>, permission_degraded: bool)
        ensures
            final(self).entries@ == sorted_entries(entries@, old(self).sort_column, old(self).sort_descending),
            final(self).permission_degraded == permission_degraded,
            final(self).sort_column == old(self).sort_column,
            final(self).sort_descending == old(self).sort_descending,
    {
        self.entries = sort_entries(entries, self.sort_column, self.sort_descending);
        self.permission_degraded = permission_degraded;
    }

    /// Orders the rows by the next column.
    pub fn cycle_sort(&mut self)
        ensures
            final(self).sort_column == sort_column_next(old(self).sort_column),
            final(self).entries@ == sorted_entries(
                old(self).entries@,
                final(self).sort_column,
                old(self).sort_descending,
            ),
            final(self).sort_descending == old(self).sort_descending,
            final(self).permission_degraded == old(self).permission_degraded,
    {
        self.sort_column = self.sort_column.next();
        let mut entries: Vec<ProcessIoEntry> = Vec::new();
        std::mem::swap(&mut entries, &mut self.entries);
        self.entries = sort_entries(entries, self.sort_column, self.sort_descending);
    }

    /// Flips the direction and reverses the rows.
    pub fn toggle_sort_direction(&mut self)
        ensures
            final(self).sort_descending == !old(self).sort_descending,
            final(self).entries@ == old(self).entries@.reverse(),
            final(self).sort_column == old(self).sort_column,
            final(self).permission_degraded == old(self).permission_degraded,
    {
        self.sort_descending = !self.sort_descending;
        let n = self.entries.len();
        let mut rev: Vec<ProcessIoEntry> = Vec::new();
        let mut i: usize = n;
        while i > 0
            invariant
                i <= n,
                n == self.entries@.len(),
                rev@ == self.entries@.skip(i as int).reverse(),
            decreases i,
        {
            i = i - 1;
            let e = copy_entry(&self.entries[i]);
            proof {
                assert(self.entries@.skip(i as int).reverse() =~= self.entries@.skip(i + 1).reverse().push(
                    self.entries@[i as int],
                ));
            }
            rev.push(e);
        }
        assert(self.entries@.skip(0) =~= self.entries@);
        self.entries = rev;
    }
}

} // verus!
