use std::time::Instant;
use sysmon::dio::{IoDelta, SortColumn};
use sysmon::process_table::{compare_entries, entry_from_delta, sort_entries, ProcessIoEntry, ProcessIoTable};

const SEC: u64 = 1_000_000_000;

fn entry(pid: i32, read: u64, write: u64, elapsed: u64) -> ProcessIoEntry {
    ProcessIoEntry { pid, comm: format!("p{pid}"), read_bytes: read, write_bytes: write, elapsed_nanos: elapsed }
}

fn pids(v: &[ProcessIoEntry]) -> Vec<i32> {
    v.iter().map(|e| e.pid).collect()
}

#[test]
fn new_table_sorts_by_total_descending() {
    let t = ProcessIoTable::new();
    assert!(t.entries.is_empty());
    assert!(t.sort_column == SortColumn::TotalBytes);
    assert!(t.sort_descending);
    assert!(!t.permission_degraded);
}

#[test]
fn rates_compare_across_different_intervals() {
    // 100 bytes in 1 s beats 150 bytes in 2 s.
    let a = entry(1, 100, 0, SEC);
    let b = entry(2, 150, 0, 2 * SEC);
    assert_eq!(compare_entries(SortColumn::ReadBytes, &a, &b), 1);
    assert_eq!(compare_entries(SortColumn::ReadBytes, &b, &a), -1);
    assert_eq!(compare_entries(SortColumn::WriteBytes, &a, &b), 0);
    assert_eq!(compare_entries(SortColumn::Pid, &a, &b), -1);
    let huge = entry(3, u64::MAX, u64::MAX, u64::MAX);
    let small = entry(4, 1, 0, 1);
    assert_eq!(compare_entries(SortColumn::TotalBytes, &huge, &small), 1);
}

#[test]
fn sorting_is_stable_for_equal_rates() {
    let v = vec![entry(5, 10, 0, SEC), entry(3, 20, 0, 2 * SEC), entry(9, 30, 0, SEC)];
    let desc = sort_entries(v.clone(), SortColumn::ReadBytes, true);
    assert_eq!(pids(&desc), vec![9, 5, 3]);
    let asc = sort_entries(v.clone(), SortColumn::ReadBytes, false);
    assert_eq!(pids(&asc), vec![5, 3, 9]);
    let by_pid = sort_entries(v, SortColumn::Pid, false);
    assert_eq!(pids(&by_pid), vec![3, 5, 9]);
}

#[test]
fn cycling_and_reversing_reorder_the_rows() {
    let mut t = ProcessIoTable::new();
    t.update(vec![entry(1, 0, 900, SEC), entry(2, 500, 0, SEC), entry(3, 100, 100, SEC)], true);
    assert_eq!(pids(&t.entries), vec![1, 2, 3]);
    assert!(t.permission_degraded);
    t.cycle_sort();
    assert_eq!(pids(&t.entries), vec![2, 3, 1]);
    t.cycle_sort();
    assert!(t.sort_column == SortColumn::WriteBytes);
    assert_eq!(pids(&t.entries), vec![1, 3, 2]);
    t.toggle_sort_direction();
    assert_eq!(pids(&t.entries), vec![2, 3, 1]);
    t.toggle_sort_direction();
    assert_eq!(pids(&t.entries), vec![1, 3, 2]);
}

#[test]
fn entries_need_traffic_and_time() {
    let d = IoDelta { pid: 7, since: Instant::now(), read_delta: 4096, write_delta: 0 };
    let e = entry_from_delta(&d, SEC, "cp".to_string()).unwrap();
    assert_eq!(e.pid, 7);
    assert_eq!(e.comm, "cp");
    assert_eq!(e.read_bytes, 4096);
    assert!(entry_from_delta(&d, 0, "cp".to_string()).is_none());
    let idle = IoDelta { pid: 8, since: Instant::now(), read_delta: 0, write_delta: 0 };
    assert!(entry_from_delta(&idle, SEC, "sh".to_string()).is_none());
}

#[test]
fn exact_order_agrees_with_float_rates_on_ordinary_values() {
    let v = vec![
        entry(1, 12_345, 678, 500_000_000),
        entry(2, 9_999, 1, 250_000_000),
        entry(3, 0, 70_000, 1_000_000_000),
        entry(4, 45_000, 45_000, 2_000_000_000),
    ];
    let sorted = sort_entries(v.clone(), SortColumn::TotalBytes, true);
    let mut by_float = v;
    by_float.sort_by(|a, b| {
        let ra = (a.read_bytes + a.write_bytes) as f64 / (a.elapsed_nanos as f64 / 1e9);
        let rb = (b.read_bytes + b.write_bytes) as f64 / (b.elapsed_nanos as f64 / 1e9);
        rb.partial_cmp(&ra).unwrap()
    });
    assert_eq!(pids(&sorted), pids(&by_float));
}

fn float_rate(bytes: u64, nanos: u64) -> f64 {
    bytes as f64 / std::time::Duration::from_nanos(nanos).as_secs_f64()
}

#[test]
fn rates_compare_as_binary64_quotients() {
    // 96 bytes in 30 ns and 64 bytes in 20 ns are the same exact rate, but
    // their binary64 quotients differ in the last bit.
    let a = entry(1, 96, 0, 30);
    let b = entry(2, 64, 0, 20);
    assert!(float_rate(96, 30) > float_rate(64, 20));
    assert_eq!(compare_entries(SortColumn::ReadBytes, &a, &b), 1);
    assert_eq!(compare_entries(SortColumn::ReadBytes, &b, &a), -1);
    let c = entry(3, 126, 0, 35);
    let d = entry(4, 36, 0, 10);
    assert_eq!(compare_entries(SortColumn::ReadBytes, &c, &d), -1);
}

#[test]
fn rate_order_matches_float_comparison() {
    let mut seed: u64 = 0x9e37_79b9_7f4a_7c15;
    let mut next = || {
        seed ^= seed << 13;
        seed ^= seed >> 7;
        seed ^= seed << 17;
        seed
    };
    for _ in 0..20000 {
        let na = next() % 3_000_000_000 + 1;
        let nb = next() % 3_000_000_000 + 1;
        let (ra, wa, rb, wb) = (next() % 100_000, next() % 1_000, next() % 100_000, next() % 1_000);
        let a = entry(1, ra, wa, na);
        let b = entry(2, rb, wb, nb);
        let fa = (float_rate(ra, na), float_rate(wa, na));
        let fb = (float_rate(rb, nb), float_rate(wb, nb));
        let sign = |x: f64, y: f64| if x < y { -1 } else if x > y { 1 } else { 0 };
        assert_eq!(compare_entries(SortColumn::ReadBytes, &a, &b), sign(fa.0, fb.0));
        assert_eq!(compare_entries(SortColumn::WriteBytes, &a, &b), sign(fa.1, fb.1));
        assert_eq!(compare_entries(SortColumn::TotalBytes, &a, &b), sign(fa.0 + fa.1, fb.0 + fb.1));
    }
}
