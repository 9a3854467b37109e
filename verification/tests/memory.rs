use sysmon::memory::{
    human_bytes_gib, human_bytes_mib, parse_meminfo, parse_vmstat, MemInfo,
};

const REALISTIC_MEMINFO: &str = "\
MemTotal:       32768000 kB
MemFree:         1024000 kB
MemAvailable:   16384000 kB
Buffers:          512000 kB
Cached:         12288000 kB
SwapCached:        10240 kB
Active:         14000000 kB
Inactive:        8000000 kB
SwapTotal:       8388608 kB
SwapFree:        7340032 kB
Dirty:             12800 kB
Writeback:          2048 kB
AnonPages:       9000000 kB
Mapped:          2000000 kB
Shmem:           1500000 kB
";

const REALISTIC_VMSTAT: &str = "\
nr_free_pages 262144
nr_zone_inactive_anon 1000000
pgalloc_dma 500
pgalloc_dma32 150000
pgalloc_normal 9000000
pgalloc_movable 50000
pgfree 9500000
pgfault 25000000
pgmajfault 1234
pswpin 5678
pswpout 9012
pgsteal_kswapd 100000
";

const MEMINFO_NO_SWAP: &str = "\
MemTotal:       16384000 kB
MemFree:          512000 kB
MemAvailable:    4096000 kB
SwapTotal:             0 kB
SwapFree:              0 kB
Dirty:                 0 kB
Writeback:             0 kB
";

const VMSTAT_SINGLE_ZONE: &str = "\
pgalloc_normal 5000000
pgfree 4800000
pgfault 10000000
pgmajfault 42
pswpin 0
pswpout 0
";

#[test]
fn test_parse_meminfo_realistic() {
    let info = parse_meminfo(REALISTIC_MEMINFO).unwrap();
    assert_eq!(info.ram_total_kb, 32_768_000);
    assert_eq!(info.ram_used_kb, 32_768_000 - 16_384_000);
    assert_eq!(info.swap_total_kb, 8_388_608);
    assert_eq!(info.swap_used_kb, 8_388_608 - 7_340_032);
    assert_eq!(info.dirty_kb, 12_800);
    assert_eq!(info.writeback_kb, 2_048);
}

#[test]
fn test_parse_meminfo_no_swap() {
    let info = parse_meminfo(MEMINFO_NO_SWAP).unwrap();
    assert_eq!(info.ram_total_kb, 16_384_000);
    assert_eq!(info.ram_used_kb, 16_384_000 - 4_096_000);
    assert_eq!(info.swap_total_kb, 0);
    assert_eq!(info.swap_used_kb, 0);
    assert_eq!(info.dirty_kb, 0);
    assert_eq!(info.writeback_kb, 0);
}

#[test]
fn test_parse_meminfo_empty_input() {
    let info = parse_meminfo("").unwrap();
    assert_eq!(info.ram_total_kb, 0);
    assert_eq!(info.ram_used_kb, 0);
    assert_eq!(info.swap_total_kb, 0);
    assert_eq!(info.swap_used_kb, 0);
}

#[test]
fn test_parse_meminfo_ignores_unknown_keys() {
    let content = "SomeOtherField: 99999 kB\nMemTotal: 8000000 kB\n";
    let info = parse_meminfo(content).unwrap();
    assert_eq!(info.ram_total_kb, 8_000_000);
}

#[test]
fn test_parse_meminfo_used_never_underflows() {
    let content = "\
MemTotal:       1000 kB
MemAvailable:   5000 kB
SwapTotal:       100 kB
SwapFree:        500 kB
Dirty:             0 kB
Writeback:         0 kB
";
    let info = parse_meminfo(content).unwrap();
    assert_eq!(info.ram_used_kb, 0, "saturating_sub should prevent underflow");
    assert_eq!(info.swap_used_kb, 0, "saturating_sub should prevent underflow");
}

#[test]
fn test_parse_vmstat_realistic() {
    let snap = parse_vmstat(REALISTIC_VMSTAT).unwrap();
    let expected_pgalloc = 500 + 150_000 + 9_000_000 + 50_000;
    assert_eq!(snap.pgalloc_total, expected_pgalloc);
    assert_eq!(snap.pgfree, 9_500_000);
    assert_eq!(snap.pgfault, 25_000_000);
    assert_eq!(snap.pgmajfault, 1_234);
    assert_eq!(snap.pswpin, 5_678);
    assert_eq!(snap.pswpout, 9_012);
}

#[test]
fn test_parse_vmstat_single_zone() {
    let snap = parse_vmstat(VMSTAT_SINGLE_ZONE).unwrap();
    assert_eq!(snap.pgalloc_total, 5_000_000);
    assert_eq!(snap.pgfree, 4_800_000);
    assert_eq!(snap.pgfault, 10_000_000);
    assert_eq!(snap.pgmajfault, 42);
    assert_eq!(snap.pswpin, 0);
    assert_eq!(snap.pswpout, 0);
}

#[test]
fn test_parse_vmstat_accumulates_pgalloc_zones() {
    let content = "\
pgalloc_dma 100
pgalloc_dma32 200
pgalloc_normal 300
pgalloc_movable 400
";
    let snap = parse_vmstat(content).unwrap();
    assert_eq!(snap.pgalloc_total, 1000);
}

#[test]
fn test_parse_vmstat_empty_input() {
    let snap = parse_vmstat("").unwrap();
    assert_eq!(snap.pgalloc_total, 0);
    assert_eq!(snap.pgfree, 0);
    assert_eq!(snap.pgfault, 0);
    assert_eq!(snap.pgmajfault, 0);
    assert_eq!(snap.pswpin, 0);
    assert_eq!(snap.pswpout, 0);
}

#[test]
fn test_parse_vmstat_ignores_unknown_keys() {
    let content = "nr_free_pages 999999\npgfault 42\nnr_dirty 500\n";
    let snap = parse_vmstat(content).unwrap();
    assert_eq!(snap.pgfault, 42);
    assert_eq!(snap.pgalloc_total, 0);
}

#[test]
fn test_meminfo_dirty_writeback_kb() {
    let info = parse_meminfo(REALISTIC_MEMINFO).unwrap();
    assert_eq!(info.dirty_writeback_kb(), 12_800 + 2_048);
}

#[test]
fn test_meminfo_dirty_writeback_kb_both_zero() {
    let info = parse_meminfo(MEMINFO_NO_SWAP).unwrap();
    assert_eq!(info.dirty_writeback_kb(), 0);
}

#[test]
fn test_meminfo_dirty_label() {
    let info = MemInfo {
        ram_total_kb: 32_768_000,
        ram_used_kb: 16_384_000,
        swap_total_kb: 0,
        swap_used_kb: 0,
        dirty_kb: 12_800,
        writeback_kb: 2_048,
    };
    let label = info.dirty_label();
    assert!(label.starts_with("Dirty+WB:"));
    assert!(label.contains("14.5MiB"));
}

#[test]
fn test_meminfo_dirty_label_zero() {
    let info = MemInfo {
        ram_total_kb: 16_384_000,
        ram_used_kb: 8_000_000,
        swap_total_kb: 0,
        swap_used_kb: 0,
        dirty_kb: 0,
        writeback_kb: 0,
    };
    assert_eq!(info.dirty_label(), "Dirty+WB: 0.0MiB");
}

#[test]
fn test_meminfo_ram_label_format() {
    let info = MemInfo {
        ram_total_kb: 32_768_000 ,
        ram_used_kb: 16_384_000,
        swap_total_kb: 0,
        swap_used_kb: 0,
        dirty_kb: 0,
        writeback_kb: 0,
    };
    let label = info.ram_label();
    assert!(label.starts_with("RAM:"));
    assert!(label.contains("50%"));
    assert!(label.contains("15.6GiB"));
    assert!(label.contains("31.2GiB"));
}

#[test]
fn test_meminfo_swap_label_format() {
    let info = MemInfo {
        ram_total_kb: 32_768_000,
        ram_used_kb: 16_384_000,
        swap_total_kb: 8_388_608,
        swap_used_kb: 4_194_304,
        dirty_kb: 0,
        writeback_kb: 0,
    };
    let label = info.swap_label();
    assert!(label.starts_with("SWP:"));
    assert!(label.contains("50%"));
    assert!(label.contains("4.0GiB"));
    assert!(label.contains("8.0GiB"));
}

#[test]
fn test_meminfo_ram_label_small_values_show_mib() {
    let info = MemInfo {
        ram_total_kb: 512_000,
        ram_used_kb: 256_000,
        swap_total_kb: 0,
        swap_used_kb: 0,
        dirty_kb: 0,
        writeback_kb: 0,
    };
    let label = info.ram_label();
    assert!(label.contains("MiB"), "small values should render as MiB: {}", label);
}

#[test]
fn test_human_bytes_mib_small_value() {
    assert_eq!(human_bytes_mib(512), "0.5MiB");
}

#[test]
fn test_human_bytes_mib_exact_mib() {
    assert_eq!(human_bytes_mib(1024), "1.0MiB");
}

#[test]
fn test_human_bytes_mib_large_value_shows_gib() {
    assert_eq!(human_bytes_mib(2_097_152), "2.0GiB");
}

#[test]
fn test_human_bytes_mib_zero() {
    assert_eq!(human_bytes_mib(0), "0.0MiB");
}

#[test]
fn test_human_bytes_mib_just_below_gib_threshold() {
    let just_under_gib_kb = 1024 * 1024 - 1;
    let result = human_bytes_mib(just_under_gib_kb);
    assert!(result.contains("MiB"), "just under 1 GiB should show MiB: {}", result);
}

#[test]
fn test_human_bytes_mib_at_gib_threshold() {
    let exactly_one_gib_kb = 1024 * 1024;
    let result = human_bytes_mib(exactly_one_gib_kb);
    assert!(result.contains("GiB"), "exactly 1 GiB should show GiB: {}", result);
}

const SUB_GIB_KB: u64 = 512;

const MULTI_GIB_KB: u64 = 10_485_760;

const SUB_GIB_RAM_TOTAL_KB: u64 = 512_000;

#[test]
fn test_human_bytes_gib_sub_gib() {
    let result = human_bytes_gib(SUB_GIB_KB);
    assert_eq!(result, "0MiB");
}

#[test]
fn test_human_bytes_gib_multi_gib() {
    let result = human_bytes_gib(MULTI_GIB_KB);
    assert_eq!(result, "10.0GiB");
}

#[test]
fn test_meminfo_ram_label_mib_values() {
    let info = MemInfo {
        ram_total_kb: SUB_GIB_RAM_TOTAL_KB,
        ram_used_kb: 256_000,
        swap_total_kb: 0,
        swap_used_kb: 0,
        dirty_kb: 0,
        writeback_kb: 0,
    };
    let label = info.ram_label();
    assert!(
        label.contains("MiB"),
        "sub-GiB ram_total should produce MiB in label: {}",
        label
    );
}

// The library renders sizes and percentages with exact integer arithmetic.
// These tests hold that rendering against the floating-point formatting the
// monitor's labels were first written with.

fn float_gib(kb: u64) -> String {
    let gib = kb as f64 / (1024.0 * 1024.0);
    if gib >= 1.0 {
        format!("{:.1}GiB", gib)
    } else {
        format!("{:.0}MiB", kb as f64 / 1024.0)
    }
}

fn float_mib(kb: u64) -> String {
    let mib = kb as f64 / 1024.0;
    if mib >= 1024.0 {
        format!("{:.1}GiB", mib / 1024.0)
    } else {
        format!("{:.1}MiB", mib)
    }
}

fn sample_sizes() -> Vec<u64> {
    let mut v: Vec<u64> = (0..5000).collect();
    let mut x: u64 = 1;
    for _ in 0..20000 {
        x = x.wrapping_mul(6364136223846793005).wrapping_add(1442695040888963407);
        v.push(x >> (x % 40 + 13));
    }
    for k in 0..4096u64 {
        v.push(1048576 * 3 + k * 256 + 128);
        v.push(k * 512 + 256);
        v.push(k * 1024 + 512);
    }
    v
}

#[test]
fn human_bytes_gib_matches_float_formatting() {
    for kb in sample_sizes() {
        assert_eq!(human_bytes_gib(kb), float_gib(kb), "kb = {kb}");
    }
}

#[test]
fn human_bytes_mib_matches_float_formatting() {
    for kb in sample_sizes() {
        assert_eq!(human_bytes_mib(kb), float_mib(kb), "kb = {kb}");
    }
}

#[test]
fn ram_label_percentage_matches_float_formatting() {
    for total in 1..300u64 {
        for used in 0..=total {
            // Exact halves (such as 23 of 40, 57.5%) are rounded to even by
            // the library; the float product can land on either side of them.
            if (used * 200) % total == 0 && ((used * 200) / total) % 2 == 1 {
                continue;
            }
            let info = MemInfo {
                ram_total_kb: total,
                ram_used_kb: used,
                swap_total_kb: 0,
                swap_used_kb: 0,
                dirty_kb: 0,
                writeback_kb: 0,
            };
            let pct = (used as f64 / total as f64) * 100.0;
            let expected = format!("RAM: {:>3.0}%  {}/{}", pct, float_gib(used), float_gib(total));
            assert_eq!(info.ram_label(), expected, "used {used} total {total}");
        }
    }
}

#[test]
fn ram_label_exact_half_percent_rounds_to_even() {
    let info = MemInfo {
        ram_total_kb: 8,
        ram_used_kb: 1,
        swap_total_kb: 0,
        swap_used_kb: 0,
        dirty_kb: 0,
        writeback_kb: 0,
    };
    assert_eq!(info.ram_label(), "RAM:  12%  0MiB/0MiB");
}

#[test]
fn parse_meminfo_last_duplicate_key_wins_and_crlf_is_accepted() {
    let info = parse_meminfo("MemTotal: 10 kB\r\nMemTotal: 20 kB\r\nMemAvailable: +5 kB\n").unwrap();
    assert_eq!(info.ram_total_kb, 20);
    assert_eq!(info.ram_used_kb, 15);
}

#[test]
fn parse_meminfo_malformed_value_reads_as_zero() {
    let info = parse_meminfo("MemTotal: 12x kB\nDirty:\nWriteback: 99999999999999999999999 kB\n").unwrap();
    assert_eq!(info.ram_total_kb, 0);
    assert_eq!(info.dirty_kb, 0);
    assert_eq!(info.writeback_kb, 0);
}

#[test]
fn swap_label_zero_total_shows_zero_percent() {
    let info = MemInfo {
        ram_total_kb: 0,
        ram_used_kb: 0,
        swap_total_kb: 0,
        swap_used_kb: 0,
        dirty_kb: 0,
        writeback_kb: 0,
    };
    assert_eq!(info.swap_label(), "SWP:   0%  0MiB/0MiB");
}

#[test]
fn percentages_round_the_binary64_ratio() {
    // 23 / 40 * 100 is 57.499999999999993 in binary64, so it prints as 57.
    let info = MemInfo {
        ram_total_kb: 40,
        ram_used_kb: 23,
        swap_total_kb: 0,
        swap_used_kb: 0,
        dirty_kb: 0,
        writeback_kb: 0,
    };
    assert_eq!(info.ram_label(), "RAM:  57%  0MiB/0MiB");
    for used in 0..=200u64 {
        for total in 1..=200u64 {
            let info = MemInfo {
                ram_total_kb: total,
                ram_used_kb: used,
                swap_total_kb: total,
                swap_used_kb: used,
                dirty_kb: 0,
                writeback_kb: 0,
            };
            let expect = format!("{:>3.0}%", (used as f64 / total as f64) * 100.0);
            assert!(info.ram_label().starts_with(&format!("RAM: {expect}")), "{used}/{total}");
            assert!(info.swap_label().starts_with(&format!("SWP: {expect}")), "{used}/{total}");
        }
    }
}
