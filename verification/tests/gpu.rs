use sysmon::gpu::{merge_gpu_processes, proc_kind_label, used_memory_to_mib, GpuSnapshot, GpuUsage, ProcKind};

const MIB: u64 = 1024 * 1024;

fn sample_snapshot() -> GpuSnapshot {
    GpuSnapshot {
        name: "NVIDIA GeForce RTX 3090".to_string(),
        driver: "590.48.01".to_string(),
        pcie_gen: "4".to_string(),
        pcie_width: "16".to_string(),
        vram_total_bytes: 24576 * MIB,
        vram_used_bytes: 1481 * MIB,
        gpu_util_pct: 11,
        mem_util_pct: 10,
        temp_celsius: 28,
        power_milliwatts: 24_130,
        power_limit_milliwatts: 350_000,
        clock_gpu_mhz: 480,
        clock_mem_mhz: 810,
        fan_pct: 0,
    }
}

#[test]
fn test_header_line_format() {
    let header = sample_snapshot().header_line();
    assert!(header.contains("NVIDIA GeForce RTX 3090"));
    assert!(header.contains("PCIe Gen"));
    assert!(header.contains("°C"));
    assert!(header.contains("Fan"));
}

#[test]
fn test_header_line_contains_clocks() {
    let header = sample_snapshot().header_line();
    assert!(header.contains("480MHz"), "expected GPU clock in header: {header}");
    assert!(header.contains("810MHz"), "expected MEM clock in header: {header}");
}

#[test]
fn test_vram_label_format() {
    let label = sample_snapshot().vram_label();
    assert!(label.contains("VRAM:"));
    assert!(label.contains("MiB"));
    assert!(label.contains("%"));
}

#[test]
fn test_vram_label_with_real_data() {
    let label = sample_snapshot().vram_label();
    assert!(label.contains("1481"));
    assert!(label.contains("24576"));
}

#[test]
fn test_used_memory_to_mib_used() {
    let mib = used_memory_to_mib(Some(1024 * 1024 * 128));
    assert_eq!(mib, 128);
}

#[test]
fn test_used_memory_to_mib_unavailable() {
    let mib = used_memory_to_mib(None);
    assert_eq!(mib, 0);
}

#[test]
fn header_and_label_match_float_formatting() {
    let s = sample_snapshot();
    assert_eq!(
        s.header_line(),
        "NVIDIA GeForce RTX 3090 | PCIe Gen4x16 | GPU 480MHz | MEM 810MHz | 28°C | 24W/350W | Fan 0%"
    );
    assert_eq!(s.vram_label(), "VRAM: 1481/24576 MiB (6%)");
    for mw in [0u32, 499, 500, 1500, 2500, 24_130, 349_999, 350_500] {
        let snap = GpuSnapshot { power_milliwatts: mw, ..sample_snapshot() };
        let expected = format!("{:.0}W/350W", mw as f64 / 1000.0);
        assert!(snap.header_line().contains(&expected), "{mw}: {}", snap.header_line());
    }
    let empty = GpuSnapshot { vram_total_bytes: 0, vram_used_bytes: 0, ..sample_snapshot() };
    assert_eq!(empty.vram_label(), "VRAM: 0/0 MiB (0%)");
}

#[test]
fn processes_in_both_lists_are_merged() {
    let compute = vec![
        GpuUsage { pid: 10, used_bytes: Some(512 * MIB) },
        GpuUsage { pid: 11, used_bytes: None },
    ];
    let graphics = vec![
        GpuUsage { pid: 12, used_bytes: Some(64 * MIB) },
        GpuUsage { pid: 10, used_bytes: Some(1) },
    ];
    let merged = merge_gpu_processes(&compute, &graphics);
    assert_eq!(merged.len(), 3);
    assert_eq!((merged[0].pid, merged[0].kind, merged[0].vram_mib), (10, ProcKind::Both, 512));
    assert_eq!((merged[1].pid, merged[1].kind, merged[1].vram_mib), (11, ProcKind::Compute, 0));
    assert_eq!((merged[2].pid, merged[2].kind, merged[2].vram_mib), (12, ProcKind::Graphics, 64));
    assert_eq!(proc_kind_label(merged[0].kind), "C+G");
    assert_eq!(proc_kind_label(ProcKind::Graphics), "G");
}
