use sysmon::dio::{nvme_base_name, parse_transport, should_track, SortColumn};

#[test]
fn test_filters_loop_devices() {
    assert!(!should_track("loop0", 100, 50, false));
    assert!(!should_track("loop15", 100, 50, false));
}

#[test]
fn test_filters_ram_devices() {
    assert!(!should_track("ram0", 100, 50, false));
}

#[test]
fn test_filters_zero_io() {
    assert!(!should_track("sda", 0, 0, false));
}

#[test]
fn test_keeps_real_devices() {
    assert!(should_track("sda", 100, 50, false));
    assert!(should_track("nvme0n1", 100, 50, false));
    assert!(should_track("dm-0", 100, 50, false));
}

#[test]
fn test_show_all_includes_loops_with_io() {
    assert!(should_track("loop0", 100, 50, true));
    assert!(!should_track("loop0", 0, 0, true));
}

#[test]
fn test_parse_transport_nvme_pcie() {
    assert_eq!(parse_transport("nvme0n1", "pcie", ""), "NVMe PCIe");
}

#[test]
fn test_parse_transport_nvme_tcp() {
    assert_eq!(parse_transport("nvme1n1", "tcp", ""), "NVMe/TCP");
}

#[test]
fn test_parse_transport_nvme_rdma() {
    assert_eq!(parse_transport("nvme0n1", "rdma", ""), "NVMe/RDMA");
}

#[test]
fn test_parse_transport_nvme_unknown() {
    assert_eq!(parse_transport("nvme0n1", "fc", ""), "NVMe/fc");
}

#[test]
fn test_parse_transport_nvme_empty() {
    assert_eq!(parse_transport("nvme0n1", "", ""), "NVMe");
}

#[test]
fn test_parse_transport_sata_ssd() {
    assert_eq!(parse_transport("sda", "", "0"), "SATA SSD");
}

#[test]
fn test_parse_transport_sata_hdd() {
    assert_eq!(parse_transport("sdb", "", "1"), "SATA HDD");
}

#[test]
fn test_parse_transport_unknown_device() {
    assert_eq!(parse_transport("vda", "", ""), "block");
}

#[test]
fn test_nvme_base_name_partition() {
    // Partitions like nvme0n1p1 aren't passed to this function —
    // dio filters to whole-disk devices. But if they were, the
    // trim only handles the namespace suffix (n1), not partitions.
    assert_eq!(nvme_base_name("nvme0n1p1"), "nvme0n1p");
}

#[test]
fn test_nvme_base_name_namespace() {
    assert_eq!(nvme_base_name("nvme0n1"), "nvme0");
}

#[test]
fn test_nvme_base_name_bare() {
    assert_eq!(nvme_base_name("nvme0"), "nvme0");
}

