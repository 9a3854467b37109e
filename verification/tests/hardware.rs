use sysmon::error::CollectError;
use sysmon::hardware::{dimm_cache, hardware_summary, parse_dimm_cache, parse_dmidecode, DimmInfo, HardwareInfo};

const DMIDECODE: &str = "\
# dmidecode 3.5
Getting SMBIOS data from sysfs.

Handle 0x0040, DMI type 17, 92 bytes
Memory Device
\tArray Handle: 0x003F
\tSize: 16 GB
\tForm Factor: DIMM
\tType: DDR5
\tSpeed: 4800 MT/s
\tManufacturer: Kingston
\tConfigured Memory Speed: 5600 MT/s

Handle 0x0041, DMI type 17, 92 bytes
Memory Device
\tSize: No Module Installed
\tType: Unknown

Handle 0x0042, DMI type 17, 92 bytes
Memory Device
\tSize: 16 GB
\tType: DDR5
\tManufacturer: Kingston
\tConfigured Memory Speed: 5600 MT/s

";

fn dimm(size: &str, t: &str, speed: &str, maker: &str) -> DimmInfo {
    DimmInfo {
        size: size.to_string(),
        memory_type: t.to_string(),
        speed: speed.to_string(),
        manufacturer: maker.to_string(),
    }
}

#[test]
fn dmidecode_lists_installed_modules_only() {
    let dimms = parse_dmidecode(DMIDECODE);
    assert_eq!(dimms.len(), 2);
    assert_eq!(dimms[0].size, "16 GB");
    assert_eq!(dimms[0].memory_type, "DDR5");
    assert_eq!(dimms[0].speed, "5600");
    assert_eq!(dimms[0].manufacturer, "Kingston");
}

#[test]
fn dmidecode_section_without_a_closing_blank_line_is_dropped() {
    let text = "Memory Device\n\tSize: 8 GB\n\tType: DDR4";
    assert!(parse_dmidecode(text).is_empty());
    assert!(parse_dmidecode("").is_empty());
    let closed = "Memory Device\n\tSize: 8 GB\n\n";
    assert_eq!(parse_dmidecode(closed).len(), 1);
}

#[test]
fn dimm_cache_writes_tab_separated_lines_and_reads_them_back() {
    let dimms = vec![dimm("16 GB", "DDR5", "5600", "Kingston"), dimm("8 GB", "DDR4", "3200", "")];
    let text = dimm_cache(&dimms).unwrap();
    assert_eq!(text, "16 GB\tDDR5\t5600\tKingston\n8 GB\tDDR4\t3200\t");
    let back = parse_dimm_cache(&text).unwrap();
    assert_eq!(back.len(), 2);
    assert_eq!(back[1].size, "8 GB");
    assert_eq!(back[1].manufacturer, "");
}

#[test]
fn dimm_cache_refuses_an_empty_module_list() {
    assert_eq!(dimm_cache(&Vec::new()), Err(CollectError::NoDimmData));
}

#[test]
fn dimm_cache_skips_short_and_blank_lines() {
    assert!(parse_dimm_cache("").is_none());
    assert!(parse_dimm_cache("16 GB\tDDR5\t5600\n\n").is_none());
    let v = parse_dimm_cache("\n16 GB\tDDR5\t5600\tA\textra\n").unwrap();
    assert_eq!(v.len(), 1);
    assert_eq!(v[0].manufacturer, "A");
}

#[test]
fn summary_names_the_modules() {
    let dimms = vec![dimm("16 GB", "DDR5", "5600", "Kingston"), dimm("16 GB", "DDR5", "5600", "Kingston")];
    let s = hardware_summary(32 * 1024 * 1024, &dimms, "", "");
    assert_eq!(s, "32 GiB | 2x 16 GB DDR5 Kingston @ 5600 MT/s");
}

#[test]
fn summary_falls_back_to_the_board() {
    let s = hardware_summary(16_000_000, &Vec::new(), " ASUSTeK\n", " PRIME X670E\n");
    assert_eq!(s, "15 GiB | ASUSTeK PRIME X670E | (run: sudo ram --refresh-hardware)");
    let s = hardware_summary(0, &Vec::new(), "Vendor", "  ");
    assert_eq!(s, "0 GiB | Unknown board | (run: sudo ram --refresh-hardware)");
}

#[test]
fn summary_rounds_the_size_like_float_formatting() {
    for kb in [0u64, 524_288, 1_572_864, 2_621_440, 1_048_575, 16_384_000, 67_000_000] {
        let gib = kb as f64 / (1024.0 * 1024.0);
        let expected = format!("{:.0} GiB | Unknown board | (run: sudo ram --refresh-hardware)", gib);
        assert_eq!(hardware_summary(kb, &Vec::new(), "", ""), expected, "kb {kb}");
    }
}

#[test]
fn hardware_info_carries_the_summary() {
    let dimms = vec![dimm("32 GB", "DDR4", "3200", "Samsung")];
    let info = HardwareInfo::from_readings(64 * 1024 * 1024, &dimms, "ASUS", "X570");
    assert_eq!(info.summary, "64 GiB | 1x 32 GB DDR4 Samsung @ 3200 MT/s");
}
