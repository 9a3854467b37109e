use sysmon::cpu::{parse_cpuinfo, parse_stat, CpuTimes};

const PROC_STAT: &str = "\
cpu  1649804 24286 887701 57600351 64543 0 41092 0 193462 0
cpu0 206875 1586 106795 3390400 8328 0 34470 0 24031 0
cpu1 90949 1269 47855 3620025 4285 0 1184 0 15328 0
cpu2 55168 832 35525 3677405 1434 0 350 0 3243 0
cpu3 215758 1620 118741 3410734 16194 0 135 0 26984 0
intr 123456789";

#[test]
fn test_parse_stat() {
    let snap = parse_stat(PROC_STAT).unwrap();
    assert_eq!(snap.per_core.len(), 4);
    assert_eq!(snap.total.user, 1649804);
    assert_eq!(snap.per_core[0].user, 206875);
}

#[test]
fn test_cpu_times_total_and_busy() {
    let times = CpuTimes { user: 100, system: 50, idle: 800, iowait: 50, ..Default::default() };
    assert_eq!(times.total(), 1000);
    assert_eq!(times.busy(), 150);
}

#[test]
fn test_parse_stat_empty_input() {
    let snap = parse_stat("").unwrap();
    assert_eq!(snap.per_core.len(), 0);
    assert_eq!(snap.total.total(), 0);
}

#[test]
fn test_parse_stat_ignores_non_cpu_lines() {
    let input = "\
cpu  100 0 50 800 0 0 0 0 0 0
intr 123456789
ctxt 987654321
softirq 111111";
    let snap = parse_stat(input).unwrap();
    assert_eq!(snap.per_core.len(), 0);
    assert_eq!(snap.total.user, 100);
}

#[test]
fn test_cpu_times_all_fields_contribute() {
    let times = CpuTimes {
        user: 10,
        nice: 20,
        system: 30,
        idle: 40,
        iowait: 50,
        irq: 60,
        softirq: 70,
        steal: 80,
    };
    assert_eq!(times.total(), 360);
    assert_eq!(times.busy(), 270); // total - idle - iowait = 360 - 40 - 50
}

#[test]
fn test_parse_stat_multiple_cores() {
    let input = "\
cpu  1000 0 500 8000 0 0 0 0 0 0
cpu0 250 0 125 2000 0 0 0 0 0 0
cpu1 250 0 125 2000 0 0 0 0 0 0
cpu2 250 0 125 2000 0 0 0 0 0 0
cpu3 250 0 125 2000 0 0 0 0 0 0";
    let snap = parse_stat(input).unwrap();
    assert_eq!(snap.per_core.len(), 4);
    assert_eq!(snap.total.user, 1000);
    assert_eq!(snap.per_core[2].user, 250);
}


const PROC_CPUINFO: &str = "\
processor\t: 0
vendor_id\t: AuthenticAMD
model name\t: AMD Ryzen 7 5800X 8-Core Processor
cpu MHz\t\t: 3800.000
processor\t: 1
vendor_id\t: AuthenticAMD
model name\t: AMD Ryzen 7 5800X 8-Core Processor
cpu MHz\t\t: 3800.000
processor\t: 2
vendor_id\t: AuthenticAMD
model name\t: AMD Ryzen 7 5800X 8-Core Processor
cpu MHz\t\t: 3800.000
processor\t: 3
vendor_id\t: AuthenticAMD
model name\t: AMD Ryzen 7 5800X 8-Core Processor
cpu MHz\t\t: 3800.000";

#[test]
fn test_parse_cpuinfo_model_and_threads() {
    let info = parse_cpuinfo(PROC_CPUINFO, false, None);
    assert_eq!(info.model, "AMD Ryzen 7 5800X 8-Core Processor");
    assert_eq!(info.threads, 4);
    assert_eq!(info.cores, 4);
}

#[test]
fn test_parse_cpuinfo_with_hyperthreading() {
    let info = parse_cpuinfo(PROC_CPUINFO, true, None);
    assert_eq!(info.threads, 4);
    assert_eq!(info.cores, 2);
}

#[test]
fn test_parse_cpuinfo_empty() {
    let info = parse_cpuinfo("", false, None);
    assert_eq!(info.model, "Unknown CPU");
    assert_eq!(info.threads, 0);
    assert_eq!(info.cores, 0);
}

#[test]
fn cpuinfo_model_takes_the_first_model_line_only() {
    let info = parse_cpuinfo("model name\nmodel name\t: Second\nprocessor : 0\n", false, None);
    assert_eq!(info.model, "Unknown CPU");
    assert_eq!(info.threads, 1);
    let info = parse_cpuinfo("model name\t:  Odd : Name \n", true, None);
    assert_eq!(info.model, "Odd");
    assert_eq!(info.cores, 0);
}

#[test]
fn test_parse_cpuinfo_with_freq() {
    let info = parse_cpuinfo(PROC_CPUINFO, false, Some(4_500_000));
    assert_eq!(info.max_freq_khz, 4_500_000);
    assert_eq!(info.max_freq_mhz(), 4500);
    assert_eq!(parse_cpuinfo("", false, None).max_freq_khz, 0);
    assert_eq!(parse_cpuinfo("", false, Some(2_500_500)).max_freq_mhz(), 2500);
    assert_eq!(parse_cpuinfo("", false, Some(2_501_500)).max_freq_mhz(), 2502);
}
