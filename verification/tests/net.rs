use sysmon::net::{
    advance_trail, ip_from_brief, is_listed_interface, parse_link_speed, parse_net_dev, rand_katakana, xorshift,
    TrailCell, KATAKANA_COUNT, KATAKANA_START,
};

const PROC_NET_DEV: &str = "\
Inter-|   Receive                                                |  Transmit
 face |bytes    packets errs drop fifo frame compressed multicast|bytes    packets errs drop fifo colls carrier compressed
lo: 6820891   49907    0    0    0     0          0         0  6820891   49907    0    0    0     0       0          0
enp5s0: 1433819608 1429417    0    0    0     0          0      9146 743965975  767927    0    0    0     0       0          0
wlp4s0: 981325664 7940576    0    0    0     0          0         0 137260438  147874    0    0    0     0       0          0";

#[test]
fn test_parse_net_dev_known_interface() {
    let snap = parse_net_dev(PROC_NET_DEV, "enp5s0").unwrap();
    assert_eq!(snap.rx_bytes, 1433819608);
    assert_eq!(snap.tx_bytes, 743965975);
    assert_eq!(snap.rx_packets, 1429417);
    assert_eq!(snap.tx_packets, 767927);
}

#[test]
fn test_parse_net_dev_missing_interface() {
    let result = parse_net_dev(PROC_NET_DEV, "eth99");
    assert!(result.is_err());
}

#[test]
fn test_rand_katakana_produces_valid_chars() {
    let mut rng = 0xDEADBEEF_u64;
    for _ in 0..100 {
        let ch = rand_katakana(&mut rng);
        let code = ch as u32;
        assert!(code >= KATAKANA_START && code < KATAKANA_START + KATAKANA_COUNT);
    }
}


#[test]
fn loopback_and_virtual_interfaces_are_not_listed() {
    assert!(!is_listed_interface("lo"));
    assert!(!is_listed_interface("veth1234"));
    assert!(!is_listed_interface("br-5f2a"));
    assert!(!is_listed_interface("docker0"));
    assert!(is_listed_interface("eth0"));
    assert!(is_listed_interface("lo0"));
    assert!(is_listed_interface("wlp3s0"));
}

#[test]
fn link_speed_is_a_positive_number() {
    assert_eq!(parse_link_speed("1000\n"), Some(1000));
    assert_eq!(parse_link_speed("+100"), Some(100));
    assert_eq!(parse_link_speed("-1"), None);
    assert_eq!(parse_link_speed("0"), None);
    assert_eq!(parse_link_speed("fast"), None);
    assert_eq!(parse_link_speed("9223372036854775808"), None);
}

#[test]
fn brief_output_gives_the_address_without_prefix() {
    assert_eq!(ip_from_brief("wlp3s0           UP             192.168.1.23/24 \n"), "192.168.1.23");
    assert_eq!(ip_from_brief("eth0 DOWN\n"), "");
    assert_eq!(ip_from_brief(""), "");
    assert_eq!(ip_from_brief("tun0 UNKNOWN 10.8.0.2 peer"), "10.8.0.2");
}

fn cell(row: u16, age: u8) -> TrailCell {
    TrailCell { row, ch: 'x', age }
}

#[test]
fn trail_step_adds_an_aged_head_cell() {
    let mut trail = Vec::new();
    let mut rng: u64 = 0x1234_5678_9abc_def0;
    let mut expected_rng = rng;
    let expected_ch = rand_katakana(&mut expected_rng);
    let mut counter: u8 = 0;
    let alive = advance_trail(&mut trail, Some(3), &mut rng, &mut counter, 6);
    assert!(alive);
    assert_eq!(trail, vec![TrailCell { row: 3, ch: expected_ch, age: 1 }]);
    assert_eq!(rng, expected_rng);
    assert_eq!(counter, 1);
}

#[test]
fn trail_step_drops_faded_cells_and_keeps_the_newest() {
    let mut trail = vec![cell(0, 7), cell(1, 2), cell(2, 1), cell(3, 0), cell(4, 0)];
    let mut rng: u64 = 99;
    let mut counter: u8 = 3;
    let alive = advance_trail(&mut trail, None, &mut rng, &mut counter, 3);
    assert!(alive);
    assert_eq!(trail, vec![cell(2, 2), cell(3, 1), cell(4, 1)]);
    assert_eq!(rng, 99);
    assert_eq!(counter, 4);
}

#[test]
fn trail_step_ends_a_stream_whose_cells_all_faded() {
    let mut trail = vec![cell(0, 7), cell(1, 9)];
    let mut rng: u64 = 7;
    let mut counter: u8 = 255;
    let alive = advance_trail(&mut trail, None, &mut rng, &mut counter, 8);
    assert!(!alive);
    assert!(trail.is_empty());
    // The counter wraps to 0, a multiple of three: a character was re-drawn
    // before the faded cells went, which advanced the generator.
    assert_eq!(counter, 0);
    let mut expected: u64 = 7;
    xorshift(&mut expected);
    assert_eq!(rng, expected);
}

#[test]
fn trail_step_redraws_a_character_every_third_step() {
    let mut trail = vec![cell(0, 0), cell(1, 0), cell(2, 0)];
    let start: u64 = 0xdead_beef;
    let mut rng = start;
    let mut counter: u8 = 2;
    advance_trail(&mut trail, None, &mut rng, &mut counter, 8);
    let idx = (start as usize) % 3;
    let mut expected_rng = start;
    let ch = rand_katakana(&mut expected_rng);
    assert_eq!(rng, expected_rng);
    assert_eq!(counter, 3);
    for (k, c) in trail.iter().enumerate() {
        assert_eq!(c.age, 1);
        assert_eq!(c.row, k as u16);
        assert_eq!(c.ch, if k == idx { ch } else { 'x' });
    }
    let mut check = start;
    xorshift(&mut check);
    assert_eq!(rng, check);
}
