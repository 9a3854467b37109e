use sysmon::theme::{
    parse_ghostty_theme, parse_hex_color, parse_responses, parse_rgb, strip_kv, IncludeWalk, KittyScan,
    Palette,
};

fn alien_blood_palette() -> Palette {
    Palette {
        bg: [0x0f, 0x16, 0x0f],
        fg: [0x63, 0x7d, 0x75],
        colors: [
            [0x11, 0x26, 0x15],
            [0x7f, 0x2b, 0x26],
            [0x2f, 0x7e, 0x25],
            [0x70, 0x7f, 0x23],
            [0x2f, 0x69, 0x7f],
            [0x47, 0x57, 0x7e],
            [0x31, 0x7f, 0x76],
            [0x64, 0x7d, 0x75],
            [0x3c, 0x47, 0x11],
            [0xdf, 0x80, 0x08],
            [0x18, 0xe0, 0x00],
            [0xbd, 0xe0, 0x00],
            [0x00, 0xa9, 0xdf],
            [0x00, 0x58, 0xdf],
            [0x00, 0xdf, 0xc3],
            [0x73, 0xf9, 0x90],
        ],
    }
}

/// Relative luminance of an sRGB triple with Rec.709 coefficients, not
/// gamma-corrected: the measure the tests compare slots by.
fn rgb_luminance(rgb: [u8; 3]) -> f64 {
    let r = rgb[0] as f64 / 255.0;
    let g = rgb[1] as f64 / 255.0;
    let b = rgb[2] as f64 / 255.0;
    0.2126 * r + 0.7152 * g + 0.0722 * b
}

#[test]
fn test_parse_rgb_4digit_hex() {
    assert_eq!(parse_rgb("rgb:1e1e/1e1e/2e2e"), Some([0x1e, 0x1e, 0x2e]));
}

#[test]
fn test_parse_rgb_2digit_hex() {
    assert_eq!(parse_rgb("rgb:1e/1e/2e"), Some([0x1e, 0x1e, 0x2e]));
}

#[test]
fn test_parse_rgb_invalid() {
    assert_eq!(parse_rgb("nope"), None);
    assert_eq!(parse_rgb("rgb:zz/00/00"), None);
    assert_eq!(parse_rgb("rgb:00/00"), None);
}

#[test]
fn test_parse_responses_bg() {
    let input = "\x1b]11;rgb:1e1e/1e1e/2e2e\x07";
    let palette = parse_responses(input);
    assert_eq!(palette.bg, [0x1e, 0x1e, 0x2e]);
}

#[test]
fn test_parse_responses_palette() {
    let input = "\x1b]4;4;rgb:8989/b4b4/fafa\x1b\\";
    let palette = parse_responses(input);
    assert_eq!(palette.colors[4], [0x89, 0xb4, 0xfa]);
}

#[test]
fn test_parse_responses_full_set() {
    let mut input = String::from("\x1b]11;rgb:1e/1e/2e\x07");
    input.push_str("\x1b]10;rgb:cd/d6/f4\x07");
    for i in 0..8u8 {
        input.push_str(&format!("\x1b]4;{i};rgb:{i:02x}/{i:02x}/{i:02x}\x07"));
    }
    let palette = parse_responses(&input);
    assert_eq!(palette.bg, [0x1e, 0x1e, 0x2e]);
    assert_eq!(palette.fg, [0xcd, 0xd6, 0xf4]);
    for i in 0..8 {
        assert_eq!(palette.colors[i], [i as u8, i as u8, i as u8]);
    }
}

#[test]
fn test_parse_responses_empty_returns_default() {
    let palette = parse_responses("");
    let default = Palette::default();
    assert_eq!(palette.bg, default.bg);
}

#[test]
fn test_parse_ghostty_alien_blood() {
    let text = r#"palette = 0=#112616
palette = 1=#7f2b27
palette = 2=#2f7e25
palette = 3=#717f24
palette = 4=#2f6a7f
palette = 5=#47587f
palette = 6=#327f77
palette = 7=#647d75
background = #0f1610
foreground = #637d75
cursor-color = #73fa91
"#;
    let palette = parse_ghostty_theme(text).expect("should parse");
    assert_eq!(palette.bg, [0x0f, 0x16, 0x10]);
    assert_eq!(palette.fg, [0x63, 0x7d, 0x75]);
    assert_eq!(palette.colors[0], [0x11, 0x26, 0x16]);
    assert_eq!(palette.colors[1], [0x7f, 0x2b, 0x27]);
    assert_eq!(palette.colors[5], [0x47, 0x58, 0x7f]);
    assert_eq!(palette.colors[7], [0x64, 0x7d, 0x75]);
}

#[test]
fn test_parse_ghostty_missing_returns_none() {
    // Only 3 slots set — below threshold
    let text = "palette = 0=#000000\npalette = 1=#111111\npalette = 2=#222222\n";
    assert!(parse_ghostty_theme(text).is_none());
}

#[test]
fn test_parse_hex_color() {
    assert_eq!(parse_hex_color("#1e1e2e"), Some([0x1e, 0x1e, 0x2e]));
    assert_eq!(parse_hex_color("1e1e2e"), Some([0x1e, 0x1e, 0x2e]));
    assert_eq!(parse_hex_color("#xyzxyz"), None);
    assert_eq!(parse_hex_color("#123"), None);
}

#[test]
fn test_strip_kv() {
    assert_eq!(strip_kv("theme = Alien Blood", "theme"), Some("Alien Blood"));
    assert_eq!(strip_kv("theme=Alien Blood", "theme"), Some("Alien Blood"));
    assert_eq!(strip_kv("theme =", "theme"), None);
    assert_eq!(strip_kv("background = #0f1610", "background"), Some("#0f1610"));
}

#[test]
fn test_is_dark_alien_blood() {
    assert!(alien_blood_palette().is_dark());
}

#[test]
fn test_is_dark_light_theme() {
    let light = Palette { bg: [240, 240, 240], ..Palette::default() };
    assert!(!light.is_dark());
}

#[test]
fn test_brights_uninitialized_default_is_false() {
    assert!(!Palette::default().brights_uninitialized());
}

#[test]
fn test_brights_uninitialized_alien_blood_is_false() {
    assert!(!alien_blood_palette().brights_uninitialized());
}

#[test]
fn test_synthesize_brights_no_op_on_alien_blood() {
    let mut p = alien_blood_palette();
    let expected = alien_blood_palette();
    p.synthesize_brights();
    assert_eq!(p.bg, expected.bg);
    assert_eq!(p.fg, expected.fg);
    assert_eq!(p.colors, expected.colors);
}

#[test]
fn test_synthesize_brights_light_theme() {
    // Light background, zeroed brights, moderate-luminance basics.
    let mut p = Palette {
        bg: [240, 240, 240],
        fg: [20, 20, 20],
        colors: [
            [200, 200, 200], // slot 0 (surface)
            [180, 100, 100], // 1
            [100, 180, 100], // 2
            [180, 180, 100], // 3
            [100, 100, 180], // 4
            [180, 100, 180], // 5
            [100, 180, 180], // 6
            [120, 120, 120], // 7
            [0, 0, 0],       // 8..15 zeroed → synthesize
            [0, 0, 0],
            [0, 0, 0],
            [0, 0, 0],
            [0, 0, 0],
            [0, 0, 0],
            [0, 0, 0],
            [0, 0, 0],
        ],
    };
    assert!(!p.is_dark(), "test fixture must have light bg");
    p.synthesize_brights();
    // On a light theme, brights should be DARKER than basics so they pop
    // against the pale background.
    for i in 1..=7 {
        let basic = rgb_luminance(p.colors[i]);
        let bright = rgb_luminance(p.colors[i + 8]);
        assert!(
            bright < basic,
            "light theme: bright slot {} ({:?}) should be darker than basic {} ({:?})",
            i + 8,
            p.colors[i + 8],
            i,
            p.colors[i],
        );
    }
    // Slot 8 follows fg, which is dark — should be darker than slot 0.
    let s0 = rgb_luminance(p.colors[0]);
    let s8 = rgb_luminance(p.colors[8]);
    assert!(s8 < s0, "slot 8 should lean toward fg (dark) on light theme");
}

#[test]
fn test_parse_ghostty_only_basics_fills_brights() {
    let text = "\
palette = 0=#112615
palette = 1=#7f2b26
palette = 2=#2f7e25
palette = 3=#707f23
palette = 4=#2f697f
palette = 5=#47577e
palette = 6=#317f76
palette = 7=#647d75
background = #0f160f
foreground = #637d75
";
    let palette = parse_ghostty_theme(text).expect("should parse");
    for i in 8..16 {
        assert_ne!(palette.colors[i], [0, 0, 0], "bright slot {i} not synthesized");
    }
    for i in 1..=7 {
        let basic = rgb_luminance(palette.colors[i]);
        let bright = rgb_luminance(palette.colors[i + 8]);
        assert!(bright > basic, "slot {}: bright not lighter than basic", i + 8);
    }
}


fn float_lerp(a: [u8; 3], b: [u8; 3], t: f64) -> [u8; 3] {
    let t = t.clamp(0.0, 1.0);
    let mix = |x: u8, y: u8| ((x as f64) * (1.0 - t) + (y as f64) * t) as u8;
    [mix(a[0], b[0]), mix(a[1], b[1]), mix(a[2], b[2])]
}

#[test]
fn is_dark_matches_float_luminance_for_every_background() {
    for r in 0..=255u8 {
        for g in 0..=255u8 {
            for b in 0..=255u8 {
                let p = Palette { bg: [r, g, b], ..Palette::default() };
                assert_eq!(p.is_dark(), rgb_luminance([r, g, b]) < 0.5, "bg {r} {g} {b}");
            }
        }
    }
}

#[test]
fn is_dark_on_the_midline_follows_the_rounded_luminance() {
    let dark = Palette { bg: [13, 163, 113], ..Palette::default() };
    let light = Palette { bg: [47, 143, 211], ..Palette::default() };
    assert!(dark.is_dark());
    assert!(!light.is_dark());
}

fn zeroed_brights(bg: [u8; 3], fg: [u8; 3], basic: [u8; 3]) -> Palette {
    let mut colors = [basic; 16];
    for i in 8..16 {
        colors[i] = [0, 0, 0];
    }
    Palette { bg, fg, colors }
}

#[test]
fn synthesized_slot_eight_matches_the_float_mix_for_every_pair() {
    for x in 0..=255u8 {
        for y in 0..=255u8 {
            let mut p = zeroed_brights([0, 0, 0], [y, 0, 255], [x, 255, 0]);
            p.synthesize_brights();
            assert_eq!(p.colors[8], float_lerp([x, 255, 0], [y, 0, 255], 0.30), "x {x} y {y}");
        }
    }
}

#[test]
fn synthesized_brights_follow_the_anchor_on_dark_and_light_backgrounds() {
    for x in 0..=255u8 {
        let basic = [x, 255 - x, x / 2];
        let mut dark = zeroed_brights([0, 0, 0], [1, 2, 3], basic);
        dark.synthesize_brights();
        let mut light = zeroed_brights([255, 255, 255], [1, 2, 3], basic);
        light.synthesize_brights();
        for i in 9..16 {
            assert_eq!(dark.colors[i], float_lerp(basic, [255, 255, 255], 0.35));
            assert_eq!(light.colors[i], float_lerp(basic, [0, 0, 0], 0.20));
        }
    }
}

#[test]
fn synthesize_brights_keeps_set_slots_and_basics() {
    let mut p = zeroed_brights([0, 0, 0], [10, 20, 30], [100, 100, 100]);
    p.colors[12] = [1, 0, 0];
    p.synthesize_brights();
    assert_eq!(p.colors[12], [1, 0, 0]);
    for i in 0..8 {
        assert_eq!(p.colors[i], [100, 100, 100]);
    }
    assert_eq!(p.colors[9], [154, 154, 154]);
    assert_eq!(p.colors[8], [73, 76, 79]);
}

#[test]
fn synthesized_slot_eight_rounds_a_whole_mean_as_binary64_does() {
    // 1 * 0.7 + 31 * 0.3 is 10 exactly, but its binary64 sum lies just below.
    let mut p = zeroed_brights([0, 0, 0], [31, 31, 31], [1, 1, 1]);
    p.synthesize_brights();
    assert_eq!(p.colors[8], [9, 9, 9]);
}

#[test]
fn parse_hex_color_accepts_plus_sign_fields_and_many_hashes() {
    assert_eq!(parse_hex_color("  ##+f0a0b\n"), Some([15, 0x0a, 0x0b]));
    assert_eq!(parse_hex_color("#1e1e2"), None);
    assert_eq!(parse_hex_color("#1e1e2e0"), None);
    assert_eq!(parse_hex_color("#1e-e2e"), None);
}

#[test]
fn parse_rgb_scales_one_and_four_digit_channels() {
    assert_eq!(parse_rgb("rgb:f/0/8"), Some([0xff, 0x00, 0x88]));
    assert_eq!(parse_rgb(" rgb:abcd/0012/ff00 "), Some([0xab, 0x00, 0xff]));
    assert_eq!(parse_rgb("rgb:abc/00/00"), None);
    assert_eq!(parse_rgb("rgb:00/00/00/00"), None);
}

#[test]
fn parse_responses_ignores_slots_beyond_eight_and_bad_replies() {
    let default = Palette::default();
    let p = parse_responses("\x1b]4;9;rgb:01/02/03\x07\x1b]4;x;rgb:01/02/03\x07\x1b]11;rgb:zz/00/00\x07");
    assert_eq!(p.colors, default.colors);
    assert_eq!(p.bg, default.bg);
}

#[test]
fn strip_kv_requires_equals_and_a_value() {
    assert_eq!(strip_kv("palette= 3=#000000 ", "palette"), Some("3=#000000"));
    assert_eq!(strip_kv("palette 3", "palette"), None);
    assert_eq!(strip_kv("background", "background"), None);
    assert_eq!(strip_kv("foo = bar", "palette"), None);
}

const ALIEN_BLOOD_KITTY_CONF: &str = "\
color0 #112615
color1 #7f2b26
color2 #2f7e25
color3 #707f23
color4 #2f697f
color5 #47577e
color6 #317f76
color7 #647d75
color8 #3c4711
color9 #df8008
color10 #18e000
color11 #bde000
color12 #00a9df
color13 #0058df
color14 #00dfc3
color15 #73f990
background #0f160f
foreground #637d75
";

#[test]
fn kitty_alien_blood_exact() {
    let mut scan = KittyScan::new();
    let includes = scan.apply_text(ALIEN_BLOOD_KITTY_CONF);
    assert!(includes.is_empty());
    let parsed = scan.finish().expect("should parse");
    let expected = alien_blood_palette();
    assert_eq!(parsed.bg, expected.bg);
    assert_eq!(parsed.fg, expected.fg);
    assert_eq!(parsed.colors, expected.colors);
}

#[test]
fn kitty_include_lines_are_returned_in_order() {
    let mut scan = KittyScan::new();
    let includes = scan.apply_text("# comment\ninclude theme.conf\n  include   ~/x/other.conf  \ncolor1 #010203\n");
    assert_eq!(includes, vec!["theme.conf".to_string(), "~/x/other.conf".to_string()]);
    assert_eq!(scan.palette.colors[1], [1, 2, 3]);
    assert_eq!(scan.slots_set, 1);
    assert!(scan.finish().is_none());
}

#[test]
fn kitty_basics_only_fills_brights() {
    let mut scan = KittyScan::new();
    scan.apply_text("\
background #0f160f
foreground #637d75
color0 #112615
color1 #7f2b26
color2 #2f7e25
color3 #707f23
color4 #2f697f
color5 #47577e
color6 #317f76
color7 #647d75
");
    let palette = scan.finish().expect("should parse");
    for i in 8..16 {
        assert_ne!(palette.colors[i], [0, 0, 0], "bright slot {i} not synthesized");
    }
    for i in 1..=7 {
        assert!(rgb_luminance(palette.colors[i + 8]) > rgb_luminance(palette.colors[i]));
    }
}

#[test]
fn synthesizing_twice_changes_nothing() {
    for (bg, basic) in [([20, 20, 30], [200, 40, 90]), ([240, 240, 235], [0, 0, 0]), ([250, 250, 250], [90, 160, 30])] {
        let mut once = zeroed_brights(bg, [210, 210, 210], basic);
        once.synthesize_brights();
        let mut twice = once.clone();
        twice.synthesize_brights();
        assert_eq!(once.colors, twice.colors);
        assert_eq!((once.bg, once.fg), (twice.bg, twice.fg));
    }
}

#[test]
fn include_walk_reads_each_file_once_and_ends_on_a_cycle() {
    let mut walk = IncludeWalk::new("/c/kitty.conf".to_string());
    assert_eq!(walk.next_file(), Some("/c/kitty.conf".to_string()));
    walk.push_includes(vec!["/c/a.conf".to_string(), "/c/b.conf".to_string()]);
    // The last include is read first.
    assert_eq!(walk.next_file(), Some("/c/b.conf".to_string()));
    walk.push_includes(vec!["/c/kitty.conf".to_string(), "/c/a.conf".to_string()]);
    assert_eq!(walk.next_file(), Some("/c/a.conf".to_string()));
    walk.push_includes(vec!["/c/b.conf".to_string()]);
    // Everything left on the stack has been read already.
    assert_eq!(walk.next_file(), None);
    assert_eq!(walk.next_file(), None);
    assert_eq!(walk.read.len(), 3);
}
