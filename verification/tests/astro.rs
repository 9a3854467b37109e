use sysmon::json::{JsonField, JsonValue};
use sysmon::astro::{
    apod_reply, build_apod_url, read_apod_reply, format_date, parse_hex, resize_nearest, theme_from_configs, ApodReply, DecodedImage,
    ResizedImage, ThemePalette,
};

#[test]
fn test_build_apod_url_contains_key() {
    let url = build_apod_url("DEMO_KEY", 7);
    assert!(url.contains("api_key=DEMO_KEY"));
    assert!(url.contains("start_date="));
    assert!(url.contains("end_date="));
}

#[test]
fn test_build_apod_url_single_day() {
    let url = build_apod_url("DEMO_KEY", 1);
    // start_date and end_date should be the same
    let start = url.split("start_date=").nth(1).unwrap().split('&').next().unwrap();
    let end = url.split("end_date=").nth(1).unwrap().split('&').next().unwrap();
    assert_eq!(start, end);
}

#[test]
fn test_format_date() {
    // 2026-01-01 00:00:00 UTC = 1767225600
    assert_eq!(format_date(1767225600), "2026-01-01");
}

#[test]
fn test_format_date_epoch() {
    assert_eq!(format_date(0), "1970-01-01");
}

#[test]
fn test_decoded_image_pixel_count() {
    let img = DecodedImage {
        width: 4,
        height: 3,
        pixels: vec![[255, 0, 0]; 12],
    };
    assert_eq!(img.pixels.len(), (img.width * img.height) as usize);
}

#[test]
fn test_parse_hex_valid() {
    assert_eq!(parse_hex("#1E1E2E"), Some([30, 30, 46]));
}

#[test]
fn test_parse_hex_no_hash() {
    assert_eq!(parse_hex("89B4FA"), Some([137, 180, 250]));
}

#[test]
fn test_parse_hex_invalid() {
    assert_eq!(parse_hex("nope"), None);
    assert_eq!(parse_hex("#GG0000"), None);
    assert_eq!(parse_hex(""), None);
}

#[test]
fn test_default_is_catppuccin_mocha() {
    let p = ThemePalette::default();
    assert_eq!(p.bg, [30, 30, 46]);
    assert_eq!(p.colors[4], [137, 180, 250]); // blue
    assert_eq!(p.colors[1], [243, 139, 168]); // red
    assert_eq!(p.colors[6], [148, 226, 213]); // teal
}

#[test]
fn test_pixel_at_out_of_bounds() {
    let img = ResizedImage {
        width: 2,
        height: 2,
        pixels: vec![[255, 0, 0]; 4],
    };
    assert_eq!(img.pixel_at(99, 99), [0, 0, 0]);
}


#[test]
fn test_resize_nearest_identity() {
    let src = DecodedImage {
        width: 4,
        height: 4,
        pixels: vec![[255, 0, 0]; 16],
    };
    let result = resize_nearest(&src, 4, 4);
    assert_eq!(result.width, 4);
    assert_eq!(result.height, 4);
    assert_eq!(result.pixel_at(0, 0), [255, 0, 0]);
}

#[test]
fn test_resize_nearest_downscale() {
    let src = DecodedImage {
        width: 8,
        height: 8,
        pixels: vec![[100, 200, 50]; 64],
    };
    let result = resize_nearest(&src, 4, 4);
    assert_eq!(result.width, 4);
    assert_eq!(result.height, 4);
    assert_eq!(result.pixel_at(0, 0), [100, 200, 50]);
}

#[test]
fn test_resize_nearest_wide_image_letterboxed() {
    let src = DecodedImage {
        width: 8,
        height: 2,
        pixels: vec![[255, 255, 255]; 16],
    };
    let result = resize_nearest(&src, 8, 8);
    // Top rows should be black (letterbox)
    assert_eq!(result.pixel_at(0, 0), [0, 0, 0]);
    // Middle rows should have content
    assert_eq!(result.pixel_at(4, 4), [255, 255, 255]);
}

#[test]
fn test_resize_nearest_tall_image_pillarboxed() {
    let src = DecodedImage {
        width: 2,
        height: 8,
        pixels: vec![[128, 128, 128]; 16],
    };
    let result = resize_nearest(&src, 8, 8);
    // Left edge should be black (pillarbox)
    assert_eq!(result.pixel_at(0, 0), [0, 0, 0]);
    // Center should have content
    assert_eq!(result.pixel_at(4, 4), [128, 128, 128]);
}

#[test]
fn test_resize_nearest_empty_source() {
    let src = DecodedImage {
        width: 0,
        height: 0,
        pixels: Vec::new(),
    };
    let result = resize_nearest(&src, 4, 4);
    assert_eq!(result.pixel_at(0, 0), [0, 0, 0]);
}

#[test]
fn resize_nearest_samples_and_centres_a_gradient() {
    // A 4x2 picture whose pixels number themselves, into an 8x8 area:
    // fitted to 8x4, centred two rows down.
    let pixels: Vec<[u8; 3]> = (0..8u8).map(|i| [i, 0, 0]).collect();
    let src = DecodedImage { width: 4, height: 2, pixels };
    let r = resize_nearest(&src, 8, 8);
    assert_eq!(r.pixels.len(), 64);
    assert_eq!(r.pixel_at(0, 1), [0, 0, 0]);
    assert_eq!(r.pixel_at(0, 2), [0, 0, 0]);
    assert_eq!(r.pixel_at(1, 2), [0, 0, 0]);
    assert_eq!(r.pixel_at(2, 2), [1, 0, 0]);
    assert_eq!(r.pixel_at(7, 3), [3, 0, 0]);
    assert_eq!(r.pixel_at(7, 4), [7, 0, 0]);
    assert_eq!(r.pixel_at(7, 5), [7, 0, 0]);
    assert_eq!(r.pixel_at(7, 6), [0, 0, 0]);
}

#[test]
fn resize_nearest_leaves_missing_source_pixels_black() {
    let src = DecodedImage { width: 2, height: 2, pixels: vec![[9, 9, 9]] };
    let r = resize_nearest(&src, 2, 2);
    assert_eq!(r.pixel_at(0, 0), [9, 9, 9]);
    assert_eq!(r.pixel_at(1, 1), [0, 0, 0]);
}

#[test]
fn kitty_configs_set_the_tint_palette_first_file_first() {
    let theme = "# theme\nbackground #101010\ncolor4   #0000ff\ncolor1 nothex\n".to_string();
    let main = "background #ffffff\ncolor1 #ff0000\ncolor6\t#00ffff\nfont_size 12\n".to_string();
    let p = theme_from_configs(&vec![theme, main]);
    let d = ThemePalette::default();
    assert_eq!(p.bg, [0x10, 0x10, 0x10]);
    assert_eq!(p.colors[4], [0, 0, 0xff]);
    // The first setting of color1 is not a colour: the default stays.
    assert_eq!(p.colors[1], d.colors[1]);
    assert_eq!(p.colors[6], [0, 0xff, 0xff]);
    assert_eq!(p.colors[0], d.colors[0]);
}

#[test]
fn no_configs_give_the_default_tint_palette() {
    let p = theme_from_configs(&Vec::new());
    assert_eq!(p, ThemePalette::default());
}

fn field(key: &str, value: JsonValue) -> JsonField {
    JsonField { key: key.to_string(), value }
}

fn text(s: &str) -> JsonValue {
    JsonValue::Str(s.to_string())
}

const APOD_SINGLE: &str = r#"{
        "title": "The Horsehead Nebula",
        "explanation": "A dark molecular cloud shaped like a horse head.",
        "url": "https://apod.nasa.gov/apod/image/horsehead_small.jpg",
        "hdurl": "https://apod.nasa.gov/apod/image/horsehead.jpg",
        "date": "2026-04-15",
        "media_type": "image",
        "copyright": "NASA/ESA"
    }"#;

const APOD_ARRAY: &str = r#"[
        {
            "title": "The Horsehead Nebula",
            "explanation": "A dark molecular cloud.",
            "url": "https://example.com/img1.jpg",
            "date": "2026-04-14",
            "media_type": "image"
        },
        {
            "title": "Mars Opposition",
            "explanation": "Mars at its closest approach.",
            "url": "https://example.com/vid1.mp4",
            "date": "2026-04-15",
            "media_type": "video"
        }
    ]"#;

#[test]
fn test_parse_single_entry() {
    assert_eq!(read_apod_reply(APOD_SINGLE), ApodReply::Single);
}

#[test]
fn test_parse_array() {
    assert_eq!(read_apod_reply(APOD_ARRAY), ApodReply::List);
}

#[test]
fn test_parse_empty_array() {
    assert_eq!(read_apod_reply("[]"), ApodReply::List);
}

#[test]
fn test_parse_rate_limit_error() {
    let json = r#"{"error":{"code":"OVER_RATE_LIMIT","message":"You have exceeded your rate limit."}}"#;
    match read_apod_reply(json) {
        ApodReply::ServiceError(msg) => assert!(msg.contains("rate limit")),
        other => panic!("expected the service's error, got {:?}", other),
    }
}

#[test]
fn test_parse_malformed() {
    assert_eq!(read_apod_reply("not json"), ApodReply::NotJson);
}

#[test]
fn test_parse_missing_optional_fields() {
    let json = r#"{
            "title": "Test",
            "explanation": "Test explanation",
            "url": "https://example.com/img.jpg",
            "date": "2026-04-15",
            "media_type": "image"
        }"#;
    assert_eq!(read_apod_reply(json), ApodReply::Single);
}

#[test]
fn read_reply_errors_without_a_message_string_are_unknown() {
    assert_eq!(read_apod_reply(r#"{"error": {"code": 500}}"#), ApodReply::ServiceError("Unknown API error".to_string()));
    assert_eq!(read_apod_reply(r#" {"error": "x"}"#), ApodReply::ServiceError("Unknown API error".to_string()));
    assert_eq!(read_apod_reply("[1, 2"), ApodReply::NotJson);
    assert_eq!(read_apod_reply(r#"[{"error": "x"}]"#), ApodReply::List);
}

#[test]
fn reply_classified_from_a_given_json_value() {
    let parsed = Some(JsonValue::Object(vec![field(
        "error",
        JsonValue::Object(vec![
            field("code", text("OVER_RATE_LIMIT")),
            field("message", text("You have exceeded your rate limit.")),
        ]),
    )]));
    assert_eq!(
        apod_reply("{}", &parsed),
        ApodReply::ServiceError("You have exceeded your rate limit.".to_string())
    );
}

#[test]
fn reply_error_without_message_is_unknown() {
    let no_message = Some(JsonValue::Object(vec![field(
        "error",
        JsonValue::Object(vec![field("code", JsonValue::Number("500".to_string()))]),
    )]));
    assert_eq!(
        apod_reply(r#"{"error": {"code": 500}}"#, &no_message),
        ApodReply::ServiceError("Unknown API error".to_string())
    );
    let plain = Some(JsonValue::Object(vec![field("error", text("x"))]));
    assert_eq!(apod_reply(r#"{"error": "x"}"#, &plain), ApodReply::ServiceError("Unknown API error".to_string()));
    let number_message = Some(JsonValue::Object(vec![field(
        "error",
        JsonValue::Object(vec![field("message", JsonValue::Number("7".to_string()))]),
    )]));
    assert_eq!(
        apod_reply(r#"{"error": {"message": 7}}"#, &number_message),
        ApodReply::ServiceError("Unknown API error".to_string())
    );
}

#[test]
fn reply_list_or_single_record() {
    assert_eq!(apod_reply("[]", &Some(JsonValue::Array(Vec::new()))), ApodReply::List);
    let list = Some(JsonValue::Array(vec![JsonValue::Object(vec![field("title", text("a"))])]));
    assert_eq!(apod_reply("  \n [{\"title\": \"a\"}]", &list), ApodReply::List);
    let single = Some(JsonValue::Object(vec![field("title", text("a")), field("date", text("2026-04-15"))]));
    assert_eq!(apod_reply(r#"{"title": "a", "date": "2026-04-15"}"#, &single), ApodReply::Single);
    assert_eq!(apod_reply("not json", &None), ApodReply::NotJson);
    assert_eq!(apod_reply("[not json", &None), ApodReply::NotJson);
}

#[test]
fn reply_error_field_is_looked_up_among_other_fields() {
    let parsed = Some(JsonValue::Object(vec![
        field("title", text("a")),
        field("error", JsonValue::Object(vec![field("message", text("bad key"))])),
    ]));
    assert_eq!(apod_reply("{}", &parsed), ApodReply::ServiceError("bad key".to_string()));
    let array = Some(JsonValue::Array(vec![JsonValue::Object(vec![field("error", text("x"))])]));
    assert_eq!(apod_reply("[{}]", &array), ApodReply::List);
}

/// Nearest-neighbour fitting done with `f64` aspect ratios and sample
/// positions, the reference the library's binary64 model is held to.
fn float_resize(src: &DecodedImage, tw: u32, th: u32) -> Vec<[u8; 3]> {
    let mut out = vec![[0u8; 3]; (tw * th) as usize];
    if src.width == 0 || src.height == 0 || tw == 0 || th == 0 {
        return out;
    }
    let sa = src.width as f64 / src.height as f64;
    let ta = tw as f64 / th as f64;
    let (fw, fh) = if sa > ta {
        (tw, ((tw as f64 / sa) as u32).max(1))
    } else {
        (((th as f64 * sa) as u32).max(1), th)
    };
    let (ox, oy) = ((tw - fw) / 2, (th - fh) / 2);
    for y in 0..fh {
        let sy = (((y as f64 / fh as f64) * src.height as f64) as u32).min(src.height - 1);
        for x in 0..fw {
            let sx = (((x as f64 / fw as f64) * src.width as f64) as u32).min(src.width - 1);
            if let Some(p) = src.pixels.get((sy * src.width + sx) as usize) {
                out[((y + oy) * tw + x + ox) as usize] = *p;
            }
        }
    }
    out
}

fn numbered(w: u32, h: u32) -> DecodedImage {
    let pixels = (0..w * h).map(|i| [(i % 251) as u8, (i / 251 % 251) as u8, 7]).collect();
    DecodedImage { width: w, height: h, pixels }
}

#[test]
fn resize_nearest_fits_as_float_ratios_do() {
    // 5 / (5 / 29) is just below 29 in binary64, so the picture is 28 rows
    // high, centred one row down.
    let src = numbered(5, 29);
    let r = resize_nearest(&src, 5, 30);
    assert_eq!(r.pixel_at(0, 0), [0, 0, 0]);
    assert_eq!(r.pixel_at(0, 29), [0, 0, 0]);
    assert_eq!(r.pixel_at(0, 1), [0, 0, 7]);
    assert_eq!(r.pixels, float_resize(&src, 5, 30));
}

#[test]
fn resize_nearest_matches_float_fitting_on_many_sizes() {
    for sw in 1..=13u32 {
        for sh in 1..=13u32 {
            let src = numbered(sw, sh);
            for tw in 1..=11u32 {
                for th in 1..=11u32 {
                    let r = resize_nearest(&src, tw, th);
                    assert_eq!(r.pixels, float_resize(&src, tw, th), "{sw}x{sh} into {tw}x{th}");
                }
            }
        }
    }
    for (sw, sh, tw, th) in [(640, 480, 80, 24), (1920, 1080, 200, 60), (3, 1000, 7, 300), (997, 3, 101, 5)] {
        let src = numbered(sw, sh);
        let r = resize_nearest(&src, tw, th);
        assert_eq!(r.pixels, float_resize(&src, tw, th), "{sw}x{sh} into {tw}x{th}");
    }
}
