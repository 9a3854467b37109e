use std::time::Instant;
use sysmon::astro::{ApodEntry, ThemePalette, ViewMode};
use sysmon::astro::DecodedImage;
use sysmon::astro_app::{entry_from_response, needs_image, App, FetchState};

fn test_app(entries: Vec<ApodEntry>) -> App {
    let mut app = App::new(ThemePalette::default());
    app.entries = entries;
    app
}

fn test_state() -> FetchState {
    FetchState::new(3_600_000, "DEMO_KEY".to_string())
}

fn test_entries() -> Vec<ApodEntry> {
    (0..3)
        .map(|i| ApodEntry {
            title: format!("Entry {i}"),
            explanation: format!("Explanation {i}"),
            date: format!("2026-04-{:02}", 13 + i),
            copyright: None,
            media_type: "image".to_string(),
            image: None,
            ascii_art: None,
        })
        .collect()
}

#[test]
fn test_initial_state() {
    let app = test_app(Vec::new());
    assert!(!app.should_quit);
    assert!(app.entries.is_empty());
    assert_eq!(app.selected, 0);
    assert_eq!(app.scroll_offset, 0);
    assert!(app.last_error.is_none());
}

#[test]
fn test_select_next_wraps() {
    let mut app = test_app(test_entries());
    assert_eq!(app.selected, 0);
    app.select_next();
    assert_eq!(app.selected, 1);
    app.select_next();
    assert_eq!(app.selected, 2);
    app.select_next();
    assert_eq!(app.selected, 0);
}

#[test]
fn test_select_prev_wraps() {
    let mut app = test_app(test_entries());
    app.select_prev();
    assert_eq!(app.selected, 2);
}

#[test]
fn test_select_next_empty() {
    let mut app = test_app(Vec::new());
    app.select_next();
    assert_eq!(app.selected, 0);
}

#[test]
fn test_select_prev_empty() {
    let mut app = test_app(Vec::new());
    app.select_prev();
    assert_eq!(app.selected, 0);
}

#[test]
fn test_scroll_resets_on_navigate() {
    let mut app = test_app(test_entries());
    app.scroll_down();
    app.scroll_down();
    assert_eq!(app.scroll_offset, 2);
    app.select_next();
    assert_eq!(app.scroll_offset, 0);
}

#[test]
fn test_scroll_up_clamps_at_zero() {
    let mut app = test_app(test_entries());
    app.scroll_up();
    assert_eq!(app.scroll_offset, 0);
}

#[test]
fn test_tick_picks_up_entries() {
    let mut app = test_app(Vec::new());
    let mut state = test_state();
    state.entries = Some(test_entries());
    state.entries_updated = true;
    app.tick(&mut state, Instant::now());
    assert_eq!(app.entries.len(), 3);
    assert_eq!(app.selected, 2); // defaults to most recent
    assert!(app.last_update.is_some());
}

#[test]
fn test_tick_picks_up_error() {
    let mut app = test_app(Vec::new());
    let mut state = test_state();
    state.error = Some("Network error".to_string());
    app.tick(&mut state, Instant::now());
    assert_eq!(app.last_error.as_deref(), Some("Network error"));
}

#[test]
fn test_selected_entry() {
    let app = test_app(test_entries());
    let entry = app.selected_entry().unwrap();
    assert_eq!(entry.title, "Entry 0");
}

#[test]
fn tick_leaves_entries_that_are_not_flagged_new() {
    let mut app = test_app(Vec::new());
    let mut state = test_state();
    state.entries = Some(test_entries());
    app.tick(&mut state, Instant::now());
    assert!(app.entries.is_empty());
    assert!(state.entries.is_some());
    assert!(app.last_update.is_none());
}

#[test]
fn tick_clears_an_old_error_when_entries_arrive() {
    let mut app = test_app(Vec::new());
    app.last_error = Some("old".to_string());
    app.scroll_offset = 4;
    let mut state = test_state();
    state.entries = Some(test_entries());
    state.entries_updated = true;
    app.tick(&mut state, Instant::now());
    assert!(app.last_error.is_none());
    assert_eq!(app.scroll_offset, 0);
    assert!(!state.entries_updated);
    assert!(state.entries.is_none());
}

#[test]
fn toggle_view_cycles_through_all_modes() {
    let mut app = test_app(Vec::new());
    assert_eq!(app.view_mode, ViewMode::Themed);
    app.toggle_view();
    assert_eq!(app.view_mode, ViewMode::Photo);
    app.toggle_view();
    assert_eq!(app.view_mode, ViewMode::Ascii);
    app.toggle_view();
    app.toggle_view();
    assert_eq!(app.view_mode, ViewMode::Themed);
}

#[test]
fn scroll_down_stops_at_the_largest_offset() {
    let mut app = test_app(Vec::new());
    app.scroll_offset = u16::MAX;
    app.scroll_down();
    assert_eq!(app.scroll_offset, u16::MAX);
}

fn response(media_type: &str) -> sysmon::astro::ApodResponse {
    sysmon::astro::ApodResponse {
        title: "The Horsehead Nebula".to_string(),
        explanation: "A dark molecular cloud.".to_string(),
        url: "https://example.com/img1.jpg".to_string(),
        hdurl: None,
        date: "2026-04-14".to_string(),
        media_type: media_type.to_string(),
        copyright: Some("NASA/ESA".to_string()),
    }
}

#[test]
fn entry_from_response_copies_the_record_and_cache() {
    let e = sysmon::astro_app::entry_from_response(&response("image"), None, Some("art".to_string()));
    assert_eq!(e.title, "The Horsehead Nebula");
    assert_eq!(e.date, "2026-04-14");
    assert_eq!(e.copyright.as_deref(), Some("NASA/ESA"));
    assert_eq!(e.media_type, "image");
    assert!(e.image.is_none());
    assert_eq!(e.ascii_art.as_deref(), Some("art"));
}

#[test]
fn only_pictures_without_an_image_are_downloaded() {
    let img = response("image");
    let vid = response("video");
    let bare = entry_from_response(&img, None, None);
    let done = entry_from_response(&img, Some(DecodedImage { width: 1, height: 1, pixels: vec![[0, 0, 0]] }), None);
    assert!(needs_image(&img, &bare));
    assert!(!needs_image(&img, &done));
    assert!(!needs_image(&vid, &bare));
}

#[test]
fn fetch_errors_show_only_until_entries_arrive() {
    let mut state = test_state();
    state.record_fetch_error("timed out".to_string());
    assert_eq!(state.error.as_deref(), Some("Fetch: timed out"));
    state.record_fetched(test_entries());
    assert!(state.error.is_none());
    assert!(state.entries_updated);
    state.record_fetch_error("timed out".to_string());
    assert!(state.error.is_none());
    state.record_parse_error("expected value".to_string());
    assert_eq!(state.error.as_deref(), Some("Parse: expected value"));
    state.publish_entries(Vec::new());
    assert_eq!(state.error.as_deref(), Some("Parse: expected value"));
}

#[test]
fn cached_entries_are_published_only_when_present() {
    let mut state = test_state();
    state.publish_cached(Vec::new());
    assert!(state.entries.is_none());
    assert!(!state.entries_updated);
    state.publish_cached(test_entries());
    assert_eq!(state.entries.as_ref().map(|e| e.len()), Some(3));
    assert!(state.entries_updated);
}

#[test]
fn refetch_is_due_once_the_interval_has_passed() {
    assert!(!sysmon::astro_app::refetch_due(999, 1000));
    assert!(sysmon::astro_app::refetch_due(1000, 1000));
}
