use std::time::Instant;
use sysmon::poly::{SortOrder, Topic};
use sysmon::poly_app::{App, FetchState, Fetcher, FAST_REFRESH_MS};

// The viewer keeps events and history points of the caller's types; these
// stand for them here.
#[derive(Debug, Clone, PartialEq)]
struct SubMarket {
    question: String,
    yes_price: f64,
    volume_24h: f64,
    yes_token_id: String,
}

#[derive(Debug, Clone, PartialEq)]
struct Event {
    title: String,
    markets: Vec<SubMarket>,
    total_volume_24h: f64,
}

type Point = (f64, f64);

fn market(question: &str, yes_price: f64, volume_24h: f64, token: &str) -> SubMarket {
    SubMarket {
        question: question.to_string(),
        yes_price,
        volume_24h,
        yes_token_id: token.to_string(),
    }
}

fn test_events() -> Vec<Event> {
    vec![
        Event {
            title: "US Election".to_string(),
            markets: vec![
                market("Will candidate A win?", 65.0, 1_500_000.0, "tok_1"),
                market("Will candidate B win?", 30.0, 800_000.0, "tok_2"),
            ],
            total_volume_24h: 2_300_000.0,
        },
        Event {
            title: "Crypto Prices".to_string(),
            markets: vec![market("BTC above 100K?", 42.0, 250_000.0, "tok_3")],
            total_volume_24h: 250_000.0,
        },
        Event {
            title: "World Cup".to_string(),
            markets: vec![market("Will Spain win?", 17.0, 500_000.0, "tok_4")],
            total_volume_24h: 500_000.0,
        },
    ]
}

fn test_app(events: Vec<Event>) -> (App<Event, Point>, FetchState<Event, Point>) {
    let mut app = App::new(30000);
    app.events = events;
    (app, FetchState::new(30000))
}

#[test]
fn app_test_initial_state() {
    let (app, _) = test_app(Vec::new());
    assert!(!app.fast_mode);
    assert!(!app.should_quit);
    assert!(app.events.is_empty());
    assert_eq!(app.selected, 0);
    assert!(app.price_history.is_empty());
    assert!(app.last_error.is_none());
}

#[test]
fn app_test_select_next_wraps() {
    let (mut app, _) = test_app(test_events());
    assert_eq!(app.selected, 0);
    app.select_next();
    assert_eq!(app.selected, 1);
    app.select_next();
    assert_eq!(app.selected, 2);
    app.select_next();
    assert_eq!(app.selected, 0);
}

#[test]
fn app_test_select_prev_wraps() {
    let (mut app, _) = test_app(test_events());
    app.select_prev();
    assert_eq!(app.selected, 2);
    app.select_prev();
    assert_eq!(app.selected, 1);
}

#[test]
fn app_test_select_next_empty() {
    let (mut app, _) = test_app(Vec::new());
    assert!(!app.select_next());
    assert_eq!(app.selected, 0);
}

#[test]
fn app_test_select_prev_empty() {
    let (mut app, _) = test_app(Vec::new());
    assert!(!app.select_prev());
    assert_eq!(app.selected, 0);
}

#[test]
fn app_test_toggle_fast_mode() {
    let (mut app, mut state) = test_app(Vec::new());
    app.toggle_fast_mode(&mut state);
    assert!(app.fast_mode);
    assert_eq!(app.refresh_ms, FAST_REFRESH_MS);
    assert_eq!(state.refresh_ms, FAST_REFRESH_MS);
}

#[test]
fn poly_toggle_fast_mode_twice_restores() {
    let (mut app, mut state) = test_app(Vec::new());
    app.toggle_fast_mode(&mut state);
    app.toggle_fast_mode(&mut state);
    assert!(!app.fast_mode);
    assert_eq!(app.refresh_ms, 30000);
}

#[test]
fn test_select_clears_price_history() {
    let (mut app, mut state) = test_app(test_events());
    app.price_history = vec![(0.0, 50.0), (1.0, 55.0)];
    assert!(app.select_next());
    app.request_history_for_selected(&mut state, Some("tok_3".to_string()));
    assert!(app.price_history.is_empty());
    assert_eq!(state.requested_token_id.as_deref(), Some("tok_3"));
}

#[test]
fn test_tick_picks_up_events() {
    let (mut app, mut state) = test_app(Vec::new());
    state.events = Some(test_events());
    state.events_updated = true;
    app.tick(&mut state, Instant::now());
    assert_eq!(app.events.len(), 3);
    assert!(app.last_update.is_some());
}

#[test]
fn app_test_tick_picks_up_error() {
    let (mut app, mut state) = test_app(Vec::new());
    state.error = Some("network timeout".to_string());
    app.tick(&mut state, Instant::now());
    assert_eq!(app.last_error.as_deref(), Some("network timeout"));
}

#[test]
fn test_tick_picks_up_history() {
    let (mut app, mut state) = test_app(test_events());
    state.price_history = Some(vec![(0.0, 50.0), (1.0, 55.0), (2.0, 60.0)]);
    state.history_updated = true;
    app.tick(&mut state, Instant::now());
    assert_eq!(app.price_history.len(), 3);
}

#[test]
fn test_cycle_topic() {
    let (mut app, mut state) = test_app(test_events());
    assert_eq!(app.topic, Topic::All);
    app.cycle_topic(&mut state);
    assert_eq!(app.topic, Topic::Politics);
    assert!(app.events.is_empty());
    assert_eq!(app.selected, 0);
}

#[test]
fn test_cycle_topic_prev() {
    let (mut app, mut state) = test_app(Vec::new());
    app.cycle_topic_prev(&mut state);
    assert_eq!(app.topic, *Topic::ALL.last().unwrap());
}

#[test]
fn test_cycle_sort() {
    let (mut app, mut state) = test_app(test_events());
    assert_eq!(app.sort_order, SortOrder::Volume24h);
    app.cycle_sort(&mut state);
    assert_eq!(app.sort_order, SortOrder::Volume);
    assert!(app.events.is_empty());
}

#[test]
fn test_cycle_topic_sets_filter_changed() {
    let (mut app, mut state) = test_app(Vec::new());
    app.cycle_topic(&mut state);
    assert_eq!(state.topic, Topic::Politics);
    assert!(state.filter_changed);
}

#[test]
fn test_cycle_sort_sets_filter_changed() {
    let (mut app, mut state) = test_app(Vec::new());
    app.cycle_sort(&mut state);
    assert_eq!(state.sort_order, SortOrder::Volume);
    assert!(state.filter_changed);
}

#[test]
fn test_tick_clamps_selected_on_shrink() {
    let (mut app, mut state) = test_app(test_events());
    app.selected = 2;
    state.events = Some(vec![test_events()[0].clone()]);
    state.events_updated = true;
    app.tick(&mut state, Instant::now());
    assert_eq!(app.selected, 0);
}

#[test]
fn follow_lead_requests_the_lead_markets_history() {
    let (app, mut state) = test_app(test_events());
    app.follow_lead(&mut state, Some("tok_1".to_string()));
    assert_eq!(state.requested_token_id.as_deref(), Some("tok_1"));
    app.follow_lead(&mut state, None);
    assert_eq!(state.requested_token_id.as_deref(), Some("tok_1"));
}

#[test]
fn fetch_state_starts_on_the_situation_monitor() {
    let state: FetchState<Event, Point> = FetchState::new(1000);
    assert_eq!(state.topic, Topic::Geopolitics);
    assert_eq!(state.sort_order, SortOrder::MonitoringTheSituation);
    assert!(!state.filter_changed);
    assert_eq!(state.refresh_ms, 1000);
}

#[test]
fn selected_event_follows_the_selection() {
    let (mut app, _) = test_app(test_events());
    assert_eq!(app.selected_event().unwrap().title, "US Election");
    app.select_prev();
    assert_eq!(app.selected_event().unwrap().markets[0].yes_token_id, "tok_4");
    app.selected = 7;
    assert!(app.selected_event().is_none());
}

#[test]
fn fetcher_fetches_events_on_filter_change_or_when_due() {
    let mut fetcher = Fetcher::new();
    let mut state: FetchState<Event, Point> = FetchState::new(30000);
    let plan = fetcher.plan(&mut state, 100);
    assert!(!plan.stop);
    assert!(!plan.fetch_events);
    assert!(plan.fetch_history.is_none());
    state.filter_changed = true;
    let plan = fetcher.plan(&mut state, 100);
    assert!(plan.fetch_events);
    assert!(!state.filter_changed);
    assert_eq!(plan.topic, Topic::Geopolitics);
    let plan = fetcher.plan(&mut state, 30000);
    assert!(plan.fetch_events);
}

#[test]
fn fetcher_fetches_history_once_per_requested_market() {
    let mut fetcher = Fetcher::new();
    let mut state: FetchState<Event, Point> = FetchState::new(30000);
    state.requested_token_id = Some("tok_1".to_string());
    let plan = fetcher.plan(&mut state, 0);
    assert_eq!(plan.fetch_history.as_deref(), Some("tok_1"));
    let plan = fetcher.plan(&mut state, 0);
    assert!(plan.fetch_history.is_none());
    state.requested_token_id = Some("tok_2".to_string());
    state.should_stop = true;
    let plan = fetcher.plan(&mut state, 0);
    assert!(plan.stop);
    assert!(plan.fetch_history.is_none());
    assert_eq!(fetcher.last_token_id.as_deref(), Some("tok_1"));
}

#[test]
fn fetch_results_reach_the_viewer() {
    let mut state: FetchState<Event, Point> = FetchState::new(30000);
    state.record_events(Err("timeout".to_string()));
    assert_eq!(state.error.as_deref(), Some("Events: timeout"));
    state.record_events(Ok(test_events()));
    assert!(state.error.is_none());
    assert!(state.events_updated);
    state.record_history(Err("404".to_string()));
    assert_eq!(state.error.as_deref(), Some("History: 404"));
    state.record_history(Ok(vec![(0.0, 1.0)]));
    assert!(state.history_updated);
    assert_eq!(state.price_history.as_ref().map(|h| h.len()), Some(1));
}
